//! Congruences: the arithmetic of exponents modulo the group order.

use vstd::arithmetic::div_mod::{
    lemma_add_mod_noop, lemma_fundamental_div_mod, lemma_mod_twice, lemma_mul_mod_noop_general,
    lemma_small_mod, lemma_sub_mod_noop,
};
use vstd::prelude::*;

verus! {

/// The two integers leave the same remainder modulo `m`.
pub open spec fn congruent(a: int, b: int, m: int) -> bool {
    a % m == b % m
}

/// A remainder is congruent to what it is the remainder of.
pub proof fn lemma_congruent_mod(a: int, m: int)
    requires
        m > 0,
    ensures
        congruent(a % m, a, m),
        0 <= a % m < m,
{
    lemma_mod_twice(a, m);
}

/// Sums of congruent integers are congruent.
pub proof fn lemma_congruent_add(a: int, a2: int, b: int, b2: int, m: int)
    requires
        m > 0,
        congruent(a, a2, m),
        congruent(b, b2, m),
    ensures
        congruent(a + b, a2 + b2, m),
{
    lemma_add_mod_noop(a, b, m);
    lemma_add_mod_noop(a2, b2, m);
}

/// Differences of congruent integers are congruent.
pub proof fn lemma_congruent_sub(a: int, a2: int, b: int, b2: int, m: int)
    requires
        m > 0,
        congruent(a, a2, m),
        congruent(b, b2, m),
    ensures
        congruent(a - b, a2 - b2, m),
{
    lemma_sub_mod_noop(a, b, m);
    lemma_sub_mod_noop(a2, b2, m);
}

/// Products of congruent integers are congruent.
pub proof fn lemma_congruent_mul(a: int, a2: int, b: int, b2: int, m: int)
    requires
        m > 0,
        congruent(a, a2, m),
        congruent(b, b2, m),
    ensures
        congruent(a * b, a2 * b2, m),
{
    lemma_mul_mod_noop_general(a, b, m);
    lemma_mul_mod_noop_general(a2, b2, m);
}

/// Congruent integers that both lie in `[0, m)` are equal.
pub proof fn lemma_congruent_small(a: int, b: int, m: int)
    requires
        0 <= a < m,
        0 <= b < m,
        congruent(a, b, m),
    ensures
        a == b,
{
    lemma_small_mod(a as nat, m as nat);
    lemma_small_mod(b as nat, m as nat);
}

/// Multiplying by the inverse of two halves: where `2 * h` is congruent to
/// one and `a` to `t * h`, the double of `a` is congruent to `t`.
pub proof fn lemma_congruent_half(t: int, h: int, a: int, m: int)
    requires
        m > 0,
        congruent(2 * h, 1, m),
        congruent(a, t * h, m),
    ensures
        congruent(2 * a, t, m),
{
    lemma_congruent_mul(2, 2, a, t * h, m);
    assert(2 * (t * h) == t * (2 * h)) by (nonlinear_arith);
    lemma_congruent_mul(t, t, 2 * h, 1, m);
}

/// Modulo an odd number, halves are unique: two integers of `[0, m)` whose
/// doubles are congruent are equal.
pub proof fn lemma_double_injective(a: int, b: int, m: int)
    requires
        m > 0,
        m % 2 == 1,
        0 <= a < m,
        0 <= b < m,
        congruent(2 * a, 2 * b, m),
    ensures
        a == b,
{
    lemma_fundamental_div_mod(2 * a, m);
    lemma_fundamental_div_mod(2 * b, m);
    let qa = (2 * a) / m;
    let qb = (2 * b) / m;
    assert(2 * a - 2 * b == m * qa - m * qb);
    assert(m * qa - m * qb == m * (qa - qb)) by (nonlinear_arith);
    assert(-m < a - b < m);
    let d = qa - qb;
    assert(2 * (a - b) == m * d);
    assert(d == 0) by (nonlinear_arith)
        requires
            2 * (a - b) == m * d,
            -m < a - b < m,
            m > 0,
            m % 2 == 1,
    {
        if d >= 2 {
            assert(m * d >= m * 2);
        } else if d <= -2 {
            assert(m * d <= m * (-2));
        } else if d == 1 {
            assert(m * d == m);
        } else if d == -1 {
            assert(m * d == -m);
        }
    }
    assert(m * d == 0) by (nonlinear_arith)
        requires
            d == 0,
    ;
}

} // verus!
