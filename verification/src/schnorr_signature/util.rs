//! The byte encoding of group elements that enters the hash.

use crate::field::{le_bytes_value, limbs_value, Scalar};
use crate::group::Point;
use crate::hash::{hash_to_scalar, Hash256};
use vstd::arithmetic::power::{lemma_pow_adds, pow};
use vstd::prelude::*;

verus! {

/// The eight bytes of a word, least significant first.
#[verifier::opaque]
pub open spec fn u64_le_bytes(w: u64) -> Seq<u8> {
    seq![
        (w % 0x100) as u8,
        ((w / 0x100) % 0x100) as u8,
        ((w / 0x1_0000) % 0x100) as u8,
        ((w / 0x100_0000) % 0x100) as u8,
        ((w / 0x1_0000_0000) % 0x100) as u8,
        ((w / 0x100_0000_0000) % 0x100) as u8,
        ((w / 0x1_0000_0000_0000) % 0x100) as u8,
        ((w / 0x100_0000_0000_0000) % 0x100) as u8,
    ]
}

/// The thirty-two bytes of four words, least significant first.
pub open spec fn limbs_le_bytes(l: [u64; 4]) -> Seq<u8> {
    u64_le_bytes(l[0]) + u64_le_bytes(l[1]) + u64_le_bytes(l[2]) + u64_le_bytes(l[3])
}

/// The encoding of a point: its two affine coordinates, each as thirty-two
/// little-endian bytes. The neutral element, whose coordinates are held as
/// zero, encodes as sixty-four zero bytes, which no other point does.
pub open spec fn encode(p: Point) -> Seq<u8> {
    limbs_le_bytes(p.x) + limbs_le_bytes(p.y)
}

/// The challenge of a commitment `R` on a message: the hash of the encoding
/// of `R` followed by the message, and of nothing else.
pub open spec fn challenge(r_g: Point, message: Seq<u8>) -> nat {
    hash_to_scalar(encode(r_g) + message)
}

fn push_u64_le(out: &mut Vec<u8>, w: u64)
    ensures
        final(out)@ == old(out)@ + u64_le_bytes(w),
{
    reveal(u64_le_bytes);
    out.push((w % 0x100) as u8);
    out.push(((w / 0x100) % 0x100) as u8);
    out.push(((w / 0x1_0000) % 0x100) as u8);
    out.push(((w / 0x100_0000) % 0x100) as u8);
    out.push(((w / 0x1_0000_0000) % 0x100) as u8);
    out.push(((w / 0x100_0000_0000) % 0x100) as u8);
    out.push(((w / 0x1_0000_0000_0000) % 0x100) as u8);
    out.push(((w / 0x100_0000_0000_0000) % 0x100) as u8);
    assert(out@ =~= old(out)@ + u64_le_bytes(w));
}

fn push_limbs_le(out: &mut Vec<u8>, l: &[u64; 4])
    ensures
        final(out)@ == old(out)@ + limbs_le_bytes(*l),
{
    push_u64_le(out, l[0]);
    push_u64_le(out, l[1]);
    push_u64_le(out, l[2]);
    push_u64_le(out, l[3]);
    assert(out@ =~= old(out)@ + limbs_le_bytes(*l));
}

/// Encodes a group element for hashing.
pub fn group_element_into_bytes(g: &Point) -> (res: Vec<u8>)
    ensures
        res@ == encode(*g),
        res@.len() == 64,
{
    let mut res: Vec<u8> = Vec::new();
    push_limbs_le(&mut res, &g.x);
    push_limbs_le(&mut res, &g.y);
    proof {
        lemma_limbs_le_bytes_len(g.x);
        lemma_limbs_le_bytes_len(g.y);
    }
    assert(res@ =~= encode(*g));
    res
}

/// Computes the challenge of a commitment on a message.
pub fn challenge_scalar(r_g: &Point, message: &[u8]) -> (c: Scalar)
    ensures
        c.wf(),
        c@ == challenge(*r_g, message@),
{
    let mut bytes = group_element_into_bytes(r_g);
    bytes.extend_from_slice(message);
    assert(bytes@ == encode(*r_g) + message@);
    Hash256::hash_bytes(bytes.as_slice())
}

/// A word has eight bytes.
pub proof fn lemma_u64_le_bytes_len(w: u64)
    ensures
        u64_le_bytes(w).len() == 8,
{
    reveal(u64_le_bytes);
}

/// A word is determined by its bytes.
pub proof fn lemma_u64_le_bytes_injective(a: u64, b: u64)
    requires
        u64_le_bytes(a) == u64_le_bytes(b),
    ensures
        a == b,
{
    reveal(u64_le_bytes);
    let s = u64_le_bytes(a);
    let t = u64_le_bytes(b);
    assert(a % 0x100 == b % 0x100) by {
        assert(s[0] == t[0]);
    }
    assert((a / 0x100) % 0x100 == (b / 0x100) % 0x100) by {
        assert(s[1] == t[1]);
    }
    assert((a / 0x1_0000) % 0x100 == (b / 0x1_0000) % 0x100) by {
        assert(s[2] == t[2]);
    }
    assert((a / 0x100_0000) % 0x100 == (b / 0x100_0000) % 0x100) by {
        assert(s[3] == t[3]);
    }
    assert((a / 0x1_0000_0000) % 0x100 == (b / 0x1_0000_0000) % 0x100) by {
        assert(s[4] == t[4]);
    }
    assert((a / 0x100_0000_0000) % 0x100 == (b / 0x100_0000_0000) % 0x100) by {
        assert(s[5] == t[5]);
    }
    assert((a / 0x1_0000_0000_0000) % 0x100 == (b / 0x1_0000_0000_0000) % 0x100) by {
        assert(s[6] == t[6]);
    }
    assert((a / 0x100_0000_0000_0000) % 0x100 == (b / 0x100_0000_0000_0000) % 0x100) by {
        assert(s[7] == t[7]);
    }
    assert(a == b) by (bit_vector)
        requires
            a % 0x100 == b % 0x100,
            (a / 0x100) % 0x100 == (b / 0x100) % 0x100,
            (a / 0x1_0000) % 0x100 == (b / 0x1_0000) % 0x100,
            (a / 0x100_0000) % 0x100 == (b / 0x100_0000) % 0x100,
            (a / 0x1_0000_0000) % 0x100 == (b / 0x1_0000_0000) % 0x100,
            (a / 0x100_0000_0000) % 0x100 == (b / 0x100_0000_0000) % 0x100,
            (a / 0x1_0000_0000_0000) % 0x100 == (b / 0x1_0000_0000_0000) % 0x100,
            (a / 0x100_0000_0000_0000) % 0x100 == (b / 0x100_0000_0000_0000) % 0x100,
    ;
}

/// A word is the sum of its bytes, each weighted by its place.
proof fn lemma_u64_is_sum_of_bytes(w: u64)
    ensures
        w == (w % 0x100) + 256 * (((w / 0x100) % 0x100) + 256 * (((w / 0x1_0000) % 0x100) + 256 * (((w
            / 0x100_0000) % 0x100) + 256 * (((w / 0x1_0000_0000) % 0x100) + 256 * (((w
            / 0x100_0000_0000) % 0x100) + 256 * (((w / 0x1_0000_0000_0000) % 0x100) + 256 * ((w
            / 0x100_0000_0000_0000) % 0x100))))))),
{
    let w1 = w / 0x100;
    let w2 = w / 0x1_0000;
    let w3 = w / 0x100_0000;
    let w4 = w / 0x1_0000_0000;
    let w5 = w / 0x100_0000_0000;
    let w6 = w / 0x1_0000_0000_0000;
    let w7 = w / 0x100_0000_0000_0000;
    assert(w2 == w1 / 0x100) by (bit_vector)
        requires
            w1 == w / 0x100,
            w2 == w / 0x1_0000,
    ;
    assert(w3 == w2 / 0x100) by (bit_vector)
        requires
            w2 == w / 0x1_0000,
            w3 == w / 0x100_0000,
    ;
    assert(w4 == w3 / 0x100) by (bit_vector)
        requires
            w3 == w / 0x100_0000,
            w4 == w / 0x1_0000_0000,
    ;
    assert(w5 == w4 / 0x100) by (bit_vector)
        requires
            w4 == w / 0x1_0000_0000,
            w5 == w / 0x100_0000_0000,
    ;
    assert(w6 == w5 / 0x100) by (bit_vector)
        requires
            w5 == w / 0x100_0000_0000,
            w6 == w / 0x1_0000_0000_0000,
    ;
    assert(w7 == w6 / 0x100) by (bit_vector)
        requires
            w6 == w / 0x1_0000_0000_0000,
            w7 == w / 0x100_0000_0000_0000,
    ;
    assert(w7 < 0x100) by (bit_vector)
        requires
            w7 == w / 0x100_0000_0000_0000,
    ;
    assert(w7 % 0x100 == w7);
    assert(w6 == (w6 % 0x100) + 256 * w7);
    assert(w5 == (w5 % 0x100) + 256 * w6);
    assert(w4 == (w4 % 0x100) + 256 * w5);
    assert(w3 == (w3 % 0x100) + 256 * w4);
    assert(w2 == (w2 % 0x100) + 256 * w3);
    assert(w1 == (w1 % 0x100) + 256 * w2);
    assert(w == (w % 0x100) + 256 * w1);
}

/// The bytes of a word hold the word.
pub proof fn lemma_u64_le_bytes_value(w: u64)
    ensures
        le_bytes_value(u64_le_bytes(w)) == w,
{
    let s = u64_le_bytes(w);
    let s1 = s.drop_first();
    let s2 = s1.drop_first();
    let s3 = s2.drop_first();
    let s4 = s3.drop_first();
    let s5 = s4.drop_first();
    let s6 = s5.drop_first();
    let s7 = s6.drop_first();
    let s8 = s7.drop_first();
    lemma_u64_le_bytes_len(w);
    assert(le_bytes_value(s8) == 0);
    assert(le_bytes_value(s7) == s[7] + 256 * le_bytes_value(s8));
    assert(le_bytes_value(s6) == s[6] + 256 * le_bytes_value(s7));
    assert(le_bytes_value(s5) == s[5] + 256 * le_bytes_value(s6));
    assert(le_bytes_value(s4) == s[4] + 256 * le_bytes_value(s5));
    assert(le_bytes_value(s3) == s[3] + 256 * le_bytes_value(s4));
    assert(le_bytes_value(s2) == s[2] + 256 * le_bytes_value(s3));
    assert(le_bytes_value(s1) == s[1] + 256 * le_bytes_value(s2));
    assert(le_bytes_value(s) == s[0] + 256 * le_bytes_value(s1));
    assert(s[0] == w % 0x100 && s[1] == (w / 0x100) % 0x100 && s[2] == (w / 0x1_0000) % 0x100
        && s[3] == (w / 0x100_0000) % 0x100 && s[4] == (w / 0x1_0000_0000) % 0x100 && s[5] == (w
        / 0x100_0000_0000) % 0x100 && s[6] == (w / 0x1_0000_0000_0000) % 0x100 && s[7] == (w
        / 0x100_0000_0000_0000) % 0x100) by {
        reveal(u64_le_bytes);
    }
    lemma_u64_is_sum_of_bytes(w);
}

/// The integer that two byte strings hold, one after the other: the second
/// counts from where the first ends.
pub proof fn lemma_le_bytes_value_concat(a: Seq<u8>, b: Seq<u8>)
    ensures
        le_bytes_value(a + b) == le_bytes_value(a) + pow(256, a.len()) * le_bytes_value(b),
    decreases a.len(),
{
    reveal(pow);
    if a.len() == 0 {
        assert(a + b =~= b);
    } else {
        let rest = a.drop_first();
        assert((a + b).drop_first() =~= rest + b);
        lemma_le_bytes_value_concat(rest, b);
        let p = pow(256, rest.len());
        assert(pow(256, a.len()) == 256 * p);
        assert(256 * (p * le_bytes_value(b)) == (256 * p) * le_bytes_value(b)) by (nonlinear_arith);
    }
}

/// The bytes of four words hold the integer that the words hold: they are
/// its little-endian representation in thirty-two bytes.
pub proof fn lemma_limbs_le_bytes_value(l: [u64; 4])
    ensures
        le_bytes_value(limbs_le_bytes(l)) == limbs_value(l),
{
    let b0 = u64_le_bytes(l[0]);
    let b1 = u64_le_bytes(l[1]);
    let b2 = u64_le_bytes(l[2]);
    let b3 = u64_le_bytes(l[3]);
    lemma_u64_le_bytes_len(l[0]);
    lemma_u64_le_bytes_len(l[1]);
    lemma_u64_le_bytes_len(l[2]);
    lemma_u64_le_bytes_len(l[3]);
    lemma_u64_le_bytes_value(l[0]);
    lemma_u64_le_bytes_value(l[1]);
    lemma_u64_le_bytes_value(l[2]);
    lemma_u64_le_bytes_value(l[3]);
    lemma_le_bytes_value_concat(b0 + b1 + b2, b3);
    lemma_le_bytes_value_concat(b0 + b1, b2);
    lemma_le_bytes_value_concat(b0, b1);
    assert(pow(256, 8) == 0x1_0000_0000_0000_0000) by {
        reveal_with_fuel(pow, 9);
    }
    assert(pow(256, 16) == 0x1_0000_0000_0000_0000_0000_0000_0000_0000) by {
        lemma_pow_adds(256, 8, 8);
    }
    assert(pow(256, 24) == 0x1_0000_0000_0000_0000_0000_0000_0000_0000_0000_0000_0000_0000) by {
        lemma_pow_adds(256, 16, 8);
    }
}

/// Two byte strings that agree when each is followed by another, and that
/// have the same length, are the same, and so are the two that follow.
pub proof fn lemma_concat_injective(a: Seq<u8>, b: Seq<u8>, c: Seq<u8>, d: Seq<u8>)
    requires
        a.len() == c.len(),
        a + b == c + d,
    ensures
        a == c,
        b == d,
{
    assert((a + b).subrange(0, a.len() as int) =~= a);
    assert((c + d).subrange(0, c.len() as int) =~= c);
    assert((a + b).subrange(a.len() as int, (a + b).len() as int) =~= b);
    assert((c + d).subrange(c.len() as int, (c + d).len() as int) =~= d);
}

/// Four words are determined by their bytes.
pub proof fn lemma_limbs_le_bytes_injective(a: [u64; 4], b: [u64; 4])
    requires
        limbs_le_bytes(a) == limbs_le_bytes(b),
    ensures
        a == b,
{
    lemma_u64_le_bytes_len(a[0]);
    lemma_u64_le_bytes_len(a[1]);
    lemma_u64_le_bytes_len(a[2]);
    lemma_u64_le_bytes_len(a[3]);
    lemma_u64_le_bytes_len(b[0]);
    lemma_u64_le_bytes_len(b[1]);
    lemma_u64_le_bytes_len(b[2]);
    lemma_u64_le_bytes_len(b[3]);
    let a012 = u64_le_bytes(a[0]) + u64_le_bytes(a[1]) + u64_le_bytes(a[2]);
    let b012 = u64_le_bytes(b[0]) + u64_le_bytes(b[1]) + u64_le_bytes(b[2]);
    lemma_concat_injective(a012, u64_le_bytes(a[3]), b012, u64_le_bytes(b[3]));
    let a01 = u64_le_bytes(a[0]) + u64_le_bytes(a[1]);
    let b01 = u64_le_bytes(b[0]) + u64_le_bytes(b[1]);
    lemma_concat_injective(a01, u64_le_bytes(a[2]), b01, u64_le_bytes(b[2]));
    lemma_concat_injective(
        u64_le_bytes(a[0]),
        u64_le_bytes(a[1]),
        u64_le_bytes(b[0]),
        u64_le_bytes(b[1]),
    );
    lemma_u64_le_bytes_injective(a[0], b[0]);
    lemma_u64_le_bytes_injective(a[1], b[1]);
    lemma_u64_le_bytes_injective(a[2], b[2]);
    lemma_u64_le_bytes_injective(a[3], b[3]);
    assert(a =~= b);
}

/// Four words have thirty-two bytes.
pub proof fn lemma_limbs_le_bytes_len(l: [u64; 4])
    ensures
        limbs_le_bytes(l).len() == 32,
{
    lemma_u64_le_bytes_len(l[0]);
    lemma_u64_le_bytes_len(l[1]);
    lemma_u64_le_bytes_len(l[2]);
    lemma_u64_le_bytes_len(l[3]);
}

/// The encoding is injective on the group: two of its points with the same
/// encoding are the same point.
pub proof fn lemma_encode_injective(p: Point, q: Point)
    requires
        p.wf(),
        q.wf(),
        encode(p) == encode(q),
    ensures
        p == q,
{
    lemma_limbs_le_bytes_len(p.x);
    lemma_limbs_le_bytes_len(q.x);
    lemma_concat_injective(
        limbs_le_bytes(p.x),
        limbs_le_bytes(p.y),
        limbs_le_bytes(q.x),
        limbs_le_bytes(q.y),
    );
    lemma_limbs_le_bytes_injective(p.x, q.x);
    lemma_limbs_le_bytes_injective(p.y, q.y);
}

/// The encoding holds the two coordinates: its first thirty-two bytes are
/// the little-endian representation of `x`, and its last thirty-two that of
/// `y`.
pub proof fn lemma_encode_holds_coordinates(p: Point)
    ensures
        encode(p).len() == 64,
        le_bytes_value(encode(p).subrange(0, 32)) == limbs_value(p.x),
        le_bytes_value(encode(p).subrange(32, 64)) == limbs_value(p.y),
{
    lemma_limbs_le_bytes_len(p.x);
    lemma_limbs_le_bytes_len(p.y);
    lemma_limbs_le_bytes_value(p.x);
    lemma_limbs_le_bytes_value(p.y);
    assert(encode(p).subrange(0, 32) =~= limbs_le_bytes(p.x));
    assert(encode(p).subrange(32, 64) =~= limbs_le_bytes(p.y));
}

} // verus!
