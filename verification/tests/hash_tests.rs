use fde::field::Scalar;
use fde::hash::Hash256;

#[test]
fn test_hash() {
    println!("{:?}", Hash256::hash_bytes(&[0u8, 0u8, 0u8, 0u8]));
}

#[test]
fn hash_of_four_zero_bytes() {
    // SHA-256: df3f6198 04a92fdb 4057192d c43dd748 ea778adc 52bc498c e80524c0 14b81119
    let h = Hash256::hash_bytes(&[0u8, 0u8, 0u8, 0u8]);
    assert_eq!(
        h.limbs,
        [0xdb2fa90498613fdf, 0x48d73dc42d195740, 0x8c49bc52dc8a77ea, 0x1911b814c02405e8]
    );
}

#[test]
fn hash_of_the_empty_string_is_reduced() {
    // The digest e3b0c442...7852b855, read little-endian, lies above the order.
    let h = Hash256::hash_bytes(&[]);
    assert_eq!(
        h.limbs,
        [0xd03b070452c4b0e2, 0xfc8587514f3b8b08, 0x944355ae62c055c9, 0x255404053a67f57a]
    );
}

#[test]
fn hash_depends_on_the_input() {
    let a = Hash256::hash_bytes(&[0u8, 1u8, 2u8, 3u8]);
    assert_eq!(
        a.limbs,
        [0x52974b8101de4e01, 0xa02a3387d5272b0a, 0x10e95d691643ac96, 0x16ff902566e5301f]
    );
    assert_ne!(a, Hash256::hash_bytes(&[0u8, 1u8, 2u8, 4u8]));
    assert_ne!(a, Scalar::from_le_bytes_mod_order(&[0u8, 1u8, 2u8, 3u8]));
}
