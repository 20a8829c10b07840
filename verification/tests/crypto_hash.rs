use metastable::crypto_hash::{CryptoHash, CryptoHashError};

#[test]
fn bytes_and_hex() {
    let mut bytes = [0u8; 32];
    bytes[0] = 0xab;
    bytes[31] = 0x01;
    let h = CryptoHash::new(bytes);
    assert_eq!(h.hash(), &bytes);
    assert_eq!(h.to_vec(), bytes.to_vec());
    let hex = h.to_hex_string();
    assert_eq!(hex.len(), 64);
    assert!(hex.starts_with("ab00"));
    assert!(hex.ends_with("0001"));
    assert_eq!(CryptoHash::from_hex_string(&hex).unwrap(), h);
}

#[test]
fn hex_of_either_case_is_read() {
    let upper = "AB".repeat(32);
    let h = CryptoHash::from_hex_string(&upper).unwrap();
    assert_eq!(h.hash(), &[0xab; 32]);
    assert_eq!(h.to_hex_string(), "ab".repeat(32));
}

#[test]
fn hex_errors() {
    assert_eq!(CryptoHash::from_hex_string("zz"), Err(CryptoHashError::InvalidHex));
    assert_eq!(CryptoHash::from_hex_string("abc"), Err(CryptoHashError::InvalidHex));
    assert_eq!(CryptoHash::from_hex_string("abcd"), Err(CryptoHashError::WrongLength(2)));
    assert_eq!(CryptoHash::from_hex_string(""), Err(CryptoHashError::WrongLength(0)));
}

#[test]
fn default_and_random() {
    assert_eq!(CryptoHash::default().hash(), &[0u8; 32]);
    let a = CryptoHash::random().expect("the system's random source works here");
    assert_eq!(a.to_vec().len(), 32);
    let b = CryptoHash::random().expect("the system's random source works here");
    assert!(a != b);
}

#[test]
fn hashes_equal_by_bytes() {
    let mut b = [7u8; 32];
    assert!(CryptoHash::new([7u8; 32]) == CryptoHash::new(b));
    b[31] = 8;
    assert!(CryptoHash::new([7u8; 32]) != CryptoHash::new(b));
    let h = CryptoHash::new(b);
    assert_eq!(CryptoHash::from_hex_string(&h.to_hex_string()), Ok(h.clone()));
}
