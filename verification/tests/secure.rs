use maranode::secure::{ct_eq, ct_eq_str, is_sha256_hex};

#[test]
fn ct_eq_matches_equality() {
    assert!(ct_eq_str("hunter2", "hunter2"));
    assert!(!ct_eq_str("hunter2", "hunter3"));
    assert!(!ct_eq_str("short", "longer-value"));
    assert!(ct_eq(b"", b""));
}

#[test]
fn sha256_hex_validation() {
    let good = "a".repeat(64);
    assert!(is_sha256_hex(&good));
    assert!(!is_sha256_hex(&"a".repeat(63)));
    assert!(!is_sha256_hex(&"A".repeat(64))); // uppercase letters are rejected
    assert!(!is_sha256_hex("../../etc/passwd"));
    assert!(!is_sha256_hex(&format!("{}g", "a".repeat(63))));
}

#[test]
fn ct_eq_differs_on_one_byte() {
    assert!(!ct_eq(&[1, 2, 3], &[1, 2, 4]));
    assert!(ct_eq(&[0xff; 32], &[0xff; 32]));
    assert!(!ct_eq_str("é", "e"));
}
