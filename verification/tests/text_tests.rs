use qdrant_toolkit::text::{decimal_string, hex_string, push_decimal};

#[test]
fn decimal_matches_display() {
    for n in [0u64, 1, 9, 10, 99, 100, 12345, 1 << 40, u64::MAX] {
        assert_eq!(decimal_string(n), n.to_string());
    }
}

#[test]
fn hex_matches_lower_hex() {
    for n in [0u64, 9, 10, 15, 16, 255, 4096, 0xdead_beef, u64::MAX] {
        assert_eq!(hex_string(n), format!("{:x}", n));
    }
}

#[test]
fn push_decimal_appends() {
    let mut s = String::from("n=");
    push_decimal(&mut s, 407);
    assert_eq!(s, "n=407");
}
