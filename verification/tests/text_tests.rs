use dwntp::text::{u64_to_decimal, utf8_bytes};

#[test]
fn text_decimal() {
    assert_eq!(u64_to_decimal(0), "0");
    assert_eq!(u64_to_decimal(1000000000), "1000000000");
    assert_eq!(u64_to_decimal(u64::MAX), "18446744073709551615");
}

#[test]
fn text_utf8_bytes() {
    assert_eq!(utf8_bytes("aé"), vec![b'a', 0xc3, 0xa9]);
}
