//! Runtime checks of the decimal digit production.

use bst_runtime::decimal::dec_bytes_u64;

#[test]
fn digit_bytes_of_small_numbers() {
    assert_eq!(dec_bytes_u64(0), b"0");
    assert_eq!(dec_bytes_u64(7), b"7");
    assert_eq!(dec_bytes_u64(10), b"10");
    assert_eq!(dec_bytes_u64(999), b"999");
}

#[test]
fn digit_bytes_of_large_numbers() {
    assert_eq!(dec_bytes_u64(1234567890), b"1234567890");
    assert_eq!(dec_bytes_u64(u64::MAX), b"18446744073709551615");
}
