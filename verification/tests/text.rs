use vcp::text::{decimal_string, digit_str, mac_to_string};

#[test]
fn decimal_of_small_and_large_numbers() {
    assert_eq!(decimal_string(0), "0");
    assert_eq!(decimal_string(7), "7");
    assert_eq!(decimal_string(10), "10");
    assert_eq!(decimal_string(1000), "1000");
    assert_eq!(decimal_string(4294967295), "4294967295");
    assert_eq!(decimal_string(u64::MAX), "18446744073709551615");
}

#[test]
fn digits_are_lower_case() {
    assert_eq!(digit_str(0), "0");
    assert_eq!(digit_str(9), "9");
    assert_eq!(digit_str(10), "a");
    assert_eq!(digit_str(15), "f");
}

#[test]
fn mac_of_no_bytes_is_empty() {
    assert_eq!(mac_to_string(&[]), "");
}

#[test]
fn mac_of_one_byte_has_no_colon() {
    assert_eq!(mac_to_string(&[0x0a]), "0a");
}

#[test]
fn mac_joins_padded_bytes_with_colons() {
    assert_eq!(mac_to_string(&[0xde, 0xad, 0x00, 0x0f, 0xf0, 0xff]), "de:ad:00:0f:f0:ff");
    assert_eq!(mac_to_string(&[0xff, 0xff, 0xff, 0xff, 0xff, 0xff]), "ff:ff:ff:ff:ff:ff");
}
