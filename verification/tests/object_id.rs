use cube_api::object_id::{encode_object_id, is_valid_object_id};

#[test]
fn empty_string_is_not_an_identifier() {
    assert!(!is_valid_object_id(""));
}

#[test]
fn twenty_four_hex_digits_are_valid() {
    assert!(is_valid_object_id("0123456789abcdef01234567"));
    assert!(is_valid_object_id("ABCDEF0123456789abcdef01"));
    assert!(is_valid_object_id("ffffffffffffffffffffffff"));
}

#[test]
fn wrong_length_is_invalid() {
    assert!(!is_valid_object_id("0123456789abcdef0123456"));
    assert!(!is_valid_object_id("0123456789abcdef012345678"));
    assert!(!is_valid_object_id("abc"));
}

#[test]
fn non_hex_characters_are_invalid() {
    assert!(!is_valid_object_id("zzzzzzzzzzzzzzzzzzzzzzzz"));
    assert!(!is_valid_object_id("0123456789abcdef0123456g"));
    assert!(!is_valid_object_id("0123456789abcdef-1234567"));
}

#[test]
fn encoding_pads_to_twenty_four_digits() {
    assert_eq!(encode_object_id(0), "000000000000000000000000");
    assert_eq!(encode_object_id(255), "0000000000000000000000ff");
    assert_eq!(encode_object_id(u64::MAX), "00000000ffffffffffffffff");
    assert_eq!(encode_object_id(0xdead_beef), "0000000000000000deadbeef");
}

#[test]
fn encoded_identifiers_are_valid() {
    for n in [0u64, 1, 15, 16, 257, 1 << 40, u64::MAX] {
        assert!(is_valid_object_id(&encode_object_id(n)));
    }
}
