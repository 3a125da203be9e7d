use zebra_epl2_printer::barcode::{
    ean13_with_checksum, ensure_valid_ean13, keep_digits, normalize_ean13,
};
use zebra_epl2_printer::error::LabelError;

#[test]
fn checksum_of_sample_payload() {
    assert_eq!(ean13_with_checksum("622300123456".to_string()), "6223001234562");
}

#[test]
fn checksum_of_second_sample_payload() {
    let payload = ensure_valid_ean13("622300654321").unwrap();
    assert_eq!(payload, "622300654321");
    assert_eq!(ean13_with_checksum(payload), "6223006543218");
}

#[test]
fn checksum_weights_alternate_one_and_three() {
    // 1*1 + 2*3 = 7, so the check digit is 3.
    assert_eq!(ean13_with_checksum("12".to_string()), "1200000000003");
    // 0*1 + 1*3 = 3, so the check digit is 7.
    assert_eq!(ean13_with_checksum("01".to_string()), "0100000000007");
    // six ones at even and six at odd indices: 6 + 18 = 24.
    assert_eq!(ean13_with_checksum("111111111111".to_string()), "1111111111116");
}

#[test]
fn checksum_is_zero_when_sum_is_multiple_of_ten() {
    // 4*1 + 2*3 = 10.
    assert_eq!(ean13_with_checksum("42".to_string()), "4200000000000");
    // 1*1 + 2*3 + 3*1 = 10.
    assert_eq!(ean13_with_checksum("123".to_string()), "1230000000000");
    assert_eq!(ean13_with_checksum(String::new()), "0000000000000");
}

#[test]
fn checksum_is_taken_over_the_digits_only() {
    // 'x' is dropped: 5*1 + 1*3 = 8.
    assert_eq!(ean13_with_checksum("5x1".to_string()), "5100000000002");
    assert_eq!(ean13_with_checksum("6223-0012 3456".to_string()), "6223001234562");
}

#[test]
fn wrong_check_digit_is_computed_anew() {
    assert_eq!(ean13_with_checksum("6223001234569".to_string()), "6223001234562");
    assert_eq!(ean13_with_checksum("6223001234562".to_string()), "6223001234562");
    assert_eq!(ean13_with_checksum("62230012345690000".to_string()), "6223001234562");
}

#[test]
fn digits_are_kept_and_the_rest_dropped() {
    assert_eq!(keep_digits("6-22 3a0b0/1"), "6223001");
    assert_eq!(keep_digits("abc"), "");
    // Digits of other scripts are no decimal digits of a barcode.
    assert_eq!(keep_digits("\u{0661}2\u{0663}"), "2");
}

#[test]
fn thirteen_digits_lose_their_check_digit() {
    assert_eq!(ensure_valid_ean13("6223001234569").unwrap(), "622300123456");
    assert_eq!(ensure_valid_ean13("62230012345699999").unwrap(), "622300123456");
}

#[test]
fn short_barcode_is_filled_with_zeros_on_the_right() {
    assert_eq!(ensure_valid_ean13("123").unwrap(), "123000000000");
    assert_eq!(ensure_valid_ean13("7").unwrap(), "700000000000");
    assert_eq!(ensure_valid_ean13("12345678901").unwrap(), "123456789010");
}

#[test]
fn punctuation_between_digits_is_dropped() {
    assert_eq!(ensure_valid_ean13("6223-0012 3456").unwrap(), "622300123456");
}

#[test]
fn empty_barcode_is_refused() {
    assert_eq!(ensure_valid_ean13(""), Err(LabelError::InvalidBarcodeDigits));
    assert!(matches!(normalize_ean13(""), Err(LabelError::InvalidBarcodeDigits)));
}

#[test]
fn barcode_of_punctuation_is_refused() {
    assert_eq!(ensure_valid_ean13("--- ... !!"), Err(LabelError::InvalidBarcodeDigits));
    assert!(matches!(normalize_ean13("-/-"), Err(LabelError::InvalidBarcodeDigits)));
}

#[test]
fn normalized_code_has_thirteen_digits_and_its_check_digit() {
    let code = normalize_ean13("622300123456").unwrap();
    assert_eq!(code.as_str(), "6223001234562");
    assert_eq!(code.to_bytes(), b"6223001234562".to_vec());
    let code = normalize_ean13("6223006543218").unwrap();
    assert_eq!(code.as_str(), "6223006543218");
    let code = normalize_ean13("4 0 0").unwrap();
    assert_eq!(code.as_str(), "4000000000006");
    assert_eq!(code.duplicate().as_str(), "4000000000006");
}
