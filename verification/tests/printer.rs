use zebra_epl2_printer::printer::{
    fallback_file_name, open_failure, sanitize_printer_name, write_outcome, SendError,
};

#[test]
fn letters_and_digits_stay() {
    assert_eq!(sanitize_printer_name("ZebraLP2824"), "ZebraLP2824");
}

#[test]
fn other_characters_become_underscores() {
    assert_eq!(sanitize_printer_name("Zebra LP-2824 (USB)"), "Zebra_LP_2824__USB_");
    assert_eq!(sanitize_printer_name(""), "");
    assert_eq!(sanitize_printer_name("\u{637}\u{627}\u{628}\u{639}\u{629}"), "_____");
    assert_eq!(sanitize_printer_name("a/b\\c"), "a_b_c");
}

#[test]
fn fallback_file_is_named_after_the_printer() {
    assert_eq!(fallback_file_name("Zebra LP2824"), "Zebra_LP2824_epl_output.bin");
}

#[test]
fn write_that_was_not_accepted_is_a_failure() {
    assert_eq!(write_outcome(false, 0, 10), Err(SendError::IOFailure));
    assert_eq!(write_outcome(false, 10, 10), Err(SendError::IOFailure));
}

#[test]
fn write_of_another_length_is_partial() {
    assert_eq!(write_outcome(true, 9, 10), Err(SendError::PartialWrite));
    assert_eq!(write_outcome(true, 0, 1), Err(SendError::PartialWrite));
    assert_eq!(write_outcome(true, 11, 10), Err(SendError::PartialWrite));
}

#[test]
fn complete_write_succeeds() {
    assert_eq!(write_outcome(true, 10, 10), Ok(()));
    assert_eq!(write_outcome(true, 0, 0), Ok(()));
}

#[test]
fn printer_that_cannot_be_opened_is_denied_or_not_found() {
    assert_eq!(open_failure(5), SendError::AccessDenied);
    assert_eq!(open_failure(2), SendError::NotFound);
    assert_eq!(open_failure(1801), SendError::NotFound);
}
