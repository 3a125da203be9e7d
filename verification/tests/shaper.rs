use zebra_epl2_printer::shaper::{
    arrange_run, bidi_then_shape, display_runs, strip_joiners, VisualRun,
};
use zebra_epl2_printer::text::{chars_of, reversed};

fn turned(s: &str) -> String {
    s.chars().rev().collect()
}

#[test]
fn empty_text_stays_empty() {
    assert_eq!(bidi_then_shape(""), "");
}

#[test]
fn text_without_right_to_left_content_is_unchanged() {
    assert_eq!(bidi_then_shape("Hello 123"), "Hello 123");
    assert_eq!(bidi_then_shape("5.00 EGP"), "5.00 EGP");
    assert_eq!(bidi_then_shape("a"), "a");
}

#[test]
fn arabic_word_is_shaped_and_turned_round() {
    // initial ain, medial sad, medial yeh, final reh, last letter first
    assert_eq!(
        bidi_then_shape("\u{639}\u{635}\u{64a}\u{631}"),
        "\u{feae}\u{fef4}\u{febc}\u{fecb}"
    );
}

#[test]
fn shaped_run_matches_the_reshaper() {
    let word = "\u{628}\u{631}\u{62a}\u{642}\u{627}\u{644}";
    assert_eq!(bidi_then_shape(word), turned(&ar_reshaper::reshape_line(word)));
    assert_ne!(bidi_then_shape(word), word);
    assert_ne!(bidi_then_shape(word), turned(word));
}

#[test]
fn digits_and_latin_keep_their_order_in_mixed_text() {
    let arabic = "\u{639}\u{635}\u{64a}\u{631} \u{628}\u{631}\u{62a}\u{642}\u{627}\u{644}";
    let text = format!("{}    5.00 EGP", arabic);
    let shown = bidi_then_shape(&text);
    assert!(shown.contains("5.00"));
    assert!(shown.contains("EGP"));
    assert!(!shown.contains("00.5"));
    assert!(!shown.contains("PGE"));
    // the Arabic words are shaped and turned round on their own
    assert!(shown.contains(&turned(&ar_reshaper::reshape_line(arabic))));
    assert_eq!(shown.chars().count(), text.chars().count());
}

#[test]
fn price_after_arabic_name_is_drawn_left_of_it() {
    let shown = bidi_then_shape("\u{645}\u{627}\u{621} 3.50");
    assert!(shown.starts_with("3.50"));
    assert!(shown.ends_with(&turned(&ar_reshaper::reshape_line("\u{645}\u{627}\u{621}"))));
}

#[test]
fn only_the_first_paragraph_is_drawn() {
    assert_eq!(bidi_then_shape("abc\ndef"), "abc\n");
}

#[test]
fn zero_width_joiner_is_left_out_of_shaping() {
    assert_eq!(strip_joiners("a\u{200d}b\u{200d}"), "ab");
    assert_eq!(strip_joiners(""), "");
    let with_joiner = "\u{200d}\u{644}\u{627}";
    let without = "\u{644}\u{627}";
    assert_eq!(bidi_then_shape(with_joiner), bidi_then_shape(without));
    assert_eq!(bidi_then_shape(without), "\u{fefb}");
}

#[test]
fn run_is_arranged_by_its_level() {
    assert_eq!(arrange_run(0, "abc", "xyz"), "abc");
    assert_eq!(arrange_run(2, "abc", "xyz"), "abc");
    assert_eq!(arrange_run(1, "abc", "xyz"), "zyx");
    assert_eq!(arrange_run(3, "abc", ""), "");
    assert_eq!(arrange_run(255, "", "xy"), "yx");
}

#[test]
fn runs_are_drawn_in_the_order_given() {
    let runs = vec![
        VisualRun { level: 2, text: "5.00".to_string() },
        VisualRun { level: 1, text: " ".to_string() },
        VisualRun { level: 1, text: "\u{639}\u{635}\u{64a}\u{631}".to_string() },
        VisualRun { level: 0, text: "ab".to_string() },
    ];
    assert_eq!(display_runs(&runs), "5.00 \u{feae}\u{fef4}\u{febc}\u{fecb}ab");
    assert_eq!(display_runs(&Vec::new()), "");
}

#[test]
fn characters_are_read_in_order_and_turned_round() {
    let s = "a\u{639}\u{1f600}z";
    assert_eq!(chars_of(s), vec!['a', '\u{639}', '\u{1f600}', 'z']);
    assert_eq!(reversed(s), "z\u{1f600}\u{639}a");
    assert_eq!(reversed(""), "");
}
