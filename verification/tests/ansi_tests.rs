use rfetch::ansi::{strip_ansi, visual_width};

#[test]
fn width_plain_ascii() {
    assert_eq!(visual_width("hello world"), 11);
}

#[test]
fn width_counts_unicode_scalars() {
    assert_eq!(visual_width("███"), 3);
    assert_eq!(visual_width("▜███▙"), 5);
}

#[test]
fn width_ignores_color_sequence() {
    assert_eq!(visual_width("\u{1b}[31mred\u{1b}[0m"), 3);
}

#[test]
fn width_ignores_inserted_escape() {
    // a well-formed escape sequence contributes nothing, wherever it stands
    assert_eq!(
        visual_width("abc\u{1b}[38;2;1;2;3mdef"),
        visual_width("abcdef")
    );
}

#[test]
fn width_truncates_malformed_escape() {
    // an unterminated sequence discards the remainder from the count
    assert_eq!(visual_width("ab\u{1b}[12;34"), 2);
}

#[test]
fn width_escape_without_bracket_is_ordinary() {
    // an escape character not followed by `[` counts like any character
    assert_eq!(visual_width("a\u{1b}x"), 3);
}

#[test]
fn width_empty_sequence_terminates_at_letter() {
    assert_eq!(visual_width("\u{1b}[m"), 0);
}

#[test]
fn strip_removes_sequences_only() {
    assert_eq!(strip_ansi("\u{1b}[31mred\u{1b}[0m plain"), "red plain");
}

#[test]
fn strip_of_plain_text_is_identity() {
    assert_eq!(strip_ansi("no escapes here"), "no escapes here");
}

#[test]
fn strip_drops_malformed_tail() {
    assert_eq!(strip_ansi("ok\u{1b}[99;99"), "ok");
}
