use daklak::wayland::window::{current_word_before_cursor, is_seedable};

#[test]
fn mod_extracts_word_at_end_of_line() {
    assert_eq!(current_word_before_cursor("tran", 4), "tran");
}

#[test]
fn mod_extracts_word_in_middle_of_line() {
    assert_eq!(current_word_before_cursor("hello tran", 10), "tran");
}

#[test]
fn mod_extracts_partial_word_at_cursor() {
    assert_eq!(current_word_before_cursor("tran", 3), "tra");
}

#[test]
fn mod_empty_text_returns_empty() {
    assert_eq!(current_word_before_cursor("", 0), "");
}

#[test]
fn mod_cursor_at_start_returns_empty() {
    assert_eq!(current_word_before_cursor("hello", 0), "");
}

#[test]
fn mod_handles_multibyte_chars_at_char_boundary() {
    assert_eq!(current_word_before_cursor("trâ", 4), "trâ");
}

#[test]
fn mod_handles_cursor_inside_multibyte_char() {
    let r = current_word_before_cursor("trâ", 3);
    assert_eq!(r, "tr");
}

#[test]
fn mod_cursor_beyond_text_clamps() {
    assert_eq!(current_word_before_cursor("hi", 99), "hi");
}

#[test]
fn mod_space_separates_words() {
    assert_eq!(current_word_before_cursor("foo bar baz", 11), "baz");
}

#[test]
fn mod_tab_separates_words() {
    assert_eq!(current_word_before_cursor("foo\tbar", 7), "bar");
}

#[test]
fn mod_newline_separates_words() {
    assert_eq!(current_word_before_cursor("line1\nline2", 11), "line2");
}

#[test]
fn seed_gate_skips_capitalized_word() {
    let word = "Folder";
    assert!(!is_seedable(word));
}

#[test]
fn seed_gate_accepts_lowercase_vietnamese_precursor() {
    let word = "tran";
    assert!(is_seedable(word));
}

#[test]
fn seed_gate_skips_word_with_digit() {
    let word = "abc1";
    assert!(!is_seedable(word));
}
