use daklak::edit::shadow::ShadowBuffer;

#[test]
fn pop_ascii_char() {
    let mut buf = ShadowBuffer::new();
    buf.append("a");
    assert_eq!(buf.pop_chars(1), (1, 1));
    assert_eq!(buf.text(), "");
}

#[test]
fn pop_multibyte_char() {
    let mut buf = ShadowBuffer::new();
    buf.append("â");
    assert_eq!(buf.pop_chars(1), (2, 1));
    assert_eq!(buf.text(), "");
}

#[test]
fn pop_three_byte_char() {
    let mut buf = ShadowBuffer::new();
    buf.append("ầ");
    assert_eq!(buf.pop_chars(1), (3, 1));
    assert_eq!(buf.text(), "");
}

#[test]
fn pop_partial_mixed() {
    let mut buf = ShadowBuffer::new();
    buf.append("trâ");
    assert_eq!(buf.pop_chars(1), (2, 1));
    assert_eq!(buf.text(), "tr");
}

#[test]
fn pop_more_than_available() {
    let mut buf = ShadowBuffer::new();
    buf.append("a");
    assert_eq!(buf.pop_chars(5), (1, 1));
    assert_eq!(buf.text(), "");
}

#[test]
fn observe_surrounding_syncs_text_before_cursor() {
    let mut buf = ShadowBuffer::new();
    buf.observe_surrounding("hello world", 5, 5);
    assert_eq!(buf.text(), "hello");
    assert_eq!(buf.last_cursor(), Some(5));
}

#[test]
fn observe_surrounding_handles_multibyte_cursor() {
    let mut buf = ShadowBuffer::new();
    buf.observe_surrounding("lành", 4, 4);
    assert_eq!(buf.text(), "làn");
}

#[test]
fn unexpected_cursor_jump_reports_true() {
    let mut buf = ShadowBuffer::new();
    buf.observe_surrounding("hello", 5, 5);
    let unexpected = buf.observe_surrounding("hello", 1, 1);
    assert!(unexpected);
    assert_eq!(buf.text(), "h");
}

#[test]
fn pending_commit_marks_cursor_change_expected() {
    let mut buf = ShadowBuffer::new();
    buf.observe_surrounding("trâ", 4, 4);
    buf.pending_commit = true;
    let unexpected = buf.observe_surrounding("trầ", 4, 4);
    assert!(!unexpected);
    assert!(!buf.pending_commit);
}

#[test]
fn pop_delete_span_includes_selected_after_cursor() {
    let mut buf = ShadowBuffer::new();
    buf.observe_surrounding("translate", 3, 9);
    assert_eq!(buf.text(), "tra");

    let (before_b, before_c, after_b, after_c) = buf.pop_delete_span(1);
    assert_eq!((before_b, before_c), (1, 1));
    assert_eq!((after_b, after_c), (6, 6));
    assert_eq!(buf.text(), "tr");
}
