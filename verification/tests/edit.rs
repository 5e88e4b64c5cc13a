use daklak::edit::{BackspaceMethod, DeleteUnit, KeyState, OutputSink, Strategy};

#[derive(Debug, Default)]
struct MockSink {
    calls: Vec<Call>,
}

#[derive(Debug, PartialEq)]
enum Call {
    DeleteSurroundingText(u32, u32, u32, u32),
    CommitString(String),
    Commit(u32),
    VkKey(u32, u32, KeyState),
    VkModifiers(u32, u32, u32, u32),
    VkCommitChar(u32, char),
}

impl OutputSink for MockSink {
    fn delete_surrounding_text(
        &mut self,
        before_bytes: u32,
        before_chars: u32,
        after_bytes: u32,
        after_chars: u32,
    ) {
        self.calls.push(Call::DeleteSurroundingText(
            before_bytes,
            before_chars,
            after_bytes,
            after_chars,
        ));
    }
    fn commit_string(&mut self, text: &str) {
        self.calls.push(Call::CommitString(text.to_owned()));
    }
    fn commit(&mut self, serial: u32) {
        self.calls.push(Call::Commit(serial));
    }
    fn vk_key(&mut self, time: u32, key_code: u32, state: KeyState) {
        self.calls.push(Call::VkKey(time, key_code, state));
    }
    fn vk_modifiers(&mut self, depressed: u32, latched: u32, locked: u32, group: u32) {
        self.calls
            .push(Call::VkModifiers(depressed, latched, locked, group));
    }
    fn vk_can_type(&self, _c: char) -> bool {
        true
    }
    fn vk_commit_char(&mut self, time: u32, c: char) -> bool {
        self.calls.push(Call::VkCommitChar(time, c));
        true
    }
    fn commit_via_keysym(&mut self, _serial: u32, _time: u32, _text: &str) -> bool {
        false
    }
}

#[test]
fn tier1_single_ascii_backspace() {
    let mut s = Strategy::new(BackspaceMethod::SurroundingText);
    s.shadow.append("a");
    let mut sink = MockSink::default();
    s.apply(1, "â", 1, 0, &mut sink, DeleteUnit::Bytes);
    assert_eq!(
        sink.calls,
        vec![
            Call::DeleteSurroundingText(1, 1, 0, 0),
            Call::CommitString("â".to_owned()),
            Call::Commit(1),
        ]
    );
    assert_eq!(s.shadow.text(), "â");
}

#[test]
fn tier1_multibyte_delete() {
    let mut s = Strategy::new(BackspaceMethod::SurroundingText);
    s.shadow.append("â");
    let mut sink = MockSink::default();
    s.apply(1, "ầ", 1, 0, &mut sink, DeleteUnit::Bytes);
    assert_eq!(sink.calls[0], Call::DeleteSurroundingText(2, 1, 0, 0));
    assert_eq!(sink.calls[1], Call::CommitString("ầ".to_owned()));
    assert_eq!(s.shadow.text(), "ầ");
}

#[test]
fn tier1_multibyte_delete_can_emit_char_count_primary_length() {
    let mut s = Strategy::new(BackspaceMethod::SurroundingText);
    s.shadow.append("ư");
    let mut sink = MockSink::default();
    s.apply(1, "ự", 1, 0, &mut sink, DeleteUnit::Chars);
    assert_eq!(sink.calls[0], Call::DeleteSurroundingText(1, 1, 0, 0));
    assert_eq!(sink.calls[1], Call::CommitString("ự".to_owned()));
    assert_eq!(s.shadow.text(), "ự");
}

#[test]
fn tier1_retroactive_pho_horn_to_pho_hook() {
    let mut s = Strategy::new(BackspaceMethod::SurroundingText);
    s.shadow.append("phơ");
    let mut sink = MockSink::default();
    s.apply(1, "ở", 1, 0, &mut sink, DeleteUnit::Bytes);
    assert_eq!(sink.calls[0], Call::DeleteSurroundingText(2, 1, 0, 0));
    assert_eq!(sink.calls[1], Call::CommitString("ở".to_owned()));
    assert_eq!(s.shadow.text(), "phở");
}

#[test]
fn tier1_multi_char_delete() {
    let mut s = Strategy::new(BackspaceMethod::SurroundingText);
    s.shadow.append("tieê");
    let mut sink = MockSink::default();
    s.apply(4, "tiến", 1, 0, &mut sink, DeleteUnit::Bytes);
    assert_eq!(sink.calls[0], Call::DeleteSurroundingText(5, 4, 0, 0));
    assert_eq!(sink.calls[1], Call::CommitString("tiến".to_owned()));
}

#[test]
fn tier2_single_backspace() {
    let mut s = Strategy::new(BackspaceMethod::ForwardKey);
    s.shadow.append("a");
    let mut sink = MockSink::default();
    s.apply(1, "â", 1, 0, &mut sink, DeleteUnit::Bytes);
    assert_eq!(
        sink.calls,
        vec![
            Call::VkKey(0, 14, KeyState::Pressed),
            Call::VkKey(0, 14, KeyState::Released),
            Call::CommitString("â".to_owned()),
            Call::Commit(1),
        ]
    );
}

#[test]
fn tier2_three_backspaces() {
    let mut s = Strategy::new(BackspaceMethod::ForwardKey);
    s.shadow.append("abc");
    let mut sink = MockSink::default();
    s.apply(3, "x", 2, 5, &mut sink, DeleteUnit::Bytes);

    assert_eq!(sink.calls.len(), 8);
    assert_eq!(sink.calls[0], Call::VkKey(5, 14, KeyState::Pressed));
    assert_eq!(sink.calls[1], Call::VkKey(5, 14, KeyState::Released));
    assert_eq!(sink.calls[2], Call::VkKey(5, 14, KeyState::Pressed));
    assert_eq!(sink.calls[3], Call::VkKey(5, 14, KeyState::Released));
    assert_eq!(sink.calls[4], Call::VkKey(5, 14, KeyState::Pressed));
    assert_eq!(sink.calls[5], Call::VkKey(5, 14, KeyState::Released));
    assert_eq!(sink.calls[6], Call::CommitString("x".to_owned()));
    assert_eq!(sink.calls[7], Call::Commit(2));
}

#[test]
fn tier2_shadow_updated() {
    let mut s = Strategy::new(BackspaceMethod::ForwardKey);
    s.shadow.append("abc");
    let mut sink = MockSink::default();
    s.apply(1, "â", 1, 0, &mut sink, DeleteUnit::Bytes);
    assert_eq!(s.shadow.text(), "abâ");
}

#[test]
fn tier4_single_backspace_and_commit() {
    let mut s = Strategy::new(BackspaceMethod::VkOnly);
    s.shadow.append("a");
    let mut sink = MockSink::default();
    s.apply(1, "â", 7, 42, &mut sink, DeleteUnit::Bytes);
    assert_eq!(
        sink.calls,
        vec![
            Call::VkKey(42, 14, KeyState::Pressed),
            Call::VkKey(42, 14, KeyState::Released),
            Call::VkCommitChar(42, 'â'),
        ]
    );
    assert!(!sink
        .calls
        .iter()
        .any(|c| matches!(c, Call::CommitString(_))));
    assert!(!sink.calls.iter().any(|c| matches!(c, Call::Commit(_))));
    assert_eq!(s.shadow.text(), "â");
}

#[test]
fn tier4_multichar_commit_each_via_vk() {
    let mut s = Strategy::new(BackspaceMethod::VkOnly);
    s.shadow.append("ph");
    let mut sink = MockSink::default();
    s.apply(0, "ởn", 0, 5, &mut sink, DeleteUnit::Bytes);
    assert_eq!(
        sink.calls,
        vec![Call::VkCommitChar(5, 'ở'), Call::VkCommitChar(5, 'n'),]
    );
    assert_eq!(s.shadow.text(), "phởn");
}

#[test]
fn tier4_three_backspaces() {
    let mut s = Strategy::new(BackspaceMethod::VkOnly);
    s.shadow.append("abc");
    let mut sink = MockSink::default();
    s.apply(3, "x", 1, 0, &mut sink, DeleteUnit::Bytes);
    assert_eq!(
        sink.calls,
        vec![
            Call::VkKey(0, 14, KeyState::Pressed),
            Call::VkKey(0, 14, KeyState::Released),
            Call::VkKey(0, 14, KeyState::Pressed),
            Call::VkKey(0, 14, KeyState::Released),
            Call::VkKey(0, 14, KeyState::Pressed),
            Call::VkKey(0, 14, KeyState::Released),
            Call::VkCommitChar(0, 'x'),
        ]
    );
    assert_eq!(s.shadow.text(), "x");
}

#[test]
fn surrounding_text_syncs_shadow() {
    let mut s = Strategy::new(BackspaceMethod::SurroundingText);
    s.on_surrounding_text("cha", 3, 3);
    assert_eq!(s.shadow.text(), "cha");
}

#[test]
fn tier1_uses_surrounding_text_bytes() {
    let mut s = Strategy::new(BackspaceMethod::SurroundingText);
    s.on_surrounding_text("châ", 4, 4);
    let mut sink = MockSink::default();
    s.apply(1, "ầ", 1, 0, &mut sink, DeleteUnit::Bytes);
    assert_eq!(sink.calls[0], Call::DeleteSurroundingText(2, 1, 0, 0));
    assert_eq!(sink.calls[1], Call::CommitString("ầ".to_owned()));
}

#[test]
fn tier1_selection_falls_back_to_forward_key() {
    let mut s = Strategy::new(BackspaceMethod::SurroundingText);
    s.on_surrounding_text("translate", 3, 9);
    let mut sink = MockSink::default();
    s.apply(1, "â", 1, 0, &mut sink, DeleteUnit::Bytes);
    assert_eq!(
        sink.calls,
        vec![
            Call::VkKey(0, 14, KeyState::Pressed),
            Call::VkKey(0, 14, KeyState::Released),
            Call::VkKey(0, 14, KeyState::Pressed),
            Call::VkKey(0, 14, KeyState::Released),
            Call::CommitString("â".to_owned()),
            Call::Commit(1),
        ]
    );
    assert_eq!(s.shadow.text(), "trâ");
}

#[test]
fn reset_shadow_clears() {
    let mut s = Strategy::new(BackspaceMethod::SurroundingText);
    s.shadow.append("hello");
    s.reset_shadow();
    assert_eq!(s.shadow.text(), "");
}

#[test]
fn a_selection_before_the_cursor_takes_backspace_keys() {
    let mut s = Strategy::new(BackspaceMethod::SurroundingText);
    s.shadow.observe_surrounding("abc", 3, 1);
    assert!(s.shadow.has_selection());
    let mut sink = MockSink::default();
    s.apply(1, "x", 1, 0, &mut sink, DeleteUnit::Bytes);
    assert_eq!(
        sink.calls,
        vec![
            Call::VkKey(0, 14, KeyState::Pressed),
            Call::VkKey(0, 14, KeyState::Released),
            Call::VkKey(0, 14, KeyState::Pressed),
            Call::VkKey(0, 14, KeyState::Released),
            Call::CommitString("x".to_owned()),
            Call::Commit(1),
        ]
    );
}

#[test]
fn a_frame_with_a_caret_selects_nothing() {
    let mut s = Strategy::new(BackspaceMethod::SurroundingText);
    s.on_surrounding_text("abc", 2, 2);
    assert!(!s.shadow.has_selection());
    s.on_surrounding_text("abc", 2, 3);
    assert!(s.shadow.has_selection());
}

/// A sink whose keyboard has some keys, and which commits some texts as keysyms.
#[derive(Debug, Default)]
struct Narrow {
    keys: Vec<char>,
    keysyms: Vec<String>,
    calls: Vec<Call>,
    asked: Vec<String>,
}

impl OutputSink for Narrow {
    fn delete_surrounding_text(&mut self, bb: u32, bc: u32, ab: u32, ac: u32) {
        self.calls.push(Call::DeleteSurroundingText(bb, bc, ab, ac));
    }
    fn commit_string(&mut self, text: &str) {
        self.calls.push(Call::CommitString(text.to_owned()));
    }
    fn commit(&mut self, serial: u32) {
        self.calls.push(Call::Commit(serial));
    }
    fn vk_key(&mut self, time: u32, key_code: u32, state: KeyState) {
        self.calls.push(Call::VkKey(time, key_code, state));
    }
    fn vk_modifiers(&mut self, depressed: u32, latched: u32, locked: u32, group: u32) {
        self.calls.push(Call::VkModifiers(depressed, latched, locked, group));
    }
    fn vk_can_type(&self, c: char) -> bool {
        self.keys.contains(&c)
    }
    fn vk_commit_char(&mut self, time: u32, c: char) -> bool {
        let has_key = self.keys.contains(&c);
        if has_key {
            self.calls.push(Call::VkCommitChar(time, c));
        }
        has_key
    }
    fn commit_via_keysym(&mut self, _serial: u32, _time: u32, text: &str) -> bool {
        self.asked.push(text.to_owned());
        self.keysyms.iter().any(|k| k == text)
    }
}

fn keyboard_of_a_and_b() -> Narrow {
    Narrow { keys: vec!['a', 'b'], ..Narrow::default() }
}

#[test]
fn a_replacement_goes_out_whole_or_not_by_keys() {
    let mut s = Strategy::new(BackspaceMethod::ForwardKey);
    let mut sink = keyboard_of_a_and_b();
    s.apply_forward_key(0, "a\u{2603}b", 1, 0, &mut sink);
    assert_eq!(sink.calls, vec![Call::CommitString("a\u{2603}b".to_owned()), Call::Commit(1)]);
    assert_eq!(sink.asked, vec!["a\u{2603}b".to_owned()]);
}

#[test]
fn a_replacement_that_has_keys_is_typed() {
    let mut s = Strategy::new(BackspaceMethod::ForwardKey);
    let mut sink = keyboard_of_a_and_b();
    s.apply_forward_key(1, "ab", 1, 7, &mut sink);
    assert_eq!(
        sink.calls,
        vec![
            Call::VkKey(7, 14, KeyState::Pressed),
            Call::VkKey(7, 14, KeyState::Released),
            Call::VkCommitChar(7, 'a'),
            Call::VkCommitChar(7, 'b'),
        ]
    );
    assert!(sink.asked.is_empty());
}

#[test]
fn a_replacement_without_keys_goes_out_as_keysyms() {
    let mut s = Strategy::new(BackspaceMethod::ForwardKey);
    let mut sink = keyboard_of_a_and_b();
    sink.keysyms.push("\u{e2}".to_owned());
    s.apply_forward_key(0, "\u{e2}", 1, 0, &mut sink);
    assert_eq!(sink.asked, vec!["\u{e2}".to_owned()]);
    assert!(sink.calls.is_empty());
}

#[test]
fn each_char_without_a_key_is_committed_by_itself() {
    let mut s = Strategy::new(BackspaceMethod::VkOnly);
    let mut sink = keyboard_of_a_and_b();
    s.apply(0, "a\u{2603}b", 1, 3, &mut sink, DeleteUnit::Bytes);
    assert_eq!(
        sink.calls,
        vec![
            Call::VkCommitChar(3, 'a'),
            Call::CommitString("\u{2603}".to_owned()),
            Call::VkCommitChar(3, 'b'),
        ]
    );
}
