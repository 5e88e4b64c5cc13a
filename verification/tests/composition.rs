use std::time::{Duration, Instant};

use daklak::composer::edit_model::EditModel;
use daklak::composer::observer::{SurroundingDecision, SurroundingObserver};
use daklak::composer::{ByteCursor, Composer};
use daklak::config::{Config, MethodConfig};
use daklak::control::ConfigChange;
use daklak::edit::modifiers::{ModifierState, CTRL};
use daklak::edit::{BackspaceMethod, DeleteUnit, KeyDecision, KeyState, OutputSink};
use daklak::engine::{EngineState, InputMethod, ProcessResult, SyllableEngine, Verbatim};
use daklak::evdev::session::EvdevSession;
use daklak::evdev::EvdevHandler;
use daklak::handler::frames::FrameSnapshot;
use daklak::handler::grab::KeyPress;
use daklak::handler::keys::is_nav_key;
use daklak::handler::Daemon;
use daklak::keystrokes::chars_from_composed;
use daklak::words::{
    char_to_byte_offset as c2b, current_word_before_cursor, current_word_before_insertion_point,
    detect_deletion as del, detect_one_char_insertion as oci,
};

const VOWELS: [&str; 12] = [
    "aáàảãạ", "ăắằẳẵặ", "âấầẩẫậ", "eéèẻẽẹ", "êếềểễệ", "iíìỉĩị", "oóòỏõọ", "ôốồổỗộ", "ơớờởỡợ",
    "uúùủũụ", "ưứừửữự", "yýỳỷỹỵ",
];

const INITIALS: [&str; 29] = [
    "", "b", "c", "ch", "d", "đ", "g", "gh", "gi", "h", "k", "kh", "l", "m", "n", "ng", "ngh", "nh",
    "p", "ph", "q", "r", "s", "t", "th", "tr", "v", "x", "qu",
];

const CLUSTERS: [&str; 47] = [
    "a", "ă", "â", "e", "ê", "i", "o", "ô", "ơ", "u", "ư", "y", "ai", "ao", "au", "ay", "âu", "ây",
    "eo", "êu", "ia", "iê", "iêu", "iu", "oa", "oai", "oay", "oă", "oe", "oi", "ôi", "ơi", "ua",
    "uâ", "uây", "uê", "ui", "uy", "uyê", "uô", "uôi", "ưa", "ưi", "ưo", "ươ", "ươi", "ưu",
];

const OPEN: [&str; 22] = [
    "ai", "ao", "au", "ay", "âu", "ây", "eo", "êu", "ia", "iêu", "iu", "oai", "oay", "oi", "ôi", "ơi",
    "ua", "uây", "ui", "uôi", "ưa", "ưi",
];

const FINALS: [&str; 9] = ["", "c", "ch", "h", "m", "n", "ng", "nh", "p"];

/// A small syllable engine: enough Telex and VNI for the words below. A word
/// that cannot be a syllable any more goes back to the keys as they were typed.
struct Mini {
    method: InputMethod,
    brackets: bool,
    modern: bool,
    keys: Vec<char>,
    cells: Vec<char>,
    tone: usize,
    from_w: bool,
    raw: bool,
}

fn vowel(c: char) -> bool {
    VOWELS.iter().any(|v| v.starts_with(c.to_ascii_lowercase()))
}

fn text(cells: &[char]) -> String {
    cells.iter().collect()
}

impl Mini {
    fn split(&self) -> (usize, usize) {
        let n = self.cells.len();
        let mut start = 0;
        while start < n && !vowel(self.cells[start]) {
            start += 1;
        }
        if start == 1 && n > 2 && text(&self.cells[..2]) == "qu" && vowel(self.cells[2]) {
            start = 2;
        }
        let mut end = start;
        while end < n && vowel(self.cells[end]) {
            end += 1;
        }
        (start, end)
    }

    fn valid(&self) -> bool {
        let (start, end) = self.split();
        let head = text(&self.cells[..start]);
        let body = text(&self.cells[start..end]);
        let tail = text(&self.cells[end..]);
        let stop = tail == "c" || tail == "ch" || tail == "p" || tail == "t";
        let known_tail = FINALS.contains(&tail.as_str()) || tail == "t";
        let soft = head != "k" || ["e", "ê", "i", "y"].iter().any(|v| body.starts_with(v));
        INITIALS.contains(&head.as_str())
            && CLUSTERS.contains(&body.as_str())
            && known_tail
            && (tail.is_empty() || !OPEN.contains(&body.as_str()))
            && soft
            && (!stop || self.tone == 0 || self.tone == 1 || self.tone == 5)
    }

    fn tone_at(&self) -> usize {
        let (start, end) = self.split();
        let mut at = start;
        let mut marked = false;
        for i in start..end {
            if !self.cells[i].is_ascii() {
                at = i;
                marked = true;
            }
        }
        if marked {
            return at;
        }
        if end < self.cells.len() {
            return end - 1;
        }
        let body = text(&self.cells[start..end]);
        if end - start == 3 {
            return start + 1;
        }
        if end - start == 2 && self.modern && (body == "oa" || body == "oe" || body == "uy") {
            return start + 1;
        }
        start
    }

    fn shown(&self) -> String {
        let (start, end) = self.split();
        if self.tone == 0 || start == end {
            return text(&self.cells);
        }
        let mut cells = self.cells.clone();
        let at = self.tone_at();
        let row = VOWELS.iter().find(|v| v.starts_with(cells[at])).unwrap();
        cells[at] = row.chars().nth(self.tone).unwrap();
        text(&cells)
    }

    /// Put `c` in place of the last vowel that is one of `from`, if that makes a
    /// syllable.
    fn reshape(&mut self, from: &str, c: char) -> bool {
        let (start, end) = self.split();
        for i in (start..end).rev() {
            if from.contains(self.cells[i]) {
                let was = self.cells[i];
                self.cells[i] = c;
                if self.valid() {
                    return true;
                }
                self.cells[i] = was;
            }
        }
        false
    }

    /// Undo a mark: the vowel `c` becomes `plain` again and the key stands as it is.
    fn unmark(&mut self, c: char, plain: char, key: char) -> bool {
        let (start, end) = self.split();
        for i in (start..end).rev() {
            if self.cells[i] == c {
                self.cells[i] = plain;
                self.cells.push(key);
                self.raw = true;
                return true;
            }
        }
        false
    }

    fn mark_tone(&mut self, tone: usize, key: char) -> bool {
        let (start, end) = self.split();
        if start == end {
            return false;
        }
        if self.tone == tone {
            self.tone = 0;
            self.cells.push(key);
            self.raw = true;
            return true;
        }
        let was = self.tone;
        self.tone = tone;
        if self.valid() {
            return true;
        }
        self.tone = was;
        false
    }

    fn horn(&mut self, key: char) -> bool {
        let (start, end) = self.split();
        if self.from_w && self.cells.last() == Some(&'ư') {
            self.cells.pop();
            self.cells.push(key);
            self.raw = true;
            return true;
        }
        let body = text(&self.cells[start..end]);
        if body.starts_with("uo") {
            self.cells[start] = 'ư';
            self.cells[start + 1] = 'ơ';
            return true;
        }
        self.unmark('ă', 'a', key)
            || self.unmark('ơ', 'o', key)
            || self.unmark('ư', 'u', key)
            || self.reshape("aâ", 'ă')
            || self.reshape("oô", 'ơ')
            || self.reshape("u", 'ư')
    }

    fn stroke(&mut self) -> bool {
        if self.cells.first() == Some(&'d') {
            self.cells[0] = 'đ';
            if self.cells.len() == 1 || self.valid() {
                return true;
            }
            self.cells[0] = 'd';
        }
        false
    }

    fn transform(&mut self, key: char) -> bool {
        match (self.method, key) {
            (InputMethod::Vni, '1'..='5') => self.mark_tone(key as usize - '0' as usize, key),
            (InputMethod::Vni, '6') => {
                self.reshape("aă", 'â') || self.reshape("e", 'ê') || self.reshape("oơ", 'ô')
            }
            (InputMethod::Vni, '7') => self.reshape("oô", 'ơ') || self.reshape("u", 'ư'),
            (InputMethod::Vni, '8') => self.reshape("aâ", 'ă'),
            (InputMethod::Vni, '9') => self.stroke(),
            (InputMethod::Vni, _) => false,
            (_, 's') => self.mark_tone(1, key),
            (_, 'f') => self.mark_tone(2, key),
            (_, 'r') => self.mark_tone(3, key),
            (_, 'x') => self.mark_tone(4, key),
            (_, 'j') => self.mark_tone(5, key),
            (_, 'a') => self.unmark('â', 'a', key) || self.reshape("aă", 'â'),
            (_, 'e') => self.unmark('ê', 'e', key) || self.reshape("e", 'ê'),
            (_, 'o') => self.unmark('ô', 'o', key) || self.reshape("oơ", 'ô'),
            (_, 'd') => self.stroke(),
            (_, 'w') => {
                let (start, end) = self.split();
                if start == end {
                    self.cells.push('ư');
                    self.from_w = true;
                    return true;
                }
                self.horn(key)
            }
            (_, '[') => {
                self.cells.push('ơ');
                true
            }
            _ => false,
        }
    }

    fn takes(&self, key: char) -> bool {
        key.is_ascii_alphabetic()
            || (self.method == InputMethod::Vni && key.is_ascii_digit())
            || (self.method == InputMethod::Telex && self.brackets && key == '[')
    }

    fn forget(&mut self) {
        self.keys.clear();
        self.cells.clear();
        self.tone = 0;
        self.from_w = false;
        self.raw = false;
    }
}

fn untouched() -> ProcessResult {
    ProcessResult { backspaces: 0, commit: String::new(), consumed: false }
}

impl SyllableEngine for Mini {
    fn fresh(method: InputMethod, plain_brackets: bool) -> Self {
        Mini {
            method,
            brackets: !plain_brackets,
            modern: true,
            keys: Vec::new(),
            cells: Vec::new(),
            tone: 0,
            from_w: false,
            raw: false,
        }
    }

    fn process(&mut self, key: char) -> ProcessResult {
        if !self.takes(key) {
            self.forget();
            return untouched();
        }
        let before = self.shown();
        self.keys.push(key);
        if self.raw {
            self.cells.push(key);
            return untouched();
        }
        if !self.transform(key) {
            self.cells.push(key);
            if self.shown() != text(&self.keys) && !self.valid() {
                self.cells = self.keys.clone();
                self.tone = 0;
                self.raw = true;
                return ProcessResult {
                    backspaces: before.chars().count(),
                    commit: text(&self.keys),
                    consumed: true,
                };
            }
        }
        let after = self.shown();
        if after == format!("{before}{key}") {
            let starts = before.is_empty() && vowel(key);
            let commit = if starts { after } else { String::new() };
            return ProcessResult { backspaces: 0, commit, consumed: starts };
        }
        let same = before.chars().zip(after.chars()).take_while(|(a, b)| a == b).count();
        ProcessResult {
            backspaces: before.chars().count() - same,
            commit: after.chars().skip(same).collect(),
            consumed: true,
        }
    }

    fn process_backspace(&mut self) -> ProcessResult {
        self.cells.pop();
        if self.cells.is_empty() {
            self.forget();
        } else if self.raw {
            self.keys.pop();
        } else {
            let (start, end) = self.split();
            if start == end {
                self.tone = 0;
            }
            let mut keys = Vec::new();
            for c in self.shown().chars() {
                keys.extend(chars_from_composed(c, self.method).chars());
            }
            self.keys = keys;
        }
        untouched()
    }

    fn reset(&mut self) {
        self.forget();
    }

    fn feed_context(&mut self, keys: &str) -> bool {
        self.forget();
        for key in keys.chars() {
            self.process(key);
        }
        !self.cells.is_empty()
    }

    fn at_word_beginning(&self) -> bool {
        self.cells.is_empty()
    }

    fn modern_style(&self) -> bool {
        self.modern
    }

    fn set_modern_style(&mut self, enabled: bool) {
        self.modern = enabled;
    }
}

#[derive(Default)]
struct DeleteCaptureSink {
    deletes: Vec<(u32, u32, u32, u32)>,
    vk_keys: Vec<(u32, u32, KeyState)>,
    commits: Vec<String>,
}

impl OutputSink for DeleteCaptureSink {
    fn delete_surrounding_text(
        &mut self,
        before_bytes: u32,
        before_chars: u32,
        after_bytes: u32,
        after_chars: u32,
    ) {
        self.deletes
            .push((before_bytes, before_chars, after_bytes, after_chars));
    }

    fn commit_string(&mut self, text: &str) {
        self.commits.push(text.to_owned());
    }

    fn commit(&mut self, _serial: u32) {}

    fn vk_key(&mut self, time: u32, key_code: u32, state: KeyState) {
        self.vk_keys.push((time, key_code, state));
    }

    fn vk_modifiers(&mut self, _depressed: u32, _latched: u32, _locked: u32, _group: u32) {}

    fn vk_can_type(&self, _ch: char) -> bool {
        false
    }

    fn vk_commit_char(&mut self, _time: u32, _ch: char) -> bool {
        false
    }

    fn commit_via_keysym(&mut self, _serial: u32, _time: u32, _text: &str) -> bool {
        false
    }
}

#[test]
fn stale_surrounding_echo_arms_char_delete_for_composed_chars() {
    let mut c = Composer::<Mini>::new(InputMethod::Telex, BackspaceMethod::SurroundingText, false);
    let mut sink = DeleteCaptureSink::default();

    c.observe_surrounding_bytes("tu", ByteCursor(2), ByteCursor(2), true);
    c.mark_action();
    c.apply_to_sink(1, "ư", 1, 0, &mut sink);
    assert_eq!(c.shadow_text(), "tư");

    c.observe_surrounding_bytes("tu", ByteCursor(2), ByteCursor(2), false);

    c.mark_action();
    c.apply_to_sink(1, "ự", 2, 0, &mut sink);

    assert_eq!(sink.deletes.len(), 1);
    assert_eq!(sink.vk_keys.len(), 2);
    assert_eq!(sink.vk_keys[0], (0, 14, KeyState::Pressed));
    assert_eq!(sink.vk_keys[1], (0, 14, KeyState::Released));
    assert_eq!(c.shadow_text(), "tự");
}

#[test]
fn duplicate_stale_echo_is_not_skipped_while_waiting_for_correction_echo() {
    let mut c = Composer::<Mini>::new(InputMethod::Telex, BackspaceMethod::SurroundingText, false);
    let mut sink = DeleteCaptureSink::default();

    c.observe_surrounding_bytes("tu", ByteCursor(2), ByteCursor(2), true);
    c.mark_action();
    c.apply_to_sink(1, "ư", 1, 0, &mut sink);

    assert!(c.is_duplicate_frame("tu", 2, 2));
    assert!(!c.should_skip_surrounding_frame("tu", 2, 2, false, false));

    c.observe_surrounding_bytes("tu", ByteCursor(2), ByteCursor(2), false);
    c.mark_action();
    c.apply_to_sink(1, "ự", 2, 0, &mut sink);

    assert_eq!(sink.deletes.len(), 1);
    assert_eq!(sink.vk_keys.len(), 2);
    assert_eq!(sink.vk_keys[0], (0, 14, KeyState::Pressed));
    assert_eq!(sink.vk_keys[1], (0, 14, KeyState::Released));
}

#[test]
fn stale_mode_keeps_using_forward_key_until_a_fresh_echo() {
    let mut c = Composer::<Mini>::new(InputMethod::Telex, BackspaceMethod::SurroundingText, false);
    let mut sink = DeleteCaptureSink::default();

    c.observe_surrounding_bytes("tu", ByteCursor(2), ByteCursor(2), true);
    c.mark_action();
    c.apply_to_sink(1, "ư", 1, 0, &mut sink);

    c.observe_surrounding_bytes("tu", ByteCursor(2), ByteCursor(2), false);

    c.mark_action();
    c.apply_to_sink(1, "ự", 2, 0, &mut sink);
    c.mark_action();
    c.apply_to_sink(1, "ữ", 3, 0, &mut sink);

    assert_eq!(sink.deletes.len(), 1);
    assert_eq!(sink.vk_keys.len(), 4);
    assert_eq!(sink.vk_keys[0], (0, 14, KeyState::Pressed));
    assert_eq!(sink.vk_keys[1], (0, 14, KeyState::Released));
    assert_eq!(sink.vk_keys[2], (0, 14, KeyState::Pressed));
    assert_eq!(sink.vk_keys[3], (0, 14, KeyState::Released));
}

#[test]
fn fresh_surrounding_echo_keeps_byte_delete() {
    let mut c = Composer::<Mini>::new(InputMethod::Telex, BackspaceMethod::SurroundingText, false);
    let mut sink = DeleteCaptureSink::default();

    c.observe_surrounding_bytes("tu", ByteCursor(2), ByteCursor(2), true);
    c.mark_action();
    c.apply_to_sink(1, "ư", 1, 0, &mut sink);

    c.observe_surrounding_bytes("tư", ByteCursor(3), ByteCursor(3), false);
    c.mark_action();
    c.apply_to_sink(1, "ự", 2, 0, &mut sink);

    assert_eq!(sink.deletes[1], (2, 1, 0, 0));
}

#[test]
fn space_after_stale_echo_forwards_raw_and_sticky_mode_persists() {
    let mut c = Composer::<Mini>::new(InputMethod::Telex, BackspaceMethod::SurroundingText, false);
    let mut sink = DeleteCaptureSink::default();

    c.observe_surrounding_bytes("tu", ByteCursor(2), ByteCursor(2), true);
    c.mark_action();
    c.apply_to_sink(1, "ư", 1, 0, &mut sink);
    c.observe_surrounding_bytes("tu", ByteCursor(2), ByteCursor(2), false);

    assert!(matches!(c.feed_key(' '), KeyDecision::ForwardRaw));
}

#[test]
fn forwarded_char_after_stale_echo_resets_char_delete_before_next_correction() {
    let mut c = Composer::<Mini>::new(InputMethod::Telex, BackspaceMethod::SurroundingText, false);
    let mut sink = DeleteCaptureSink::default();

    c.observe_surrounding_bytes("d", ByteCursor(1), ByteCursor(1), true);
    for (ch, text) in [('o', "do"), ('e', "doe")] {
        c.mark_action();
        assert!(matches!(c.feed_key(ch), KeyDecision::ForwardRaw));
        c.observe_surrounding_bytes(
            text,
            ByteCursor(text.len() as u32),
            ByteCursor(text.len() as u32),
            false,
        );
    }

    c.mark_action();

    match c.feed_key('s') {
        KeyDecision::Apply {
            backspaces, commit, ..
        } => c.apply_to_sink(backspaces, &commit, 1, 0, &mut sink),
        _ => panic!("expected stale-echo setup tone edit"),
    }
    c.observe_surrounding_bytes("doe", ByteCursor(3), ByteCursor(3), false);

    c.mark_action();
    assert!(matches!(c.feed_key('n'), KeyDecision::ForwardRaw));

    c.mark_action();
    match c.feed_key('t') {
        KeyDecision::Apply {
            backspaces, commit, ..
        } => {
            assert_eq!(backspaces, 4);
            assert_eq!(commit, "doesnt");
            c.apply_to_sink(backspaces, &commit, 2, 0, &mut sink);
        }
        _ => panic!("expected deconversion to raw English word"),
    }

    assert_eq!(sink.deletes.last(), Some(&(5, 4, 0, 0)));
}

#[test]
fn retroactive_stale_echo_keeps_byte_delete_for_multibyte_tone_updates() {
    let mut c = Composer::<Mini>::new(InputMethod::Telex, BackspaceMethod::SurroundingText, false);
    let mut sink = DeleteCaptureSink::default();
    let text = "cà phê";
    let cursor = "cà".len() as u32;

    c.observe_surrounding_bytes(text, ByteCursor(cursor), ByteCursor(cursor), false);

    c.mark_action();
    match c.feed_key('r') {
        KeyDecision::Apply {
            backspaces, commit, ..
        } => {
            assert_eq!(backspaces, 1);
            assert_eq!(commit, "ả");
            c.apply_to_sink(backspaces, &commit, 0, 0, &mut sink);
        }
        _ => panic!("expected retroactive tone replacement"),
    }

    c.observe_surrounding_bytes(text, ByteCursor("cà ".len() as u32), ByteCursor("cà ".len() as u32), false);

    c.mark_action();
    match c.feed_key('j') {
        KeyDecision::Apply {
            backspaces, commit, ..
        } => {
            assert_eq!(backspaces, 1);
            assert_eq!(commit, "ạ");
            c.apply_to_sink(backspaces, &commit, 0, 0, &mut sink);
        }
        _ => panic!("expected second retroactive tone replacement"),
    }

    assert_eq!(sink.deletes[1], (3, 1, 0, 0));
}

#[test]
fn retroactive_stale_cursor_into_next_word_uses_forward_key_delete() {
    let mut c = Composer::<Mini>::new(InputMethod::Telex, BackspaceMethod::SurroundingText, false);
    let mut sink = DeleteCaptureSink::default();

    c.observe_surrounding_bytes(
        "là lạ",
        ByteCursor("là".len() as u32),
        ByteCursor("là".len() as u32),
        false,
    );

    c.mark_action();
    match c.feed_key('j') {
        KeyDecision::Apply {
            backspaces, commit, ..
        } => {
            assert_eq!(backspaces, 1);
            assert_eq!(commit, "ạ");
            c.apply_to_sink(backspaces, &commit, 0, 0, &mut sink);
        }
        _ => panic!("expected first retroactive tone replacement"),
    }
    assert_eq!(c.shadow_text(), "lạ");

    c.observe_surrounding_bytes(
        "lạ lạ",
        ByteCursor("lạ l".len() as u32),
        ByteCursor("lạ l".len() as u32),
        false,
    );

    c.mark_action();
    match c.feed_key('r') {
        KeyDecision::Apply {
            backspaces, commit, ..
        } => {
            assert_eq!(backspaces, 1);
            assert_eq!(commit, "ả");
            c.apply_to_sink(backspaces, &commit, 0, 0, &mut sink);
        }
        _ => panic!("expected second retroactive tone replacement"),
    }

    assert_eq!(sink.deletes.len(), 1);
    assert_eq!(sink.vk_keys.len(), 2);
    assert_eq!(sink.vk_keys[0], (0, 14, KeyState::Pressed));
    assert_eq!(sink.vk_keys[1], (0, 14, KeyState::Released));
    assert_eq!(c.shadow_text(), "lả");
}

#[test]
fn stale_firefox_echo_marks_commit_string_unusable_before_forward_key() {
    let mut c = Composer::<Mini>::new(InputMethod::Telex, BackspaceMethod::SurroundingText, false);
    let mut sink = DeleteCaptureSink::default();

    c.observe_surrounding_bytes("la", ByteCursor(2), ByteCursor(2), true);
    c.mark_action();
    c.apply_to_sink(1, "ả", 1, 0, &mut sink);
    assert!(c.commit_string_functional);

    c.observe_surrounding_bytes(
        "lạ l",
        ByteCursor("lạ l".len() as u32),
        ByteCursor("lạ l".len() as u32),
        false,
    );

    assert!(c.firefox.use_forward_delete());
    assert!(!c.commit_string_functional);
}

#[test]
fn full_reset_preserves_commit_string_ratchet_for_composer_lifetime() {
    let mut c =
        Composer::<Mini>::new(InputMethod::Telex, BackspaceMethod::SurroundingText, false);
    let mut sink = DeleteCaptureSink::default();

    c.observe_surrounding_bytes("la", ByteCursor(2), ByteCursor(2), true);
    c.mark_action();
    c.apply_to_sink(1, "ả", 1, 0, &mut sink);
    c.observe_surrounding_bytes(
        "lạ l",
        ByteCursor("lạ l".len() as u32),
        ByteCursor("lạ l".len() as u32),
        false,
    );
    assert!(!c.commit_string_functional);

    c.full_reset();

    assert!(
        !c.commit_string_functional,
        "ratchet must survive full_reset; recovery is Composer recreation only"
    );
}

#[test]
fn sticky_forward_mode_keeps_delete_channel_after_first_stale_hit() {
    let mut c = Composer::<Mini>::new(InputMethod::Telex, BackspaceMethod::SurroundingText, false);
    let mut sink = DeleteCaptureSink::default();

    c.observe_surrounding_bytes("la", ByteCursor(2), ByteCursor(2), true);

    c.firefox.record_expected_echo("lả".to_owned(), "l".to_owned());
    c.firefox.observe_surrounding("lạ l", true, false);
    assert!(c.firefox.use_forward_delete());

    c.mark_action();
    c.apply_to_sink(1, "ả", 1, 0, &mut sink);

    c.firefox.clear();
    c.mark_action();
    c.apply_to_sink(1, "ạ", 2, 0, &mut sink);

    assert_eq!(sink.deletes.len(), 0);
    assert_eq!(sink.vk_keys.len(), 4);
    assert_eq!(sink.vk_keys[0], (0, 14, KeyState::Pressed));
    assert_eq!(sink.vk_keys[1], (0, 14, KeyState::Released));
    assert_eq!(sink.vk_keys[2], (0, 14, KeyState::Pressed));
    assert_eq!(sink.vk_keys[3], (0, 14, KeyState::Released));
}

#[test]
fn recent_implausible_surrounding_echo_does_not_clobber_shadow() {
    let mut c = Composer::<Mini>::new(InputMethod::Telex, BackspaceMethod::SurroundingText, false);

    c.mark_action();

    let _ = c.feed_key('i');
    c.observe_surrounding_bytes("i", ByteCursor(1), ByteCursor(1), false);
    c.observe_surrounding_bytes("ii", ByteCursor(0), ByteCursor(0), false);

    assert_eq!(c.shadow_text(), "i");
    match c.feed_key('s') {
        KeyDecision::Apply {
            backspaces, commit, ..
        } => {
            assert_eq!(backspaces, 1);
            assert_eq!(commit, "í");
        }
        _ => panic!("expected tone transform"),
    }
}

#[test]
fn recent_selection_surrounding_frame_reaches_shadow() {
    let mut c = Composer::<Mini>::new(InputMethod::Telex, BackspaceMethod::SurroundingText, false);

    for ch in "tra".chars() {
        c.mark_action();
        assert!(matches!(c.feed_key(ch), KeyDecision::ForwardRaw));
    }
    assert_eq!(c.shadow_text(), "tra");

    c.mark_action();
    c.observe_surrounding_bytes("translate", ByteCursor(3), ByteCursor(9), false);

    assert_eq!(c.shadow_text(), "tra");
    let (_, _, after_bytes, _) = c.edit.strategy.shadow.pop_delete_span(1);
    assert!(after_bytes > 0, "selection-after must be recorded");
}

#[test]
fn recent_external_delete_reseeds_before_next_key() {
    let mut c = Composer::<Mini>::new(InputMethod::Telex, BackspaceMethod::SurroundingText, false);

    c.observe_surrounding_bytes("work", ByteCursor(4), ByteCursor(4), true);

    c.defer_action();
    c.observe_surrounding_bytes("wor", ByteCursor(3), ByteCursor(3), false);

    assert_eq!(c.shadow_text(), "wor");

    match c.feed_key('d') {
        KeyDecision::ForwardRaw => {}
        KeyDecision::Apply {
            backspaces, commit, ..
        } => {
            panic!("expected raw 'd', got edit bs={backspaces} commit={commit:?}");
        }
        KeyDecision::Consumed => panic!("expected raw 'd', got consumed"),
    }
}

#[test]
fn ww_undo_after_retroactive_seed_uses_forward_key() {
    let mut c = Composer::<Mini>::new(InputMethod::Telex, BackspaceMethod::SurroundingText, false);
    let mut sink = DeleteCaptureSink::default();

    c.observe_surrounding_bytes("sord ", ByteCursor(1), ByteCursor(1), true);

    c.mark_action();
    match c.feed_key('w') {
        KeyDecision::Apply {
            backspaces, commit, ..
        } => {
            assert_eq!(backspaces, 0);
            assert_eq!(commit, "ư");
            c.apply_to_sink(backspaces, &commit, 1, 0, &mut sink);
        }
        other => panic!("expected Apply for first 'w', got {:?}", std::mem::discriminant(&other)),
    }

    c.mark_action();
    match c.feed_key('w') {
        KeyDecision::Apply {
            backspaces, commit, ..
        } => {
            assert_eq!(backspaces, 1, "engine wants to delete 1 char (ư)");
            assert_eq!(commit, "w");
            c.apply_to_sink(backspaces, &commit, 2, 0, &mut sink);

            assert!(
                !sink.vk_keys.is_empty(),
                "second 'w' revert must use ForwardKey (physical BS), \
                 not delete_surrounding_text — Firefox contenteditable \
                 misinterprets byte offsets as char offsets for multibyte \
                 deletions, eating the seeded context 's' as well"
            );
        }
        other => panic!("expected Apply for second 'w', got {:?}", std::mem::discriminant(&other)),
    }
}

#[test]
fn composer_extracts_word_at_end_of_line() {
    assert_eq!(current_word_before_cursor("phow", 4), "phow");
}

#[test]
fn composer_extracts_word_in_middle_of_line() {
    assert_eq!(current_word_before_cursor("hello phow", 10), "phow");
}

#[test]
fn composer_extracts_partial_word_at_cursor() {
    assert_eq!(current_word_before_cursor("phow", 3), "pho");
}

#[test]
fn composer_empty_text_returns_empty() {
    assert_eq!(current_word_before_cursor("", 0), "");
}

#[test]
fn composer_cursor_at_start_returns_empty() {
    assert_eq!(current_word_before_cursor("hello", 0), "");
}

#[test]
fn composer_handles_multibyte_chars_at_char_boundary() {
    assert_eq!(current_word_before_cursor("trâ", 4), "trâ");
}

#[test]
fn composer_handles_cursor_inside_multibyte_char() {
    let r = current_word_before_cursor("trâ", 3);
    assert_eq!(r, "tr");
}

#[test]
fn composer_cursor_beyond_text_clamps() {
    assert_eq!(current_word_before_cursor("hi", 99), "hi");
}

#[test]
fn composer_space_separates_words() {
    assert_eq!(current_word_before_cursor("foo bar baz", 11), "baz");
}

#[test]
fn composer_tab_separates_words() {
    assert_eq!(current_word_before_cursor("foo\tbar", 7), "bar");
}

#[test]
fn composer_newline_separates_words() {
    assert_eq!(current_word_before_cursor("line1\nline2", 11), "line2");
}

#[test]
fn comma_separates_vietnamese_syllables() {
    let text = "xin,chào";
    assert_eq!(current_word_before_cursor(text, text.len() as u32), "chào");
}

#[test]
fn delimiters_separate_current_vietnamese_word() {
    assert_eq!(
        current_word_before_cursor("(tiếng", "(tiếng".len() as u32),
        "tiếng"
    );
    assert_eq!(
        current_word_before_cursor("anh/chị", "anh/chị".len() as u32),
        "chị"
    );
    assert_eq!(
        current_word_before_cursor("“đẹp", "“đẹp".len() as u32),
        "đẹp"
    );
}

#[test]
fn selection_after_word_prefix_seeds_prefix_for_both_directions() {
    let text = "the vietnamese";
    let selection_start = "the viet".len() as u32;
    let selection_end = "the vietnamese".len() as u32;

    assert_eq!(
        current_word_before_insertion_point(text, selection_start, selection_end),
        "viet"
    );
    assert_eq!(
        current_word_before_insertion_point(text, selection_end, selection_start),
        "viet"
    );
}

#[test]
fn selection_at_word_start_seeds_nothing_for_both_directions() {
    let text = "the vietnamese";
    let selection_start = "the ".len() as u32;
    let selection_end = "the viet".len() as u32;

    assert_eq!(
        current_word_before_insertion_point(text, selection_start, selection_end),
        ""
    );
    assert_eq!(
        current_word_before_insertion_point(text, selection_end, selection_start),
        ""
    );
}

#[test]
fn cursor_inside_word_ignores_suffix_after_cursor() {
    let text = "tiếng viet vui vẻ";
    let cursor = "tiếng vie".len() as u32;

    assert_eq!(
        current_word_before_insertion_point(text, cursor, cursor),
        "vie"
    );
}

#[test]
fn cursor_at_end_of_word_seeds_full_ascii_suffix_after_vietnamese_text() {
    let text = "tiếng viet vui vẻ";
    let cursor = "tiếng viet".len() as u32;

    assert_eq!(
        current_word_before_insertion_point(text, cursor, cursor),
        "viet"
    );
}

#[test]
fn kate_kww_reverts_to_kw() {
    let mut c = Composer::<Mini>::new(InputMethod::Telex, BackspaceMethod::SurroundingText, false);
    c.set_surrounding_confirmation(true);

    c.observe_surrounding_bytes("", ByteCursor(0), ByteCursor(0), false);

    c.mark_action();
    assert!(matches!(c.feed_key('k'), KeyDecision::ForwardRaw));
    assert!(c
        .observe_surrounding_bytes("k", ByteCursor(1), ByteCursor(1), false)
        .is_none());

    c.mark_action();
    match c.feed_key('w') {
        KeyDecision::Apply { backspaces, commit, .. } => {
            assert_eq!(backspaces, 0);
            assert_eq!(commit, "ư");
        }
        _ => panic!("live 'w' after k must compose ư immediately"),
    }
    let ku = "kư";
    c.observe_surrounding_bytes(ku, ByteCursor(ku.len() as u32), ByteCursor(ku.len() as u32), false);

    c.mark_action();
    match c.feed_key('w') {
        KeyDecision::Apply { backspaces, commit, .. } => {
            assert_eq!(backspaces, 1);
            assert_eq!(commit, "w");
        }
        _ => panic!("second 'w' must revert kư to kw"),
    }
}

#[test]
fn live_kwin_auto_restores_to_raw() {
    let mut c = Composer::<Mini>::new(InputMethod::Telex, BackspaceMethod::SurroundingText, false);
    c.set_surrounding_confirmation(true);

    c.observe_surrounding_bytes("", ByteCursor(0), ByteCursor(0), false);
    c.mark_action();
    assert!(matches!(c.feed_key('k'), KeyDecision::ForwardRaw));
    c.observe_surrounding_bytes("k", ByteCursor(1), ByteCursor(1), false);

    c.mark_action();
    assert!(matches!(c.feed_key('w'), KeyDecision::Apply { .. }));
    let ku = "kư";
    c.observe_surrounding_bytes(ku, ByteCursor(ku.len() as u32), ByteCursor(ku.len() as u32), false);

    c.mark_action();
    let mut screen = String::from("kư");
    for ch in ['i', 'n'] {
        c.mark_action();
        match c.feed_key(ch) {
            KeyDecision::Apply { backspaces, commit, .. } => {
                for _ in 0..backspaces {
                    screen.pop();
                }
                screen.push_str(&commit);
            }
            KeyDecision::ForwardRaw => screen.push(ch),
            _ => panic!("unexpected decision for {ch}"),
        }
        let cur = screen.len() as u32;
        c.observe_surrounding_bytes(&screen, ByteCursor(cur), ByteCursor(cur), false);
    }
    assert_eq!(screen, "kwin");
}

#[test]
fn tier_downgrade_clears_pending_raw_key_so_composition_survives() {
    let mut c = Composer::<Mini>::new(InputMethod::Telex, BackspaceMethod::SurroundingText, false);
    c.set_surrounding_confirmation(true);

    c.mark_action();
    assert!(matches!(c.feed_key('t'), KeyDecision::ForwardRaw));

    c.set_method(BackspaceMethod::ForwardKey);

    c.feed_key('a');
    match c.feed_key('a') {
        KeyDecision::Apply { backspaces, commit, .. } => {
            assert_eq!(backspaces, 1);
            assert_eq!(commit, "â");
        }
        _ => panic!("second 'a' must compose â after tier downgrade"),
    }
}

#[test]
fn backspace_on_surrounding_context_forwards_instead_of_deleting_at_shadow_cursor() {
    let mut c = Composer::<Mini>::new(InputMethod::Telex, BackspaceMethod::SurroundingText, false);
    c.set_surrounding_confirmation(true);
    let text = "tiếng việt";
    let cursor = "tiếng".len() as u32;
    c.observe_surrounding_bytes(
        text,
        ByteCursor(cursor),
        ByteCursor(cursor),
        false,
    );

    assert!(matches!(c.feed_backspace(), KeyDecision::ForwardRaw));
}

#[test]
fn overlapping_raw_keys_degrade_to_sync_without_repair() {
    let mut c = Composer::<Mini>::new(InputMethod::Telex, BackspaceMethod::SurroundingText, false);
    c.set_surrounding_confirmation(true);
    let baseline = "tiếng";
    let cursor = baseline.len() as u32;
    c.observe_surrounding_bytes(
        baseline,
        ByteCursor(cursor),
        ByteCursor(cursor),
        false,
    );

    c.mark_action();
    assert!(matches!(c.feed_key('r'), KeyDecision::ForwardRaw));
    c.mark_action();
    assert!(matches!(c.feed_key('r'), KeyDecision::ForwardRaw));

    let first = "tiếngr";
    let first_cursor = first.len() as u32;
    assert!(c
        .observe_surrounding_bytes(
            first,
            ByteCursor(first_cursor),
            ByteCursor(first_cursor),
            false,
        )
        .is_none());
    assert_eq!(c.prev_surrounding_for_trace(), (first, first_cursor));
}

#[test]
fn equal_trailing_character_without_insertion_never_triggers_repair() {
    let mut c = Composer::<Mini>::new(InputMethod::Telex, BackspaceMethod::SurroundingText, false);
    c.set_surrounding_confirmation(true);
    let text = "bar car";
    c.observe_surrounding_bytes(text, ByteCursor(3), ByteCursor(3), false);
    c.reset_composition_preserving_surrounding();

    c.mark_action();
    assert!(matches!(c.feed_key('r'), KeyDecision::ForwardRaw));

    assert!(c
        .observe_surrounding_bytes(text, ByteCursor(7), ByteCursor(7), false)
        .is_none());
    assert_eq!(c.prev_surrounding_for_trace(), (text, 7));
}

#[test]
fn telex_bracket_shortcut_composes_live_when_frame_word_fails_gate() {
    let mut c = Composer::<Mini>::new(InputMethod::Telex, BackspaceMethod::SurroundingText, true);
    c.set_surrounding_confirmation(true);

    c.observe_surrounding_bytes("t", ByteCursor(1), ByteCursor(1), false);

    c.mark_action();
    match c.feed_key('[') {
        KeyDecision::Apply { backspaces, commit, .. } => {
            assert_eq!(backspaces, 0);
            assert_eq!(commit, "ơ");
        }
        _ => panic!("live '[' must compose ơ immediately"),
    }
}

#[test]
fn vni_tone_key_on_surrounding_context_waits_for_client_confirmation() {
    let mut c = Composer::<Mini>::new(InputMethod::Vni, BackspaceMethod::SurroundingText, false);
    c.set_surrounding_confirmation(true);
    let text = "tiếng";
    let cursor = text.len() as u32;
    c.observe_surrounding_bytes(
        text,
        ByteCursor(cursor),
        ByteCursor(cursor),
        false,
    );

    c.mark_action();
    assert!(matches!(c.feed_key('3'), KeyDecision::ForwardRaw));
    let raw = "tiếng3";
    let raw_cursor = raw.len() as u32;
    assert!(c
        .observe_surrounding_bytes(
            raw,
            ByteCursor(raw_cursor),
            ByteCursor(raw_cursor),
            false,
        )
        .is_some());
}

#[test]
fn word_boundary_seed_established_during_key_still_requires_confirmation() {
    let mut c = Composer::<Mini>::new(InputMethod::Telex, BackspaceMethod::SurroundingText, false);
    c.set_surrounding_confirmation(true);
    let text = "tiếng";
    let cursor = text.len() as u32;
    c.observe_surrounding_bytes(
        text,
        ByteCursor(cursor),
        ByteCursor(cursor),
        false,
    );

    c.last_keystroke_at -= Duration::from_secs(3);
    assert!(c.check_idle_reset());
    c.context.retroactive = false;
    c.mark_action();
    assert!(matches!(c.feed_key('r'), KeyDecision::ForwardRaw));

    let raw = "tiếngr";
    let raw_cursor = raw.len() as u32;
    let repair = c
        .observe_surrounding_bytes(
            raw,
            ByteCursor(raw_cursor),
            ByteCursor(raw_cursor),
            false,
        )
        .expect("confirmed raw tone key should repair from retained shadow");
    assert_eq!(repair.backspaces, 4);
    assert_eq!(repair.commit, "ểng");
}

#[test]
fn unchanged_pre_action_frame_cannot_seed_a_positional_edit() {
    let mut c = Composer::<Mini>::new(InputMethod::Telex, BackspaceMethod::SurroundingText, false);
    c.set_surrounding_confirmation(true);
    let baseline = "tiệng việt mĩ miều";
    let old_cursor = "tiệng".len() as u32;

    c.observe_surrounding_bytes(
        baseline,
        ByteCursor(old_cursor),
        ByteCursor(old_cursor),
        false,
    );

    c.reset_composition_preserving_surrounding();
    c.defer_action();
    assert!(c.should_skip_surrounding_frame(
        baseline,
        old_cursor,
        old_cursor,
        false,
        false,
    ));

    c.mark_action();
    assert!(matches!(c.feed_key('r'), KeyDecision::ForwardRaw));

    let actual = "tiệng việtr mĩ miều";
    let actual_cursor = "tiệng việtr".len() as u32;
    let repair = c.observe_surrounding_bytes(
        actual,
        ByteCursor(actual_cursor),
        ByteCursor(actual_cursor),
        false,
    );
    let repair = repair.expect("actual insertion frame should finish the transaction");
    assert_eq!(repair.backspaces, 3);
    assert_eq!(repair.commit, "eejtr");
    assert_eq!(c.prev_surrounding_for_trace(), (actual, actual_cursor));
}

#[test]
fn stale_ctrl_backspace_frame_does_not_poison_retyped_vietnamese_word() {
    let mut c = Composer::<Mini>::new(InputMethod::Telex, BackspaceMethod::SurroundingText, false);
    c.set_surrounding_confirmation(true);
    let mut sink = DeleteCaptureSink::default();
    let stale = "tiệng vieetjr mĩ miều";
    let stale_cursor = "tiệng vieetjr".len() as u32;

    c.observe_surrounding_bytes(
        stale,
        ByteCursor(stale_cursor),
        ByteCursor(stale_cursor),
        false,
    );
    c.reset_composition_preserving_surrounding();
    c.defer_action();
    assert!(c.should_skip_surrounding_frame(
        stale,
        stale_cursor,
        stale_cursor,
        false,
        false,
    ));

    c.mark_action();
    assert!(matches!(c.feed_key('v'), KeyDecision::ForwardRaw));
    let v_text = "tiệng v mĩ miều";
    let v_cursor = "tiệng v".len() as u32;
    assert!(c
        .observe_surrounding_bytes(
            v_text,
            ByteCursor(v_cursor),
            ByteCursor(v_cursor),
            false,
        )
        .is_none());
    assert_eq!(c.shadow_text(), "tiệng v");

    for (ch, text) in [('i', "tiệng vi mĩ miều"), ('e', "tiệng vie mĩ miều")] {
        c.mark_action();
        assert!(matches!(c.feed_key(ch), KeyDecision::ForwardRaw));
        let cursor = text.split(" mĩ").next().unwrap().len() as u32;
        assert!(c
            .observe_surrounding_bytes(
                text,
                ByteCursor(cursor),
                ByteCursor(cursor),
                false,
            )
            .is_none());
    }

    c.mark_action();
    assert!(matches!(c.feed_key('e'), KeyDecision::ForwardRaw));
    let raw_ee = "tiệng viee mĩ miều";
    let raw_ee_cursor = "tiệng viee".len() as u32;
    let circumflex = c
        .observe_surrounding_bytes(
            raw_ee,
            ByteCursor(raw_ee_cursor),
            ByteCursor(raw_ee_cursor),
            false,
        )
        .expect("confirmed raw e should repair viee to viê");
    c.apply_confirmed_repair_to_sink(
        circumflex.backspaces,
        &circumflex.commit,
        0,
        0,
        &mut sink,
    );
    let composed_e = "tiệng viê mĩ miều";
    let composed_e_cursor = "tiệng viê".len() as u32;
    c.observe_surrounding_bytes(
        composed_e,
        ByteCursor(composed_e_cursor),
        ByteCursor(composed_e_cursor),
        false,
    );

    c.mark_action();
    assert!(matches!(c.feed_key('t'), KeyDecision::ForwardRaw));
    let raw_t = "tiệng viêt mĩ miều";
    let raw_t_cursor = "tiệng viêt".len() as u32;
    assert!(c
        .observe_surrounding_bytes(
            raw_t,
            ByteCursor(raw_t_cursor),
            ByteCursor(raw_t_cursor),
            false,
        )
        .is_none());

    c.mark_action();
    assert!(matches!(c.feed_key('j'), KeyDecision::ForwardRaw));
    let raw_j = "tiệng viêtj mĩ miều";
    let raw_j_cursor = "tiệng viêtj".len() as u32;
    let tone = c
        .observe_surrounding_bytes(
            raw_j,
            ByteCursor(raw_j_cursor),
            ByteCursor(raw_j_cursor),
            false,
        )
        .expect("confirmed raw j should repair viêtj to việt");
    c.apply_confirmed_repair_to_sink(
        tone.backspaces,
        &tone.commit,
        0,
        0,
        &mut sink,
    );
    assert_eq!(c.shadow_text(), "tiệng việt");
}

#[test]
fn gedit_late_fused_frame_retro_composes_forwarded_tone_key() {
    let mut c = Composer::<Mini>::new(InputMethod::Telex, BackspaceMethod::SurroundingText, false);
    c.set_surrounding_confirmation(true);
    let mut sink = DeleteCaptureSink::default();

    let baseline = "tiếng việt mĩ miều";
    c.observe_surrounding_bytes(
        baseline,
        ByteCursor(1),
        ByteCursor(1),
        false,
    );
    c.reset_composition_preserving_surrounding();
    c.defer_action();

    c.mark_action();
    assert!(matches!(c.feed_key('r'), KeyDecision::ForwardRaw));
    assert_eq!(c.shadow_text(), "r");

    let text = "tiếngr việt mĩ miều";
    let cursor = "tiếngr".len() as u32;
    let edit = c
        .observe_surrounding_bytes(text, ByteCursor(cursor), ByteCursor(cursor), false)
        .expect("late fused frame should yield a retro-compose repair");

    assert_eq!(edit.backspaces, 4);
    assert_eq!(edit.commit, "ểng");

    c.apply_confirmed_repair_to_sink(
        edit.backspaces,
        &edit.commit,
        0,
        0,
        &mut sink,
    );
    assert!(
        !c.firefox.has_pending_echo(),
        "KWin repair echoes must not enter Firefox stale classification"
    );
    let corrected = "tiểng việt mĩ miều";
    let corrected_cursor = "tiểng".len() as u32;
    c.observe_surrounding_bytes(
        corrected,
        ByteCursor(corrected_cursor),
        ByteCursor(corrected_cursor),
        false,
    );

    c.mark_action();
    assert!(matches!(c.feed_key('j'), KeyDecision::ForwardRaw));
    let raw_j = "tiểngj việt mĩ miều";
    let raw_j_cursor = "tiểngj".len() as u32;
    let tone = c
        .observe_surrounding_bytes(
            raw_j,
            ByteCursor(raw_j_cursor),
            ByteCursor(raw_j_cursor),
            false,
        )
        .expect("confirmed raw j should yield a tone repair");
    assert_eq!(tone.backspaces, 4);
    assert_eq!(tone.commit, "ệng");
}

#[test]
fn gedit_late_fused_frame_leaves_english_word_raw() {
    let mut c = Composer::<Mini>::new(InputMethod::Telex, BackspaceMethod::SurroundingText, false);
    c.set_surrounding_confirmation(true);

    c.full_reset();
    c.defer_action();
    c.mark_action();
    assert!(matches!(c.feed_key('d'), KeyDecision::ForwardRaw));

    let text = "word";
    let cursor = text.len() as u32;
    let edit =
        c.observe_surrounding_bytes(text, ByteCursor(cursor), ByteCursor(cursor), false);
    assert!(edit.is_none(), "English word must not be retro-composed");

    assert_eq!(c.shadow_text(), "word");
}

#[test]
fn cursor_jump_after_composed_word_allows_next_tone_key_to_replace_tone() {
    let mut c = Composer::<Mini>::new(InputMethod::Telex, BackspaceMethod::SurroundingText, false);
    let text = "chắc nó chừa mình ra";
    let cursor = "chắc nó".len() as u32;

    c.observe_surrounding_bytes(text, ByteCursor(cursor), ByteCursor(cursor), false);

    match c.feed_key('r') {
        KeyDecision::Apply {
            backspaces, commit, ..
        } => {
            assert_eq!(backspaces, 1);
            assert_eq!(commit, "ỏ");
        }
        _ => panic!("expected tone replacement edit"),
    }
}

#[test]
fn idle_reset_seeds_composed_shadow_for_tone_replacement() {
    let mut c = Composer::<Mini>::new(InputMethod::Telex, BackspaceMethod::SurroundingText, false);
    let text = "là";

    c.observe_surrounding_bytes(
        text,
        ByteCursor(text.len() as u32),
        ByteCursor(text.len() as u32),
        true,
    );
    c.last_keystroke_at -= Duration::from_secs(3);

    assert!(c.check_idle_reset());
    match c.feed_key('s') {
        KeyDecision::Apply {
            backspaces, commit, ..
        } => {
            assert_eq!(backspaces, 1);
            assert_eq!(commit, "á");
        }
        _ => panic!("expected tone replacement after idle reset"),
    }
}

#[test]
fn cursor_jump_after_composed_vowel_keeps_plain_consonant_continuation_raw() {
    let mut c = Composer::<Mini>::new(InputMethod::Telex, BackspaceMethod::SurroundingText, false);
    let text = "raw khôn";
    let cursor = text.len() as u32;

    c.observe_surrounding_bytes(text, ByteCursor(cursor), ByteCursor(cursor), false);

    assert!(matches!(c.feed_key('g'), KeyDecision::ForwardRaw));
    match c.feed_key('s') {
        KeyDecision::Apply { commit, .. } => assert_eq!(commit, "ống"),
        _ => panic!("expected tone edit on kept 'không'"),
    }
}

#[test]
fn cursor_jump_after_toned_vowel_allows_live_vowel_update() {
    let mut c = Composer::<Mini>::new(InputMethod::Telex, BackspaceMethod::SurroundingText, false);
    let text = "cái lòn gì";
    let cursor = "cái lòn".len() as u32;

    c.observe_surrounding_bytes(text, ByteCursor(cursor), ByteCursor(cursor), false);

    match c.feed_key('o') {
        KeyDecision::Apply {
            backspaces, commit, ..
        } => {
            assert_eq!(backspaces, 2);
            assert_eq!(commit, "ồn");
        }
        _ => panic!("expected live vowel update edit"),
    }
}

#[test]
fn retroactive_composed_word_tracks_visible_state_between_tone_updates() {
    let mut c = Composer::<Mini>::new(InputMethod::Telex, BackspaceMethod::SurroundingText, false);
    let text = "nguyễn sĩ thanh";
    let cursor = "nguyễn sĩ".len() as u32;

    c.observe_surrounding_bytes(text, ByteCursor(cursor), ByteCursor(cursor), false);

    match c.feed_key('s') {
        KeyDecision::Apply {
            backspaces, commit, ..
        } => {
            assert_eq!(backspaces, 1);
            assert_eq!(commit, "í");
        }
        _ => panic!("expected tone update"),
    }

    match c.feed_key('x') {
        KeyDecision::Apply {
            backspaces, commit, ..
        } => {
            assert_eq!(backspaces, 1);
            assert_eq!(commit, "ĩ");
        }
        _ => panic!("expected tone update"),
    }

    match c.feed_key('i') {
        KeyDecision::Apply {
            backspaces, commit, ..
        } => {
            assert_eq!(backspaces, 2);
            assert_eq!(commit, "sixsxi");
        }
        _ => panic!("expected raw restore"),
    }
}

#[test]
fn forwarded_backspace_after_telex_u_w_drops_deleted_raw_context() {
    let mut c = Composer::<Mini>::new(InputMethod::Telex, BackspaceMethod::SurroundingText, false);
    let mut sink = DeleteCaptureSink::default();
    let mut visible = "đoạn trước ".to_owned();
    let cursor = visible.len() as u32;
    c.observe_surrounding_bytes(&visible, ByteCursor(cursor), ByteCursor(cursor), true);

    for ch in ['u', 'w'] {
        c.mark_action();
        match c.feed_key(ch) {
            KeyDecision::Apply {
                backspaces, commit, ..
            } => {
                for _ in 0..backspaces {
                    visible.pop();
                }
                visible.push_str(&commit);
                c.apply_to_sink(backspaces, &commit, 0, 0, &mut sink);
            }
            _ => panic!("expected Telex edit for {ch:?}"),
        }
    }
    assert!(visible.ends_with('ư'));

    c.mark_action();
    assert!(matches!(c.feed_backspace(), KeyDecision::ForwardRaw));
    visible.pop();
    assert_eq!(visible, "đoạn trước ");

    c.mark_action();
    assert!(matches!(c.feed_key('s'), KeyDecision::ForwardRaw));
    visible.push('s');

    c.mark_action();
    match c.feed_key('w') {
        KeyDecision::Apply {
            backspaces, commit, ..
        } => {
            for _ in 0..backspaces {
                visible.pop();
            }
            visible.push_str(&commit);
            c.apply_to_sink(backspaces, &commit, 0, 0, &mut sink);
        }
        _ => panic!("expected Telex edit for 'w'"),
    }
    assert_eq!(visible, "đoạn trước sư");

    c.mark_action();
    assert!(matches!(c.feed_key('i'), KeyDecision::ForwardRaw));
    visible.push('i');

    c.mark_action();
    match c.feed_key('t') {
        KeyDecision::Apply {
            backspaces, commit, ..
        } => {
            assert_eq!(backspaces, 3);
            assert_eq!(commit, "swit");
        }
        _ => panic!("expected raw restore to English word"),
    }
}

#[test]
fn retroactive_tone_toggle_then_consonant_restores_last_raw_form_only() {
    let mut c = Composer::<Mini>::new(InputMethod::Telex, BackspaceMethod::SurroundingText, false);
    let mut sink = DeleteCaptureSink::default();
    let suffix = " lá la";
    let mut word = "là".to_owned();

    c.observe_surrounding_bytes(
        "là lá la",
        ByteCursor(word.len() as u32),
        ByteCursor(word.len() as u32),
        false,
    );

    for (ch, expected_word) in [
        ('r', "lả"),
        ('j', "lạ"),
        ('f', "là"),
        ('j', "lạ"),
        ('r', "lả"),
        ('s', "lá"),
        ('j', "lạ"),
        ('r', "lả"),
        ('f', "là"),
    ] {
        c.mark_action();
        match c.feed_key(ch) {
            KeyDecision::Apply {
                backspaces, commit, ..
            } => {
                assert_eq!(backspaces, 1);
                c.apply_to_sink(backspaces, &commit, 0, 0, &mut sink);
                word = expected_word.to_owned();
                let text = format!("{word}{suffix}");
                c.observe_surrounding_bytes(
                    &text,
                    ByteCursor(word.len() as u32),
                    ByteCursor(word.len() as u32),
                    false,
                );
            }
            _ => panic!("expected tone update for {ch:?}"),
        }
    }

    c.mark_action();
    match c.feed_key('d') {
        KeyDecision::Apply {
            backspaces, commit, ..
        } => {
            assert_eq!(backspaces, 2);
            assert_eq!(commit, "lafd");
        }
        _ => panic!("expected raw restore for final consonant"),
    }
}

#[test]
fn external_deletion_clears_stale_separator_so_next_tone_key_seeds() {
    let mut c =
        Composer::<Mini>::new(InputMethod::Telex, BackspaceMethod::SurroundingText, false);

    c.observe_surrounding_bytes("", ByteCursor(0), ByteCursor(0), true);
    for ch in ['l', 'a', ' '] {
        assert!(matches!(c.feed_key(ch), KeyDecision::ForwardRaw));
    }
    assert_eq!(c.shadow_text(), "la ");

    c.observe_surrounding_bytes("la ", ByteCursor(3), ByteCursor(3), false);

    c.observe_surrounding_bytes("la", ByteCursor(2), ByteCursor(2), false);

    match c.feed_key('f') {
        KeyDecision::Apply {
            backspaces, commit, ..
        } => {
            assert_eq!(backspaces, 1);
            assert_eq!(commit, "à");
        }
        _ => panic!("expected tone edit on 'la'; stale separator blocked the seed"),
    }
}

#[test]
fn forwarded_ascii_backspace_on_seeded_word_stays_consistent() {
    let mut c =
        Composer::<Mini>::new(InputMethod::Telex, BackspaceMethod::SurroundingText, false);

    c.observe_surrounding_bytes("la world", ByteCursor(2), ByteCursor(2), true);
    assert!(c.context.retroactive);

    c.mark_action();
    assert!(matches!(c.feed_backspace(), KeyDecision::ForwardRaw));
    assert_eq!(c.shadow_text(), "l");

    c.mark_action();
    assert!(
        matches!(c.feed_key('f'), KeyDecision::ForwardRaw),
        "'f' after deleting 'a' must forward raw, not tone a stale seed"
    );
}

#[test]
fn refresh_after_apply_seeds_current_word_not_whole_shadow() {
    let mut c =
        Composer::<Mini>::new(InputMethod::Telex, BackspaceMethod::SurroundingText, false);
    let mut sink = DeleteCaptureSink::default();
    let text = "wor ơ x";
    let cursor = "wor ơ".len() as u32;

    c.observe_surrounding_bytes(text, ByteCursor(cursor), ByteCursor(cursor), true);

    c.mark_action();
    match c.feed_key('r') {
        KeyDecision::Apply {
            backspaces, commit, ..
        } => {
            assert_eq!(backspaces, 1);
            assert_eq!(commit, "ở");
            c.apply_to_sink(backspaces, &commit, 0, 0, &mut sink);
        }
        _ => panic!("expected retroactive tone edit"),
    }
    assert_eq!(c.shadow_text(), "wor ở");
    assert!(
        c.context.retroactive,
        "retroactive context must survive the refresh reseed"
    );

    c.observe_surrounding_bytes(
        text,
        ByteCursor("wor ơ ".len() as u32),
        ByteCursor("wor ơ ".len() as u32),
        false,
    );

    c.mark_action();
    match c.feed_key('j') {
        KeyDecision::Apply {
            backspaces, commit, ..
        } => {
            assert_eq!(backspaces, 1);
            assert_eq!(commit, "ợ");
            c.apply_to_sink(backspaces, &commit, 0, 0, &mut sink);
        }
        _ => panic!("expected second retroactive tone edit"),
    }

    assert_eq!(
        sink.deletes.len(),
        2,
        "second correction must use delete_surrounding_text, not ForwardKey"
    );
    assert_eq!(sink.deletes[1], (3, 1, 0, 0));
    assert!(sink.vk_keys.is_empty(), "no ForwardKey backspaces expected");
}

#[test]
fn dead_surrounding_frames_signal_forward_key_downgrade() {
    let mut c = Composer::<Mini>::new(InputMethod::Telex, BackspaceMethod::SurroundingText, false);

    assert!(!c.note_surrounding_liveness("", 0));

    c.observe_surrounding_bytes("T", ByteCursor(1), ByteCursor(1), false);
    assert_eq!(c.shadow_text(), "T");

    assert!(!c.note_surrounding_liveness("", 0));
    assert!(c.note_surrounding_liveness("", 0));
}

#[test]
fn live_surrounding_frame_resets_dead_strikes() {
    let mut c = Composer::<Mini>::new(InputMethod::Telex, BackspaceMethod::SurroundingText, false);
    c.observe_surrounding_bytes("ph", ByteCursor(2), ByteCursor(2), false);

    assert!(!c.note_surrounding_liveness("", 0));
    assert!(!c.note_surrounding_liveness("pho", 3));
    assert!(!c.note_surrounding_liveness("", 0));
}

#[test]
fn unechoed_surrounding_corrections_signal_forward_key_downgrade() {
    let mut c = Composer::<Mini>::new(InputMethod::Telex, BackspaceMethod::SurroundingText, false);
    assert!(!c.note_surrounding_correction());
    assert!(c.note_surrounding_correction());
}

#[test]
fn echoed_surrounding_corrections_never_downgrade() {
    let mut c = Composer::<Mini>::new(InputMethod::Telex, BackspaceMethod::SurroundingText, false);
    c.mark_surrounding_frame_seen();
    assert!(!c.note_surrounding_correction());
    c.mark_surrounding_frame_seen();
    assert!(!c.note_surrounding_correction());
    c.mark_surrounding_frame_seen();
    assert!(!c.note_surrounding_correction());
}

#[test]
fn surrounding_observer_trusts_mid_word_one_char_without_reseed() {
    let decision = SurroundingObserver::observe(true, true, false, false, false);

    assert_eq!(
        decision,
        SurroundingDecision {
            trust: true,
            reseed: false
        }
    );
}

#[test]
fn surrounding_observer_trusts_recent_shadow_confirmed_without_reseed() {
    let decision = SurroundingObserver::observe(true, false, false, false, true);

    assert_eq!(
        decision,
        SurroundingDecision {
            trust: true,
            reseed: false
        }
    );
}

#[test]
fn surrounding_observer_drops_recent_unconfirmed_selection() {
    let decision = SurroundingObserver::observe(true, false, false, false, false);

    assert_eq!(
        decision,
        SurroundingDecision {
            trust: false,
            reseed: false
        }
    );
}

#[test]
fn surrounding_observer_drops_recent_delete_echo() {
    let decision = SurroundingObserver::observe(true, false, true, false, false);

    assert_eq!(
        decision,
        SurroundingDecision {
            trust: false,
            reseed: false
        }
    );
}

#[test]
fn surrounding_observer_trusts_external_delete_for_reset() {
    let decision = SurroundingObserver::observe(false, false, true, false, false);

    assert_eq!(
        decision,
        SurroundingDecision {
            trust: true,
            reseed: false
        }
    );
}

#[test]
fn edit_model_owns_shadow_and_tier_apply() {
    let mut edit = EditModel::new(BackspaceMethod::SurroundingText);
    edit.push_forwarded_char('a');
    assert_eq!(edit.shadow_text(), "a");

    let mut sink = DeleteCaptureSink::default();
    edit.apply(1, "â", 1, 0, &mut sink, DeleteUnit::Bytes);

    assert_eq!(sink.deletes.len(), 1);
    assert_eq!(sink.commits, vec!["â".to_owned()]);
    assert_eq!(edit.shadow_text(), "â");
}

#[test]
fn oci_empty_to_first_char() {
    assert!(oci("", 0, "t", 1));
}

#[test]
fn oci_append_ascii() {
    assert!(oci("ti", 2, "tie", 3));
}

#[test]
fn oci_append_after_vietnamese() {
    assert!(oci("tiê", 4, "tiên", 5));
}

#[test]
fn oci_append_direct_multibyte_scalar() {
    assert!(oci("ti", 2, "tiế", "tiế".len() as u32));
}

#[test]
fn oci_mid_text_insert() {
    assert!(oci("abcd", 2, "abXcd", 3));
}

#[test]
fn oci_multi_char_paste_rejected() {
    assert!(!oci("ab", 2, "abcde", 5));
}

#[test]
fn oci_backspace_rejected() {
    assert!(!oci("abc", 3, "ab", 2));
}

#[test]
fn oci_same_text_rejected() {
    assert!(!oci("abc", 3, "abc", 3));
}

#[test]
fn oci_cursor_jump_rejected() {
    assert!(!oci("abcde", 5, "abcde", 2));
}

#[test]
fn oci_replace_with_same_length_rejected() {
    assert!(!oci("tiê", 4, "tiab", 4));
}

#[test]
fn oci_cursor_mismatch_rejected() {
    assert!(!oci("ab", 2, "abc", 3) == false);

    assert!(!oci("ab", 2, "abc", 1));
}

#[test]
fn oci_post_apply_echo_rejected() {
    assert!(!oci("tiee", 4, "tiê", 4));
}

#[test]
fn oci_duong_line_break_to_capital_d() {
    assert!(!oci("đường", 9, "D", 1));
}

#[test]
fn oci_second_capital_d_on_new_line() {
    assert!(oci("D", 1, "DD", 2));
}

#[test]
fn deletion_rejects_cursor_inside_multibyte_char() {
    assert!(!del("aếb", 2, "aế", 2));
}

#[test]
fn deletion_accepts_multibyte_char_span() {
    assert!(del("aếb", "aế".len() as u32, "ab", 1));
}

#[test]
fn active_word_w_then_tone_keeps_final_consonant_order() {
    let mut c = Composer::<Mini>::new(InputMethod::Telex, BackspaceMethod::SurroundingText, false);

    assert!(matches!(c.feed_key('h'), KeyDecision::ForwardRaw));
    assert!(matches!(c.feed_key('o'), KeyDecision::ForwardRaw));
    assert!(matches!(c.feed_key('n'), KeyDecision::ForwardRaw));

    match c.feed_key('w') {
        KeyDecision::Apply {
            backspaces, commit, ..
        } => {
            assert_eq!(backspaces, 2);
            assert_eq!(commit, "ơn");
        }
        _ => panic!("expected vowel shape update"),
    }

    match c.feed_key('s') {
        KeyDecision::Apply {
            backspaces, commit, ..
        } => {
            assert_eq!(backspaces, 2);
            assert_eq!(commit, "ớn");
        }
        _ => panic!("expected tone update"),
    }
}

#[test]
fn forwarded_backspace_echo_does_not_reseed_deleted_word() {
    let mut c = Composer::<Mini>::new(InputMethod::Telex, BackspaceMethod::SurroundingText, false);

    c.observe_surrounding_bytes("work", ByteCursor(4), ByteCursor(4), true);
    c.mark_action();
    c.observe_surrounding_bytes("work", ByteCursor(4), ByteCursor(4), false);
    assert!(matches!(c.feed_backspace(), KeyDecision::ForwardRaw));
    c.observe_surrounding_bytes("wor", ByteCursor(3), ByteCursor(3), false);

    assert_eq!(c.shadow_text(), "wor");
    match c.feed_key('d') {
        KeyDecision::ForwardRaw => {}
        KeyDecision::Apply {
            backspaces, commit, ..
        } => {
            panic!("expected raw 'd', got edit bs={backspaces} commit={commit:?}");
        }
        KeyDecision::Consumed => panic!("expected raw 'd', got consumed"),
    }
}

#[test]
fn forwarded_backspace_echo_with_stale_prev_text_does_not_reseed_deleted_word() {
    let mut c = Composer::<Mini>::new(InputMethod::Telex, BackspaceMethod::SurroundingText, false);
    let mut sink = DeleteCaptureSink::default();

    c.mark_action();
    match c.feed_key('w') {
        KeyDecision::Apply {
            backspaces, commit, ..
        } => {
            c.apply_to_sink(backspaces, &commit, 0, 0, &mut sink);
        }
        _ => panic!("expected w transform"),
    }
    c.observe_surrounding_bytes("work", ByteCursor(4), ByteCursor(4), false);
    assert_eq!(c.shadow_text(), "ư");

    c.mark_action();
    assert!(matches!(c.feed_key('o'), KeyDecision::ForwardRaw));
    c.observe_surrounding_bytes("ưo", ByteCursor(3), ByteCursor(3), false);
    c.mark_action();
    match c.feed_key('r') {
        KeyDecision::Apply {
            backspaces, commit, ..
        } => {
            c.apply_to_sink(backspaces, &commit, 0, 0, &mut sink);
        }
        _ => panic!("expected r transform"),
    }
    c.observe_surrounding_bytes("ửo", ByteCursor(4), ByteCursor(4), false);
    c.mark_action();
    match c.feed_key('k') {
        KeyDecision::Apply {
            backspaces, commit, ..
        } => {
            c.apply_to_sink(backspaces, &commit, 0, 0, &mut sink);
        }
        _ => panic!("expected k transform"),
    }
    c.observe_surrounding_bytes("work", ByteCursor(4), ByteCursor(4), false);
    assert_eq!(c.shadow_text(), "work");

    c.defer_action();
    assert!(matches!(c.feed_backspace(), KeyDecision::ForwardRaw));
    c.observe_surrounding_bytes("wor", ByteCursor(3), ByteCursor(3), false);
    assert!(matches!(c.feed_backspace(), KeyDecision::ForwardRaw));
    c.observe_surrounding_bytes("wo", ByteCursor(2), ByteCursor(2), false);

    c.mark_action();
    assert!(matches!(c.feed_key('r'), KeyDecision::ForwardRaw));
    c.observe_surrounding_bytes("wor", ByteCursor(3), ByteCursor(3), false);
    c.mark_action();
    match c.feed_key('d') {
        KeyDecision::ForwardRaw => {}
        KeyDecision::Apply {
            backspaces, commit, ..
        } => {
            panic!("expected raw 'd', got edit bs={backspaces} commit={commit:?}");
        }
        KeyDecision::Consumed => panic!("expected raw 'd', got consumed"),
    }
}

#[test]
fn retyping_english_after_plain_backspaces_stays_raw() {
    let mut c = Composer::<Mini>::new(InputMethod::Telex, BackspaceMethod::SurroundingText, false);

    c.observe_surrounding_bytes("doesnt", ByteCursor(6), ByteCursor(6), true);

    for expected in ["doesn", "does", "doe"] {
        assert!(matches!(c.feed_backspace(), KeyDecision::ForwardRaw));
        c.observe_surrounding_bytes(
            expected,
            ByteCursor(expected.len() as u32),
            ByteCursor(expected.len() as u32),
            false,
        );
    }

    for ch in ['s', 'n', 't'] {
        c.mark_action();
        match c.feed_key(ch) {
            KeyDecision::ForwardRaw => {}
            KeyDecision::Apply {
                backspaces, commit, ..
            } => {
                panic!("expected raw {ch:?}, got edit bs={backspaces} commit={commit:?}");
            }
            KeyDecision::Consumed => panic!("expected raw {ch:?}, got consumed"),
        }
        let text = c.shadow_text().to_owned();
        c.observe_surrounding_bytes(
            &text,
            ByteCursor(text.len() as u32),
            ByteCursor(text.len() as u32),
            false,
        );
    }

    assert_eq!(c.shadow_text(), "doesnt");
}

#[test]
fn retyping_typed_english_after_plain_backspaces_stays_raw() {
    let mut c = Composer::<Mini>::new(InputMethod::Telex, BackspaceMethod::SurroundingText, false);
    let mut sink = DeleteCaptureSink::default();

    for ch in "doesnt".chars() {
        c.mark_action();
        match c.feed_key(ch) {
            KeyDecision::ForwardRaw => {}
            KeyDecision::Apply {
                backspaces, commit, ..
            } => {
                c.apply_to_sink(backspaces, &commit, 0, 0, &mut sink);
            }
            KeyDecision::Consumed => {}
        }
        let text = c.shadow_text().to_owned();
        c.observe_surrounding_bytes(
            &text,
            ByteCursor(text.len() as u32),
            ByteCursor(text.len() as u32),
            false,
        );
    }

    for expected in ["doesn", "does", "doe"] {
        assert!(matches!(c.feed_backspace(), KeyDecision::ForwardRaw));
        c.observe_surrounding_bytes(
            expected,
            ByteCursor(expected.len() as u32),
            ByteCursor(expected.len() as u32),
            false,
        );
    }

    for ch in ['s', 'n', 't'] {
        c.mark_action();
        match c.feed_key(ch) {
            KeyDecision::ForwardRaw => {}
            KeyDecision::Apply {
                backspaces, commit, ..
            } => {
                panic!("expected raw {ch:?}, got edit bs={backspaces} commit={commit:?}");
            }
            KeyDecision::Consumed => panic!("expected raw {ch:?}, got consumed"),
        }
        let text = c.shadow_text().to_owned();
        c.observe_surrounding_bytes(
            &text,
            ByteCursor(text.len() as u32),
            ByteCursor(text.len() as u32),
            false,
        );
    }

    assert_eq!(c.shadow_text(), "doesnt");
}

#[test]
fn first_typed_english_word_stays_raw_on_reliable_surrounding_clients() {
    let mut c = Composer::<Mini>::new(InputMethod::Telex, BackspaceMethod::SurroundingText, false);
    let mut sink = DeleteCaptureSink::default();

    let mut visible = String::new();
    for ch in "doesnt".chars() {
        c.mark_action();
        match c.feed_key(ch) {
            KeyDecision::ForwardRaw => visible.push(ch),
            KeyDecision::Apply {
                backspaces, commit, ..
            } => {
                for _ in 0..backspaces {
                    visible.pop();
                }
                visible.push_str(&commit);
                c.apply_to_sink(backspaces, &commit, 0, 0, &mut sink);
            }
            KeyDecision::Consumed => {}
        }
        c.observe_surrounding_bytes(
            &visible,
            ByteCursor(visible.len() as u32),
            ByteCursor(visible.len() as u32),
            false,
        );
    }

    assert_eq!(visible, "doesnt");
    assert_eq!(c.shadow_text(), "doesnt");
}

#[test]
fn first_typed_english_word_stays_raw_across_ibus_caps_upgrade() {
    let mut c = Composer::<Mini>::new(InputMethod::Telex, BackspaceMethod::ForwardKey, false);
    let mut sink = DeleteCaptureSink::default();

    let mut visible = String::new();
    for (idx, ch) in "word".chars().enumerate() {
        c.mark_action();
        match c.feed_key(ch) {
            KeyDecision::ForwardRaw => visible.push(ch),
            KeyDecision::Apply {
                backspaces, commit, ..
            } => {
                for _ in 0..backspaces {
                    visible.pop();
                }
                visible.push_str(&commit);
                c.apply_to_sink(backspaces, &commit, 0, 0, &mut sink);
            }
            KeyDecision::Consumed => {}
        }

        if idx == 0 {
            c.set_method(BackspaceMethod::SurroundingText);
        }
        c.observe_surrounding_bytes(
            &visible,
            ByteCursor(visible.len() as u32),
            ByteCursor(visible.len() as u32),
            false,
        );
    }

    assert_eq!(visible, "word");
    assert_eq!(c.shadow_text(), "word");
}

#[test]
fn activation_stale_document_text_does_not_seed_new_first_word() {
    let mut c = Composer::<Mini>::new(InputMethod::Telex, BackspaceMethod::SurroundingText, false);
    let mut sink = DeleteCaptureSink::default();

    c.observe_surrounding_bytes("ửod word word ", ByteCursor(16), ByteCursor(16), true);
    c.observe_surrounding_bytes("ửod word word ", ByteCursor(0), ByteCursor(0), false);

    let mut visible = String::new();
    for ch in "word".chars() {
        c.mark_action();
        match c.feed_key(ch) {
            KeyDecision::ForwardRaw => visible.push(ch),
            KeyDecision::Apply {
                backspaces, commit, ..
            } => {
                for _ in 0..backspaces {
                    visible.pop();
                }
                visible.push_str(&commit);
                c.apply_to_sink(backspaces, &commit, 0, 0, &mut sink);
            }
            KeyDecision::Consumed => {}
        }
        c.observe_surrounding_bytes(
            &visible,
            ByteCursor(visible.len() as u32),
            ByteCursor(visible.len() as u32),
            false,
        );
    }

    assert_eq!(visible, "word");
    assert_eq!(c.shadow_text(), "word");
}

#[test]
fn v2_first_word_invalid_syllable_deconverts_despite_delete_echo() {
    let mut c = Composer::<Mini>::new(InputMethod::Telex, BackspaceMethod::SurroundingText, false);
    let mut sink = DeleteCaptureSink::default();
    let mut visible = String::new();

    c.observe_surrounding_bytes("", ByteCursor(0), ByteCursor(0), true);

    let press = |c: &mut Composer<Mini>,
                 sink: &mut DeleteCaptureSink,
                 visible: &mut String,
                 ch: char|
     -> KeyDecision {
        c.mark_action();
        let d = c.feed_key(ch);
        match &d {
            KeyDecision::ForwardRaw => visible.push(ch),
            KeyDecision::Apply {
                backspaces, commit, ..
            } => {
                for _ in 0..*backspaces {
                    visible.pop();
                }
                visible.push_str(commit);
                c.apply_to_sink(*backspaces, commit, 0, 0, sink);
            }
            KeyDecision::Consumed => {}
        }
        d
    };

    press(&mut c, &mut sink, &mut visible, 'w');
    c.observe_surrounding_bytes("ư", ByteCursor(2), ByteCursor(2), false);

    press(&mut c, &mut sink, &mut visible, 'o');
    c.observe_surrounding_bytes("ưo", ByteCursor(3), ByteCursor(3), false);

    press(&mut c, &mut sink, &mut visible, 'r');
    assert_eq!(visible, "ửo");
    c.observe_surrounding_bytes("", ByteCursor(0), ByteCursor(0), false);
    c.observe_surrounding_bytes("ửo", ByteCursor(4), ByteCursor(4), false);

    let d = press(&mut c, &mut sink, &mut visible, 'd');
    match d {
        KeyDecision::Apply {
            backspaces, commit, ..
        } => {
            assert_eq!(
                backspaces, 2,
                "must delete the 2 composed screen chars 'ửo'"
            );
            assert_eq!(commit, "word");
        }
        KeyDecision::ForwardRaw => {
            panic!("expected deconversion to 'word', got ForwardRaw (regression: 'ửod')")
        }
        KeyDecision::Consumed => panic!("expected deconversion to 'word', got Consumed"),
    }
    assert_eq!(visible, "word");

    let (before_bytes, before_chars, _, _) = *sink.deletes.last().unwrap();
    assert_eq!((before_bytes, before_chars), (4, 2));
}

#[test]
fn chromium_omnibox_stale_selection_does_not_eat_first_word() {
    let mut c = Composer::<Mini>::new(InputMethod::Telex, BackspaceMethod::SurroundingText, false);
    let mut sink = DeleteCaptureSink::default();
    let mut visible = String::new();

    let url = "https://invent.kde.org";
    let n = url.len() as u32;

    let press = |c: &mut Composer<Mini>,
                 sink: &mut DeleteCaptureSink,
                 visible: &mut String,
                 ch: char|
     -> KeyDecision {
        c.mark_action();
        let d = c.feed_key(ch);
        match &d {
            KeyDecision::ForwardRaw => visible.push(ch),
            KeyDecision::Apply {
                backspaces, commit, ..
            } => {
                for _ in 0..*backspaces {
                    visible.pop();
                }
                visible.push_str(commit);
                c.apply_to_sink(*backspaces, commit, 0, 0, sink);
            }
            KeyDecision::Consumed => {}
        }
        d
    };

    press(&mut c, &mut sink, &mut visible, 'h');
    c.observe_surrounding_bytes(url, ByteCursor(1), ByteCursor(n), false);

    press(&mut c, &mut sink, &mut visible, 'a');
    c.observe_surrounding_bytes(url, ByteCursor(1), ByteCursor(n), false);
    c.observe_surrounding_bytes("ha", ByteCursor(2), ByteCursor(2), false);

    let d = press(&mut c, &mut sink, &mut visible, 'f');
    match d {
        KeyDecision::Apply {
            backspaces, commit, ..
        } => {
            assert_eq!(backspaces, 1);
            assert_eq!(commit, "à");
        }
        other => panic!(
            "expected tone Apply bs=1 'à', got {}",
            match other {
                KeyDecision::ForwardRaw => "ForwardRaw",
                KeyDecision::Consumed => "Consumed",
                _ => "?",
            }
        ),
    }
    assert_eq!(visible, "hà");

    assert!(
        sink.vk_keys.is_empty(),
        "stale selection must not trigger ForwardKey-BS fallback"
    );
    assert_eq!(*sink.deletes.last().unwrap(), (1, 1, 0, 0));
}

#[test]
fn ascii_char_offset_equals_byte_offset() {
    assert_eq!(c2b("is", 0), 0);
    assert_eq!(c2b("is", 1), 1);
    assert_eq!(c2b("is", 2), 2);
}

#[test]
fn multibyte_cursor_at_end_maps_to_byte_len() {
    assert_eq!(c2b("í", 1), 2);
}

#[test]
fn mixed_multibyte_offsets() {
    assert_eq!(c2b("íis", 0), 0);
    assert_eq!(c2b("íis", 1), 2);
    assert_eq!(c2b("íis", 2), 3);
    assert_eq!(c2b("íis", 3), 4);
}

#[test]
fn offset_past_end_clamps_to_byte_len() {
    assert_eq!(c2b("í", 99), 2);
}

fn type_str(eng: &mut EngineState<Mini>, s: &str) -> String {
    let mut buf = String::new();
    for ch in s.chars() {
        let r = eng.process_key(ch);
        if r.consumed {
            for _ in 0..r.backspaces {
                buf.pop();
            }
            buf.push_str(&r.commit);
        } else {
            buf.push(ch);
        }
    }
    buf
}

fn do_backspace(eng: &mut EngineState<Mini>, buf: &mut String) {
    let r = eng.process_backspace();
    if r.consumed {
        for _ in 0..r.backspaces {
            buf.pop();
        }
        buf.push_str(&r.commit);
    } else {
        buf.pop();
    }
}

#[test]
fn telex_hieeus_is_hieu() {
    let mut eng = EngineState::<Mini>::new(InputMethod::Telex);
    assert_eq!(type_str(&mut eng, "hieeus"), "hiếu");
}

#[test]
fn feed_context_per_key_preserves_vowel_cluster() {
    let mut eng = EngineState::<Mini>::new(InputMethod::Telex);
    let mut raw = String::new();
    let mut screen = String::new();
    for ch in "hieeus".chars() {
        let prefix = raw.clone();
        eng.reset();
        if !prefix.is_empty() {
            eng.feed_context(&prefix);
        }
        raw.push(ch);
        let r = eng.process_key(ch);
        if r.consumed {
            for _ in 0..r.backspaces {
                screen.pop();
            }
            screen.push_str(&r.commit);
        } else {
            screen.push(ch);
        }
    }
    assert_eq!(screen, "hiếu");
}

#[test]
fn feed_context_accepts_composed_vietnamese_for_tone_replacement() {
    let mut eng = EngineState::<Mini>::new(InputMethod::Telex);
    assert!(eng.feed_context("nó"));

    let r = eng.process_key('r');

    assert!(r.consumed);
    assert_eq!(r.backspaces, 1);
    assert_eq!(r.commit, "ỏ");
}

#[test]
fn feed_context_accepts_composed_vietnamese_for_raw_restore() {
    let mut eng = EngineState::<Mini>::new(InputMethod::Telex);
    assert!(eng.feed_context("ră"));

    let r = eng.process_key('w');

    assert!(r.consumed);
    assert_eq!(r.backspaces, 1);
    assert_eq!(r.commit, "aw");
}

#[test]
fn telex_plain_a() {
    let mut eng = EngineState::<Mini>::new(InputMethod::Telex);
    assert_eq!(type_str(&mut eng, "a"), "a");
}

#[test]
fn telex_aa_to_acircumflex() {
    let mut eng = EngineState::<Mini>::new(InputMethod::Telex);
    assert_eq!(type_str(&mut eng, "aa"), "â");
}

#[test]
fn telex_aw_to_abreve() {
    let mut eng = EngineState::<Mini>::new(InputMethod::Telex);
    assert_eq!(type_str(&mut eng, "aw"), "ă");
}

#[test]
fn telex_ee_to_ecircumflex() {
    let mut eng = EngineState::<Mini>::new(InputMethod::Telex);
    assert_eq!(type_str(&mut eng, "ee"), "ê");
}

#[test]
fn telex_oo_to_ocircumflex() {
    let mut eng = EngineState::<Mini>::new(InputMethod::Telex);
    assert_eq!(type_str(&mut eng, "oo"), "ô");
}

#[test]
fn telex_dd_to_dstroke() {
    let mut eng = EngineState::<Mini>::new(InputMethod::Telex);
    assert_eq!(type_str(&mut eng, "dd"), "đ");
}

#[test]
fn telex_tones_on_a() {
    let mut eng = EngineState::<Mini>::new(InputMethod::Telex);
    assert_eq!(type_str(&mut eng, "as"), "á");
    eng.reset();
    assert_eq!(type_str(&mut eng, "af"), "à");
    eng.reset();
    assert_eq!(type_str(&mut eng, "ar"), "ả");
    eng.reset();
    assert_eq!(type_str(&mut eng, "ax"), "ã");
    eng.reset();
    assert_eq!(type_str(&mut eng, "aj"), "ạ");
}

#[test]
fn telex_aas_to_acircumflex_acute() {
    let mut eng = EngineState::<Mini>::new(InputMethod::Telex);
    assert_eq!(type_str(&mut eng, "aas"), "ấ");
}

#[test]
fn telex_oow_to_o_horn() {
    let mut eng = EngineState::<Mini>::new(InputMethod::Telex);
    assert_eq!(type_str(&mut eng, "oow"), "ơ");
}

#[test]
fn telex_uow_to_uow() {
    let mut eng = EngineState::<Mini>::new(InputMethod::Telex);
    assert_eq!(type_str(&mut eng, "uow"), "ươ");
}

#[test]
fn telex_word_tieng() {
    let mut eng = EngineState::<Mini>::new(InputMethod::Telex);
    assert_eq!(type_str(&mut eng, "tieengs"), "tiếng");
}

#[test]
fn telex_word_viet() {
    let mut eng = EngineState::<Mini>::new(InputMethod::Telex);
    assert_eq!(type_str(&mut eng, "vieejt"), "việt");
}

#[test]
fn telex_tone_order_flexible() {
    let mut eng = EngineState::<Mini>::new(InputMethod::Telex);
    assert_eq!(type_str(&mut eng, "vieetj"), "việt");
}

#[test]
fn vni_a1_to_aacute() {
    let mut eng = EngineState::<Mini>::new(InputMethod::Vni);
    assert_eq!(type_str(&mut eng, "a1"), "á");
}

#[test]
fn vni_o6_to_ocircumflex() {
    let mut eng = EngineState::<Mini>::new(InputMethod::Vni);
    assert_eq!(type_str(&mut eng, "o6"), "ô");
}

#[test]
fn vni_u7_to_uhorn() {
    let mut eng = EngineState::<Mini>::new(InputMethod::Vni);
    assert_eq!(type_str(&mut eng, "u7"), "ư");
}

#[test]
fn vni_a61_to_acircumflex_acute() {
    let mut eng = EngineState::<Mini>::new(InputMethod::Vni);
    assert_eq!(type_str(&mut eng, "a61"), "ấ");
}

#[test]
fn vni_o61_to_ocircumflex_acute() {
    let mut eng = EngineState::<Mini>::new(InputMethod::Vni);
    assert_eq!(type_str(&mut eng, "o61"), "ố");
}

#[test]
fn vni_word_tieng() {
    let mut eng = EngineState::<Mini>::new(InputMethod::Vni);
    assert_eq!(type_str(&mut eng, "tie61ng"), "tiếng");
}

#[test]
fn vni_feed_context_per_key_preserves_vowel_cluster() {
    let mut eng = EngineState::<Mini>::new(InputMethod::Vni);
    let mut raw = String::new();
    let mut screen = String::new();
    for ch in "hie61u".chars() {
        let prefix = raw.clone();
        eng.reset();
        if !prefix.is_empty() {
            eng.feed_context(&prefix);
        }
        raw.push(ch);
        let r = eng.process_key(ch);
        if r.consumed {
            for _ in 0..r.backspaces {
                screen.pop();
            }
            screen.push_str(&r.commit);
        } else {
            screen.push(ch);
        }
    }
    assert_eq!(screen, "hiếu");
}

#[test]
fn vni_feed_context_accepts_composed_vietnamese_for_tone_replacement() {
    let mut eng = EngineState::<Mini>::new(InputMethod::Vni);
    assert!(eng.feed_context("nó"));

    let r = eng.process_key('3');

    assert!(r.consumed);
    assert_eq!(r.backspaces, 1);
    assert_eq!(r.commit, "ỏ");
}

#[test]
fn vni_feed_context_accepts_composed_vietnamese_inside_word() {
    let mut eng = EngineState::<Mini>::new(InputMethod::Vni);

    assert!(eng.feed_context("pho"));
    let r = eng.process_key('7');
    assert!(r.consumed);
    assert_eq!(r.commit, "ơ");

    eng.reset();
    assert!(eng.feed_context("phơ"));
    let r = eng.process_key('3');
    assert!(r.consumed);
    assert_eq!(r.backspaces, 1);
    assert_eq!(r.commit, "ở");
}

#[test]
fn vni_feed_context_accepts_faithful_reconstruction() {
    let mut e = EngineState::<Mini>::new(InputMethod::Vni);
    assert!(e.feed_context_gated("tiê"));
    let r = e.process_key('1');
    assert_eq!((r.backspaces, r.commit.as_str()), (1, "ế"));
}

#[test]
fn vni_feed_context_rejects_lossy_reconstruction() {
    let mut e = EngineState::<Mini>::new(InputMethod::Vni);
    assert!(!e.feed_context_gated("ơiời"));
    assert!(
        e.at_word_beginning(),
        "rejected seed must leave the engine untouched"
    );
}

#[test]
fn telex_backspace_mid_word() {
    let mut eng = EngineState::<Mini>::new(InputMethod::Telex);
    let mut buf = type_str(&mut eng, "toa");
    assert_eq!(buf, "toa");
    do_backspace(&mut eng, &mut buf);
    assert_eq!(buf, "to");
}

#[test]
fn telex_backspace_unwinds_transform() {
    let mut eng = EngineState::<Mini>::new(InputMethod::Telex);
    let mut buf = type_str(&mut eng, "aa");
    assert_eq!(buf, "â");
    do_backspace(&mut eng, &mut buf);

    assert!(buf.is_empty() || buf == "a");
}

#[test]
fn telex_space_flushes() {
    let mut eng = EngineState::<Mini>::new(InputMethod::Telex);

    assert_eq!(type_str(&mut eng, "aa "), "â ");
    assert!(eng.at_word_beginning());
    assert_eq!(type_str(&mut eng, "aa"), "â");
}

#[test]
fn telex_punctuation_passthrough() {
    let mut eng = EngineState::<Mini>::new(InputMethod::Telex);

    assert_eq!(type_str(&mut eng, "aa,"), "â,");
}

#[test]
fn telex_bracket_shortcuts_disabled_by_default() {
    let mut eng = EngineState::<Mini>::new(InputMethod::Telex);
    let r = eng.process_key('[');
    assert!(
        !r.consumed,
        "default config should not consume '[' as Telex ơ shortcut"
    );
}

#[test]
fn telex_bracket_shortcuts_enabled_when_opted_in() {
    let mut eng = EngineState::<Mini>::new_with_options(InputMethod::Telex, true);
    let r = eng.process_key('[');
    assert!(r.consumed, "opt-in should consume '[' as Telex ơ shortcut");
    assert_eq!(r.backspaces, 0);
    assert_eq!(r.commit, "ơ");
}

#[test]
fn reset_clears_state() {
    let mut eng = EngineState::<Mini>::new(InputMethod::Telex);
    let _ = eng.process_key('a');
    assert!(!eng.at_word_beginning());
    eng.reset();
    assert!(eng.at_word_beginning());
}

#[test]
fn feed_context_enables_retroactive_tone() {
    let mut eng = EngineState::<Mini>::new(InputMethod::Telex);
    let fed = eng.feed_context("pho");
    assert!(fed);

    let r = eng.process_key('w');
    assert!(r.consumed);
    assert_eq!(r.backspaces, 1);
    assert_eq!(r.commit, "ơ");

    let r = eng.process_key('r');
    assert!(r.consumed);
    assert_eq!(r.backspaces, 1);
    assert_eq!(r.commit, "ở");
}

#[test]
fn feed_context_empty_returns_false() {
    let mut eng = EngineState::<Mini>::new(InputMethod::Telex);
    assert!(!eng.feed_context(""));
}

#[test]
fn feed_context_accepts_composed_vietnamese_inside_word() {
    let mut eng = EngineState::<Mini>::new(InputMethod::Telex);

    assert!(eng.feed_context("pho"));
    let r = eng.process_key('w');
    assert!(r.consumed);
    assert_eq!(r.commit, "ơ");

    eng.reset();
    assert!(eng.feed_context("phơ"));
    let r = eng.process_key('r');
    assert!(r.consumed);
    assert_eq!(r.backspaces, 1);
    assert_eq!(r.commit, "ở");
}

#[test]
fn telex_work_space_push() {
    let mut eng = EngineState::<Mini>::new(InputMethod::Telex);
    let mut buf = type_str(&mut eng, "work");
    assert_eq!(buf, "work", "auto-restore should revert 'work'");
    buf = type_str(&mut eng, " push");
    assert_eq!(buf, " púh", "'push' in Telex = 'púh' — s is Tone1");
}

#[test]
fn vni_and_telex_isolated() {
    let mut t = EngineState::<Mini>::new(InputMethod::Telex);
    let mut v = EngineState::<Mini>::new(InputMethod::Vni);
    assert_eq!(type_str(&mut t, "as"), "á");
    assert_eq!(type_str(&mut v, "as"), "as");
}

#[test]
fn feed_context_accepts_faithful_reconstruction() {
    let mut e = EngineState::<Mini>::new(InputMethod::Telex);
    assert!(e.feed_context_gated("tiê"));
    let r = e.process_key('s');
    assert_eq!((r.backspaces, r.commit.as_str()), (1, "ế"));
}

#[test]
fn feed_context_rejects_lossy_reconstruction() {
    let mut e = EngineState::<Mini>::new(InputMethod::Telex);
    assert!(!e.feed_context_gated("ơiời"));
    assert!(
        e.at_word_beginning(),
        "rejected seed must leave the engine untouched"
    );
}

fn daemon_with(config: Config) -> Daemon<Mini> {
    Daemon::new(config, true, None)
}

fn test_daemon() -> Daemon<Mini> {
    daemon_with(Config::default())
}

fn typing_daemon(tier: BackspaceMethod) -> Daemon<Mini> {
    let mut d = test_daemon();
    d.router.current_active = true;
    d.router.composer = Some(Composer::new(InputMethod::Telex, tier, false));
    d
}

fn type_word(d: &mut Daemon<Mini>, word: &str) -> String {
    let mut visible = String::new();
    for ch in word.chars() {
        match d.handle_char(ch) {
            KeyDecision::ForwardRaw => visible.push(ch),
            KeyDecision::Apply {
                backspaces, commit, ..
            } => {
                for _ in 0..backspaces {
                    visible.pop();
                }
                visible.push_str(&commit);
            }
            KeyDecision::Consumed => {}
        }
    }
    visible
}

fn frame(text: &str, cursor: u32, anchor: u32) -> FrameSnapshot {
    FrameSnapshot {
        activate: false,
        deactivate: false,
        surrounding_text: Some((text.to_owned(), cursor, anchor)),
        purpose: 0,
        app_id: None,
        is_xwayland: false,
    }
}

#[test]
fn daemon_initializes_router_lifecycle_state() {
    let d = test_daemon();

    assert!(!d.router.current_active);
    assert!(!d.router.synthetic_active);
    assert!(d.router.composer.is_none());
    assert!(d.router.focused_app_id.is_none());
    assert!(d.router.last_enabled);
}

#[test]
fn activation_honors_legacy_tone_config() {
    let mut cfg = Config::default();
    cfg.modern_style = false;
    let mut daemon = daemon_with(cfg);

    let mut activate = frame("", 0, 0);
    activate.activate = true;
    activate.surrounding_text = None;
    daemon.on_done_frame(&activate);

    assert_eq!(type_word(&mut daemon, "hoaf"), "hòa");
}

#[test]
fn detect_capability_terminal_defaults_to_forward_key() {
    let d = test_daemon();
    let mut f = frame("", 0, 0);
    f.purpose = 13;
    assert_eq!(d.detect_capability(&f), BackspaceMethod::ForwardKey);
}

#[test]
fn native_focus_without_text_input_synthesizes_forward_key_session() {
    let mut daemon = test_daemon();

    daemon.on_focus_changed(Some("com.mitchellh.ghostty".to_owned()), true);

    assert!(daemon.router.current_active);
    assert!(daemon.router.synthetic_active);
    assert_eq!(
        daemon.router.focused_app_id.as_deref(),
        Some("com.mitchellh.ghostty")
    );

    let composer = daemon.router.composer.as_ref().expect("composer");
    assert_eq!(composer.method(), BackspaceMethod::ForwardKey);
    assert!(!composer.commit_string_functional);
}

#[test]
fn focus_without_vk_does_not_synthesize_session() {
    let mut daemon = test_daemon();

    daemon.on_focus_changed(Some("com.mitchellh.ghostty".to_owned()), false);

    assert!(!daemon.router.current_active);
    assert!(!daemon.router.synthetic_active);
    assert!(daemon.router.composer.is_none());
}

#[test]
fn anchor_only_surrounding_update_must_not_be_dropped() {
    let mut daemon = typing_daemon(BackspaceMethod::SurroundingText);

    daemon.on_done_frame(&frame("translate", 3, 3));
    daemon.on_done_frame(&frame("translate", 3, 9));

    let mut sink = DeleteCaptureSink::default();
    let w = daemon
        .router
        .composer
        .as_mut()
        .expect("composer state exists");
    w.apply_to_sink(1, "â", 1, 0, &mut sink);

    assert!(
        sink.deletes.is_empty(),
        "must NOT use delete_surrounding_text when selection is active"
    );
    assert_eq!(
        sink.vk_keys.len(),
        4,
        "anchor-only frame change must produce ForwardKey BS fallback"
    );
    assert_eq!(sink.commits, vec!["â".to_owned()]);
}

#[test]
fn sync_enabled_edge_gates_and_resets_inflight() {
    let mut d = typing_daemon(BackspaceMethod::SurroundingText);

    assert!(d.sync_enabled_edge());

    let _ = d.handle_char('h');
    assert!(d.router.composer.as_ref().unwrap().last_input_char.is_some());

    d.enabled = false;
    assert!(!d.sync_enabled_edge());
    assert!(d.router.composer.as_ref().unwrap().last_input_char.is_none());
}

#[test]
fn typing_english_word_stays_raw() {
    let mut d = typing_daemon(BackspaceMethod::SurroundingText);
    assert_eq!(type_word(&mut d, "word"), "word");
}

#[test]
fn ibus_escape_does_not_clear_current_word_context() {
    let mut d = typing_daemon(BackspaceMethod::SurroundingText);
    d.process_key(35, Some('h'));
    d.process_key(24, Some('o'));
    d.process_key(49, Some('n'));

    d.process_key(1, None);

    match d.process_key(17, Some('w')) {
        KeyDecision::Apply {
            backspaces,
            ref commit,
            ..
        } => {
            assert_eq!(backspaces, 2);
            assert_eq!(commit, "ơn");
        }
        _other => panic!("expected Apply for 'w' after hon + Esc"),
    }
    match d.process_key(31, Some('s')) {
        KeyDecision::Apply {
            backspaces,
            ref commit,
            ..
        } => {
            assert_eq!(backspaces, 2);
            assert_eq!(commit, "ớn");
        }
        _other => panic!("expected Apply for 's' after honw + Esc"),
    }
}

const KEY_A: u32 = 30;
const KEY_LEFT: u32 = 105;
const KEY_L: u32 = 38;

fn press(d: &mut Daemon<Mini>, key: u32, ch: Option<char>, repeat: bool) -> KeyDecision {
    let p = KeyPress { key, ch, repeat, keysym_commit: false, level_shifted: false };
    d.on_key_pressed(&p).decision
}

#[test]
fn compose_key_repeat_is_swallowed() {
    let mut d = typing_daemon(BackspaceMethod::SurroundingText);
    press(&mut d, KEY_A, Some('a'), false);

    let decision = press(&mut d, KEY_A, Some('a'), true);
    assert!(
        matches!(decision, KeyDecision::Consumed),
        "compose-key repeat is swallowed"
    );
}

#[test]
fn nav_key_repeat_is_consumed_and_forwarded() {
    let mut d = typing_daemon(BackspaceMethod::SurroundingText);
    press(&mut d, KEY_LEFT, None, false);

    let p = KeyPress {
        key: KEY_LEFT,
        ch: None,
        repeat: true,
        keysym_commit: false,
        level_shifted: false,
    };
    let verdict = d.on_key_pressed(&p);
    assert!(
        matches!(verdict.decision, KeyDecision::Consumed),
        "nav repeat forwards + consumes"
    );
    assert!(verdict.press_key);
    assert_eq!(is_nav_key(KEY_LEFT), true, "sanity: Left is a nav key");
}

#[test]
fn modifier_shortcut_repeat_is_consumed() {
    let mut d = typing_daemon(BackspaceMethod::SurroundingText);

    d.router.modifiers = ModifierState::empty().with(CTRL);
    let decision = press(&mut d, KEY_LEFT, None, true);
    assert!(
        matches!(decision, KeyDecision::Consumed),
        "Ctrl+Left repeat forwards + consumes"
    );
}

fn press_letter(d: &mut Daemon<Mini>, keysym_commit: bool, ch: char) -> KeyDecision {
    let p = KeyPress {
        key: KEY_L,
        ch: Some(ch),
        repeat: false,
        keysym_commit,
        level_shifted: ch == 'L',
    };
    d.on_key_pressed(&p).decision
}

#[test]
fn v1_level_shifted_passthrough_commits_decoded_char() {
    let mut d = typing_daemon(BackspaceMethod::ForwardKey);

    match press_letter(&mut d, true, 'L') {
        KeyDecision::Apply {
            backspaces, commit, ..
        } => {
            assert_eq!(backspaces, 0);
            assert_eq!(commit, "L", "decoded char committed verbatim");
        }
        _ => panic!("expected Apply commit for level-shifted passthrough on v1"),
    }
}

#[test]
fn v1_level_shifted_passthrough_is_not_recorded_as_raw_forward() {
    let mut d = typing_daemon(BackspaceMethod::ForwardKey);

    let decision = press_letter(&mut d, true, 'L');

    assert!(matches!(decision, KeyDecision::Apply { .. }));
    assert_eq!(
        d.router.composer.as_ref().unwrap().shadow_text(),
        "",
        "the deferred Apply will record the committed char; pre-recording it as raw input doubles the shadow"
    );
}

#[test]
fn v1_base_level_passthrough_still_forwards_raw() {
    let mut d = typing_daemon(BackspaceMethod::ForwardKey);

    assert!(
        matches!(press_letter(&mut d, true, 'l'), KeyDecision::ForwardRaw),
        "base-level passthrough still forwards the raw keycode"
    );
}

#[test]
fn v2_level_shifted_passthrough_still_forwards_raw() {
    let mut d = typing_daemon(BackspaceMethod::ForwardKey);

    assert!(
        matches!(press_letter(&mut d, false, 'L'), KeyDecision::ForwardRaw),
        "v2 keeps raw forward; the KWin modifier quirk doesn't apply"
    );
}

#[test]
fn full_state_struct_applies_method_and_modern_style_together() {
    let mut d = test_daemon();
    assert_eq!(d.config.method, MethodConfig::Telex);
    assert!(d.config.modern_style);

    d.config_change = Some(ConfigChange { method: MethodConfig::Vni, modern_style: false });
    d.sync_config();

    assert_eq!(
        d.config.method,
        MethodConfig::Vni,
        "method must flip from a full-state send"
    );
    assert!(
        !d.config.modern_style,
        "modern_style must flip from the same send"
    );
}

#[test]
fn noop_update_does_not_reset_engine_inflight() {
    let mut d = typing_daemon(BackspaceMethod::SurroundingText);

    let _ = d.handle_char('h');
    assert!(
        d.router.composer.as_ref().unwrap().last_input_char.is_some(),
        "engine must have state after handle_char"
    );

    d.config_change = Some(ConfigChange { method: MethodConfig::Telex, modern_style: true });
    d.sync_config();

    assert!(
        d.router.composer.as_ref().unwrap().last_input_char.is_some(),
        "no-op sync_config() must not reset the engine"
    );
}

#[test]
fn sequential_sends_apply_latest_config() {
    let mut d = test_daemon();

    d.config_change = Some(ConfigChange { method: MethodConfig::Vni, modern_style: true });
    d.config_change = Some(ConfigChange { method: MethodConfig::Telex, modern_style: false });

    d.sync_config();

    assert_eq!(d.config.method, MethodConfig::Telex);
    assert!(!d.config.modern_style, "modern_style from the second send");
}

#[test]
fn method_change_preserves_legacy_tone_placement() {
    let mut cfg = Config::default();
    cfg.modern_style = false;
    let mut d = daemon_with(cfg);
    d.router.current_active = true;
    let mut composer =
        Composer::new(InputMethod::Telex, BackspaceMethod::SurroundingText, false);
    composer.set_modern_style(false);
    d.router.composer = Some(composer);

    d.config_change = Some(ConfigChange { method: MethodConfig::Vni, modern_style: false });
    d.sync_config();
    assert_eq!(d.config.method, MethodConfig::Vni);

    assert_eq!(type_word(&mut d, "hoa2"), "hòa");
}

#[test]
fn method_change_resets_engine_state() {
    let mut d = typing_daemon(BackspaceMethod::SurroundingText);

    let _ = d.handle_char('h');
    assert!(d.router.composer.as_ref().unwrap().last_input_char.is_some());

    d.config_change = Some(ConfigChange { method: MethodConfig::Vni, modern_style: true });
    d.sync_config();

    assert!(
        d.router.composer.as_ref().unwrap().last_input_char.is_none(),
        "engine must reset on method change"
    );

    assert_eq!(d.config.method, MethodConfig::Vni);
}

#[test]
fn actions_count_as_recent_within_the_echo_window() {
    let mut c: Composer<Mini> =
        Composer::new(InputMethod::Telex, BackspaceMethod::SurroundingText, false);
    assert!(!c.acted_within_window(0));
    c.mark_action();
    assert!(c.acted_within_window(149));
    assert!(!c.acted_within_window(150));
    assert!(c.recent_action());
    c.defer_action();
    assert!(!c.recent_action());
}

#[test]
fn a_pause_drops_the_engine_state() {
    let mut c: Composer<Mini> =
        Composer::new(InputMethod::Telex, BackspaceMethod::SurroundingText, false);
    c.feed_key('a');
    assert!(!c.reset_when_idle(1999));
    assert!(!c.engine.at_word_beginning());
    assert!(c.reset_when_idle(2000));
    assert!(c.engine.at_word_beginning());
    assert!(c.context.await_frame);
}

#[test]
fn grabbed_keys_pass_while_composition_is_off() {
    let mut s: EvdevSession<Mini> = EvdevSession::new(test_daemon());
    assert!(!matches!(s.handle_char(KEY_A, 'a'), KeyDecision::ForwardRaw));
    s.daemon.enabled = false;
    assert!(matches!(s.handle_char(KEY_A, 'a'), KeyDecision::ForwardRaw));
    assert!(matches!(s.handle_char(KEY_A, 'a'), KeyDecision::ForwardRaw));
    assert!(matches!(s.handle_backspace(), KeyDecision::ForwardRaw));
    let c = s.daemon.router.composer.as_ref().unwrap();
    assert!(c.engine.at_word_beginning(), "turning off ends the word");
    assert_eq!(c.shadow_text(), "");
}

#[test]
fn turning_composition_on_again_starts_afresh() {
    let mut s: EvdevSession<Mini> = EvdevSession::new(test_daemon());
    s.daemon.enabled = false;
    s.handle_char(KEY_A, 'a');
    s.daemon.enabled = true;
    match s.handle_char(KEY_A, 'a') {
        KeyDecision::Apply { backspaces, commit, .. } => {
            assert_eq!((backspaces, commit.as_str()), (0, "a"));
        }
        _ => panic!("a vowel starts a word"),
    }
    match s.handle_char(KEY_A, 'a') {
        KeyDecision::Apply { backspaces, commit, .. } => {
            assert_eq!((backspaces, commit.as_str()), (1, "\u{e2}"));
        }
        _ => panic!("a doubled vowel composes"),
    }
}

#[test]
fn the_style_outlives_a_change_of_method() {
    let mut c: Composer<Mini> =
        Composer::new(InputMethod::Telex, BackspaceMethod::SurroundingText, false);
    c.set_modern_style(false);
    c.set_input_method(InputMethod::Vni);
    assert!(!c.engine.modern_style());
    c.set_modern_style(true);
    c.set_input_method(InputMethod::Telex);
    assert!(c.engine.modern_style());
}

#[test]
fn a_refused_seed_leaves_the_word_in_progress() {
    let mut e: EngineState<Mini> = EngineState::new(InputMethod::Telex);
    e.process_key('a');
    assert!(!e.feed_context_gated("\u{2603}"));
    let r = e.process_key('a');
    assert_eq!((r.backspaces, r.commit.as_str()), (1, "\u{e2}"));
}

#[test]
fn brackets_compose_only_where_they_are_asked_for() {
    let mut plain: EngineState<Mini> = EngineState::new_with_options(InputMethod::Telex, false);
    assert!(!plain.process_key('[').consumed);
    let mut e: EngineState<Mini> = EngineState::new_with_options(InputMethod::Telex, true);
    assert_eq!(e.process_key('[').commit, "\u{1a1}");
}

#[test]
fn a_verbatim_engine_composes_nothing() {
    let mut e: EngineState<Verbatim> = EngineState::new(InputMethod::Telex);
    for key in "tieengs".chars() {
        let r = e.process_key(key);
        assert_eq!((r.backspaces, r.commit.as_str(), r.consumed), (0, "", false));
        assert!(e.at_word_beginning());
    }
    assert_eq!(e.render("tieengs"), "tieengs");
    assert!(!e.process_backspace().consumed);
    assert!(!e.feed_context_gated("ti\u{1ebf}ng"));
    assert!(!e.feed_context("tieng"));
    assert!(e.modern_style());
    e.set_modern_style(false);
    e.reset();
    assert!(!e.modern_style());
}

#[test]
fn a_real_activation_replaces_a_made_up_session() {
    let mut d = typing_daemon(BackspaceMethod::ForwardKey);
    assert!(!d.will_activate(true));
    assert!(d.will_deactivate(true, true));
    assert!(!d.will_deactivate(false, false));
    d.router.synthetic_active = true;
    assert!(d.will_activate(true));
    assert!(!d.will_activate(false));
    assert!(!d.will_deactivate(true, true));
    d.router.synthetic_active = false;
    d.router.current_active = false;
    assert!(d.will_activate(true));
    assert!(!d.will_deactivate(false, true));
}

#[test]
fn a_window_without_text_input_is_known_to_lose_strings() {
    let mut d = test_daemon();
    assert!(d.commit_string_functional());
    d.on_focus_changed(Some("foot".to_owned()), true);
    assert!(!d.commit_string_functional());
    d.on_focus_changed(None, true);
    assert!(d.commit_string_functional());
}

#[test]
fn clock_readings_are_kept_as_they_are_given() {
    let made = Instant::now();
    let later = made + Duration::from_millis(5);
    let mut c: Composer<Mini> =
        Composer::new_at(InputMethod::Telex, BackspaceMethod::SurroundingText, false, made);
    assert_eq!((c.last_keystroke_at, c.last_action_at), (made, None));
    c.mark_action_at(later);
    assert_eq!((c.last_keystroke_at, c.last_action_at), (made, Some(later)));
    c.feed_key_at('a', later);
    assert_eq!((c.last_keystroke_at, c.last_action_at), (later, Some(later)));
    c.feed_backspace_at(made);
    assert_eq!((c.last_keystroke_at, c.last_action_at), (made, Some(later)));
    c.full_reset();
    assert_eq!((c.last_keystroke_at, c.last_action_at), (made, Some(later)));
    c.defer_action();
    assert_eq!((c.last_keystroke_at, c.last_action_at), (made, None));
}
