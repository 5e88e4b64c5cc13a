use daklak::edit::{BackspaceMethod, KeyDecision};
use daklak::evdev::{
    is_foreign_keyboard, mod_bit, own_device_name, EmitSpec, EmitTable, EvdevAdapter, EvdevHandler, KeyInput,
};

#[test]
fn own_uinput_device_name_is_daklak() {
    assert_eq!(own_device_name(), "daklak");
}

#[derive(Default)]
struct MockHandler {
    char_decisions: Vec<KeyDecision>,
    cleared: u32,
}

impl EvdevHandler for MockHandler {
    fn handle_char(&mut self, _code: u32, _ch: char) -> KeyDecision {
        if self.char_decisions.is_empty() {
            KeyDecision::Consumed
        } else {
            self.char_decisions.remove(0)
        }
    }
    fn handle_backspace(&mut self) -> KeyDecision {
        KeyDecision::ForwardRaw
    }
    fn clear_session(&mut self) {
        self.cleared += 1;
    }
    fn clear_last_input_char(&mut self) {}
    fn full_reset_window(&mut self) {}
    fn check_idle_reset_window(&mut self) {}
}

fn test_adapter() -> EvdevAdapter {
    EvdevAdapter::new(EmitTable {
        entries: vec![
            ('â', EmitSpec { keycode: 201, mods: 0 }),
            ('Â', EmitSpec { keycode: 201, mods: 1 }),
        ],
    })
}

const KEY_S: u32 = 31;
const KEY_LEFTSHIFT: u32 = 42;
const KEY_ESC: u32 = 1;

fn key(code: u32, value: i32) -> KeyInput {
    let ch = if code == KEY_S { Some('s') } else { None };
    KeyInput { is_key: true, code, value, ch, now: 0 }
}

#[test]
fn consumed_press_drops_its_release() {
    let mut adapter = test_adapter();
    let mut handler =
        MockHandler { char_decisions: vec![KeyDecision::Consumed], ..MockHandler::default() };

    let mut events = adapter.process_event(&mut handler, &key(KEY_S, 1));
    events.extend(adapter.process_event(&mut handler, &key(KEY_S, 0)));

    assert!(
        events.is_empty(),
        "consumed press must emit nothing on press or release"
    );
    assert!(!adapter.forwarded_press.contains(&KEY_S));
}

#[test]
fn forwarded_press_forwards_its_release() {
    let mut adapter = test_adapter();
    let mut handler =
        MockHandler { char_decisions: vec![KeyDecision::ForwardRaw], ..MockHandler::default() };

    let mut events = adapter.process_event(&mut handler, &key(KEY_S, 1));
    events.extend(adapter.process_event(&mut handler, &key(KEY_S, 0)));

    assert_eq!(events, vec![(KEY_S, 1), (KEY_S, 0)]);
    assert!(
        !adapter.forwarded_press.contains(&KEY_S),
        "release must clear the forwarded-press mark"
    );
}

#[test]
fn autorepeat_follows_press_disposition() {
    let mut adapter = test_adapter();
    let mut handler =
        MockHandler { char_decisions: vec![KeyDecision::Consumed], ..MockHandler::default() };
    let mut events = adapter.process_event(&mut handler, &key(KEY_S, 1));
    events.extend(adapter.process_event(&mut handler, &key(KEY_S, 2)));
    assert!(events.is_empty());

    let mut adapter = test_adapter();
    let mut handler =
        MockHandler { char_decisions: vec![KeyDecision::ForwardRaw], ..MockHandler::default() };
    let mut events = adapter.process_event(&mut handler, &key(KEY_S, 1));
    events.extend(adapter.process_event(&mut handler, &key(KEY_S, 2)));
    assert_eq!(events, vec![(KEY_S, 1), (KEY_S, 2)]);
}

fn at(code: u32, value: i32, now: u64) -> KeyInput {
    KeyInput { is_key: true, code, value, ch: None, now }
}

#[test]
fn edits_delete_before_they_type() {
    let mut adapter = test_adapter();
    let mut handler = MockHandler {
        char_decisions: vec![KeyDecision::Apply {
            method: BackspaceMethod::ForwardKey,
            backspaces: 1,
            commit: "â".to_owned(),
        }],
        ..MockHandler::default()
    };
    let events = adapter.process_event(&mut handler, &key(KEY_S, 1));
    assert_eq!(events, vec![(14, 1), (14, 0), (201, 1), (201, 0)]);
    assert!(adapter.process_event(&mut handler, &key(KEY_S, 0)).is_empty());
}

#[test]
fn modifiers_pass_through() {
    let mut adapter = test_adapter();
    let mut handler = MockHandler::default();
    assert_eq!(
        adapter.process_event(&mut handler, &key(KEY_LEFTSHIFT, 1)),
        vec![(KEY_LEFTSHIFT, 1)]
    );
    assert_eq!(
        adapter.process_event(&mut handler, &key(KEY_LEFTSHIFT, 0)),
        vec![(KEY_LEFTSHIFT, 0)]
    );
    assert_eq!(adapter.mod_mask, 0);
}

#[test]
fn three_quick_taps_of_escape_end_the_grab() {
    let mut adapter = test_adapter();
    let mut handler = MockHandler::default();
    for now in [0, 100, 200] {
        assert!(!adapter.should_exit);
        adapter.process_event(&mut handler, &at(KEY_ESC, 1, now));
        adapter.process_event(&mut handler, &at(KEY_ESC, 0, now + 1));
    }
    assert!(adapter.should_exit);

    let mut adapter = test_adapter();
    for now in [0, 900_000_000, 1_800_000_000] {
        adapter.process_event(&mut handler, &at(KEY_ESC, 1, now));
        adapter.process_event(&mut handler, &at(KEY_ESC, 0, now + 1));
    }
    assert!(!adapter.should_exit);
}

#[test]
fn other_events_are_ignored() {
    let mut adapter = test_adapter();
    let mut handler = MockHandler::default();
    let ev = KeyInput { is_key: false, code: KEY_S, value: 1, ch: Some('s'), now: 0 };
    assert!(adapter.process_event(&mut handler, &ev).is_empty());
}

#[test]
fn our_own_keyboard_is_not_grabbed() {
    assert!(is_foreign_keyboard("AT Translated Set 2 keyboard", true));
    assert!(!is_foreign_keyboard("AT Translated Set 2 keyboard", false));
    assert!(!is_foreign_keyboard("daklak", true));
}

#[test]
fn modifier_keys_have_bits() {
    assert_eq!(mod_bit(29), Some(4));
    assert_eq!(mod_bit(42), Some(1));
    assert_eq!(mod_bit(30), None);
}
