use std::collections::HashMap;

use daklak::edit::modifiers::ModifierState;
use daklak::edit::{BackspaceMethod, DeleteUnit, KeyDecision, KeyState, OutputSink, Strategy};
use daklak::ibus::address::{bus_suffix, resolve_ibus_address, AddressFile, BusEnv};
use daklak::ibus::engine::{drain, method_for_capability, EngineState, IbusHandler, Signal};
use daklak::ibus::keyval::{
    evdev_to_keyval, ibus_state_to_modifiers, keyval_to_char, keyval_to_evdev, x11_to_evdev,
    IBUS_CONTROL_MASK, IBUS_FORWARD_MASK, IBUS_RELEASE_MASK, XK_BACKSPACE,
};
use daklak::ibus::sink::{IbusSink, PendingDelete};
use daklak::ibus::value::{ibus_attr_list, ibus_text, extract_ibus_text_string, IbusValue};

#[test]
fn method_selection_prefers_surrounding() {
    assert_eq!(
        method_for_capability(true),
        BackspaceMethod::SurroundingText
    );
}

#[test]
fn method_selection_falls_back_to_forward_key() {
    assert_eq!(method_for_capability(false), BackspaceMethod::ForwardKey);
}

#[test]
fn ibus_text_signature() {
    assert_eq!(ibus_text("x").value_signature().to_string(), "(sa{sv}sv)");
}

#[test]
fn ibus_attr_list_signature() {
    assert_eq!(ibus_attr_list().value_signature().to_string(), "(sa{sv}av)");
}

#[test]
fn vk_key_uses_evdev_keycode_for_forward_event() {
    let mut sink = IbusSink::default();
    sink.vk_key(0, 14, KeyState::Pressed);
    sink.vk_key(0, 14, KeyState::Released);

    assert_eq!(sink.forwards.len(), 2);
    assert_eq!(sink.forwards[0].keycode, 14);
    assert_eq!(sink.forwards[0].keyval, XK_BACKSPACE);

    assert_eq!(sink.forwards[0].state, IBUS_FORWARD_MASK);
    assert_eq!(sink.forwards[1].keycode, 14);
    assert_eq!(sink.forwards[1].keyval, XK_BACKSPACE);
    assert_eq!(
        sink.forwards[1].state,
        IBUS_FORWARD_MASK | IBUS_RELEASE_MASK
    );
}

#[test]
fn ibus_does_not_claim_key_channel_commit_support() {
    let mut sink = IbusSink::default();

    assert!(!sink.vk_commit_char(0, 'ậ'));
    assert!(!sink.commit_key_channel_text(0, 0, "ập"));
    assert!(sink.commits.is_empty());
}

#[test]
fn ibus_forward_key_replacement_is_one_whole_commit_text() {
    let mut sink = IbusSink::default();
    let mut strategy = Strategy::new(BackspaceMethod::ForwardKey);

    strategy.apply(2, "ập", 0, 0, &mut sink, DeleteUnit::Bytes);

    assert_eq!(sink.forwards.len(), 4);
    assert_eq!(sink.commits, vec!["ập".to_owned()]);
}

#[test]
fn signatures_agree_with_the_wire_format() {
    let list = zvariant::StructureBuilder::new()
        .add_field("IBusAttrList")
        .add_field(HashMap::<String, zvariant::Value>::new())
        .add_field(Vec::<zvariant::Value>::new())
        .build()
        .unwrap();
    let list = zvariant::Value::from(list);
    assert_eq!(ibus_attr_list().value_signature(), list.value_signature().to_string());
    let text = zvariant::StructureBuilder::new()
        .add_field("IBusText")
        .add_field(HashMap::<String, zvariant::Value>::new())
        .add_field("x")
        .append_field(zvariant::Value::Value(Box::new(list)))
        .build()
        .unwrap();
    let text = zvariant::Value::from(text);
    assert_eq!(ibus_text("x").value_signature(), text.value_signature().to_string());
}

#[test]
fn texts_are_read_back() {
    assert_eq!(extract_ibus_text_string(&ibus_text("tiếng")), Some("tiếng".to_owned()));
    assert_eq!(extract_ibus_text_string(&ibus_attr_list()), None);
    assert_eq!(extract_ibus_text_string(&IbusValue::Other), None);
}

#[test]
fn keyvals_are_characters_and_keys() {
    assert_eq!(keyval_to_char(0x61), Some('a'));
    assert_eq!(keyval_to_char(0x100_1EA7), Some('ầ'));
    assert_eq!(keyval_to_char(XK_BACKSPACE), None);
    assert_eq!(keyval_to_evdev(XK_BACKSPACE, 0), 14);
    assert_eq!(evdev_to_keyval(14), XK_BACKSPACE);
    assert_eq!(x11_to_evdev(38), 30);
    assert_eq!(x11_to_evdev(3), 0);
    assert_eq!(ibus_state_to_modifiers(IBUS_CONTROL_MASK).bits, 4);
}

#[derive(Default)]
struct Script {
    answers: Vec<KeyDecision>,
    heard: Vec<String>,
}

impl IbusHandler for Script {
    fn process_key(&mut self, evdev: u32, ch: Option<char>) -> KeyDecision {
        self.heard.push(format!("key {evdev} {ch:?}"));
        self.answers.remove(0)
    }
    fn apply_with_sink(&mut self, backspaces: usize, commit: &str, time: u32, sink: &mut IbusSink) {
        self.heard.push(format!("apply {backspaces} {commit} {time}"));
        for _ in 0..backspaces {
            sink.vk_key(time, 14, KeyState::Pressed);
            sink.vk_key(time, 14, KeyState::Released);
        }
        sink.commit_string(commit);
    }
    fn observe_surrounding(&mut self, text: &str, cursor: u32, anchor: u32) {
        self.heard.push(format!("around {text} {cursor} {anchor}"));
    }
    fn set_modifiers(&mut self, m: ModifierState) {
        self.heard.push(format!("mods {}", m.bits));
    }
    fn activate_ibus(&mut self, method: BackspaceMethod, chars_for_delete: bool) {
        self.heard.push(format!("activate {method:?} {chars_for_delete}"));
    }
    fn deactivate_ibus(&mut self) {
        self.heard.push("deactivate".to_owned());
    }
    fn update_method(&mut self, method: BackspaceMethod) {
        self.heard.push(format!("method {method:?}"));
    }
    fn full_reset(&mut self) {
        self.heard.push("reset".to_owned());
    }
}

#[test]
fn a_key_is_answered_with_signals() {
    let script = Script {
        answers: vec![
            KeyDecision::Apply {
                method: BackspaceMethod::ForwardKey,
                backspaces: 1,
                commit: "â".to_owned(),
            },
            KeyDecision::ForwardRaw,
        ],
        heard: vec![],
    };
    let mut e = EngineState::new(script, vec!["Firefox".to_owned()]);
    let reply = e.process_key_event(0x61, 38, 0);
    assert!(reply.handled);
    assert_eq!(reply.signals.len(), 3);
    assert!(matches!(reply.signals[0], Signal::ForwardKeyEvent(_)));
    assert!(matches!(&reply.signals[2], Signal::CommitText(t) if t == "â"));
    let reply = e.process_key_event(0x62, 56, 0);
    assert!(!reply.handled && reply.signals.is_empty());
    let reply = e.process_key_event(0x62, 56, IBUS_RELEASE_MASK);
    assert!(!reply.handled && reply.signals.is_empty());
    e.focus_in("firefox");
    e.set_capabilities(0);
    e.set_surrounding_text(&ibus_text("xin"), 3, 3);
    e.reset();
    e.focus_out();
    assert_eq!(e.daemon.heard[0], "mods 0");
    assert_eq!(e.daemon.heard[1], "key 38 Some('a')");
    assert_eq!(e.daemon.heard[2], "apply 1 â 0");
    assert!(e.daemon.heard.contains(&"activate SurroundingText true".to_owned()));
    assert!(e.daemon.heard.contains(&"method ForwardKey".to_owned()));
    assert!(e.daemon.heard.contains(&"reset".to_owned()));
    assert_eq!(e.daemon.heard.last().unwrap(), "deactivate");
}

#[test]
fn deletions_are_sent_before_texts() {
    let mut sink = IbusSink::new();
    sink.commit_string("a");
    sink.delete_surrounding_text(2, 1, 0, 0);
    sink.commit_string("");
    let signals = drain(sink);
    assert_eq!(signals.len(), 2);
    assert!(matches!(
        signals[0],
        Signal::DeleteSurroundingText(PendingDelete { offset: -1, n_chars: 1 })
    ));
}

#[test]
fn the_bus_address_comes_from_the_environment_or_its_file() {
    let env = BusEnv {
        address: Some("unix:path=/a".to_owned()),
        wayland_display: None,
        display: Some(":0".to_owned()),
    };
    assert_eq!(resolve_ibus_address(&env, &vec![]), Some("unix:path=/a".to_owned()));
    let env = BusEnv { address: None, wayland_display: None, display: Some(":1".to_owned()) };
    assert!(bus_suffix(&env).ends_with('1'));
    let file = AddressFile {
        name: format!("0123-{}", bus_suffix(&env)),
        content: Some("# comment\nIBUS_ADDRESS=unix:path=/b\nIBUS_DAEMON_PID=1\n".to_owned()),
    };
    assert_eq!(resolve_ibus_address(&env, &vec![file]), Some("unix:path=/b".to_owned()));
    assert_eq!(resolve_ibus_address(&env, &vec![]), None);
}
