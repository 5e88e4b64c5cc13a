use daklak::config::Config;
use daklak::edit::modifiers::{ModifierState, ALT, SHIFT};
use daklak::edit::uinput_backspace::{backspace_plan, KeyEvent};
use daklak::edit::uinput_device::declared_keys;
use daklak::edit::{BackspaceMethod, KeyState, OutputSink};
use daklak::engine::{InputMethod, ProcessResult, SyllableEngine};
use daklak::evdev::{EmitSpec, EmitTable};
use daklak::focus::FocusEvent;
use daklak::wayland::app::{AppState, ImEvent, RawMods, SelfEmit};
use daklak::wayland::frame::SurroundingText;
use daklak::wayland::run::{
    next_turn, teardown, FocusPoller, Held, KeymapSetup, KeymapSource, Ready, Release, Shutdown,
    Turn,
};
use daklak::wayland::sink::{
    key_value, keys_for_string, uinput_key, vk_commit_char, vk_commit_text, VkRequest,
};

/// Doubled `a` is `â`; every other key stands as it is.
struct Circumflex {
    pending: bool,
}

impl SyllableEngine for Circumflex {
    fn fresh(_method: InputMethod, _plain_brackets: bool) -> Self {
        Circumflex { pending: false }
    }
    fn process(&mut self, key: char) -> ProcessResult {
        let doubled = self.pending && key == 'a';
        self.pending = key == 'a' && !doubled;
        ProcessResult {
            backspaces: if doubled { 1 } else { 0 },
            commit: if doubled { "â".to_owned() } else { String::new() },
            consumed: doubled,
        }
    }
    fn process_backspace(&mut self) -> ProcessResult {
        self.pending = false;
        ProcessResult { backspaces: 0, commit: String::new(), consumed: false }
    }
    fn reset(&mut self) {
        self.pending = false;
    }
    fn feed_context(&mut self, keys: &str) -> bool {
        self.pending = keys.ends_with('a');
        !keys.is_empty()
    }
    fn at_word_beginning(&self) -> bool {
        !self.pending
    }
    fn modern_style(&self) -> bool {
        true
    }
    fn set_modern_style(&mut self, _enabled: bool) {}
}

#[derive(Default)]
struct Recorder {
    calls: Vec<String>,
}

impl OutputSink for Recorder {
    fn delete_surrounding_text(&mut self, before_bytes: u32, _: u32, after_bytes: u32, _: u32) {
        self.calls.push(format!("delete {before_bytes} {after_bytes}"));
    }
    fn commit_string(&mut self, text: &str) {
        self.calls.push(format!("text {text}"));
    }
    fn commit(&mut self, serial: u32) {
        self.calls.push(format!("commit {serial}"));
    }
    fn vk_key(&mut self, _time: u32, key_code: u32, state: KeyState) {
        self.calls.push(format!("key {key_code} {state:?}"));
    }
    fn vk_modifiers(&mut self, depressed: u32, _: u32, _: u32, _: u32) {
        self.calls.push(format!("mods {depressed}"));
    }
    fn vk_can_type(&self, _c: char) -> bool {
        true
    }
    fn vk_commit_char(&mut self, _time: u32, c: char) -> bool {
        self.calls.push(format!("char {c}"));
        true
    }
    fn commit_via_keysym(&mut self, _serial: u32, _time: u32, _text: &str) -> bool {
        false
    }
}

fn app() -> AppState<Circumflex> {
    AppState::new(&Config::default(), &None, vec!["steam".to_owned()], false)
}

fn report(text: &str) -> ImEvent {
    let cursor = text.len() as u32;
    ImEvent::SurroundingText(SurroundingText { text: text.to_owned(), cursor, anchor: cursor })
}

const KEY_A: u32 = 30;

#[test]
fn a_frame_takes_effect_at_its_end() {
    let mut a = app();
    a.event(ImEvent::Activate);
    a.event(report("x"));
    assert!(!a.current_active && a.will_activate());
    a.event(ImEvent::Done);
    a.apply_done_frame(Some("gedit".to_owned()), 0);
    assert!(a.current_active && !a.will_activate());
    assert_eq!(a.serial, 1);
    assert_eq!(a.focused_app_id.as_deref(), Some("gedit"));
    assert_eq!(a.window.as_ref().unwrap().method, BackspaceMethod::SurroundingText);
    assert!(a.pending_frame.surrounding_text.is_none() && !a.pending_frame.pending_activate);
    a.event(ImEvent::Deactivate);
    a.apply_done_frame(None, 0);
    assert!(!a.current_active && a.window.is_none());
    a.event(ImEvent::Unavailable);
    assert!(a.should_exit);
}

#[test]
fn typing_composes_on_the_client() {
    let mut a = app();
    a.event(ImEvent::Activate);
    a.event(report(""));
    a.apply_done_frame(None, 0);
    let mut sink = Recorder::default();
    a.on_key_pressed(1, KEY_A, Some('a'), 10, &mut sink);
    assert_eq!(sink.calls, vec!["key 30 Pressed"]);
    sink.calls.clear();
    a.on_key_pressed(2, KEY_A, Some('a'), 20, &mut sink);
    assert_eq!(sink.calls, vec!["delete 1 0", "text â", "commit 1"]);
}

#[test]
fn windows_without_text_input_get_keys() {
    let mut a = app();
    a.on_focus_changed(Some("steam".to_owned()), 0);
    assert!(a.current_active && a.synthetic_active);
    let mut sink = Recorder::default();
    a.on_key_pressed(1, KEY_A, Some('a'), 10, &mut sink);
    a.on_key_pressed(2, KEY_A, Some('a'), 20, &mut sink);
    assert_eq!(
        sink.calls,
        vec!["key 30 Pressed", "key 14 Pressed", "key 14 Released", "char â"]
    );
    a.event(ImEvent::Activate);
    a.apply_done_frame(Some("gedit".to_owned()), 30);
    assert!(a.current_active && !a.synthetic_active);
    a.on_focus_changed(None, 40);
    assert!(a.current_active, "a real session outlives a change of focus");
}

#[test]
fn our_own_keys_are_dropped_once() {
    let mut a = app();
    assert!(uinput_key(true, &mut a.pending_self_emits, 14, 1, 1_000));
    assert!(!uinput_key(false, &mut a.pending_self_emits, 14, 0, 1_000));
    assert_eq!(a.pending_self_emits, vec![SelfEmit { key: 14, value: 1, at: 1_000 }]);
    assert!(!a.suppress_self_emit(14, 0, 2_000));
    assert!(a.suppress_self_emit(14, 1, 2_000));
    assert!(!a.suppress_self_emit(14, 1, 2_000));
    uinput_key(true, &mut a.pending_self_emits, 14, 1, 1_000);
    assert!(!a.suppress_self_emit(14, 1, 60_000_000), "too late to be ours");
}

const NONE_HELD: RawMods = RawMods { depressed: 0, latched: 0, locked: 0, group: 0 };

#[test]
fn modifiers_are_passed_on() {
    let mut a = app();
    let mut sink = Recorder::default();
    a.on_modifiers(RawMods { depressed: 4, ..NONE_HELD }, &mut sink);
    assert_eq!(sink.calls, vec!["mods 4"]);
    assert_eq!(a.modifiers.bits, 4);
}

#[test]
fn levels_are_held_while_a_character_is_typed() {
    let table = EmitTable {
        entries: vec![
            ('à', EmitSpec { keycode: 200, mods: 0 }),
            ('À', EmitSpec { keycode: 200, mods: 1 }),
        ],
    };
    let held = RawMods { depressed: 4, ..NONE_HELD };
    assert_eq!(
        vk_commit_char(&table, held, 9, 'À').unwrap(),
        vec![
            VkRequest::Modifiers(RawMods { depressed: 5, ..NONE_HELD }),
            VkRequest::Key { time: 9, key_code: 200, value: 1 },
            VkRequest::Key { time: 9, key_code: 200, value: 0 },
            VkRequest::Modifiers(held),
        ]
    );
    assert_eq!(vk_commit_char(&table, held, 9, 'à').unwrap().len(), 2);
    assert!(vk_commit_char(&table, held, 9, 'x').is_none());
    assert_eq!((key_value(KeyState::Pressed), key_value(KeyState::Released)), (1, 0));
}

fn quiet() -> Ready {
    Ready { shutdown: None, interrupted: false, readable: false, repeat_due: false, focus: None }
}

#[test]
fn the_loop_takes_turns() {
    assert!(matches!(next_turn(quiet()), Turn::Wait));
    assert!(matches!(next_turn(Ready { interrupted: true, ..quiet() }), Turn::Stop));
    let asked = Some(Shutdown { alive: true, stop: true });
    assert!(matches!(next_turn(Ready { shutdown: asked, ..quiet() }), Turn::Stop));
    let gone = Some(Shutdown { alive: false, stop: true });
    assert!(matches!(next_turn(Ready { shutdown: gone, ..quiet() }), Turn::Wait));
    assert!(matches!(
        next_turn(Ready { readable: true, repeat_due: true, ..quiet() }),
        Turn::Read
    ));
    assert!(matches!(next_turn(Ready { repeat_due: true, ..quiet() }), Turn::Repeat));
    let moved = FocusEvent { app_id: Some("foot".to_owned()), is_xwayland: false };
    match next_turn(Ready { focus: Some(moved.clone()), ..quiet() }) {
        Turn::Focus(f) => assert_eq!(f, moved),
        _ => panic!("the focus moved"),
    }
}

#[test]
fn objects_are_let_go_of_in_order() {
    let all = Held { grab: true, input_method: true, virtual_keyboard: true };
    assert_eq!(
        teardown(all),
        vec![Release::Grab, Release::InputMethod, Release::VirtualKeyboard]
    );
    assert_eq!(teardown(Held { input_method: false, ..all }).len(), 2);
}

#[test]
fn only_a_new_focus_is_news() {
    let mut p = FocusPoller::new();
    assert!(!p.observe(None));
    assert!(p.observe(Some("foot".to_owned())));
    assert!(!p.observe(Some("foot".to_owned())));
    assert!(p.observe(Some("gedit".to_owned())));
    assert!(p.observe(None));
}

#[test]
fn one_keymap_is_sent() {
    let mut k = KeymapSetup::new();
    let step = k.announced(false, true);
    assert_eq!((step.send, step.read), (None, true));
    let step = k.announced(true, true);
    assert_eq!((step.send, step.read), (Some(KeymapSource::Own), true));
    k.layout_read(true);
    let step = k.announced(true, false);
    assert_eq!((step.send, step.read), (None, false));
    assert_eq!(KeymapSetup::new().announced(true, false).send, Some(KeymapSource::Compositor));
}

#[test]
fn modifiers_are_let_go_of_around_backspaces() {
    let held = ModifierState::empty().with(SHIFT).with(ALT);
    let plan = backspace_plan(1, held);
    let down = |code: u16| KeyEvent { code, down: true };
    let up = |code: u16| KeyEvent { code, down: false };
    assert_eq!(plan, vec![up(42), up(56), down(14), up(14), down(42), down(56)]);
    assert_eq!(backspace_plan(2, ModifierState::empty()).len(), 4);
}

#[test]
fn the_device_declares_backspace_and_every_slot() {
    let keys = declared_keys(&vec![201, 202]);
    assert!(keys.contains(&14) && keys.contains(&201) && keys.contains(&202));
}

#[test]
fn a_text_is_typed_whole_where_strings_are_lost() {
    let table = EmitTable {
        entries: vec![
            ('à', EmitSpec { keycode: 200, mods: 0 }),
            ('À', EmitSpec { keycode: 200, mods: 1 }),
        ],
    };
    let held = RawMods { depressed: 4, ..NONE_HELD };
    let tap = [
        VkRequest::Key { time: 9, key_code: 200, value: 1 },
        VkRequest::Key { time: 9, key_code: 200, value: 0 },
    ];
    assert_eq!(
        keys_for_string(false, &table, held, 9, "àÀ").unwrap(),
        vec![
            tap[0],
            tap[1],
            VkRequest::Modifiers(RawMods { depressed: 5, ..NONE_HELD }),
            tap[0],
            tap[1],
            VkRequest::Modifiers(held),
        ]
    );
    assert!(keys_for_string(false, &table, held, 9, "àx").is_none(), "all of it or nothing");
    assert!(keys_for_string(true, &table, held, 9, "à").is_none(), "strings are applied");
    assert_eq!(vk_commit_text(&table, held, 9, "").unwrap(), vec![]);
}

fn terminal(setting: &str, uinput: bool) -> AppState<Circumflex> {
    let setting = Some(setting.to_owned());
    let mut a = AppState::new(&Config::default(), &setting, vec![], uinput);
    a.event(ImEvent::Activate);
    a.event(ImEvent::ContentType(13));
    a.event(ImEvent::Done);
    a.apply_done_frame(None, 0);
    a
}

#[test]
fn terminals_can_be_reached_through_the_input_device() {
    let mut a = terminal("UInput", true);
    assert!(a.window.as_ref().unwrap().uinput);
    let mut sink = Recorder::default();
    assert!(a.on_key_pressed(1, KEY_A, Some('a'), 10, &mut sink).is_none());
    let edit = a.on_key_pressed(2, KEY_A, Some('a'), 20, &mut sink).unwrap();
    assert_eq!(sink.calls, vec![format!("key {KEY_A} Pressed")], "the edit is not the sink's");
    assert!(edit.release_grab);
    assert_eq!(edit.commit, "â");
    assert_eq!(
        edit.events,
        vec![KeyEvent { code: 14, down: true }, KeyEvent { code: 14, down: false }]
    );
    assert_eq!(a.window.as_ref().unwrap().strategy.shadow.text(), "â");
    assert!(a.suppress_self_emit(14, 1, 21) && a.suppress_self_emit(14, 0, 21));
    assert!(!a.suppress_self_emit(14, 1, 21), "each event comes back once");
}

#[test]
fn held_modifiers_go_up_for_an_edit_of_our_own() {
    let mut a = terminal("uinput", true);
    let mut sink = Recorder::default();
    a.on_modifiers(RawMods { depressed: SHIFT, ..NONE_HELD }, &mut sink);
    a.on_key_pressed(1, KEY_A, Some('a'), 10, &mut sink);
    let edit = a.on_key_pressed(2, KEY_A, Some('a'), 20, &mut sink).unwrap();
    assert_eq!(edit.events.first(), Some(&KeyEvent { code: 42, down: false }));
    assert_eq!(edit.events.last(), Some(&KeyEvent { code: 42, down: true }));
}

#[test]
fn a_missing_device_leaves_backspace_keys() {
    let a = terminal("uinput", false);
    let w = a.window.as_ref().unwrap();
    assert_eq!((w.method, w.uinput), (BackspaceMethod::ForwardKey, false));
    let a = terminal("tier1", true);
    let w = a.window.as_ref().unwrap();
    assert_eq!((w.method, w.uinput), (BackspaceMethod::SurroundingText, false));
    let a = terminal("tier2", true);
    assert!(!a.window.as_ref().unwrap().uinput);
}
