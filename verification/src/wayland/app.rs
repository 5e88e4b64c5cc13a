//! The Wayland client's state, as protocol events change it.
use vstd::prelude::*;

use crate::config;
use crate::config::Config;
use crate::edit;
use crate::edit::modifiers::ModifierState;
use crate::edit::uinput_backspace::KeyEvent;
use crate::edit::{BackspaceMethod, Channels, KeyState, OutputSink, SinkCall};
use crate::engine;
use crate::engine::{InputMethod, SyllableEngine};
use crate::handler;
use crate::handler::frames;
use crate::handler::keys;
use crate::handler::keys::is_nav_key;
use crate::handler::terminal_tier;
use crate::ibus::keyval;
use crate::ibus::keyval::ibus_state_to_modifiers;
use crate::strings;
use crate::wayland::frame;
use crate::wayland::frame::{DoneFrame, FrameState, SurroundingText};
use crate::wayland::sink::uinput_key;
use crate::wayland::window;
use crate::wayland::window::{OwnEdit, UinputEdit, Window, WindowState};

verus! {

/// How long, in nanoseconds, a frame counts as an echo of the last key.
pub const ECHO: u64 = 150_000_000;

/// How long, in nanoseconds, a key of our own may take to come back.
pub const SELF_EMIT: u64 = 50_000_000;

/// A key of our own that will come back through the grab.
#[derive(Debug, Clone, Copy, PartialEq, Eq, Structural)]
pub struct SelfEmit {
    pub key: u32,
    pub value: i32,
    pub at: u64,
}

/// Modifiers as the protocols report them.
#[derive(Debug, Clone, Copy, PartialEq, Eq, Structural)]
pub struct RawMods {
    pub depressed: u32,
    pub latched: u32,
    pub locked: u32,
    pub group: u32,
}

/// A way to delete that is forced on terminals.
#[derive(Debug, Clone, Copy, PartialEq, Eq, Structural)]
pub enum TerminalTier {
    SurroundingText,
    /// Backspace keys of our own input device.
    Uinput,
}

/// What a setting's text forces on terminals.
pub open spec fn terminal_choice(setting: Option<Seq<char>>) -> Option<TerminalTier> {
    match setting {
        Some(t) => if strings::lowered(t) == "uinput"@ {
            Some(TerminalTier::Uinput)
        } else if handler::forced_tier(setting) is Some {
            Some(TerminalTier::SurroundingText)
        } else {
            None
        },
        None => None,
    }
}

/// What a setting's text forces on terminals.
pub fn chosen_terminal_tier(setting: &Option<String>) -> (t: Option<TerminalTier>)
    ensures
        t == terminal_choice(config::opt_text(*setting)),
{
    match setting {
        Some(t) => {
            let t = strings::to_lower(t.as_str());
            if *t.as_str() == *"uinput" {
                return Some(TerminalTier::Uinput);
            }
        },
        None => {},
    }
    match terminal_tier(setting) {
        Some(_) => Some(TerminalTier::SurroundingText),
        None => None,
    }
}

/// The tier that is forced on terminals, among those that need no device of our own.
pub open spec fn plain_override(t: Option<TerminalTier>) -> Option<BackspaceMethod> {
    match t {
        Some(TerminalTier::SurroundingText) => Some(BackspaceMethod::SurroundingText),
        _ => None,
    }
}

/// State of the client. Times are nanoseconds since some fixed time.
pub struct AppState<E: SyllableEngine> {
    pub method: InputMethod,
    pub serial: u32,
    pub modifiers: ModifierState,
    pub raw_mods: RawMods,
    pub pending_frame: DoneFrame,
    pub current_active: bool,
    /// When the user last typed.
    pub last_action_at: Option<u64>,
    pub window: Option<WindowState<E>>,
    pub pending_self_emits: Vec<SelfEmit>,
    pub terminal_override: Option<TerminalTier>,
    /// Our own input device is there.
    pub uinput: bool,
    pub focused_app_id: Option<String>,
    /// Windows that get keys only.
    pub vk_only_apps: Vec<String>,
    /// The session was made up for a window of `vk_only_apps`.
    pub synthetic_active: bool,
    pub should_exit: bool,
}

/// [`AppState`] as values.
pub struct App {
    /// What the engines of its windows are like.
    pub kind: engine::Kind,
    pub method: InputMethod,
    pub serial: u32,
    pub modifiers: ModifierState,
    pub raw_mods: RawMods,
    pub frame: FrameState,
    pub active: bool,
    pub last_action: Option<u64>,
    pub window: Option<Window>,
    pub emits: Seq<SelfEmit>,
    pub terminal_override: Option<TerminalTier>,
    pub uinput: bool,
    pub app_id: Option<Seq<char>>,
    pub vk_only_apps: Seq<Seq<char>>,
    pub synthetic: bool,
    pub should_exit: bool,
}

/// A window as values.
pub open spec fn window_of<E: SyllableEngine>(w: Option<WindowState<E>>) -> Option<Window> {
    match w {
        Some(w) => Some(w@),
        None => None,
    }
}

impl<E: SyllableEngine> View for AppState<E> {
    type V = App;

    open spec fn view(&self) -> App {
        App {
            kind: engine::kind_of::<E>(),
            method: self.method,
            serial: self.serial,
            modifiers: self.modifiers,
            raw_mods: self.raw_mods,
            frame: self.pending_frame@,
            active: self.current_active,
            last_action: self.last_action_at,
            window: window_of(self.window),
            emits: self.pending_self_emits@,
            terminal_override: self.terminal_override,
            uinput: self.uinput,
            app_id: config::opt_text(self.focused_app_id),
            vk_only_apps: strings::texts(self.vk_only_apps@),
            synthetic: self.synthetic_active,
            should_exit: self.should_exit,
        }
    }
}

/// The state without a session.
pub open spec fn cleared(a: App) -> App {
    App { active: false, synthetic: false, window: None, app_id: None, ..a }
}

/// The user typed so recently that a frame may be an echo.
pub open spec fn recent(a: App, now: u64) -> bool {
    a.last_action matches Some(t) && now - t < ECHO
}

/// A frame that starts a session, once a made-up one is gone.
pub open spec fn starts(a: App) -> bool {
    a.frame.activate && (a.synthetic || !a.active)
}

/// The tier for a new session. Deletes through our own input device leave it Backspace
/// keys, which take over where the device is missing.
pub open spec fn session_tier(a: App) -> BackspaceMethod {
    frames::tier_for(a.frame.purpose, a.frame.around is Some, plain_override(a.terminal_override))
}

/// A new session deletes through our own input device: it is a terminal's, that is
/// forced on terminals, and the device is there.
pub open spec fn through_uinput(a: App) -> bool {
    a.uinput && a.frame.purpose == edit::capability::PURPOSE_TERMINAL && a.terminal_override
        == Some(TerminalTier::Uinput)
}

/// The state once a frame's activation or deactivation took effect.
#[verifier::opaque]
pub open spec fn turned(a: App, focused: Option<Seq<char>>, now: u64) -> App {
    let b = if a.frame.activate && a.synthetic {
        cleared(a)
    } else {
        a
    };
    if b.frame.activate && !b.active {
        App {
            active: true,
            app_id: focused,
            window: Some(
                Window {
                    uinput: through_uinput(b),
                    ..window::new_window(b.kind, b.method, session_tier(b), now)
                },
            ),
            ..b
        }
    } else if b.frame.deactivate && b.active {
        App {
            active: false,
            window: None,
            app_id: None,
            frame: FrameState { purpose: 0, ..b.frame },
            ..b
        }
    } else {
        b
    }
}

/// The state once a frame took effect. The engine is seeded when a session starts or
/// the cursor moved; after a key it goes on with what it knows.
pub open spec fn frame_applied(a: App, focused: Option<Seq<char>>, now: u64) -> App {
    let b = turned(
        App {
            serial: if a.serial < u32::MAX {
                (a.serial + 1) as u32
            } else {
                0
            },
            ..a
        },
        focused,
        now,
    );
    App {
        window: match (b.frame.around, b.window) {
            (Some(t), Some(w)) => Some(window::reported(w, t, starts(a) || !recent(a, now))),
            _ => b.window,
        },
        frame: frame::nothing_for(b.frame.purpose),
        ..b
    }
}

/// A window that gets keys only.
pub open spec fn keys_only(app_id: Option<Seq<char>>, apps: Seq<Seq<char>>) -> bool {
    match app_id {
        Some(id) => exists|i: int|
            0 <= i < apps.len() && strings::lowered(#[trigger] apps[i]) == strings::lowered(id),
        None => false,
    }
}

/// The state once the focus moved.
#[verifier::opaque]
pub open spec fn focus_moved(a: App, app_id: Option<Seq<char>>, now: u64) -> App {
    if keys_only(app_id, a.vk_only_apps) && !a.active {
        App {
            active: true,
            synthetic: true,
            app_id,
            window: Some(window::new_window(a.kind, a.method, BackspaceMethod::VkOnly, now)),
            ..a
        }
    } else if a.synthetic && !keys_only(app_id, a.vk_only_apps) {
        cleared(a)
    } else {
        a
    }
}

/// The keys of our own that may still come back: the first ones whose time is up
/// are dropped.
pub open spec fn fresh_emits(emits: Seq<SelfEmit>, now: u64) -> Seq<SelfEmit>
    decreases emits.len(),
{
    if emits.len() > 0 && now - emits[0].at > SELF_EMIT {
        fresh_emits(emits.drop_first(), now)
    } else {
        emits
    }
}

/// The place of the first key event of our own like this one.
pub open spec fn emit_place(emits: Seq<SelfEmit>, key: u32, value: i32, from: nat) -> Option<nat>
    decreases emits.len(),
{
    if emits.len() == 0 {
        None
    } else if emits[0].key == key && emits[0].value == value {
        Some(from)
    } else {
        emit_place(emits.drop_first(), key, value, from + 1)
    }
}

/// The keys of our own that are left once a key event came, and whether it was one
/// of them.
pub open spec fn suppressed(emits: Seq<SelfEmit>, key: u32, value: i32, now: u64) -> (
    Seq<SelfEmit>,
    bool,
) {
    let fresh = fresh_emits(emits, now);
    match emit_place(fresh, key, value, 0) {
        Some(i) => (fresh.remove(i as int), true),
        None => (fresh, false),
    }
}

/// Where a pressed key goes.
#[derive(Debug, Clone, Copy, PartialEq, Eq, Structural)]
pub enum Press {
    /// It is one of our own: nowhere.
    Own,
    /// It ends the word: to the client.
    EndsWord,
    /// Nothing to compose in, or nothing to compose: to the client.
    Plain,
    Backspace,
    Character(char),
}

/// Where a pressed key goes.
pub open spec fn press_of(own: bool, m: ModifierState, open: bool, key: u32, ch: Option<char>) -> Press {
    if own {
        Press::Own
    } else if keys::shortcut(m) || keys::navigates(key) {
        Press::EndsWord
    } else if !open {
        Press::Plain
    } else if key == edit::KEY_BACKSPACE {
        Press::Backspace
    } else {
        match ch {
            Some(c) => Press::Character(c),
            None => Press::Plain,
        }
    }
}

/// Where a pressed key goes, when it comes at `now`.
pub open spec fn press_target(a: App, key: u32, ch: Option<char>, now: u64) -> Press {
    press_of(suppressed(a.emits, key, 1, now).1, a.modifiers, a.window is Some, key, ch)
}

/// The state once our own keys are sorted out and a pause was looked for.
pub open spec fn press_ready(a: App, key: u32, now: u64) -> App {
    let (emits, own) = suppressed(a.emits, key, 1, now);
    App {
        emits,
        window: match a.window {
            Some(w) => if own {
                Some(w)
            } else {
                Some(window::idled(w, now))
            },
            None => None,
        },
        ..a
    }
}

/// The state with another window, and the user having typed at `now`.
pub open spec fn typed(a: App, w: Option<Window>, now: u64) -> App {
    App { window: w, last_action: Some(now), ..a }
}

/// The keys of our own that may come back once an edit went through our own input
/// device: each of its events is added.
pub open spec fn with_own(emits: Seq<SelfEmit>, own: Option<OwnEdit>, now: u64) -> Seq<SelfEmit> {
    match own {
        Some(e) => emits + Seq::new(
            e.events.len(),
            |i: int| own_emit(e.events[i], now),
        ),
        None => emits,
    }
}

/// A key event of our own that may come back.
pub open spec fn own_emit(e: KeyEvent, now: u64) -> SelfEmit {
    SelfEmit {
        key: e.code as u32,
        value: if e.down {
            1
        } else {
            0
        },
        at: now,
    }
}

/// The state with another window and an edit on its way through our own input device,
/// the user having typed at `now`.
pub open spec fn composed(a: App, w: Option<Window>, own: Option<OwnEdit>, now: u64) -> App {
    App { emits: with_own(a.emits, own, now), ..typed(a, w, now) }
}

/// `(after, calls, own)` is what a pressed key leads to at its destination.
#[verifier::opaque]
pub open spec fn press_done(
    channels: Channels,
    a: App,
    after: App,
    to: Press,
    time: u32,
    key: u32,
    now: u64,
    calls: Seq<SinkCall>,
    own: Option<OwnEdit>,
) -> bool {
    match to {
        Press::Own => after == a && calls == Seq::<SinkCall>::empty() && own is None,
        Press::EndsWord => {
            &&& own is None
            &&& after == (App {
                window: match a.window {
                    Some(w) => Some(window::window_reset(w)),
                    None => None,
                },
                ..a
            })
            &&& calls == seq![window::key_press(time, key)]
        },
        Press::Plain => after == typed(a, a.window, now) && own is None && calls == seq![
            window::key_press(time, key),
        ],
        Press::Backspace => {
            &&& after.window is Some && a.window is Some
            &&& after == composed(a, after.window, own, now)
            &&& window::backspace_handled(
                channels,
                a.window->0,
                after.window->0,
                a.serial,
                time,
                now,
                calls,
                own,
            )
        },
        Press::Character(ch) => {
            &&& after.window is Some && a.window is Some
            &&& after == composed(a, after.window, own, now)
            &&& window::char_handled(
                channels,
                a.window->0,
                after.window->0,
                key,
                ch,
                a.serial,
                time,
                now,
                calls,
                own,
            )
        },
    }
}

/// What a protocol event says.
#[derive(Debug)]
pub enum ImEvent {
    Activate,
    Deactivate,
    SurroundingText(SurroundingText),
    TextChangeCause(u32),
    ContentType(u32),
    Done,
    Unavailable,
}

/// The state once a protocol event came in that is not the end of a frame.
pub open spec fn event_noted(a: App, e: ImEvent) -> App {
    match e {
        ImEvent::Activate => App { frame: FrameState { activate: true, ..a.frame }, ..a },
        ImEvent::Deactivate => App { frame: FrameState { deactivate: true, ..a.frame }, ..a },
        ImEvent::SurroundingText(t) => App { frame: FrameState { around: Some(t@), ..a.frame }, ..a },
        ImEvent::TextChangeCause(c) => App {
            frame: FrameState { change_cause: Some(c), ..a.frame },
            ..a
        },
        ImEvent::ContentType(p) => App { frame: FrameState { purpose: p, ..a.frame }, ..a },
        ImEvent::Done => a,
        ImEvent::Unavailable => App { should_exit: true, ..a },
    }
}

impl<E: SyllableEngine> AppState<E> {
    pub fn new(
        config: &Config,
        terminal_setting: &Option<String>,
        vk_only_apps: Vec<String>,
        uinput: bool,
    ) -> (a: Self)
        ensures
            a@ == (App {
                kind: engine::kind_of::<E>(),
                method: config::engine_method(config@.method),
                serial: 0,
                modifiers: ModifierState { bits: 0 },
                raw_mods: RawMods { depressed: 0, latched: 0, locked: 0, group: 0 },
                frame: frame::nothing_for(0),
                active: false,
                last_action: None,
                window: None,
                emits: Seq::empty(),
                terminal_override: terminal_choice(config::opt_text(*terminal_setting)),
                uinput,
                app_id: None,
                vk_only_apps: strings::texts(vk_only_apps@),
                synthetic: false,
                should_exit: false,
            }),
    {
        AppState {
            method: config.method.to_engine(),
            serial: 0,
            modifiers: ModifierState::empty(),
            raw_mods: RawMods { depressed: 0, latched: 0, locked: 0, group: 0 },
            pending_frame: DoneFrame::default(),
            current_active: false,
            last_action_at: None,
            window: None,
            pending_self_emits: Vec::new(),
            terminal_override: chosen_terminal_tier(terminal_setting),
            uinput,
            focused_app_id: None,
            vk_only_apps,
            synthetic_active: false,
            should_exit: false,
        }
    }

    /// Note a protocol event. The frame takes effect with
    /// [`apply_done_frame`](Self::apply_done_frame), at its end.
    pub fn event(&mut self, e: ImEvent)
        ensures
            final(self)@ == event_noted(old(self)@, e),
    {
        match e {
            ImEvent::Activate => {
                self.pending_frame.pending_activate = true;
            },
            ImEvent::Deactivate => {
                self.pending_frame.pending_deactivate = true;
            },
            ImEvent::SurroundingText(t) => {
                self.pending_frame.surrounding_text = Some(t);
            },
            ImEvent::TextChangeCause(c) => {
                self.pending_frame.change_cause = Some(c);
            },
            ImEvent::ContentType(p) => {
                self.pending_frame.purpose = p;
            },
            ImEvent::Done => {},
            ImEvent::Unavailable => {
                self.should_exit = true;
            },
        }
    }

    /// Whether the frame will start a session, so that the focused window is worth
    /// asking for.
    pub fn will_activate(&self) -> (b: bool)
        ensures
            b == starts(self@),
    {
        self.pending_frame.pending_activate && (self.synthetic_active || !self.current_active)
    }

    /// The tier for a new session.
    pub fn detect_capability(&self) -> (m: BackspaceMethod)
        ensures
            m == session_tier(self@),
    {
        let probe = crate::edit::capability::CapabilityProbe {
            purpose: self.pending_frame.purpose,
            surrounding_text_seen: self.pending_frame.surrounding_text.is_some(),
            terminal_override: match self.terminal_override {
                Some(TerminalTier::SurroundingText) => Some(BackspaceMethod::SurroundingText),
                _ => None,
            },
        };
        crate::edit::capability::detect_method(&probe)
    }

    /// Whether a new session deletes through our own input device.
    pub fn uses_uinput(&self) -> (b: bool)
        ensures
            b == through_uinput(self@),
    {
        self.uinput && self.pending_frame.purpose == edit::capability::PURPOSE_TERMINAL
            && self.terminal_override == Some(TerminalTier::Uinput)
    }

    fn turn(&mut self, focused: Option<String>, now: u64)
        ensures
            final(self)@ == turned(old(self)@, config::opt_text(focused), now),
    {
        reveal(turned);
        if self.pending_frame.pending_activate && self.synthetic_active {
            self.clear_session();
        }
        if self.pending_frame.pending_activate && !self.current_active {
            let tier = self.detect_capability();
            self.current_active = true;
            self.focused_app_id = focused;
            let mut w = WindowState::new(self.method, tier, now);
            w.uinput = self.uses_uinput();
            self.window = Some(w);
        } else if self.pending_frame.pending_deactivate && self.current_active {
            self.current_active = false;
            self.window = None;
            self.focused_app_id = None;
            self.pending_frame.end_session();
        }
    }

    fn clear_session(&mut self)
        ensures
            final(self)@ == cleared(old(self)@),
    {
        self.current_active = false;
        self.synthetic_active = false;
        self.window = None;
        self.focused_app_id = None;
    }

    /// A frame ended: all of it takes effect. `focused` is the focused window's id,
    /// if it is known.
    pub fn apply_done_frame(&mut self, focused: Option<String>, now: u64)
        ensures
            final(self)@ == frame_applied(old(self)@, config::opt_text(focused), now),
    {
        let ghost start = self@;
        let ghost id = config::opt_text(focused);
        let activate = self.will_activate();
        self.serial = self.serial.wrapping_add(1);
        let ghost counted = self@;
        self.turn(focused, now);
        proof {
            lemma_turned_keeps(counted, id, now);
        }
        let echo = match self.last_action_at {
            Some(t) => now < t || now - t < ECHO,
            None => false,
        };
        let reseed = activate || !echo;
        match (&self.pending_frame.surrounding_text, &mut self.window) {
            (Some(t), Some(w)) => {
                w.report(t.text.as_str(), t.cursor, t.anchor, reseed);
            },
            _ => {},
        }
        self.pending_frame.reset();
        assert(self@ == frame_applied(start, id, now));
    }

    fn is_keys_only(&self, app_id: &Option<String>) -> (b: bool)
        ensures
            b == keys_only(config::opt_text(*app_id), self@.vk_only_apps),
    {
        let id = match app_id {
            Some(id) => id,
            None => {
                return false;
            },
        };
        let ghost apps = strings::texts(self.vk_only_apps@);
        for i in 0..self.vk_only_apps.len()
            invariant
                apps == strings::texts(self.vk_only_apps@),
                *app_id == Some(*id),
                forall|j: int|
                    0 <= j < i ==> strings::lowered(#[trigger] apps[j]) != strings::lowered(id@),
        {
            assert(apps[i as int] == self.vk_only_apps@[i as int]@);
            if strings::same_ignoring_case(self.vk_only_apps[i].as_str(), id.as_str()) {
                return true;
            }
        }
        false
    }

    /// The focus moved. A window that gets keys only has a session made up for it.
    pub fn on_focus_changed(&mut self, app_id: Option<String>, now: u64)
        ensures
            final(self)@ == focus_moved(old(self)@, config::opt_text(app_id), now),
    {
        reveal(focus_moved);
        let matched = self.is_keys_only(&app_id);
        if matched && !self.current_active {
            self.current_active = true;
            self.synthetic_active = true;
            self.focused_app_id = app_id;
            self.window = Some(WindowState::new(self.method, BackspaceMethod::VkOnly, now));
        } else if self.synthetic_active && !matched {
            self.clear_session();
        }
    }

    /// Whether a key event is one of our own that came back; it is then forgotten.
    pub fn suppress_self_emit(&mut self, key: u32, value: i32, now: u64) -> (own: bool)
        ensures
            final(self)@ == (App {
                emits: suppressed(old(self)@.emits, key, value, now).0,
                ..old(self)@
            }),
            own == suppressed(old(self)@.emits, key, value, now).1,
    {
        let ghost all = self.pending_self_emits@;
        while self.pending_self_emits.len() > 0 && now > self.pending_self_emits[0].at && now
            - self.pending_self_emits[0].at > SELF_EMIT
            invariant
                fresh_emits(all, now) == fresh_emits(self.pending_self_emits@, now),
                self@ == (App { emits: self.pending_self_emits@, ..old(self)@ }),
            decreases self.pending_self_emits@.len(),
        {
            let ghost before = self.pending_self_emits@;
            let _ = self.pending_self_emits.remove(0);
            assert(self.pending_self_emits@ =~= before.drop_first());
        }
        let ghost fresh = self.pending_self_emits@;
        assert(fresh == fresh_emits(all, now));
        let n: usize = self.pending_self_emits.len();
        let mut i: usize = 0;
        assert(fresh.skip(0) =~= fresh);
        while i < n
            invariant
                n == fresh.len(),
                i <= n,
                fresh == self.pending_self_emits@,
                fresh == fresh_emits(old(self)@.emits, now),
                self@ == (App { emits: fresh, ..old(self)@ }),
                emit_place(fresh, key, value, 0) == emit_place(
                    fresh.skip(i as int),
                    key,
                    value,
                    i as nat,
                ),
            decreases n - i,
        {
            assert(fresh.skip(i as int)[0] == fresh[i as int]);
            assert(fresh.skip(i as int).drop_first() =~= fresh.skip(i + 1));
            let e = self.pending_self_emits[i];
            if e.key == key && e.value == value {
                let _ = self.pending_self_emits.remove(i);
                assert(self.pending_self_emits@ =~= fresh.remove(i as int));
                return true;
            }
            i = i + 1;
        }
        false
    }

    /// A key went down. `ch` is the character that it types.
    pub fn on_key_pressed<S: OutputSink>(
        &mut self,
        time: u32,
        key: u32,
        ch: Option<char>,
        now: u64,
        sink: &mut S,
    ) -> (own: Option<UinputEdit>)
        ensures
            exists|calls: Seq<SinkCall>|
                {
                    &&& final(sink).log() == old(sink).log() + calls
                    &&& #[trigger] press_done(
                        old(sink).channels(),
                        press_ready(old(self)@, key, now),
                        final(self)@,
                        press_target(old(self)@, key, ch, now),
                        time,
                        key,
                        now,
                        calls,
                        window::own_view(own),
                    )
                },
    {
        let ghost start = self@;
        let ours = self.suppress_self_emit(key, 1, now);
        if !ours {
            match &mut self.window {
                None => {},
                Some(w) => {
                    let _ = w.check_idle_reset(now);
                },
            }
        }
        assert(self@ == press_ready(start, key, now));
        let to = self.route(ours, key, ch);
        self.deliver(to, time, key, now, sink)
    }

    fn route(&self, own: bool, key: u32, ch: Option<char>) -> (to: Press)
        ensures
            to == press_of(own, self@.modifiers, self@.window is Some, key, ch),
    {
        if own {
            Press::Own
        } else if keys::is_shortcut(self.modifiers) || is_nav_key(key) {
            Press::EndsWord
        } else if self.window.is_none() {
            Press::Plain
        } else if key == edit::KEY_BACKSPACE {
            Press::Backspace
        } else {
            match ch {
                Some(c) => Press::Character(c),
                None => Press::Plain,
            }
        }
    }

    fn deliver<S: OutputSink>(
        &mut self,
        to: Press,
        time: u32,
        key: u32,
        now: u64,
        sink: &mut S,
    ) -> (own: Option<UinputEdit>)
        requires
            to is Backspace || to is Character ==> old(self)@.window is Some,
        ensures
            exists|calls: Seq<SinkCall>|
                {
                    &&& final(sink).log() == old(sink).log() + calls
                    &&& #[trigger] press_done(
                        old(sink).channels(),
                        old(self)@,
                        final(self)@,
                        to,
                        time,
                        key,
                        now,
                        calls,
                        window::own_view(own),
                    )
                },
    {
        reveal(press_done);
        let ghost start = self@;
        let ghost log = sink.log();
        let ghost channels = sink.channels();
        match to {
            Press::Own => {
                assert(log + Seq::<SinkCall>::empty() =~= log);
                assert(press_done(channels, start, self@, to, time, key, now, Seq::empty(), None));
                None
            },
            Press::EndsWord => {
                match &mut self.window {
                    None => {},
                    Some(w) => {
                        w.full_reset();
                    },
                }
                sink.vk_key(time, key, KeyState::Pressed);
                assert(sink.log() =~= log + seq![window::key_press(time, key)]);
                assert(press_done(
                    channels,
                    start,
                    self@,
                    to,
                    time,
                    key,
                    now,
                    seq![window::key_press(time, key)],
                    None,
                ));
                None
            },
            Press::Plain => {
                self.last_action_at = Some(now);
                sink.vk_key(time, key, KeyState::Pressed);
                assert(sink.log() =~= log + seq![window::key_press(time, key)]);
                assert(press_done(
                    channels,
                    start,
                    self@,
                    to,
                    time,
                    key,
                    now,
                    seq![window::key_press(time, key)],
                    None,
                ));
                None
            },
            Press::Backspace => {
                self.last_action_at = Some(now);
                let own = self.compose_backspace(time, now, sink);
                proof {
                    let calls = choose|calls: Seq<SinkCall>|
                        sink.log() == log + calls && #[trigger] window::backspace_handled(
                            channels,
                            start.window->0,
                            self@.window->0,
                            start.serial,
                            time,
                            now,
                            calls,
                            window::own_view(own),
                        );
                    assert(press_done(
                        channels,
                        start,
                        self@,
                        to,
                        time,
                        key,
                        now,
                        calls,
                        window::own_view(own),
                    ));
                }
                own
            },
            Press::Character(c) => {
                self.last_action_at = Some(now);
                let own = self.compose_char(key, c, time, now, sink);
                proof {
                    let calls = choose|calls: Seq<SinkCall>|
                        sink.log() == log + calls && #[trigger] window::char_handled(
                            channels,
                            start.window->0,
                            self@.window->0,
                            key,
                            c,
                            start.serial,
                            time,
                            now,
                            calls,
                            window::own_view(own),
                        );
                    assert(press_done(
                        channels,
                        start,
                        self@,
                        to,
                        time,
                        key,
                        now,
                        calls,
                        window::own_view(own),
                    ));
                }
                own
            },
        }
    }

    /// Note the key events of an edit through our own input device.
    fn note_own(&mut self, own: &Option<UinputEdit>, now: u64)
        ensures
            final(self)@ == (App {
                emits: with_own(old(self)@.emits, window::own_view(*own), now),
                ..old(self)@
            }),
    {
        match own {
            None => {},
            Some(e) => {
                let ghost before = self.pending_self_emits@;
                let ghost all = with_own(before, window::own_view(*own), now);
                for i in 0..e.events.len()
                    invariant
                        *own == Some(*e),
                        before == old(self)@.emits,
                        all == with_own(before, window::own_view(*own), now),
                        self.pending_self_emits@ =~= all.take(before.len() + i),
                        self@ == (App { emits: self.pending_self_emits@, ..old(self)@ }),
                {
                    let ev = e.events[i];
                    let value: i32 = if ev.down {
                        1
                    } else {
                        0
                    };
                    let _ = uinput_key(true, &mut self.pending_self_emits, ev.code, value, now);
                    assert(all[before.len() + i] == own_emit(ev, now));
                }
                assert(all.take((before.len() + e.events@.len()) as int) =~= all);
            },
        }
    }

    fn compose_backspace<S: OutputSink>(&mut self, time: u32, now: u64, sink: &mut S) -> (own:
        Option<UinputEdit>)
        requires
            old(self)@.window is Some,
        ensures
            final(self)@.window is Some,
            final(self)@ == (App {
                window: final(self)@.window,
                emits: with_own(old(self)@.emits, window::own_view(own), now),
                ..old(self)@
            }),
            exists|calls: Seq<SinkCall>|
                final(sink).log() == old(sink).log() + calls && #[trigger]
                window::backspace_handled(
                    old(sink).channels(),
                    old(self)@.window->0,
                    final(self)@.window->0,
                    old(self)@.serial,
                    time,
                    now,
                    calls,
                    window::own_view(own),
                ),
    {
        let ghost start = self@;
        let ghost log = sink.log();
        let ghost channels = sink.channels();
        let ghost mut out: Seq<SinkCall> = Seq::empty();
        let serial = self.serial;
        let mut own: Option<UinputEdit> = None;
        match &mut self.window {
            None => {},
            Some(w) => {
                let ghost before = w@;
                own = w.handle_backspace(serial, time, now, sink);
                proof {
                    let calls = choose|calls: Seq<SinkCall>|
                        sink.log() == log + calls && #[trigger] window::backspace_handled(
                            channels,
                            before,
                            w@,
                            serial,
                            time,
                            now,
                            calls,
                            window::own_view(own),
                        );
                    out = calls;
                }
            },
        }
        assert(window::backspace_handled(
            channels,
            start.window->0,
            self@.window->0,
            start.serial,
            time,
            now,
            out,
            window::own_view(own),
        ));
        self.note_own(&own, now);
        own
    }

    fn compose_char<S: OutputSink>(
        &mut self,
        key: u32,
        ch: char,
        time: u32,
        now: u64,
        sink: &mut S,
    ) -> (own: Option<UinputEdit>)
        requires
            old(self)@.window is Some,
        ensures
            final(self)@.window is Some,
            final(self)@ == (App {
                window: final(self)@.window,
                emits: with_own(old(self)@.emits, window::own_view(own), now),
                ..old(self)@
            }),
            exists|calls: Seq<SinkCall>|
                final(sink).log() == old(sink).log() + calls && #[trigger] window::char_handled(
                    old(sink).channels(),
                    old(self)@.window->0,
                    final(self)@.window->0,
                    key,
                    ch,
                    old(self)@.serial,
                    time,
                    now,
                    calls,
                    window::own_view(own),
                ),
    {
        let ghost start = self@;
        let ghost log = sink.log();
        let ghost channels = sink.channels();
        let ghost mut out: Seq<SinkCall> = Seq::empty();
        let serial = self.serial;
        let mut own: Option<UinputEdit> = None;
        match &mut self.window {
            None => {},
            Some(w) => {
                let ghost before = w@;
                own = w.handle_char(key, ch, serial, time, now, sink);
                proof {
                    let calls = choose|calls: Seq<SinkCall>|
                        sink.log() == log + calls && #[trigger] window::char_handled(
                            channels,
                            before,
                            w@,
                            key,
                            ch,
                            serial,
                            time,
                            now,
                            calls,
                            window::own_view(own),
                        );
                    out = calls;
                }
            },
        }
        assert(window::char_handled(
            channels,
            start.window->0,
            self@.window->0,
            key,
            ch,
            start.serial,
            time,
            now,
            out,
            window::own_view(own),
        ));
        self.note_own(&own, now);
        own
    }

    /// A key went up: the client hears of it, unless it is one of our own.
    pub fn on_key_released<S: OutputSink>(&mut self, time: u32, key: u32, now: u64, sink: &mut S)
        ensures
            final(self)@ == (App {
                emits: suppressed(old(self)@.emits, key, 0, now).0,
                ..old(self)@
            }),
            final(sink).log() == if suppressed(old(self)@.emits, key, 0, now).1 {
                old(sink).log()
            } else {
                old(sink).log().push(
                    SinkCall::VkKey { time, key_code: key, state: KeyState::Released },
                )
            },
    {
        if self.suppress_self_emit(key, 0, now) {
            return;
        }
        sink.vk_key(time, key, KeyState::Released);
    }

    /// The modifiers changed; the client hears of it.
    pub fn on_modifiers<S: OutputSink>(&mut self, m: RawMods, sink: &mut S)
        ensures
            final(self)@ == (App {
                modifiers: keyval::modifiers_of(m.depressed),
                raw_mods: m,
                window: match old(self)@.window {
                    Some(w) => Some(
                        Window {
                            strategy: edit::StrategyView {
                                modifiers: keyval::modifiers_of(m.depressed),
                                ..w.strategy
                            },
                            ..w
                        },
                    ),
                    None => None,
                },
                ..old(self)@
            }),
            final(sink).log() == old(sink).log().push(
                SinkCall::VkModifiers {
                    depressed: m.depressed,
                    latched: m.latched,
                    locked: m.locked,
                    group: m.group,
                },
            ),
    {
        let held = ibus_state_to_modifiers(m.depressed);
        self.modifiers = held;
        match &mut self.window {
            None => {},
            Some(w) => {
                w.strategy.set_modifiers(held);
            },
        }
        self.raw_mods = m;
        sink.vk_modifiers(m.depressed, m.latched, m.locked, m.group);
    }
}

proof fn lemma_turned_keeps(a: App, focused: Option<Seq<char>>, now: u64)
    ensures
        turned(a, focused, now).last_action == a.last_action,
        turned(a, focused, now).frame.around == a.frame.around,
{
    reveal(turned);
}

/// A real activation replaces a made-up session, whatever its window.
pub proof fn law_real_activation_wins(a: App, focused: Option<Seq<char>>, now: u64)
    requires
        a.frame.activate,
        a.synthetic,
    ensures
        turned(a, focused, now).active,
        !turned(a, focused, now).synthetic,
        turned(a, focused, now).app_id == focused,
{
    reveal(turned);
}

/// A terminal that is to be reached through our own input device is, where the device
/// is there; otherwise it gets the Backspace keys of the virtual keyboard.
pub proof fn law_missing_device_leaves_backspace_keys(a: App)
    requires
        a.frame.purpose == edit::capability::PURPOSE_TERMINAL,
        a.terminal_override == Some(TerminalTier::Uinput),
    ensures
        session_tier(a) == BackspaceMethod::ForwardKey,
        through_uinput(a) == a.uinput,
{
}

/// No other window is reached through our own input device.
pub proof fn law_only_terminals_use_the_device(a: App)
    requires
        a.frame.purpose != edit::capability::PURPOSE_TERMINAL,
    ensures
        !through_uinput(a),
{
}

/// A frame takes effect once: what it reported is gone afterwards, but for the
/// purpose, which lasts as long as the session.
pub proof fn law_frames_take_effect_once(a: App, focused: Option<Seq<char>>, now: u64)
    ensures
        frame_applied(a, focused, now).frame == frame::nothing_for(
            frame_applied(a, focused, now).frame.purpose,
        ),
        !a.frame.deactivate || starts(a) || !a.active ==> frame_applied(
            a,
            focused,
            now,
        ).frame.purpose == a.frame.purpose,
{
    reveal(turned);
}

/// A key of our own is dropped once for each time that it was sent, and only while
/// its time lasts.
pub proof fn law_own_key_is_dropped_once(e: SelfEmit, now: u64)
    requires
        now - e.at <= SELF_EMIT,
    ensures
        suppressed(seq![e], e.key, e.value, now) == (Seq::<SelfEmit>::empty(), true),
        !suppressed(Seq::<SelfEmit>::empty(), e.key, e.value, now).1,
{
    let s = seq![e];
    assert(fresh_emits(s, now) == s);
    assert(emit_place(s, e.key, e.value, 0) == Some(0nat));
    assert(s.remove(0) =~= Seq::<SelfEmit>::empty());
}

} // verus!
