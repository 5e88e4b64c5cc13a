//! What the daemon makes of keys, seen from the text they are typed into.
use vstd::prelude::*;

use crate::client;
use crate::client::Client;
use crate::composer::keys as composing;
use crate::composer::session;
use crate::composer::session::Session;
use crate::composer::typing;
use crate::config::Settings;
use crate::edit;
use crate::edit::modifiers::ModifierState;
use crate::edit::{BackspaceMethod, Channels, DeleteUnit};
use crate::engine;
use crate::engine::{EngineView, Exchange};
use crate::handler;
use crate::handler::focus;
use crate::handler::frames;
use crate::handler::frames::FrameSnapshot;
use crate::handler::grab;
use crate::handler::grab::KeyPress;
use crate::handler::keys;
use crate::handler::{ConfigChange, Hub, Route};
use crate::text;

verus! {

/// Control, Alt or Super is held.
pub open spec fn chord(m: ModifierState) -> bool {
    m.bits & 0x04 != 0 || m.bits & 0x08 != 0 || m.bits & 0x40 != 0
}

/// Home, the arrows, the page keys and End: all that moves the cursor.
pub open spec fn moves_cursor(key: u32) -> bool {
    102 <= key <= 109
}

/// The session at a key: a pause has made its engine start over, or has not.
pub open spec fn at_key(s: Session, idle: bool) -> Session {
    if idle {
        Session {
            engine: EngineView { asked: s.engine.asked.push(Exchange::Reset), ..s.engine },
            context: crate::composer::Context { await_frame: true, ..s.context },
            ..s
        }
    } else {
        s
    }
}

/// A daemon that is on, with no change of settings on its way.
pub open spec fn steady(h: Hub) -> bool {
    h.enabled && h.router.last_enabled && h.change is None
}

/// A chord is a shortcut, and what moves the cursor is navigation.
pub proof fn law_chords_and_moves(m: ModifierState, key: u32)
    ensures
        keys::shortcut(m) == chord(m),
        keys::navigates(key) == moves_cursor(key),
{
    let b = m.bits;
    assert((b & 0x4c != 0) == (b & 0x04 != 0 || b & 0x08 != 0 || b & 0x40 != 0)) by (bit_vector);
}

proof fn lemma_prepared(h: Hub, s: Session, idle: bool)
    requires
        steady(h),
        h.router.session == Some(s),
    ensures
        keys::key_prepared(h, idle) == handler::with_session(h, Some(at_key(s, idle))),
{
    reveal(handler::config_synced);
    reveal(handler::edge_synced);
    reveal(keys::idle_noted);
}

/// A character that is typed is composed: the session takes it as its own key, and what the
/// decision makes of the text is what the engine shows for it. Nothing else changes.
pub proof fn law_typed_characters_are_composed(
    h: Hub,
    after: Hub,
    key: u32,
    ch: char,
    d: edit::Decision,
    s: Session,
    screen: Seq<char>,
)
    requires
        keys::key_processed(h, after, key, Some(ch), d),
        steady(h),
        h.router.session == Some(s),
        !chord(h.router.modifiers) && !moves_cursor(key) && key != 14 && key != 1,
    ensures
        exists|idle: bool|
            {
                let t = Session { acted: true, ..#[trigger] at_key(s, idle) };
                &&& after == handler::with_session(h, Some(composing::key_outcome(t, ch).0))
                &&& d == composing::key_outcome(t, ch).1
                &&& typing::carried_out(screen, ch, d) == if typing::waits(t) {
                    screen.push(ch)
                } else {
                    engine::shown(screen, ch, typing::reply_to_key(t, ch))
                }
            },
{
    law_chords_and_moves(h.router.modifiers, key);
    reveal(keys::key_processed);
    reveal(keys::key_arrived);
    reveal(keys::char_routed);
    reveal(keys::acted);
    let to = keys::destination(
        h.enabled,
        h.router.modifiers,
        h.router.session is Some,
        key,
        Some(ch),
    );
    assert(to == keys::Destination::Character(ch));
    let idle = choose|idle: bool| #[trigger]
        keys::key_arrived(keys::key_prepared(h, idle), after, to, d);
    lemma_prepared(h, s, idle);
    let t = Session { acted: true, ..at_key(s, idle) };
    typing::law_keys_become_the_engines_edits(t, ch, screen);
}

/// The same of a character on a grabbed keyboard. Where the transport would lose the
/// modifiers of a raw key, the character goes out as text instead: to the text it comes
/// to the same.
pub proof fn law_grabbed_characters_are_composed(
    h: Hub,
    after: Hub,
    p: KeyPress,
    ch: char,
    d: edit::Decision,
    press: bool,
    s: Session,
    screen: Seq<char>,
)
    requires
        grab::press_processed(h, after, p, d, press),
        steady(h),
        h.router.session == Some(s),
        p.ch == Some(ch) && !p.repeat,
        !chord(h.router.modifiers) && !moves_cursor(p.key) && p.key != 14,
    ensures
        !press,
        exists|idle: bool|
            {
                let t = Session { acted: true, ..#[trigger] at_key(s, idle) };
                let (n, first) = composing::key_outcome(t, ch);
                let instead = first is ForwardRaw && p.keysym_commit && p.level_shifted && !(
                ch as u32 <= 0x1f || 0x7f <= ch as u32 <= 0x9f);
                &&& after == handler::with_session(
                    h,
                    Some(
                        if instead {
                            session::char_unrecorded(n)
                        } else {
                            n
                        },
                    ),
                )
                &&& instead ==> d == edit::Decision::Apply {
                    method: s.edit.strategy.method,
                    backspaces: 0,
                    commit: seq![ch],
                }
                &&& !instead ==> d == first
                &&& typing::carried_out(screen, ch, d) == if typing::waits(t) {
                    screen.push(ch)
                } else {
                    engine::shown(screen, ch, typing::reply_to_key(t, ch))
                }
            },
{
    law_chords_and_moves(h.router.modifiers, p.key);
    reveal(grab::press_processed);
    reveal(grab::press_arrived);
    reveal(grab::grabbed_char);
    reveal(grab::diverted);
    reveal(keys::char_routed);
    reveal(keys::acted);
    let to = keys::grab_destination(
        h.enabled,
        h.router.modifiers,
        h.router.session is Some,
        p.repeat,
        p.key,
        p.ch,
    );
    assert(to == keys::Destination::Character(ch));
    let idle = choose|idle: bool| #[trigger]
        grab::press_arrived(grab::press_prepared(h, idle, p.repeat), after, p, to, d, press);
    lemma_prepared(h, s, idle);
    let t = Session { acted: true, ..at_key(s, idle) };
    typing::law_keys_become_the_engines_edits(t, ch, screen);
    typing::law_keys_keep_the_rest(t, ch);
    assert(screen.take(screen.len() as int) + seq![ch] =~= screen.push(ch));
}

/// Backspace is put to the session, with a pause in front of it or without.
pub proof fn law_backspaces_are_composed(
    h: Hub,
    after: Hub,
    ch: Option<char>,
    d: edit::Decision,
    s: Session,
)
    requires
        keys::key_processed(h, after, 14, ch, d),
        steady(h),
        h.router.session == Some(s),
        !chord(h.router.modifiers),
    ensures
        exists|idle: bool|
            {
                let (n, first) = composing::backspace_outcome(#[trigger] at_key(s, idle));
                after == handler::with_session(h, Some(n)) && d == first
            },
{
    law_chords_and_moves(h.router.modifiers, 14);
    reveal(keys::key_processed);
    reveal(keys::key_arrived);
    reveal(keys::backspace_routed);
    let to = keys::destination(h.enabled, h.router.modifiers, h.router.session is Some, 14, ch);
    assert(to == keys::Destination::Backspace);
    let idle = choose|idle: bool| #[trigger]
        keys::key_arrived(keys::key_prepared(h, idle), after, to, d);
    lemma_prepared(h, s, idle);
}

/// What is no text leaves the text to the client, and ends the word: the engine starts
/// over, nothing waits, and nothing is remembered of the text.
pub proof fn law_other_keys_end_the_word(
    h: Hub,
    after: Hub,
    key: u32,
    ch: Option<char>,
    d: edit::Decision,
    s: Session,
)
    requires
        keys::key_processed(h, after, key, ch, d),
        steady(h),
        h.router.session == Some(s),
        chord(h.router.modifiers) || moves_cursor(key) || (key != 14 && key != 1 && ch is None),
    ensures
        d is ForwardRaw,
        after.router.session matches Some(n) && n.engine.asked.len() > 0 && n.engine.asked.last()
            is Reset && n.pending == session::nothing() && n.edit.strategy.shadow.text.len() == 0
            && n.last_input_char is None && !n.acted && n.edit.strategy.method
            == s.edit.strategy.method,
        after == handler::with_session(h, after.router.session),
{
    law_chords_and_moves(h.router.modifiers, key);
    reveal(keys::key_processed);
    reveal(keys::key_arrived);
    reveal(keys::word_ended);
    let to = keys::destination(h.enabled, h.router.modifiers, h.router.session is Some, key, ch);
    let idle = choose|idle: bool| #[trigger]
        keys::key_arrived(keys::key_prepared(h, idle), after, to, d);
    lemma_prepared(h, s, idle);
    let log = at_key(s, idle).engine.asked;
    assert(log.push(Exchange::Reset).last() is Reset);
}

/// Without a session, or switched off, every key goes to the client.
pub proof fn law_nothing_is_composed_without_a_session(
    h: Hub,
    after: Hub,
    key: u32,
    ch: Option<char>,
    d: edit::Decision,
)
    requires
        keys::key_processed(h, after, key, ch, d),
        h.router.session is None || !h.enabled,
    ensures
        d is ForwardRaw,
        h.router.session is None ==> after.router.session is None,
{
    reveal(keys::key_processed);
    reveal(keys::key_arrived);
    reveal(keys::word_ended);
    reveal(keys::deferred);
    reveal(keys::idle_noted);
    reveal(handler::config_synced);
    reveal(handler::route_reconfigured);
    reveal(handler::edge_synced);
    let to = keys::destination(h.enabled, h.router.modifiers, h.router.session is Some, key, ch);
    let idle = choose|idle: bool| #[trigger]
        keys::key_arrived(keys::key_prepared(h, idle), after, to, d);
}

/// A session starts with a clean slate, on the tier that was chosen for it, with an engine
/// that is made for the settings and was told the tone style.
pub proof fn law_sessions_start_clean(
    kind: engine::Kind,
    c: Settings,
    m: ModifierState,
    tier: BackspaceMethod,
)
    ensures
        ({
            let s = focus::new_session(kind, c, m, tier);
            let method = crate::config::engine_method(c.method);
            &&& s.edit.strategy.method == tier
            &&& s.edit.strategy.shadow.text.len() == 0
            &&& s.edit.strategy.modifiers == m
            &&& s.edit.prev_text.len() == 0
            &&& s.pending == session::nothing()
            &&& s.last_input_char is None && !s.acted && s.commit_string_functional
            &&& !s.context.retroactive && !s.context.from_frame && !s.context.await_frame
            &&& s.liveness.dead_strikes == 0
            &&& s.engine == (EngineView {
                kind,
                made: (method, method == engine::InputMethod::Telex && !c.bracket_shortcuts),
                asked: seq![Exchange::Style { modern: c.modern_style }],
                method,
                bracket_shortcuts: c.bracket_shortcuts,
            })
            &&& engine::style(s.engine) == c.modern_style
        }),
{
    reveal(focus::new_session);
    let method = crate::config::engine_method(c.method);
    let e = engine::unasked(kind, method, c.bracket_shortcuts);
    engine::law_style_stays(e, c.modern_style, Exchange::Reset);
    assert(e.asked.push(Exchange::Style { modern: c.modern_style }) =~= seq![
        Exchange::Style { modern: c.modern_style },
    ]);
}

/// A real text input gets a session of its own when it is entered, and loses it when it is
/// left; the session deletes through surrounding text where the client sent any, and by
/// Backspace keys where it did not; terminals get keys unless a tier is forced on them.
pub proof fn law_text_inputs_get_sessions(h: Hub, f: FrameSnapshot)
    requires
        !h.router.synthetic_active,
    ensures
        ({
            let r = frames::turned(h, f);
            let tier = if f.purpose == 13 {
                match h.terminal_override {
                    Some(forced) => forced,
                    None => BackspaceMethod::ForwardKey,
                }
            } else if f.surrounding_text is Some {
                BackspaceMethod::SurroundingText
            } else {
                BackspaceMethod::ForwardKey
            };
            &&& f.activate && !h.router.current_active ==> r.current_active && r.session == Some(
                focus::new_session(h.router.kind, h.settings, h.router.modifiers, tier),
            ) && !r.synthetic_active
            &&& f.deactivate && h.router.current_active ==> !r.current_active && r.session is None
            &&& r.modifiers == h.router.modifiers && r.kind == h.router.kind
            &&& r.last_enabled == h.router.last_enabled
        }),
{
    reveal(frames::turned);
}

/// Only what changed is changed: a new input method makes a new engine, a new tone style
/// is told to the engine there is, and neither touches the tier or the rest.
pub proof fn law_changes_reach_the_engine(s: Session, last: ConfigChange, c: ConfigChange)
    ensures
        ({
            let n = handler::reconfigured(s, last, c);
            &&& engine::style(n.engine) == if c.modern_style != last.modern_style {
                c.modern_style
            } else {
                engine::style(s.engine)
            }
            &&& n.engine.method == if c.method != last.method {
                crate::config::engine_method(c.method)
            } else {
                s.engine.method
            }
            &&& n.engine.kind == s.engine.kind
            &&& n.edit.strategy.method == s.edit.strategy.method
            &&& n.options == s.options
            &&& n.commit_string_functional == s.commit_string_functional
            &&& c.method == last.method ==> n.edit == s.edit && n.pending == s.pending
                && n.last_input_char == s.last_input_char && n.engine.made == s.engine.made
            &&& c.method != last.method ==> n.edit.strategy.shadow.text.len() == 0 && n.pending
                == session::nothing() && n.engine.made.0 == n.engine.method
        }),
{
    reveal(handler::reconfigured);
    if c.method != last.method {
        let method = crate::config::engine_method(c.method);
        session::law_method_change_keeps_style(s, method);
        engine::law_style_stays(
            session::method_changed(s, method).engine,
            c.modern_style,
            Exchange::Reset,
        );
    } else {
        engine::law_style_stays(s.engine, c.modern_style, Exchange::Reset);
    }
}

/// The modifiers that are held are the ones that were reported last, for the session too.
pub proof fn law_modifiers_are_noted(r: Route, m: ModifierState)
    ensures
        ({
            let n = grab::modifiers_noted(r, m);
            &&& n.modifiers == m
            &&& n.session is Some == r.session is Some
            &&& n.session is Some ==> n.session->0.edit.strategy.modifiers == m
                && n.session->0.edit.strategy.shadow == r.session->0.edit.strategy.shadow
                && n.session->0.engine == r.session->0.engine && n.session->0.pending
                == r.session->0.pending
            &&& n.current_active == r.current_active && n.synthetic_active == r.synthetic_active
            &&& n.focused_app_id == r.focused_app_id
        }),
{
}

/// An edit that is delivered through the tier alone does its work at the client.
pub proof fn law_tier_edits_replace_text(
    ch: Channels,
    s: Session,
    backspaces: usize,
    commit: Seq<char>,
    time: u32,
    c: Client,
)
    requires
        client::in_step(c, s.edit.strategy.shadow),
        backspaces <= s.edit.strategy.shadow.text.len(),
        text::utf8_len(s.edit.strategy.shadow.text) <= u32::MAX,
        s.edit.strategy.method == BackspaceMethod::VkOnly ==> forall|i: int|
            0 <= i < commit.len() ==> ch.keys.contains(#[trigger] commit[i]),
    ensures
        ({
            let calls = frames::tier_delivery(ch, s, backspaces, commit, time);
            let shown = client::ran(c, 0, DeleteUnit::Bytes, calls);
            let kept = frames::tier_applied(s, backspaces, commit);
            &&& shown == client::replaced(c, backspaces as nat, commit)
            &&& client::in_step(shown, kept.edit.strategy.shadow)
            &&& kept.engine == s.engine && kept.pending == s.pending && kept.context == s.context
        }),
{
    reveal(frames::tier_delivery);
    reveal(frames::tier_applied);
    client::law_edit_replaces_text(
        ch,
        s.edit.strategy.method,
        s.edit.strategy.shadow,
        backspaces,
        commit,
        0,
        time,
        DeleteUnit::Bytes,
        c,
    );
}

/// A window without text input gets a session of our making only where a virtual keyboard
/// reaches it. Moving on to another such window starts a new one; staying keeps it; going
/// where none is reached ends it. A real session is left alone.
pub proof fn law_made_up_sessions_follow_the_focus(
    c: Settings,
    r: Route,
    app_id: Option<Seq<char>>,
    vk: bool,
)
    ensures
        ({
            let n = focus::focus_moved(c, r, app_id, vk);
            let reached = app_id is Some && vk;
            let fresh = Session {
                commit_string_functional: false,
                ..focus::new_session(r.kind, c, r.modifiers, BackspaceMethod::ForwardKey)
            };
            &&& r.current_active && !r.synthetic_active ==> n == r
            &&& !r.current_active && reached ==> n.session == Some(fresh) && n.current_active
                && n.synthetic_active && n.focused_app_id == app_id
            &&& !r.current_active && !r.synthetic_active && !reached ==> n == r
            &&& r.current_active && r.synthetic_active && reached && r.focused_app_id != app_id
                ==> n.session == Some(fresh) && n.focused_app_id == app_id
            &&& r.current_active && r.synthetic_active && reached && r.focused_app_id == app_id
                ==> n == r
            &&& r.synthetic_active && !reached ==> !n.current_active && !n.synthetic_active
                && n.session is None && n.focused_app_id is None
            &&& n.modifiers == r.modifiers && n.last_enabled == r.last_enabled
        }),
{
    reveal(focus::focus_moved);
}

/// A client that turns out to have surrounding text is moved to it, unless it is a terminal
/// on which nothing is forced; nothing else moves it.
pub proof fn law_surrounding_text_is_taken_up(
    s: Session,
    purpose: u32,
    terminal: Option<BackspaceMethod>,
)
    ensures
        ({
            let n = frames::upgraded(s, purpose, terminal);
            let keys = s.edit.strategy.method == BackspaceMethod::ForwardKey;
            &&& keys && purpose != 13 ==> n.edit.strategy.method
                == BackspaceMethod::SurroundingText
            &&& keys && purpose == 13 && terminal is None ==> n == s
            &&& !keys ==> n == s
            &&& n.engine == s.engine && n.edit.strategy.shadow == s.edit.strategy.shadow
        }),
{
    reveal(frames::upgraded);
}

/// A frame that repeats the last one, while no echo is expected, is let be: only the count
/// of dead frames hears of it.
pub proof fn law_repeated_frames_are_let_be(
    s: Session,
    after: Session,
    f: crate::composer::frames::Frame,
    purpose: u32,
    terminal: Option<BackspaceMethod>,
)
    requires
        frames::text_seen(s, after, f, false, false, purpose, terminal),
        s.firefox.expected_echo is None,
        s.edit.prev_text == f.text && s.edit.prev_cursor == f.cursor && s.edit.prev_anchor
            == f.anchor,
    ensures
        after == frames::liveness_noted(s, f.text, f.cursor),
        after.engine == s.engine && after.context == s.context,
        after.edit.strategy.shadow == s.edit.strategy.shadow,
        s.edit.strategy.method != BackspaceMethod::SurroundingText ==> after == s,
{
    reveal(frames::text_seen);
    reveal(frames::liveness_noted);
}

/// Corrections are counted where they delete through surrounding text, and nowhere else.
pub proof fn law_corrections_that_delete_are_counted(s: Session, n: usize)
    ensures
        n == 0 || s.edit.strategy.method != BackspaceMethod::SurroundingText
            ==> frames::correction_noted(s, n) == s,
        n > 0 && s.edit.strategy.method == BackspaceMethod::SurroundingText ==> {
            let c = frames::correction_noted(s, n);
            let unanswered = s.liveness.ibus.surrounding_saw_correction
                && !s.liveness.ibus.surrounding_echo_since_correction;
            &&& c.liveness.ibus.surrounding_saw_correction
            &&& (c.edit.strategy.method == BackspaceMethod::ForwardKey) == unanswered
            &&& c.engine == s.engine && c.edit.strategy.shadow == s.edit.strategy.shadow
        },
{
    reveal(frames::correction_noted);
}

/// A tier is forced on terminals by one of its names, in any case; what names none forces
/// nothing.
pub proof fn law_tiers_are_forced_by_name(name: Seq<char>)
    ensures
        handler::forced_tier(None) is None,
        ({
            let w = crate::strings::lowered(name);
            (w == "surrounding"@ || w == "surrounding_text"@ || w == "tier1"@)
                <==> handler::forced_tier(Some(name)) == Some(BackspaceMethod::SurroundingText)
        }),
        handler::forced_tier(Some(name)) is Some ==> handler::forced_tier(Some(name)) == Some(
            BackspaceMethod::SurroundingText,
        ),
{
}

/// Where nothing was typed of late, a frame is believed: the shadow becomes the text in
/// front of the cursor, and nothing waits.
pub proof fn law_idle_frames_are_believed(
    s: Session,
    after: Session,
    f: crate::composer::frames::Frame,
    force: bool,
)
    requires
        frames::taken_over(s, after, f, force),
        !s.acted,
    ensures
        after.edit.strategy.shadow.text == crate::composer::frames::front(f),
        after.pending == session::nothing(),
        after.edit.prev_text == f.text,
{
    let recent = choose|recent: bool|
        (recent ==> s.acted) && after == (#[trigger] crate::composer::frames::frame_taken(
            s,
            f,
            force,
            recent,
        )).0;
    let r = crate::composer::frames::frame_taken(s, f, force, recent).1;
    reveal(crate::composer::frames::frame_judgement);
    crate::composer::laws::law_believed_frame_is_ground_truth(s, after, f, force, recent, r);
}

/// A shortcut on a grabbed keyboard is pressed on the virtual one, so that the client hears
/// of it with its modifiers; the word ends with its first press, and its repetitions change
/// nothing. A character that repeats is left out.
pub proof fn law_grabbed_shortcuts_are_pressed(
    h: Hub,
    after: Hub,
    p: KeyPress,
    d: edit::Decision,
    press: bool,
    s: Session,
)
    requires
        grab::press_processed(h, after, p, d, press),
        steady(h),
        h.router.session == Some(s),
    ensures
        chord(h.router.modifiers) || moves_cursor(p.key) ==> press && d is Consumed,
        (chord(h.router.modifiers) || moves_cursor(p.key)) && p.repeat ==> after == h,
        (chord(h.router.modifiers) || moves_cursor(p.key)) && !p.repeat ==> (
        after.router.session matches Some(n) && n.edit.strategy.shadow.text.len() == 0 && n.pending
            == session::nothing()),
        !chord(h.router.modifiers) && !moves_cursor(p.key) ==> !press,
        !chord(h.router.modifiers) && !moves_cursor(p.key) && p.repeat ==> d is Consumed && after
            == h,
{
    law_chords_and_moves(h.router.modifiers, p.key);
    reveal(grab::press_processed);
    reveal(grab::press_arrived);
    reveal(keys::word_ended);
    reveal(handler::config_synced);
    let to = keys::grab_destination(
        h.enabled,
        h.router.modifiers,
        h.router.session is Some,
        p.repeat,
        p.key,
        p.ch,
    );
    let idle = choose|idle: bool| #[trigger]
        grab::press_arrived(grab::press_prepared(h, idle, p.repeat), after, p, to, d, press);
    if !p.repeat {
        lemma_prepared(h, s, idle);
    }
}

/// Grabbed keyboards get a session that deletes by Backspace keys. Dropping a window's word
/// resets its session, and forgetting the last character forgets nothing else.
pub proof fn law_grabbed_keyboards_have_a_session(h: Hub)
    ensures
        ({
            let n = focus::evdev_activated(h);
            &&& n.router.current_active && n.router.synthetic_active
            &&& n.router.session == Some(
                focus::new_session(
                    h.router.kind,
                    h.settings,
                    h.router.modifiers,
                    BackspaceMethod::ForwardKey,
                ),
            )
        }),
        h.router.session matches Some(s) ==> {
            &&& focus::window_reset(h) == handler::with_session(h, Some(session::fully_reset(s)))
            &&& focus::last_char_forgotten(h) == handler::with_session(
                h,
                Some((Session { last_input_char: None, ..s })),
            )
        },
        h.router.session is None ==> focus::window_reset(h) == h && focus::last_char_forgotten(h)
            == h,
{
}

/// A session starts without waiting for frames, and with the brackets as they are set.
pub proof fn law_sessions_start_without_waiting(
    kind: engine::Kind,
    c: Settings,
    m: ModifierState,
    tier: BackspaceMethod,
)
    ensures
        ({
            let s = focus::new_session(kind, c, m, tier);
            &&& !s.options.confirm_retroactive_edits
            &&& s.options.bracket_shortcuts == c.bracket_shortcuts
            &&& !typing::waits(s)
            &&& s.firefox.expected_echo is None && !s.firefox.use_forward_delete
                && !s.firefox.forward_sticky && s.firefox.delete_unit == DeleteUnit::Bytes
        }),
{
    reveal(focus::new_session);
}

} // verus!
