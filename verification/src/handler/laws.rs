//! What holds of the daemon as a whole.
use vstd::prelude::*;

use crate::composer::session;
use crate::composer::session::Session;
use crate::config;
use crate::config::Settings;
use crate::control::ConfigChange;
use crate::edit;
use crate::edit::BackspaceMethod;
use crate::engine;
use crate::handler;
use crate::handler::focus;
use crate::handler::frames;
use crate::handler::frames::FrameSnapshot;
use crate::handler::grab;
use crate::handler::grab::KeyPress;
use crate::handler::keys;
use crate::handler::{Hub, Route, KEY_ESC};

verus! {

/// A repetition of a held key never reaches the engine: whatever the key, the
/// daemon stays as it is.
pub proof fn law_repeats_change_nothing(
    h: Hub,
    after: Hub,
    p: KeyPress,
    d: edit::Decision,
    press: bool,
)
    requires
        grab::press_processed(h, after, p, d, press),
        p.repeat,
        h.change is None,
    ensures
        after == h,
        !(d is Apply),
{
    reveal(grab::press_processed);
    reveal(grab::press_arrived);
    let idle = choose|i: bool| #[trigger]
        grab::press_arrived(
            grab::press_prepared(h, i, p.repeat),
            after,
            p,
            keys::grab_destination(
                h.enabled,
                h.router.modifiers,
                h.router.session is Some,
                p.repeat,
                p.key,
                p.ch,
            ),
            d,
            press,
        );
    keys::lemma_synced_keeps(h);
}

/// While composition is off every key goes to the client as it is.
pub proof fn law_off_forwards_everything(
    h: Hub,
    after: Hub,
    key: u32,
    ch: Option<char>,
    d: edit::Decision,
)
    requires
        keys::key_processed(h, after, key, ch, d),
        !h.enabled,
    ensures
        d == edit::Decision::ForwardRaw,
        !after.router.last_enabled,
{
    reveal(keys::key_processed);
    reveal(keys::key_arrived);
    reveal(handler::edge_synced);
    let idle = choose|i: bool| #[trigger]
        keys::key_arrived(
            keys::key_prepared(h, i),
            after,
            keys::destination(
                h.enabled,
                h.router.modifiers,
                h.router.session is Some,
                key,
                ch,
            ),
            d,
        );
    keys::lemma_synced_keeps(h);
}

/// Turning composition off ends the word in progress; leaving it off does not
/// touch the session again.
pub proof fn law_turning_off_ends_word(h: Hub, s: Session)
    requires
        h.router.session == Some(s),
        !h.enabled,
    ensures
        h.router.last_enabled ==> handler::edge_synced(h).router.session == Some(
            session::fully_reset(s),
        ),
        handler::edge_synced(handler::edge_synced(h)) == handler::edge_synced(h),
{
    reveal(handler::edge_synced);
}

/// A change to the settings that already hold leaves the session alone.
pub proof fn law_same_settings_keep_session(h: Hub)
    requires
        h.change == Some(h.last_config),
    ensures
        handler::config_synced(h) == (Hub { change: None, ..h }),
{
    reveal(handler::config_synced);
    reveal(handler::route_reconfigured);
    reveal(handler::reconfigured);
}

/// One change carries all settings: both take effect together.
pub proof fn law_changes_apply_together(h: Hub, c: ConfigChange)
    requires
        h.change == Some(c),
        h.last_config == (ConfigChange {
            method: h.settings.method,
            modern_style: h.settings.modern_style,
        }),
    ensures
        handler::config_synced(h).settings == (Settings {
            method: c.method,
            modern_style: c.modern_style,
            ..h.settings
        }),
        handler::config_synced(h).last_config == c,
        handler::config_synced(h).change is None,
{
    reveal(handler::config_synced);
}

/// Another input method ends the word in progress, and keeps the tone style unless
/// that changes too.
pub proof fn law_method_change_ends_word(h: Hub, c: ConfigChange, s: Session)
    requires
        h.change == Some(c),
        c.method != h.last_config.method,
        h.router.session == Some(s),
    ensures
        handler::config_synced(h).router.session matches Some(t)
            && t.last_input_char is None && session::shadow_of(t).len() == 0 && t.engine.method
            == config::engine_method(c.method) && engine::style(t.engine) == (if c.modern_style
            != h.last_config.modern_style {
            c.modern_style
        } else {
            engine::style(s.engine)
        }),
{
    reveal(handler::config_synced);
    reveal(handler::route_reconfigured);
    reveal(handler::reconfigured);
    let changed = session::method_changed(s, config::engine_method(c.method));
    session::law_method_change_keeps_style(s, config::engine_method(c.method));
    engine::law_style_stays(changed.engine, c.modern_style, engine::Exchange::Reset);
}

/// Shortcuts and keys that move the cursor leave no word behind.
pub proof fn law_moving_ends_word(
    h: Hub,
    after: Hub,
    key: u32,
    ch: Option<char>,
    d: edit::Decision,
)
    requires
        keys::key_processed(h, after, key, ch, d),
        h.enabled,
        keys::shortcut(h.router.modifiers) || keys::navigates(key),
        h.router.session is Some,
    ensures
        d == edit::Decision::ForwardRaw,
        after.router.session matches Some(t) && session::shadow_of(t).len() == 0 && !t.acted,
{
    reveal(keys::key_processed);
    reveal(keys::key_arrived);
    reveal(keys::word_ended);
    let idle = choose|i: bool| #[trigger]
        keys::key_arrived(
            keys::key_prepared(h, i),
            after,
            keys::destination(
                h.enabled,
                h.router.modifiers,
                h.router.session is Some,
                key,
                ch,
            ),
            d,
        );
    keys::lemma_prepared_keeps(h, idle);
}

/// Escape goes to the client and leaves the word as it is, so that dismissing a
/// list of suggestions does not break it.
pub proof fn law_escape_keeps_word(
    h: Hub,
    after: Hub,
    ch: Option<char>,
    d: edit::Decision,
)
    requires
        keys::key_processed(h, after, KEY_ESC, ch, d),
        h.enabled && h.router.last_enabled,
        h.change is None,
        !keys::shortcut(h.router.modifiers),
        h.router.session is Some,
    ensures
        d == edit::Decision::ForwardRaw,
        after.router.session matches Some(t) && session::shadow_of(t) == session::shadow_of(
            h.router.session->0,
        ) && t.last_input_char == h.router.session->0.last_input_char,
{
    reveal(keys::key_processed);
    reveal(keys::key_arrived);
    reveal(keys::deferred);
    reveal(keys::idle_noted);
    reveal(handler::edge_synced);
    let idle = choose|i: bool| #[trigger]
        keys::key_arrived(
            keys::key_prepared(h, i),
            after,
            keys::destination(
                h.enabled,
                h.router.modifiers,
                h.router.session is Some,
                KEY_ESC,
                ch,
            ),
            d,
        );
    keys::lemma_synced_keeps(h);
    keys::lemma_prepared_keeps(h, idle);
}

/// A real activation replaces a session of our own making.
pub proof fn law_real_activation_wins(h: Hub, f: FrameSnapshot)
    requires
        f.activate,
        h.router.synthetic_active,
    ensures
        ({
            let r = frames::turned(h, f);
            &&& r.current_active && !r.synthetic_active
            &&& r.focused_app_id == config::opt_text(f.app_id)
            &&& r.session matches Some(s) && s.commit_string_functional && session::tier(s)
                == frames::tier_for(f.purpose, f.surrounding_text is Some, h.terminal_override)
        }),
{
    reveal(frames::turned);
    reveal(focus::new_session);
}

/// A frame that activates while a real session is active, or deactivates while
/// none is, changes neither.
pub proof fn law_turning_twice_changes_nothing(h: Hub, f: FrameSnapshot)
    requires
        !h.router.synthetic_active,
        h.router.current_active ==> !f.deactivate,
        !h.router.current_active ==> !f.activate,
    ensures
        frames::turned(h, f) == h.router,
{
    reveal(frames::turned);
}

/// A window that is reached without text input gets Backspace keys, and is known not to
/// apply committed strings; and nothing is made up for a window that no virtual
/// keyboard reaches.
pub proof fn law_made_up_sessions_expect_no_strings(
    settings: Settings,
    r: Route,
    app_id: Option<Seq<char>>,
    vk: bool,
)
    requires
        !r.current_active,
        !r.synthetic_active,
    ensures
        focus::reachable(app_id, vk) ==> {
            let n = focus::focus_moved(settings, r, app_id, vk);
            &&& n.current_active && n.synthetic_active && n.focused_app_id == app_id
            &&& n.session matches Some(s) && !s.commit_string_functional && session::tier(s)
                == BackspaceMethod::ForwardKey
        },
        !focus::reachable(app_id, vk) ==> focus::focus_moved(settings, r, app_id, vk) == r,
{
    reveal(focus::focus_moved);
    reveal(focus::new_session);
}

/// Losing the focus ends a session of our own making, and no other.
pub proof fn law_focus_ends_made_up_sessions(settings: Settings, r: Route, vk: bool)
    ensures
        r.synthetic_active ==> focus::focus_moved(settings, r, None, vk) == focus::cleared(r),
        !r.synthetic_active ==> focus::focus_moved(settings, r, None, vk) == r,
{
    reveal(focus::focus_moved);
}

/// A terminal keeps Backspace keys unless a tier is forced on it, whatever it
/// sends; a forced tier is kept as well.
pub proof fn law_terminals_keep_tier(seen: bool, forced: BackspaceMethod)
    ensures
        frames::tier_for(edit::capability::PURPOSE_TERMINAL, seen, None)
            == BackspaceMethod::ForwardKey,
        frames::tier_for(edit::capability::PURPOSE_TERMINAL, seen, Some(forced)) == forced,
{
}

/// A terminal is never moved to surrounding text by a frame, unless forced.
pub proof fn law_terminals_are_not_upgraded(s: Session)
    ensures
        frames::upgraded(s, edit::capability::PURPOSE_TERMINAL, None) == s,
{
    reveal(frames::upgraded);
}

/// A client whose surrounding text proved dead gets Backspace keys, and is known not to
/// apply committed strings.
pub proof fn law_dead_clients_get_backspace_keys(s: Session, text: Seq<char>, cursor: u32)
    requires
        session::tier(s) == BackspaceMethod::SurroundingText,
    ensures
        session::tier(frames::liveness_noted(s, text, cursor)) != BackspaceMethod::SurroundingText
            ==> session::tier(frames::liveness_noted(s, text, cursor))
            == BackspaceMethod::ForwardKey && !frames::liveness_noted(
            s,
            text,
            cursor,
        ).commit_string_functional,
        text.len() > 0 ==> session::tier(frames::liveness_noted(s, text, cursor))
            == BackspaceMethod::SurroundingText,
{
    reveal(frames::liveness_noted);
}

/// An IBus client that answers after each correction keeps its tier; one that
/// leaves a correction unanswered gets keys at the next one.
pub proof fn law_unanswered_correction_downgrades(s: Session, text: Seq<char>, n: usize, m: usize)
    requires
        session::tier(s) == BackspaceMethod::SurroundingText,
        !s.liveness.ibus.surrounding_saw_correction,
        n > 0 && m > 0,
        text.len() > 0,
    ensures
        session::tier(frames::correction_noted(s, n)) == BackspaceMethod::SurroundingText,
        session::tier(frames::correction_noted(frames::correction_noted(s, n), m))
            == BackspaceMethod::ForwardKey,
        session::tier(
            frames::correction_noted(
                frames::report_noted(frames::correction_noted(s, n), text, 0),
                m,
            ),
        ) == BackspaceMethod::SurroundingText,
{
    reveal(frames::correction_noted);
    reveal(frames::report_noted);
    reveal(frames::liveness_noted);
}

} // verus!
