//! Composition state as values.
use vstd::prelude::*;

use crate::composer::edit_model;
use crate::composer::{Context, Liveness, Options};
use crate::edit;
use crate::edit::modifiers::ModifierState;
use crate::edit::shadow;
use crate::edit::BackspaceMethod;
use crate::engine;
use crate::engine::InputMethod;
use crate::quirks::firefox;
use crate::quirks::ibus::IbusSurroundingQuirk;
use crate::words;

verus! {

/// An engine edit that waits for a frame, as characters.
pub struct Stash {
    pub backspaces: usize,
    pub commit: Seq<char>,
    pub base_word: Seq<char>,
}

/// A raw key that waits for a frame.
pub struct Pending {
    pub key: Option<char>,
    pub repairable: bool,
    pub stash: Option<Stash>,
}

/// A composer as values.
pub struct Session {
    pub engine: engine::EngineView,
    pub last_input_char: Option<char>,
    pub commit_string_functional: bool,
    pub acted: bool,
    pub liveness: Liveness,
    pub context: Context,
    pub firefox: firefox::Firefox,
    pub options: Options,
    pub pending: Pending,
    pub edit: edit_model::Edit,
}

pub open spec fn tier(s: Session) -> BackspaceMethod {
    s.edit.strategy.method
}

pub open spec fn shadow_of(s: Session) -> Seq<char> {
    s.edit.strategy.shadow.text
}

pub open spec fn ascii_letter(c: char) -> bool {
    'a' <= c <= 'z' || 'A' <= c <= 'Z'
}

/// Nothing waits.
pub open spec fn nothing() -> Pending {
    Pending { key: None, repairable: false, stash: None }
}

/// The engine after a reset.
pub open spec fn engine_reset(e: engine::EngineView) -> engine::EngineView {
    engine::asked(e, engine::Exchange::Reset)
}

/// The state of a new composer.
pub open spec fn started(
    kind: engine::Kind,
    method: InputMethod,
    tier: BackspaceMethod,
    brackets: bool,
) -> Session {
    Session {
        engine: engine::unasked(kind, method, brackets),
        last_input_char: None,
        commit_string_functional: true,
        acted: false,
        liveness: Liveness { dead_strikes: 0, ibus: IbusSurroundingQuirk::fresh() },
        context: Context { retroactive: false, from_frame: false, await_frame: false },
        firefox: firefox::fresh(),
        options: Options { bracket_shortcuts: brackets, confirm_retroactive_edits: false },
        pending: nothing(),
        edit: edit_model::Edit {
            strategy: edit::StrategyView {
                method: tier,
                shadow: shadow::empty_shadow(),
                modifiers: ModifierState { bits: 0 },
            },
            prev_text: Seq::empty(),
            prev_cursor: 0,
            prev_anchor: 0,
        },
    }
}

/// The state after the composition is dropped and the last frame kept.
pub open spec fn composition_reset(s: Session) -> Session {
    Session {
        engine: engine_reset(s.engine),
        edit: edit_model::with_shadow(s.edit, shadow::empty_shadow()),
        last_input_char: None,
        context: Context { retroactive: false, from_frame: false, await_frame: true },
        firefox: firefox::fresh(),
        pending: nothing(),
        ..s
    }
}

/// The state after everything that tracks a word in progress is dropped.
pub open spec fn fully_reset(s: Session) -> Session {
    let r = composition_reset(s);
    Session {
        edit: edit_model::recorded(r.edit, Seq::empty(), 0, 0),
        liveness: Liveness { ibus: IbusSurroundingQuirk::fresh(), ..s.liveness },
        ..r
    }
}

/// The request to place tones one way or the other.
pub open spec fn styled(modern: bool) -> engine::Exchange {
    engine::Exchange::Style { modern }
}

/// The state after the input method is changed: it is a new engine, told to go on
/// placing tones as the one before did.
pub open spec fn method_changed(s: Session, method: InputMethod) -> Session {
    Session {
        engine: engine::asked(
            engine::unasked(s.engine.kind, method, s.options.bracket_shortcuts),
            styled(engine::style(s.engine)),
        ),
        ..fully_reset(s)
    }
}

/// The state after the tier is switched.
pub open spec fn tier_switched(s: Session, m: BackspaceMethod) -> Session {
    Session {
        edit: edit_model::Edit {
            strategy: edit::StrategyView { method: m, ..s.edit.strategy },
            ..s.edit
        },
        pending: if m == BackspaceMethod::SurroundingText {
            s.pending
        } else {
            nothing()
        },
        ..s
    }
}

/// The state after the modifiers change.
pub open spec fn modified(s: Session, m: ModifierState) -> Session {
    Session {
        edit: edit_model::Edit {
            strategy: edit::StrategyView { modifiers: m, ..s.edit.strategy },
            ..s.edit
        },
        ..s
    }
}

/// The state after the last forwarded character is taken back.
pub open spec fn char_unrecorded(s: Session) -> Session {
    let speculative = s.pending.stash is Some;
    Session {
        edit: edit_model::with_shadow_text(s.edit, words::chars_dropped(shadow_of(s), 1)),
        engine: if speculative {
            engine_reset(s.engine)
        } else {
            s.engine
        },
        context: Context {
            retroactive: s.context.retroactive && !speculative,
            ..s.context
        },
        pending: nothing(),
        ..s
    }
}

/// The state after a pause was noticed.
pub open spec fn idled(s: Session) -> Session {
    Session {
        engine: engine_reset(s.engine),
        context: Context { await_frame: true, ..s.context },
        ..s
    }
}

/// A frame is a dead one: empty, while the shadow holds text.
pub open spec fn dead_frame(s: Session, text: Seq<char>, cursor: u32) -> bool {
    text.len() == 0 && cursor == 0 && shadow_of(s).len() > 0
}

/// Dead frames in a row, once a frame is noted.
pub open spec fn strikes_after(s: Session, text: Seq<char>, cursor: u32) -> u32 {
    if dead_frame(s, text, cursor) {
        if s.liveness.dead_strikes < u32::MAX {
            (s.liveness.dead_strikes + 1) as u32
        } else {
            u32::MAX
        }
    } else if text.len() > 0 {
        0
    } else {
        s.liveness.dead_strikes
    }
}

/// Dropping everything twice is dropping it once, but for the engine's count of
/// requests.
pub proof fn law_full_reset_idempotent(s: Session)
    ensures
        fully_reset(fully_reset(s)) == (Session {
            engine: engine_reset(engine_reset(s.engine)),
            ..fully_reset(s)
        }),
{
}

/// No reset and no switch of tier brings committed strings back once they are
/// lost.
pub proof fn law_resets_keep_ratchet(s: Session, m: BackspaceMethod, c: ModifierState)
    ensures
        fully_reset(s).commit_string_functional == s.commit_string_functional,
        composition_reset(s).commit_string_functional == s.commit_string_functional,
        tier_switched(s, m).commit_string_functional == s.commit_string_functional,
        modified(s, c).commit_string_functional == s.commit_string_functional,
        char_unrecorded(s).commit_string_functional == s.commit_string_functional,
        idled(s).commit_string_functional == s.commit_string_functional,
{
}

/// A change of the input method keeps the tone style.
pub proof fn law_method_change_keeps_style(s: Session, method: InputMethod)
    ensures
        engine::style(method_changed(s, method).engine) == engine::style(s.engine),
        method_changed(s, method).engine.method == method,
{
    engine::law_style_stays(
        engine::unasked(s.engine.kind, method, s.options.bracket_shortcuts),
        engine::style(s.engine),
        engine::Exchange::Reset,
    );
}

/// Off the surrounding-text tier nothing waits for a frame.
pub proof fn law_other_tiers_wait_for_nothing(s: Session, m: BackspaceMethod)
    requires
        m != BackspaceMethod::SurroundingText,
    ensures
        tier_switched(s, m).pending == nothing(),
        tier(tier_switched(s, m)) == m,
{
}

/// The client is given up as dead by the second of two dead frames in a row, and
/// a frame with text in it starts the count anew.
pub proof fn law_two_dead_frames(s: Session, text: Seq<char>, cursor: u32)
    requires
        s.liveness.dead_strikes == 0,
        dead_frame(s, Seq::empty(), 0),
    ensures
        strikes_after(s, Seq::empty(), 0) == 1,
        strikes_after(
            Session { liveness: Liveness { dead_strikes: 1, ..s.liveness }, ..s },
            Seq::empty(),
            0,
        ) == 2,
        text.len() > 0 ==> strikes_after(s, text, cursor) == 0,
{
}

} // verus!
