//! Which surrounding-text frames to believe.
use vstd::prelude::*;

verus! {

/// What to do with a frame: take it over, and seed the engine from it.
#[derive(Debug, Clone, Copy, PartialEq, Eq, Structural)]
pub struct SurroundingDecision {
    pub trust: bool,
    pub reseed: bool,
}

/// Trust and reseed policy for surrounding-text frames.
pub struct SurroundingObserver;

/// Right after an action every frame is some echo of it. One that shows an
/// ordinary keystroke, or exactly the text that was expected, is believed; any
/// other is dropped, unless a reseed is forced. Later frames are always
/// believed, and seed the engine unless they are a keystroke or a deletion.
pub open spec fn judged(
    recent_action: bool,
    one_char_typed: bool,
    deletion: bool,
    force_reseed: bool,
    shadow_confirmed: bool,
) -> SurroundingDecision {
    SurroundingDecision {
        trust: !recent_action || one_char_typed || shadow_confirmed || force_reseed,
        reseed: force_reseed || (!one_char_typed && !recent_action && !deletion),
    }
}

impl SurroundingObserver {
    pub fn observe(
        recent_action: bool,
        one_char_typed: bool,
        deletion: bool,
        force_reseed: bool,
        shadow_confirmed: bool,
    ) -> (d: SurroundingDecision)
        ensures
            d == judged(
                recent_action,
                one_char_typed,
                deletion,
                force_reseed,
                shadow_confirmed,
            ),
    {
        let trust = !(recent_action && !one_char_typed && !shadow_confirmed && !force_reseed);
        let reseed = force_reseed || (!one_char_typed && !recent_action && !deletion);
        SurroundingDecision { trust, reseed }
    }
}

/// A frame that seeds the engine is a frame that is believed.
pub proof fn law_reseed_implies_trust(
    recent_action: bool,
    one_char_typed: bool,
    deletion: bool,
    force_reseed: bool,
    shadow_confirmed: bool,
)
    ensures
        judged(recent_action, one_char_typed, deletion, force_reseed, shadow_confirmed).reseed
            ==> judged(
            recent_action,
            one_char_typed,
            deletion,
            force_reseed,
            shadow_confirmed,
        ).trust,
{
}

/// Without a forced reseed, ordinary typing never disturbs the engine.
pub proof fn law_typing_never_reseeds(recent_action: bool, deletion: bool, shadow_confirmed: bool)
    ensures
        !judged(recent_action, true, deletion, false, shadow_confirmed).reseed,
        judged(recent_action, true, deletion, false, shadow_confirmed).trust,
{
}

/// Without a forced reseed, an unexpected frame right after an action is
/// dropped, whether or not it looks like a deletion.
pub proof fn law_stale_echo_is_dropped(deletion: bool)
    ensures
        !judged(true, false, deletion, false, false).trust,
{
}

} // verus!
