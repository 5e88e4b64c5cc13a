//! What holds of the engine.
use vstd::prelude::*;

use crate::edit;
use crate::edit::{BackspaceMethod, KeyState, SinkCall};
use crate::handler::focus;
use crate::handler::keys::navigates;
use crate::handler::Hub;
use crate::ibus::engine;
use crate::ibus::engine::{IbusCall, Sent};
use crate::ibus::keyval;
use crate::ibus::sink;
use crate::ibus::sink::Emitted;
use crate::strings;

verus! {

/// Nothing is deleted behind a text that was committed: deletions come first,
/// Backspace keys next, texts last.
pub proof fn law_deletes_come_first(e: Emitted, i: int, j: int)
    requires
        0 <= i < j < engine::signals_of(e).len(),
        engine::signals_of(e)[i] is CommitText,
    ensures
        engine::signals_of(e)[j] is CommitText,
{
    let s = engine::signals_of(e);
    if j < e.deletes.len() {
        assert(s[i] == Sent::DeleteSurroundingText(e.deletes[i]));
    } else if j < e.deletes.len() + e.forwards.len() {
        if i < e.deletes.len() {
            assert(s[i] == Sent::DeleteSurroundingText(e.deletes[i]));
        } else {
            assert(s[i] == Sent::ForwardKeyEvent(e.forwards[i - e.deletes.len()]));
        }
    } else {
        assert(s[j] == Sent::CommitText(
            e.commits[j - e.deletes.len() - e.forwards.len()],
        ));
    }
}

/// Every Backspace that an edit types reaches the client as a press and a release,
/// each marked so that the client does not hand it back.
pub proof fn law_backspaces_are_forwarded(e: Seq<SinkCall>, time: u32, n: nat)
    ensures
        ({
            let before = sink::emitted(e);
            let after = sink::emitted(e + edit::backspace_calls(time, n));
            &&& after.commits == before.commits
            &&& after.deletes == before.deletes
            &&& after.forwards.len() == before.forwards.len() + 2 * n
            &&& forall|i: int|
                before.forwards.len() <= i < after.forwards.len() ==> #[trigger] after.forwards[i]
                    == sink::backspace_event(
                    if (i - before.forwards.len()) % 2 == 0 {
                        KeyState::Pressed
                    } else {
                        KeyState::Released
                    },
                )
        }),
    decreases n,
{
    if n == 0 {
        assert(e + edit::backspace_calls(time, n) =~= e);
    } else {
        law_backspaces_are_forwarded(e, time, (n - 1) as nat);
        let rest = edit::backspace_calls(time, (n - 1) as nat);
        let press = SinkCall::VkKey { time, key_code: 14, state: KeyState::Pressed };
        let release = SinkCall::VkKey { time, key_code: 14, state: KeyState::Released };
        assert(e + edit::backspace_calls(time, n) =~= (e + rest).push(press).push(release));
        assert((e + rest).push(press).push(release).drop_last() =~= (e + rest).push(press));
        assert((e + rest).push(press).drop_last() =~= e + rest);
        let before = sink::emitted(e);
        let mid = sink::emitted(e + rest);
        let one = sink::emitted((e + rest).push(press));
        assert(one == sink::with_call(mid, press));
        let after = sink::emitted(e + edit::backspace_calls(time, n));
        assert(after == sink::with_call(one, release));
        assert forall|i: int|
            before.forwards.len() <= i < after.forwards.len() implies #[trigger] after.forwards[i]
            == sink::backspace_event(
            if (i - before.forwards.len()) % 2 == 0 {
                KeyState::Pressed
            } else {
                KeyState::Released
            },
        ) by {
            if i < mid.forwards.len() {
                assert(after.forwards[i] == mid.forwards[i]);
            }
        }
    }
}

/// A text goes to the client whole, as one commit; an empty one does not go at all.
pub proof fn law_text_is_one_commit(e: Emitted, t: Seq<char>)
    ensures
        t.len() > 0 ==> sink::with_call(e, SinkCall::CommitString(t)).commits == e.commits.push(t),
        t.len() == 0 ==> sink::with_call(e, SinkCall::CommitString(t)) == e,
{
}

proof fn lemma_numbers_tell_characters_apart(a: char, b: char)
    ensures
        a as u32 == b as u32 ==> a == b,
{
}

/// A key symbol that stands for a character types that character: those of Latin 1 and the
/// letters behind it stand for themselves, and any other has a symbol of its own.
pub proof fn law_symbols_type_their_characters(c: char, r: Option<char>)
    ensures
        keyval::types((0x0100_0000 + c as u32) as u32, r) ==> r == Some(c),
        0x20 <= c as u32 <= 0x2ff && keyval::types(c as u32, r) ==> r == Some(c),
{
    let n = c as u32;
    assert(n <= 0x10ffff);
    assert(keyval::scalar(n));
    let k = (0x0100_0000 + n) as u32;
    assert(k & 0xff00_0000 == 0x0100_0000 && k & 0x00ff_ffff == n) by (bit_vector)
        requires
            n <= 0x10ffff,
            k == 0x0100_0000 + n,
    ;
    if 0x20 <= n <= 0x2ff {
        assert(n & 0xff00_0000 == 0) by (bit_vector)
            requires
                n <= 0x2ff,
        ;
    }
    if let Some(d) = r {
        lemma_numbers_tell_characters_apart(d, c);
    }
}

/// A key that is known by its symbol has the code that its key has on any keyboard; any
/// other keeps the code that came with it. Home, the arrows, the page keys and End are
/// known, each by its own code, and so is Backspace.
pub proof fn law_known_keys_have_their_codes(keyval: u32, keycode: u32)
    ensures
        keyval::evdev_code(0xff08, keycode) == 14,
        keyval::evdev_code(0xff50, keycode) == 102,
        keyval::evdev_code(0xff51, keycode) == 105,
        keyval::evdev_code(0xff52, keycode) == 103,
        keyval::evdev_code(0xff53, keycode) == 106,
        keyval::evdev_code(0xff54, keycode) == 108,
        keyval::evdev_code(0xff55, keycode) == 104,
        keyval::evdev_code(0xff56, keycode) == 109,
        keyval::evdev_code(0xff57, keycode) == 107,
        !(keyval == 0xff08 || 0xff50 <= keyval <= 0xff57) ==> keyval::evdev_code(keyval, keycode)
            == keycode,
        0xff50 <= keyval <= 0xff57 ==> navigates(keyval::evdev_code(keyval, keycode)),
{
}

/// A key is taken unless it is left to the client; only an edit has signals, and it is
/// carried out once, as it was decided.
pub proof fn law_decisions_are_answered(d: edit::Decision, ops: Seq<SinkCall>)
    ensures
        engine::takes(d) <==> !(d is ForwardRaw),
        !(d is Apply) ==> engine::answer_signals(d, ops).len() == 0 && engine::answer_calls(
            d,
            ops,
        ).len() == 0,
        d matches edit::Decision::Apply { method, backspaces, commit } ==> engine::answer_signals(
            d,
            ops,
        ) == engine::signals_of(sink::emitted(ops)) && engine::answer_calls(d, ops) == seq![
            IbusCall::Apply { backspaces, commit, time: 0, ops },
        ],
{
}

/// An IBus client gets surrounding text where it has it, and Backspace keys where it has
/// not. A session that runs is not started anew; one that ends is gone.
pub proof fn law_ibus_sessions(h: Hub, method: BackspaceMethod)
    ensures
        engine::capable_tier(true) == BackspaceMethod::SurroundingText,
        engine::capable_tier(false) == BackspaceMethod::ForwardKey,
        h.router.current_active ==> focus::ibus_activated(h, method) == h,
        !h.router.current_active ==> ({
            let n = focus::ibus_activated(h, method);
            &&& n.router.current_active
            &&& n.router.session == Some(
                focus::new_session(h.router.kind, h.settings, h.router.modifiers, method),
            )
            &&& n.settings == h.settings && n.enabled == h.enabled
        }),
        !focus::ibus_deactivated(h).router.current_active,
        focus::ibus_deactivated(h).router.session is None,
        h.router.session matches Some(s) ==> (focus::ibus_method_updated(
            h,
            method,
        ).router.session matches Some(n) && n.edit.strategy.method == method && n.engine
            == s.engine && n.edit.strategy.shadow == s.edit.strategy.shadow),
{
}

/// A client that measures deletions in characters is known by its name, in any case; one
/// that is not listed, or has no name, measures them as others do.
pub proof fn law_clients_are_known_in_any_case(id: Seq<char>, apps: Seq<Seq<char>>, k: int)
    ensures
        0 <= k < apps.len() && strings::lowered(apps[k]) == strings::lowered(id)
            ==> engine::in_chars(Some(id), apps) && engine::in_chars(
            Some(strings::lowered(id)),
            apps,
        ),
        (forall|i: int|
            0 <= i < apps.len() ==> strings::lowered(#[trigger] apps[i]) != strings::lowered(id))
            ==> !engine::in_chars(Some(id), apps),
        !engine::in_chars(None, apps),
{
    strings::laws::law_lowering_changes_case_alone(id);
}

} // verus!
