//! What holds of a Wayland client's keys and texts.
use vstd::prelude::*;

use crate::client;
use crate::client::Client;
use crate::composer::typing;
use crate::edit;
use crate::edit::{BackspaceMethod, Channels, DeleteUnit, KeyState, SinkCall};
use crate::engine;
use crate::engine::{EngineView, Exchange};
use crate::evdev;
use crate::evdev::EmitSpec;
use crate::keystrokes;
use crate::text;
use crate::wayland::app;
use crate::wayland::app::{App, ImEvent, Press, RawMods, SelfEmit};
use crate::wayland::run;
use crate::wayland::sink;
use crate::wayland::sink::VkRequest;
use crate::wayland::window;
use crate::wayland::window::Window;
use crate::words;

verus! {

/// A key that the virtual keyboard struck, with the modifiers that held.
pub struct VkStroke {
    pub key_code: u32,
    pub mods: RawMods,
}

/// What a client has seen of the virtual keyboard.
pub struct Seat {
    pub mods: RawMods,
    pub down: Set<u32>,
    pub strokes: Seq<VkStroke>,
}

/// A request of the virtual keyboard takes effect.
pub open spec fn heard(s: Seat, r: VkRequest) -> Seat {
    match r {
        VkRequest::Modifiers(m) => Seat { mods: m, ..s },
        VkRequest::Key { time, key_code, value } => if value == 1 && !s.down.contains(key_code) {
            Seat {
                down: s.down.insert(key_code),
                strokes: s.strokes.push(VkStroke { key_code, mods: s.mods }),
                ..s
            }
        } else if value == 0 {
            Seat { down: s.down.remove(key_code), ..s }
        } else {
            s
        },
    }
}

/// Requests take effect one after the other.
pub open spec fn heard_all(s: Seat, v: Seq<VkRequest>) -> Seat
    decreases v.len(),
{
    if v.len() == 0 {
        s
    } else {
        heard(heard_all(s, v.drop_last()), v.last())
    }
}

/// The strokes of a text: each character's key, with the user's modifiers and those of
/// the character.
pub open spec fn vk_strokes(
    entries: Seq<(char, EmitSpec)>,
    held: RawMods,
    text: Seq<char>,
) -> Seq<VkStroke> {
    Seq::new(
        text.len(),
        |i: int|
            {
                let e = evdev::emit_of(entries, text[i])->0;
                VkStroke {
                    key_code: e.keycode,
                    mods: RawMods { depressed: held.depressed | e.mods, ..held },
                }
            },
    )
}

proof fn lemma_heard_concat(s: Seat, a: Seq<VkRequest>, b: Seq<VkRequest>)
    ensures
        heard_all(s, a + b) == heard_all(heard_all(s, a), b),
    decreases b.len(),
{
    if b.len() == 0 {
        assert(a + b =~= a);
    } else {
        assert((a + b).drop_last() =~= a + b.drop_last());
        lemma_heard_concat(s, a, b.drop_last());
    }
}

proof fn lemma_heard_one(s: Seat, r: VkRequest)
    ensures
        heard_all(s, seq![r]) == heard(s, r),
{
    assert(seq![r].drop_last() =~= Seq::<VkRequest>::empty());
    assert(heard_all(s, seq![r].drop_last()) == s);
}

proof fn lemma_heard_tap(s: Seat, time: u32, key_code: u32)
    requires
        !s.down.contains(key_code),
    ensures
        heard_all(s, sink::tap(time, key_code)) == (Seat {
            strokes: s.strokes.push(VkStroke { key_code, mods: s.mods }),
            ..s
        }),
{
    let press = VkRequest::Key { time, key_code, value: 1 };
    let release = VkRequest::Key { time, key_code, value: 0 };
    assert(sink::tap(time, key_code) =~= seq![press] + seq![release]);
    lemma_heard_concat(s, seq![press], seq![release]);
    lemma_heard_one(s, press);
    lemma_heard_one(heard(s, press), release);
    assert(s.down.insert(key_code).remove(key_code) =~= s.down);
}

/// A character is struck once, with the modifiers that it needs beside those that the user
/// holds; then the client sees the user's modifiers again.
pub proof fn law_characters_are_struck(held: RawMods, e: EmitSpec, time: u32, s: Seat)
    requires
        s.mods == held,
        !s.down.contains(e.keycode),
    ensures
        heard_all(s, sink::char_requests(held, e, time)) == (Seat {
            strokes: s.strokes.push(
                VkStroke {
                    key_code: e.keycode,
                    mods: RawMods { depressed: held.depressed | e.mods, ..held },
                },
            ),
            ..s
        }),
{
    let m = sink::with_mods(held, e.mods);
    let tap = sink::tap(time, e.keycode);
    if e.mods == 0 {
        let x = held.depressed;
        assert(x | 0u32 == x) by (bit_vector);
        lemma_heard_tap(s, time, e.keycode);
    } else {
        let set = seq![VkRequest::Modifiers(m)];
        let back = seq![VkRequest::Modifiers(held)];
        lemma_heard_concat(s, set + tap, back);
        lemma_heard_concat(s, set, tap);
        lemma_heard_one(s, VkRequest::Modifiers(m));
        let s1 = heard(s, VkRequest::Modifiers(m));
        lemma_heard_tap(s1, time, e.keycode);
        lemma_heard_one(heard_all(s1, tap), VkRequest::Modifiers(held));
    }
}

/// A text is typed by the keys of its characters, in order, each with its modifiers.
pub proof fn law_texts_are_struck(
    entries: Seq<(char, EmitSpec)>,
    held: RawMods,
    t: Seq<char>,
    time: u32,
    s: Seat,
)
    requires
        s.mods == held,
        sink::has_keys(entries, t),
        forall|i: int|
            0 <= i < t.len() ==> !s.down.contains(
                evdev::emit_of(entries, #[trigger] t[i])->0.keycode,
            ),
    ensures
        heard_all(s, sink::text_requests(entries, held, t, time)) == (Seat {
            strokes: s.strokes + vk_strokes(entries, held, t),
            ..s
        }),
    decreases t.len(),
{
    if t.len() == 0 {
        assert(s.strokes + vk_strokes(entries, held, t) =~= s.strokes);
    } else {
        let rest = t.drop_last();
        assert forall|i: int| 0 <= i < rest.len() implies evdev::emit_of(
            entries,
            #[trigger] rest[i],
        ) is Some && !s.down.contains(evdev::emit_of(entries, rest[i])->0.keycode) by {
            assert(rest[i] == t[i]);
        }
        law_texts_are_struck(entries, held, rest, time, s);
        assert(t.last() == t[t.len() - 1]);
        let e = evdev::emit_of(entries, t.last())->0;
        let head = sink::text_requests(entries, held, rest, time);
        lemma_heard_concat(s, head, sink::char_requests(held, e, time));
        law_characters_are_struck(held, e, time, heard_all(s, head));
        assert(vk_strokes(entries, held, t) =~= vk_strokes(entries, held, rest).push(
            VkStroke {
                key_code: e.keycode,
                mods: RawMods { depressed: held.depressed | e.mods, ..held },
            },
        ));
        assert(s.strokes + vk_strokes(entries, held, t) =~= (s.strokes + vk_strokes(
            entries,
            held,
            rest,
        )).push(vk_strokes(entries, held, t).last()));
    }
}

/// A word of small letters only.
pub open spec fn small_letters(word: Seq<char>) -> bool {
    forall|i: int| 0 <= i < word.len() ==> 'a' <= #[trigger] word[i] <= 'z'
}

/// What a window's engine was asked when a character reaches it: one that does not know
/// the word in front of the cursor learns it first, where that is all small letters.
pub open spec fn asked_before_char(w: Window) -> Seq<Exchange> {
    let word = words::trailing_word(w.strategy.shadow.text, words::Boundary::Spaced);
    let k = keystrokes::keys_of_text(word, w.engine.method);
    if (engine::nature(w.engine).begins)(w.engine.asked) && word.len() > 0 && small_letters(word) {
        w.engine.asked.push(
            Exchange::Seed { keys: k, fed: (engine::nature(w.engine).takes)(w.engine.asked, k) },
        )
    } else {
        w.engine.asked
    }
}

/// What the engine makes of a character is what happens at the client: its edit, with its
/// backspaces and its text, or else the key itself, once. The engine is asked once, and the
/// shadow keeps in step.
pub proof fn law_characters_become_the_engines_edits(
    to: Channels,
    w: Window,
    after: Window,
    key: u32,
    ch: char,
    serial: u32,
    time: u32,
    now: u64,
    calls: Seq<SinkCall>,
    own: Option<window::OwnEdit>,
    c: Client,
)
    requires
        window::char_handled(to, w, after, key, ch, serial, time, now, calls, own),
        client::in_step(c, w.strategy.shadow),
        text::utf8_len(w.strategy.shadow.text) <= u32::MAX,
        w.strategy.method == BackspaceMethod::VkOnly ==> forall|c: char| to.keys.contains(c),
        ({
            let r = typing::made_of(engine::nature(w.engine), asked_before_char(w), ch);
            r.consumed ==> r.backspaces <= w.strategy.shadow.text.len()
        }),
    ensures
        ({
            let r = typing::made_of(engine::nature(w.engine), asked_before_char(w), ch);
            let t = w.strategy.shadow.text;
            &&& after.engine == (EngineView {
                asked: asked_before_char(w).push(Exchange::Key { ch, reply: r }),
                ..w.engine
            })
            &&& after.last_key == now
            &&& !r.consumed ==> own is None && calls == seq![
                SinkCall::VkKey { time, key_code: key, state: KeyState::Pressed },
            ] && after.strategy.shadow.text == t.push(ch)
            &&& r.consumed && !w.uinput ==> own is None && client::ran(
                c,
                serial,
                DeleteUnit::Bytes,
                calls,
            ) == client::replaced(c, r.backspaces as nat, r.commit)
            &&& r.consumed && w.uinput ==> calls.len() == 0 && own is Some && own->0.commit
                == r.commit && own->0.release_grab && own->0.events
                == edit::uinput_backspace::planned(r.backspaces as nat, w.strategy.modifiers)
            &&& r.consumed ==> client::in_step(
                client::replaced(c, r.backspaces as nat, r.commit),
                after.strategy.shadow,
            )
        }),
{
    reveal(window::char_handled);
    reveal(window::char_done);
    reveal(window::answer_calls);
    let r = typing::made_of(engine::nature(w.engine), asked_before_char(w), ch);
    assert(window::seedable(window::shadow_word(w)) == (window::shadow_word(w).len() > 0
        && small_letters(window::shadow_word(w))));
    assert(r == window::char_reply(w, ch));
    if r.consumed {
        lemma_edit(to, w, serial, time, r, c);
    }
}

proof fn lemma_edit(to: Channels, w: Window, serial: u32, time: u32, r: engine::Reply, c: Client)
    requires
        client::in_step(c, w.strategy.shadow),
        text::utf8_len(w.strategy.shadow.text) <= u32::MAX,
        r.backspaces <= w.strategy.shadow.text.len(),
        w.strategy.method == BackspaceMethod::VkOnly ==> forall|c: char| to.keys.contains(c),
    ensures
        client::in_step(
            client::replaced(c, r.backspaces as nat, r.commit),
            window::edited_shadow(w, r),
        ),
        client::ran(
            c,
            serial,
            DeleteUnit::Bytes,
            edit::tier_calls(
                to,
                w.strategy.method,
                w.strategy.shadow,
                r.backspaces,
                r.commit,
                serial,
                time,
                DeleteUnit::Bytes,
            ),
        ) == client::replaced(c, r.backspaces as nat, r.commit),
{
    client::law_edit_replaces_text(
        to,
        w.strategy.method,
        w.strategy.shadow,
        r.backspaces,
        r.commit,
        serial,
        time,
        DeleteUnit::Bytes,
        c,
    );
    client::law_forwarded_edit_replaces_text(
        to,
        w.strategy.shadow,
        r.backspaces,
        r.commit,
        serial,
        time,
        true,
        DeleteUnit::Bytes,
        c,
    );
}

/// The same of Backspace.
pub proof fn law_backspaces_become_the_engines_edits(
    to: Channels,
    w: Window,
    after: Window,
    serial: u32,
    time: u32,
    now: u64,
    calls: Seq<SinkCall>,
    own: Option<window::OwnEdit>,
    c: Client,
)
    requires
        window::backspace_handled(to, w, after, serial, time, now, calls, own),
        client::in_step(c, w.strategy.shadow),
        text::utf8_len(w.strategy.shadow.text) <= u32::MAX,
        w.strategy.method == BackspaceMethod::VkOnly ==> forall|c: char| to.keys.contains(c),
        engine::erasure(w.engine).consumed ==> engine::erasure(w.engine).backspaces
            <= w.strategy.shadow.text.len(),
    ensures
        ({
            let r = (engine::nature(w.engine).erasure)(w.engine.asked);
            let t = w.strategy.shadow.text;
            &&& after.engine == (EngineView {
                asked: w.engine.asked.push(Exchange::Backspace { reply: r }),
                ..w.engine
            })
            &&& !r.consumed ==> own is None && calls == seq![
                SinkCall::VkKey { time, key_code: 14, state: KeyState::Pressed },
            ]
            &&& !r.consumed && t.len() > 0 ==> after.strategy.shadow.text == t.drop_last()
            &&& r.consumed && !w.uinput ==> own is None && client::ran(
                c,
                serial,
                DeleteUnit::Bytes,
                calls,
            ) == client::replaced(c, r.backspaces as nat, r.commit)
            &&& r.consumed && w.uinput ==> calls.len() == 0 && own is Some && own->0.commit
                == r.commit && !own->0.release_grab && own->0.events
                == edit::uinput_backspace::planned(r.backspaces as nat, w.strategy.modifiers)
            &&& r.consumed ==> client::in_step(
                client::replaced(c, r.backspaces as nat, r.commit),
                after.strategy.shadow,
            )
        }),
{
    reveal(window::backspace_handled);
    reveal(window::backspace_done);
    reveal(window::answer_calls);
    let r = engine::erasure(w.engine);
    let t = w.strategy.shadow.text;
    if r.consumed {
        lemma_edit(to, w, serial, time, r, c);
    } else if t.len() > 0 {
        assert(words::chars_dropped(t, 1) =~= t.drop_last());
    }
}

/// What a press at an open window comes to. A key of our own that comes back is dropped; a
/// shortcut and a key that moves the cursor end the word; Backspace and what types a
/// character are composed; anything else passes.
pub proof fn law_presses_are_told_apart(a: App, key: u32, ch: Option<char>, now: u64)
    ensures
        ({
            let own = app::suppressed(a.emits, key, 1, now).1;
            let shortcut = a.modifiers.bits & 0x04 != 0 || a.modifiers.bits & 0x08 != 0
                || a.modifiers.bits & 0x40 != 0;
            let p = app::press_target(a, key, ch, now);
            &&& own <==> p == Press::Own
            &&& !own && shortcut ==> p == Press::EndsWord
            &&& !own && !shortcut && crate::handler::keys::navigates(key) ==> p == Press::EndsWord
            &&& !own && !shortcut && !crate::handler::keys::navigates(key) ==> {
                if a.window is None {
                    p == Press::Plain
                } else if key == 14 {
                    p == Press::Backspace
                } else {
                    match ch {
                        Some(c) => p == Press::Character(c),
                        None => p == Press::Plain,
                    }
                }
            }
        }),
{
    let b = a.modifiers.bits;
    assert((b & 0x4c != 0) == (b & 0x04 != 0 || b & 0x08 != 0 || b & 0x40 != 0)) by (bit_vector);
}

/// Keys of our own that come back in the order in which they went out are dropped, each
/// once, and after the last none is expected.
pub proof fn law_own_keys_come_back_once(emits: Seq<SelfEmit>, now: u64)
    requires
        emits.len() > 0,
        now - emits[0].at <= 50_000_000,
    ensures
        app::suppressed(emits, emits[0].key, emits[0].value, now) == (emits.drop_first(), true),
{
    assert(app::fresh_emits(emits, now) == emits);
    assert(app::emit_place(emits, emits[0].key, emits[0].value, 0) == Some(0nat));
    assert(emits.remove(0) =~= emits.drop_first());
}

proof fn lemma_emit_place(emits: Seq<SelfEmit>, key: u32, value: i32, from: nat)
    ensures
        match app::emit_place(emits, key, value, from) {
            Some(p) => from <= p < from + emits.len() && emits[p - from].key == key
                && emits[p - from].value == value,
            None => forall|i: int|
                0 <= i < emits.len() ==> (#[trigger] emits[i]).key != key || emits[i].value
                    != value,
        },
    decreases emits.len(),
{
    if emits.len() > 0 && !(emits[0].key == key && emits[0].value == value) {
        let rest = emits.drop_first();
        lemma_emit_place(rest, key, value, from + 1);
        match app::emit_place(rest, key, value, from + 1) {
            Some(p) => {
                assert(rest[p - (from + 1)] == emits[p - from]);
            },
            None => {
                assert forall|i: int| 0 <= i < emits.len() implies (#[trigger] emits[i]).key != key
                    || emits[i].value != value by {
                    if i > 0 {
                        assert(rest[i - 1] == emits[i]);
                    }
                }
            },
        }
    }
}

/// A key that is none of ours is not dropped, and no key of ours is forgotten for it.
pub proof fn law_foreign_keys_are_not_dropped(
    emits: Seq<SelfEmit>,
    key: u32,
    value: i32,
    now: u64,
)
    requires
        forall|i: int|
            0 <= i < emits.len() ==> (#[trigger] emits[i]).key != key || emits[i].value != value,
        emits.len() > 0 ==> now - emits[0].at <= 50_000_000,
    ensures
        app::suppressed(emits, key, value, now) == (emits, false),
{
    assert(app::fresh_emits(emits, now) == emits);
    lemma_emit_place(emits, key, value, 0);
}

/// A key of ours is expected back for a twentieth of a second, and then no more.
pub proof fn law_own_keys_expire(e: SelfEmit, now: u64)
    requires
        now - e.at > 50_000_000,
    ensures
        app::suppressed(seq![e], e.key, e.value, now) == (Seq::<SelfEmit>::empty(), false),
{
    let s = seq![e];
    assert(s.drop_first() =~= Seq::<SelfEmit>::empty());
    assert(app::fresh_emits(s.drop_first(), now) == s.drop_first());
    assert(app::fresh_emits(s, now) == s.drop_first());
}

/// A pause of two seconds makes the engine start over, and a shorter one does not; nothing
/// else changes.
pub proof fn law_pauses_start_over(w: Window, now: u64)
    ensures
        window::idled(w, now) == if now - w.last_key >= 2_000_000_000 {
            Window {
                engine: EngineView { asked: w.engine.asked.push(Exchange::Reset), ..w.engine },
                ..w
            }
        } else {
            w
        },
{
}

/// A frame moves the shadow to the text in front of the cursor. The engine starts over
/// with the word there, unless the frame answers a key that was just typed.
pub proof fn law_reports_are_taken_over(
    w: Window,
    before: Seq<char>,
    after: Seq<char>,
    reseed: bool,
)
    requires
        text::utf8_len(before + after) <= u32::MAX,
    ensures
        ({
            let at = text::utf8_len(before) as u32;
            let t = crate::wayland::frame::Around { text: before + after, cursor: at, anchor: at };
            let n = window::reported(w, t, reseed);
            let word = words::trailing_word(before, words::Boundary::Spaced);
            let over = w.engine.asked.push(Exchange::Reset);
            let k = keystrokes::keys_of_text(word, w.engine.method);
            &&& n.strategy.shadow.text == before
            &&& !edit::shadow::selects(n.strategy.shadow)
            &&& !reseed ==> n.engine == w.engine
            &&& reseed ==> n.engine == (EngineView {
                asked: if word.len() > 0 && small_letters(word) {
                    over.push(
                        Exchange::Seed {
                            keys: k,
                            fed: (engine::nature(w.engine).takes)(over, k),
                        },
                    )
                } else {
                    over
                },
                ..w.engine
            })
            &&& n.strategy.method == w.strategy.method && n.uinput == w.uinput
        }),
{
    reveal(window::reported);
    let s = before + after;
    let k = before.len() as int;
    text::lemma_utf8_len_concat(before, after);
    assert(s.take(k) =~= before);
    if k < s.len() {
        text::lemma_utf8_len_take(s, k, k + 1);
    }
    text::lemma_chars_within_unique(s, text::utf8_len(before), k);
    let word = words::trailing_word(before, words::Boundary::Spaced);
    assert(window::seedable(word) == (word.len() > 0 && small_letters(word)));
}

/// What the compositor says waits for the frame to be done, each in its own place; a seat
/// that is gone ends the run.
pub proof fn law_events_wait_for_done(a: App, t: crate::wayland::frame::SurroundingText, n: u32)
    ensures
        app::event_noted(a, ImEvent::Activate).frame.activate,
        app::event_noted(a, ImEvent::Deactivate).frame.deactivate,
        app::event_noted(a, ImEvent::SurroundingText(t)).frame.around == Some(t@),
        app::event_noted(a, ImEvent::ContentType(n)).frame.purpose == n,
        app::event_noted(a, ImEvent::TextChangeCause(n)).frame.change_cause == Some(n),
        app::event_noted(a, ImEvent::Unavailable).should_exit,
        app::event_noted(a, ImEvent::Done) == a,
        forall|e: ImEvent|
            #![trigger app::event_noted(a, e)]
            {
                let b = app::event_noted(a, e);
                &&& b.window == a.window && b.active == a.active && b.serial == a.serial
                &&& b.emits == a.emits && b.modifiers == a.modifiers && b.raw_mods == a.raw_mods
                &&& e !is Unavailable ==> b.should_exit == a.should_exit
                &&& e !is Activate ==> b.frame.activate == a.frame.activate
                &&& e !is Deactivate ==> b.frame.deactivate == a.frame.deactivate
                &&& e !is SurroundingText ==> b.frame.around == a.frame.around
                &&& e !is ContentType ==> b.frame.purpose == a.frame.purpose
            },
{
}

/// A text input that is entered gets a window of its own: on surrounding text where it sent
/// any, by Backspace keys where it did not, and in a terminal by keys unless it is forced;
/// a terminal's deletes go through our own device only where that is asked for and there.
/// One that is left loses its window. Each frame counts once.
pub proof fn law_text_inputs_get_windows(a: App, focused: Option<Seq<char>>, now: u64)
    requires
        !a.synthetic,
        a.serial < u32::MAX,
    ensures
        ({
            let b = app::frame_applied(a, focused, now);
            let tier = if a.frame.purpose == 13 {
                if a.terminal_override == Some(app::TerminalTier::SurroundingText) {
                    BackspaceMethod::SurroundingText
                } else {
                    BackspaceMethod::ForwardKey
                }
            } else if a.frame.around is Some {
                BackspaceMethod::SurroundingText
            } else {
                BackspaceMethod::ForwardKey
            };
            &&& b.serial == a.serial + 1
            &&& !b.frame.activate && !b.frame.deactivate && b.frame.around is None
            &&& a.frame.activate && !a.active ==> {
                &&& b.active && !b.synthetic && b.app_id == focused
                &&& b.window matches Some(w) && w.strategy.method == tier && w.method == tier
                    && w.uinput == (a.uinput && a.frame.purpose == 13 && a.terminal_override
                    == Some(app::TerminalTier::Uinput)) && w.engine.method == a.method
            }
            &&& a.frame.deactivate && a.active ==> !b.active && b.window is None && b.app_id is None
            &&& !a.frame.activate && !a.frame.deactivate ==> b.active == a.active && b.app_id
                == a.app_id && (b.window is Some <==> a.window is Some)
            &&& b.emits == a.emits && b.modifiers == a.modifiers && b.raw_mods == a.raw_mods
                && b.method == a.method
        }),
{
    reveal(app::turned);
    reveal(window::reported);
}

/// A window that gets keys only has a session of our making while it has the focus and no
/// real one is there; another's is left alone.
pub proof fn law_keys_only_windows(a: App, app_id: Option<Seq<char>>, now: u64)
    ensures
        ({
            let b = app::focus_moved(a, app_id, now);
            let listed = app_id matches Some(id) && exists|i: int|
                0 <= i < a.vk_only_apps.len() && crate::strings::lowered(
                    #[trigger] a.vk_only_apps[i],
                ) == crate::strings::lowered(id);
            &&& listed && !a.active ==> b.active && b.synthetic && b.app_id == app_id && (
            b.window matches Some(w) && w.strategy.method == BackspaceMethod::VkOnly)
            &&& !listed && a.synthetic ==> !b.active && !b.synthetic && b.window is None
            &&& !listed && !a.synthetic ==> b == a
            &&& listed && a.active ==> b == a
        }),
{
    reveal(app::focus_moved);
}

/// A window that is reset forgets its word; its tier and its device stay.
pub proof fn law_window_resets_forget_the_word(w: Window)
    ensures
        ({
            let r = window::window_reset(w);
            &&& r.engine == (EngineView {
                asked: w.engine.asked.push(Exchange::Reset),
                ..w.engine
            })
            &&& r.strategy.shadow.text.len() == 0 && r.raw_word.len() == 0
            &&& r.last_input_char is None && r.target is None && r.prev_text.len() == 0
            &&& r.strategy.method == w.strategy.method && r.method == w.method && r.uinput
                == w.uinput && r.strategy.modifiers == w.strategy.modifiers
        }),
{
}

/// What the loop holds is let go of, each once, the keyboard first.
pub proof fn law_everything_held_is_let_go(h: run::Held, r: run::Release)
    ensures
        run::releases(h).contains(r) == match r {
            run::Release::Grab => h.grab,
            run::Release::InputMethod => h.input_method,
            run::Release::VirtualKeyboard => h.virtual_keyboard,
        },
        run::releases(h).no_duplicates(),
        h.grab ==> run::releases(h)[0] == run::Release::Grab,
{
    let v = run::releases(h);
    let a = run::release_if(h.grab, run::Release::Grab);
    let b = run::release_if(h.input_method, run::Release::InputMethod);
    let c = run::release_if(h.virtual_keyboard, run::Release::VirtualKeyboard);
    assert(v == a + b + c);
    if h.grab {
        assert(v[0] == run::Release::Grab);
    }
    if h.input_method {
        assert(v[a.len() as int] == run::Release::InputMethod);
    }
    if h.virtual_keyboard {
        assert(v[(a + b).len() as int] == run::Release::VirtualKeyboard);
    }
}

/// Of what has come in, the loop attends to an end first, then to the compositor, then to
/// a key that repeats, and to the focus last.
pub proof fn law_turns_are_taken_in_order(r: run::Ready)
    requires
        r.shutdown is None,
    ensures
        r.interrupted ==> run::turn_of(r) is Stop,
        !r.interrupted && r.readable ==> run::turn_of(r) is Read,
        !r.interrupted && !r.readable && r.repeat_due ==> run::turn_of(r) is Repeat,
        !r.interrupted && !r.readable && !r.repeat_due ==> match r.focus {
            Some(f) => run::turn_of(r) == run::Turn::Focus(f),
            None => run::turn_of(r) is Wait,
        },
{
}

/// The keys of an edit that go out through our own device are expected back, each as it
/// went out, in order, behind those that are expected already.
pub proof fn law_own_edits_are_expected_back(
    emits: Seq<SelfEmit>,
    own: window::OwnEdit,
    now: u64,
    i: int,
)
    requires
        0 <= i < own.events.len(),
    ensures
        ({
            let n = app::with_own(emits, Some(own), now);
            &&& n.len() == emits.len() + own.events.len()
            &&& n.take(emits.len() as int) == emits
            &&& n[emits.len() + i].key == own.events[i].code
            &&& n[emits.len() + i].value == if own.events[i].down {
                1i32
            } else {
                0i32
            }
            &&& n[emits.len() + i].at == now
            &&& app::with_own(emits, None, now) == emits
        }),
{
    assert(app::with_own(emits, Some(own), now).take(emits.len() as int) =~= emits);
}

/// A frame that follows a key within a little over a tenth of a second is its answer: it
/// moves the shadow and leaves the engine alone. A later one has the engine start over.
pub proof fn law_answers_leave_the_engine_alone(
    a: App,
    w: Window,
    typed_at: u64,
    focused: Option<Seq<char>>,
    now: u64,
)
    requires
        a.window == Some(w),
        a.active && !a.synthetic && !a.frame.deactivate,
        a.frame.around is Some,
        a.last_action == Some(typed_at),
    ensures
        ({
            let b = app::frame_applied(a, focused, now);
            &&& b.window is Some
            &&& now - typed_at < 150_000_000 ==> b.window->0.engine == w.engine
            &&& now - typed_at >= 150_000_000 ==> b.window->0.engine.asked.len()
                > w.engine.asked.len() && b.window->0.engine.asked[w.engine.asked.len() as int]
                is Reset
        }),
{
    reveal(app::turned);
    reveal(window::reported);
    let over = w.engine.asked.push(Exchange::Reset);
    assert(over[w.engine.asked.len() as int] is Reset);
    let t = a.frame.around->0;
    let e = engine::asked(w.engine, Exchange::Reset);
    let word = window::word_at(t.text, t.cursor as nat);
    lemma_pushed(
        over,
        Exchange::Seed {
            keys: keystrokes::keys_of_text(word, e.method),
            fed: engine::takes(e, word),
        },
    );
}

proof fn lemma_pushed(log: Seq<Exchange>, x: Exchange)
    ensures
        log.push(x).len() == log.len() + 1,
        forall|i: int| 0 <= i < log.len() ==> #[trigger] log.push(x)[i] == log[i],
{
}

/// What is forced on terminals is named by the setting: our own device, or surrounding
/// text.
pub proof fn law_terminal_tiers_are_named(name: Seq<char>)
    ensures
        app::terminal_choice(None) is None,
        ({
            let w = crate::strings::lowered(name);
            let t = app::terminal_choice(Some(name));
            &&& w == "uinput"@ <==> t == Some(app::TerminalTier::Uinput)
            &&& w == "surrounding"@ || w == "surrounding_text"@ || w == "tier1"@ ==> t == Some(
                app::TerminalTier::SurroundingText,
            )
            &&& w != "uinput"@ && w != "surrounding"@ && w != "surrounding_text"@ && w != "tier1"@
                ==> t is None
        }),
        app::plain_override(Some(app::TerminalTier::SurroundingText)) == Some(
            BackspaceMethod::SurroundingText,
        ),
        app::plain_override(Some(app::TerminalTier::Uinput)) is None,
        app::plain_override(None) is None,
{
    reveal_strlit("uinput");
    reveal_strlit("surrounding");
    reveal_strlit("surrounding_text");
    reveal_strlit("tier1");
    assert("uinput"@[0] == 'u' && "surrounding"@[0] == 's' && "surrounding_text"@[0] == 's'
        && "tier1"@[0] == 't');
}

/// Before a press is looked at, a pause makes the window's engine start over; a key of our
/// own that comes back is no press of the user's.
pub proof fn law_presses_end_pauses(a: App, key: u32, now: u64)
    ensures
        ({
            let b = app::press_ready(a, key, now);
            let own = app::suppressed(a.emits, key, 1, now).1;
            &&& b.emits == app::suppressed(a.emits, key, 1, now).0
            &&& b.window == match a.window {
                Some(w) => Some(
                    if !own && now - w.last_key >= 2_000_000_000 {
                        Window {
                            engine: EngineView {
                                asked: w.engine.asked.push(Exchange::Reset),
                                ..w.engine
                            },
                            ..w
                        }
                    } else {
                        w
                    },
                ),
                None => None,
            }
            &&& b.last_action == a.last_action && b.modifiers == a.modifiers && b.serial
                == a.serial
        }),
{
}

/// What a press leaves behind. A key that types, or passes, counts as typing; the keys of
/// an edit of our own are expected back; a press that ends the word resets the window and
/// goes to the client.
pub proof fn law_presses_are_remembered(
    channels: Channels,
    a: App,
    after: App,
    to: Press,
    time: u32,
    key: u32,
    now: u64,
    calls: Seq<SinkCall>,
    own: Option<window::OwnEdit>,
)
    requires
        app::press_done(channels, a, after, to, time, key, now, calls, own),
    ensures
        to == Press::Own ==> after == a && calls.len() == 0,
        to == Press::Plain || to == Press::Backspace || to is Character ==> after.last_action
            == Some(now),
        to == Press::EndsWord ==> after.last_action == a.last_action && (a.window is Some
            ==> after.window == Some(window::window_reset(a.window->0))),
        to == Press::Plain || to == Press::EndsWord ==> calls == seq![
            SinkCall::VkKey { time, key_code: key, state: KeyState::Pressed },
        ],
        own is None ==> after.emits == a.emits,
        own matches Some(e) ==> after.emits.len() == a.emits.len() + e.events.len(),
        to == Press::Backspace || to is Character ==> after.window is Some
            && after.window->0.last_key == now,
        after.modifiers == a.modifiers && after.raw_mods == a.raw_mods && after.serial == a.serial
            && after.frame == a.frame,
{
    reveal(app::press_done);
    reveal(window::char_handled);
    reveal(window::char_done);
    reveal(window::backspace_handled);
    reveal(window::backspace_done);
}

} // verus!
