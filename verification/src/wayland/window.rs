//! Composition state of one text input, without confirmation by frames.
use vstd::prelude::*;
use vstd::string::*;

use crate::edit;
use crate::edit::modifiers::ModifierState;
use crate::edit::shadow;
use crate::edit::uinput_backspace;
use crate::edit::uinput_backspace::{backspace_plan, KeyEvent};
use crate::edit::{BackspaceMethod, Channels, DeleteUnit, KeyState, OutputSink, SinkCall, Strategy};
use crate::engine;
use crate::engine::{EngineState, InputMethod, ProcessResult, SyllableEngine};
use crate::wayland::frame::Around;
use crate::words;
use crate::words::Boundary;

verus! {

/// How long, in nanoseconds, a pause has to be for the engine to start over.
pub const IDLE: u64 = 2_000_000_000;

/// State of one text input.
pub struct WindowState<E: SyllableEngine> {
    pub engine: EngineState<E>,
    pub strategy: Strategy,
    pub method: BackspaceMethod,
    /// Deletes go through our own input device, and not by the method.
    pub uinput: bool,
    /// When the last key came, in nanoseconds since some fixed time.
    pub last_keystroke_at: u64,
    pub last_input_char: Option<char>,
    /// The last text that the client reported.
    pub prev_text: String,
    pub prev_cursor: u32,
    /// The text and the cursor that an edit is expected to lead to.
    pub pending_apply_target: Option<(String, u32)>,
    /// The keys of the word in progress.
    pub raw_word: String,
    /// Deletions are measured in characters.
    pub chars_for_delete: bool,
}

/// [`WindowState`] as values.
pub struct Window {
    pub engine: engine::EngineView,
    pub strategy: edit::StrategyView,
    pub method: BackspaceMethod,
    pub uinput: bool,
    pub last_key: u64,
    pub last_input_char: Option<char>,
    pub prev_text: Seq<char>,
    pub prev_cursor: u32,
    pub target: Option<(Seq<char>, u32)>,
    pub raw_word: Seq<char>,
    pub chars_for_delete: bool,
}

/// An expected text as characters.
pub open spec fn target_view(t: Option<(String, u32)>) -> Option<(Seq<char>, u32)> {
    match t {
        Some((s, n)) => Some((s@, n)),
        None => None,
    }
}

impl<E: SyllableEngine> View for WindowState<E> {
    type V = Window;

    open spec fn view(&self) -> Window {
        Window {
            engine: self.engine@,
            strategy: self.strategy@,
            method: self.method,
            uinput: self.uinput,
            last_key: self.last_keystroke_at,
            last_input_char: self.last_input_char,
            prev_text: self.prev_text@,
            prev_cursor: self.prev_cursor,
            target: target_view(self.pending_apply_target),
            raw_word: self.raw_word@,
            chars_for_delete: self.chars_for_delete,
        }
    }
}

/// A new text input.
pub open spec fn new_window(
    kind: engine::Kind,
    method: InputMethod,
    tier: BackspaceMethod,
    now: u64,
) -> Window {
    Window {
        engine: engine::unasked(kind, method, false),
        strategy: edit::StrategyView {
            method: tier,
            shadow: shadow::empty_shadow(),
            modifiers: ModifierState { bits: 0 },
        },
        method: tier,
        uinput: false,
        last_key: now,
        last_input_char: None,
        prev_text: Seq::empty(),
        prev_cursor: 0,
        target: None,
        raw_word: Seq::empty(),
        chars_for_delete: false,
    }
}

/// Everything that tracks a word in progress is dropped.
pub open spec fn window_reset(w: Window) -> Window {
    Window {
        engine: engine::asked(w.engine, engine::Exchange::Reset),
        strategy: edit::StrategyView { shadow: shadow::empty_shadow(), ..w.strategy },
        last_input_char: None,
        prev_text: Seq::empty(),
        prev_cursor: 0,
        target: None,
        raw_word: Seq::empty(),
        ..w
    }
}

/// A pause came before `now`.
pub open spec fn paused(w: Window, now: u64) -> bool {
    now - w.last_key >= IDLE
}

/// The engine starts over after a pause; the shadow stays.
pub open spec fn idled(w: Window, now: u64) -> Window {
    if paused(w, now) {
        Window { engine: engine::asked(w.engine, engine::Exchange::Reset), ..w }
    } else {
        w
    }
}

/// A word that may seed the engine: one of lower-case ASCII letters. A word with a
/// capital or a digit is no Vietnamese word in progress, and would spoil the next
/// one.
pub open spec fn seedable(word: Seq<char>) -> bool {
    word.len() > 0 && forall|i: int| 0 <= i < word.len() ==> 'a' <= #[trigger] word[i] <= 'z'
}

/// Whether a word may seed the engine.
pub fn is_seedable(word: &str) -> (b: bool)
    ensures
        b == seedable(word@),
{
    let n: usize = word.unicode_len();
    for i in 0..n
        invariant
            n == word@.len(),
            forall|j: int| 0 <= j < i ==> 'a' <= #[trigger] word@[j] <= 'z',
    {
        let c = word.get_char(i);
        if !('a' <= c && c <= 'z') {
            assert(!('a' <= word@[i as int] <= 'z'));
            return false;
        }
    }
    n > 0
}

/// The engine once `word` was offered to it as a seed.
pub open spec fn seeded(e: engine::EngineView, word: Seq<char>) -> engine::EngineView {
    if seedable(word) {
        engine::fed_with(e, word)
    } else {
        e
    }
}

/// The word that ends at a byte cursor; only white space ends a word.
pub open spec fn word_at(s: Seq<char>, cursor: nat) -> Seq<char> {
    words::trailing_word(words::before_cursor(s, cursor), Boundary::Spaced)
}

/// The word that ends at a byte cursor.
pub fn current_word_before_cursor(text: &str, cursor: u32) -> (r: &str)
    ensures
        r@ == word_at(text@, cursor as nat),
{
    words::word_at_end(words::text_before_cursor(text, cursor), Boundary::Spaced)
}

/// The window once its client reported its text, and the engine was seeded from it
/// or left alone.
#[verifier::opaque]
pub open spec fn reported(w: Window, t: Around, reseed: bool) -> Window {
    Window {
        strategy: edit::StrategyView {
            shadow: shadow::synced(t.text, t.cursor, t.anchor),
            ..w.strategy
        },
        engine: if reseed {
            seeded(
                engine::asked(w.engine, engine::Exchange::Reset),
                word_at(t.text, t.cursor as nat),
            )
        } else {
            w.engine
        },
        ..w
    }
}

/// The word in front of the cursor, according to the shadow.
pub open spec fn shadow_word(w: Window) -> Seq<char> {
    words::trailing_word(w.strategy.shadow.text, Boundary::Spaced)
}

/// The engine once it was asked about a character.
pub open spec fn char_asked(w: Window, ch: char) -> engine::EngineView {
    engine::asked(char_ready(w), engine::Exchange::Key { ch, reply: char_reply(w, ch) })
}

/// The engine before it is asked about a character. At a word's beginning it is
/// first offered the word in front of the cursor.
pub open spec fn char_ready(w: Window) -> engine::EngineView {
    if engine::begins(w.engine) {
        seeded(w.engine, shadow_word(w))
    } else {
        w.engine
    }
}

/// The engine's answer to a character.
pub open spec fn char_reply(w: Window, ch: char) -> engine::Reply {
    engine::answer(char_ready(w), ch)
}

/// The shadow once an answer was made an edit.
pub open spec fn edited_shadow(w: Window, r: engine::Reply) -> shadow::Shadow {
    if w.uinput {
        edit::forward_key::shadow_after(w.strategy.shadow, r.backspaces, r.commit)
    } else {
        edit::tier_shadow(w.strategy.method, w.strategy.shadow, r.backspaces, r.commit)
    }
}

/// An edit through our own input device. Where the grab has to be let go of, that
/// comes first, and it is taken again at the end; in between the key events are sent,
/// and then the text is committed.
#[derive(Debug)]
pub struct UinputEdit {
    pub release_grab: bool,
    pub events: Vec<KeyEvent>,
    pub commit: String,
}

/// [`UinputEdit`] as values.
pub struct OwnEdit {
    pub release_grab: bool,
    pub events: Seq<KeyEvent>,
    pub commit: Seq<char>,
}

/// An edit through our own input device as values, if there is one.
pub open spec fn own_view(e: Option<UinputEdit>) -> Option<OwnEdit> {
    match e {
        Some(e) => Some(
            OwnEdit { release_grab: e.release_grab, events: e.events@, commit: e.commit@ },
        ),
        None => None,
    }
}

/// The edit that an answer makes through our own input device, if the window's edits
/// go there. Modifiers that are held go up for it.
pub open spec fn own_edit(w: Window, r: engine::Reply, release_grab: bool) -> Option<OwnEdit> {
    if r.consumed && w.uinput {
        Some(
            OwnEdit {
                release_grab,
                events: uinput_backspace::planned(r.backspaces as nat, w.strategy.modifiers),
                commit: r.commit,
            },
        )
    } else {
        None
    }
}

/// The window once a character was answered.
#[verifier::opaque]
pub open spec fn char_done(w: Window, ch: char, now: u64) -> Window {
    let r = char_reply(w, ch);
    Window {
        engine: char_asked(w, ch),
        strategy: edit::StrategyView {
            shadow: if r.consumed {
                edited_shadow(w, r)
            } else {
                shadow::Shadow {
                    text: w.strategy.shadow.text.push(ch),
                    ..w.strategy.shadow
                }
            },
            ..w.strategy
        },
        last_key: now,
        ..w
    }
}

/// The window once a Backspace was answered.
#[verifier::opaque]
pub open spec fn backspace_done(w: Window, now: u64) -> Window {
    let r = engine::erasure(w.engine);
    Window {
        engine: engine::asked(w.engine, engine::Exchange::Backspace { reply: r }),
        strategy: edit::StrategyView {
            shadow: if r.consumed {
                edited_shadow(w, r)
            } else {
                shadow::Shadow {
                    text: words::chars_dropped(w.strategy.shadow.text, 1),
                    ..w.strategy.shadow
                }
            },
            ..w.strategy
        },
        last_key: now,
        ..w
    }
}

/// A key goes to the client.
pub open spec fn key_press(time: u32, key: u32) -> SinkCall {
    SinkCall::VkKey { time, key_code: key, state: KeyState::Pressed }
}

/// What an answer emits, into a sink that types `to`: the edit, or else the key itself.
/// An edit through our own input device is none of the sink's.
#[verifier::opaque]
pub open spec fn answer_calls(
    to: Channels,
    w: Window,
    key: u32,
    serial: u32,
    time: u32,
    r: engine::Reply,
) -> Seq<SinkCall> {
    if r.consumed && w.uinput {
        Seq::empty()
    } else if r.consumed {
        edit::tier_calls(
            to,
            w.strategy.method,
            w.strategy.shadow,
            r.backspaces,
            r.commit,
            serial,
            time,
            DeleteUnit::Bytes,
        )
    } else {
        seq![key_press(time, key)]
    }
}

/// `(after, calls, own)` is what a character leads to. The grab would bring the keys of
/// our own device back, so it is let go of.
#[verifier::opaque]
pub open spec fn char_handled(
    to: Channels,
    w: Window,
    after: Window,
    key: u32,
    ch: char,
    serial: u32,
    time: u32,
    now: u64,
    calls: Seq<SinkCall>,
    own: Option<OwnEdit>,
) -> bool {
    &&& after == char_done(w, ch, now)
    &&& own == own_edit(w, char_reply(w, ch), true)
    &&& calls == answer_calls(to, w, key, serial, time, char_reply(w, ch))
}

/// `(after, calls, own)` is what a Backspace leads to.
#[verifier::opaque]
pub open spec fn backspace_handled(
    to: Channels,
    w: Window,
    after: Window,
    serial: u32,
    time: u32,
    now: u64,
    calls: Seq<SinkCall>,
    own: Option<OwnEdit>,
) -> bool {
    &&& after == backspace_done(w, now)
    &&& own == own_edit(w, engine::erasure(w.engine), false)
    &&& calls == answer_calls(
        to,
        w,
        edit::KEY_BACKSPACE,
        serial,
        time,
        engine::erasure(w.engine),
    )
}

impl<E: SyllableEngine> WindowState<E> {
    pub fn new(input_method: InputMethod, backspace_method: BackspaceMethod, now: u64) -> (w: Self)
        ensures
            w@ == new_window(engine::kind_of::<E>(), input_method, backspace_method, now),
    {
        let w = WindowState {
            engine: EngineState::new(input_method),
            strategy: Strategy::new(backspace_method),
            method: backspace_method,
            uinput: false,
            last_keystroke_at: now,
            last_input_char: None,
            prev_text: String::new(),
            prev_cursor: 0,
            pending_apply_target: None,
            raw_word: String::new(),
            chars_for_delete: false,
        };
        assert(w.prev_text@ =~= Seq::<char>::empty());
        assert(w.raw_word@ =~= Seq::<char>::empty());
        w
    }

    /// Drop everything that tracks a word in progress.
    pub fn full_reset(&mut self)
        ensures
            final(self)@ == window_reset(old(self)@),
    {
        self.engine.reset();
        self.strategy.reset_shadow();
        self.last_input_char = None;
        self.raw_word = String::new();
        self.prev_text = String::new();
        self.prev_cursor = 0;
        self.pending_apply_target = None;
        assert(self.prev_text@ =~= Seq::<char>::empty());
        assert(self.raw_word@ =~= Seq::<char>::empty());
    }

    /// Let the engine start over after a pause. The shadow stays, so that the word
    /// in front of the cursor can still seed it.
    pub fn check_idle_reset(&mut self, now: u64) -> (idle: bool)
        ensures
            idle == paused(old(self)@, now),
            final(self)@ == idled(old(self)@, now),
    {
        if now >= self.last_keystroke_at && now - self.last_keystroke_at >= IDLE {
            self.engine.reset();
            return true;
        }
        false
    }

    fn seed(&mut self, word: &str)
        ensures
            final(self)@ == (Window {
                engine: seeded(old(self)@.engine, word@),
                ..old(self)@
            }),
    {
        if is_seedable(word) {
            let _ = self.engine.feed_context(word);
        }
    }

    /// The client reported its text.
    pub fn report(&mut self, text: &str, cursor: u32, anchor: u32, reseed: bool)
        ensures
            final(self)@ == reported(
                old(self)@,
                (Around { text: text@, cursor, anchor }),
                reseed,
            ),
    {
        reveal(reported);
        self.strategy.on_surrounding_text(text, cursor, anchor);
        if reseed {
            let word = current_word_before_cursor(text, cursor);
            self.engine.reset();
            self.seed(word);
        }
    }

    /// Carry out the engine's answer: make the edit, or let the key through.
    fn carry_out<S: OutputSink>(
        &mut self,
        key: u32,
        serial: u32,
        time: u32,
        r: &ProcessResult,
        release_grab: bool,
        sink: &mut S,
    ) -> (own: Option<UinputEdit>)
        ensures
            own_view(own) == own_edit(old(self)@, r@, release_grab),
            final(self)@ == if r@.consumed {
                Window {
                    strategy: edit::StrategyView {
                        shadow: edited_shadow(old(self)@, r@),
                        ..old(self)@.strategy
                    },
                    ..old(self)@
                }
            } else {
                old(self)@
            },
            final(sink).channels() == old(sink).channels(),
            final(sink).log() == old(sink).log() + answer_calls(
                old(sink).channels(),
                old(self)@,
                key,
                serial,
                time,
                r@,
            ),
    {
        reveal(answer_calls);
        let ghost before = sink.log();
        if r.consumed && self.uinput {
            let held = self.strategy.modifiers;
            let events = backspace_plan(r.backspaces, held);
            let commit = r.commit.as_str().to_owned();
            let _ = self.strategy.shadow.pop_chars(r.backspaces);
            self.strategy.shadow.append(r.commit.as_str());
            self.strategy.shadow.pending_commit = true;
            assert(sink.log() =~= before + Seq::<SinkCall>::empty());
            return Some(UinputEdit { release_grab, events, commit });
        }
        if r.consumed {
            self.strategy.apply(
                r.backspaces,
                r.commit.as_str(),
                serial,
                time,
                sink,
                DeleteUnit::Bytes,
            );
        } else {
            sink.vk_key(time, key, KeyState::Pressed);
            assert(sink.log() =~= before + seq![key_press(time, key)]);
        }
        None
    }

    /// Handle a character.
    pub fn handle_char<S: OutputSink>(
        &mut self,
        key: u32,
        ch: char,
        serial: u32,
        time: u32,
        now: u64,
        sink: &mut S,
    ) -> (own: Option<UinputEdit>)
        ensures
            final(sink).channels() == old(sink).channels(),
            exists|calls: Seq<SinkCall>|
                final(sink).log() == old(sink).log() + calls && #[trigger] char_handled(
                    old(sink).channels(),
                    old(self)@,
                    final(self)@,
                    key,
                    ch,
                    serial,
                    time,
                    now,
                    calls,
                    own_view(own),
                ),
    {
        let ghost start = self@;
        let ghost log = sink.log();
        let ghost to = sink.channels();
        let beginning = self.engine.at_word_beginning();
        if beginning {
            let shadow_text = self.strategy.shadow.text().to_owned();
            let word = words::word_at_end(shadow_text.as_str(), Boundary::Spaced);
            self.seed(word);
        }
        let r = self.engine.process_key(ch);
        self.last_keystroke_at = now;
        if !r.consumed {
            self.strategy.shadow.text_mut().push(ch);
        }
        let ghost mid = self@;
        let own = self.carry_out(key, serial, time, &r, true, sink);
        proof {
            reveal(char_done);
            let calls = answer_calls(to, start, key, serial, time, r@);
            assert(calls == answer_calls(to, mid, key, serial, time, r@)) by {
                reveal(answer_calls);
            }
            assert(self@ == char_done(start, ch, now));
            reveal(char_handled);
            assert(char_handled(
                to,
                start,
                self@,
                key,
                ch,
                serial,
                time,
                now,
                calls,
                own_view(own),
            ));
        }
        own
    }

    /// Handle a Backspace.
    pub fn handle_backspace<S: OutputSink>(
        &mut self,
        serial: u32,
        time: u32,
        now: u64,
        sink: &mut S,
    ) -> (own: Option<UinputEdit>)
        ensures
            final(sink).channels() == old(sink).channels(),
            exists|calls: Seq<SinkCall>|
                final(sink).log() == old(sink).log() + calls && #[trigger] backspace_handled(
                    old(sink).channels(),
                    old(self)@,
                    final(self)@,
                    serial,
                    time,
                    now,
                    calls,
                    own_view(own),
                ),
    {
        let ghost start = self@;
        let ghost log = sink.log();
        let ghost to = sink.channels();
        let r = self.engine.process_backspace();
        if !r.consumed {
            let _ = self.strategy.shadow.text_mut().pop();
            assert(self@.strategy.shadow.text =~= words::chars_dropped(
                start.strategy.shadow.text,
                1,
            ));
        }
        let ghost mid = self@;
        let own = self.carry_out(edit::KEY_BACKSPACE, serial, time, &r, false, sink);
        self.last_keystroke_at = now;
        proof {
            reveal(backspace_done);
            let calls = answer_calls(to, start, edit::KEY_BACKSPACE, serial, time, r@);
            assert(calls == answer_calls(to, mid, edit::KEY_BACKSPACE, serial, time, r@)) by {
                reveal(answer_calls);
            }
            assert(self@ == backspace_done(start, now));
            reveal(backspace_handled);
            assert(backspace_handled(to, start, self@, serial, time, now, calls, own_view(own)));
        }
        own
    }
}

} // verus!
