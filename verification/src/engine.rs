//! The syllable engine behind one text input.
//!
//! Composition itself is done by a [`SyllableEngine`]. [`EngineState`] owns one,
//! keeps the configuration that it was made with, and decides when it may be
//! seeded from text that is already on screen.
use vstd::prelude::*;

use crate::keystrokes;
use crate::words;

verus! {

/// Vietnamese input method.
#[derive(Debug, Clone, Copy, PartialEq, Eq, Structural)]
pub enum InputMethod {
    Telex,
    Vni,
    Viqr,
}

/// Result of processing one key: delete `backspaces` characters before the
/// cursor, then insert `commit`. When `consumed` is false the key goes to the
/// application as it is.
#[derive(Debug, Clone, PartialEq, Eq)]
pub struct ProcessResult {
    pub backspaces: usize,
    pub commit: String,
    pub consumed: bool,
}

/// [`ProcessResult`] with its text as characters.
pub struct Reply {
    pub backspaces: usize,
    pub commit: Seq<char>,
    pub consumed: bool,
}

impl View for ProcessResult {
    type V = Reply;

    open spec fn view(&self) -> Reply {
        Reply { backspaces: self.backspaces, commit: self.commit@, consumed: self.consumed }
    }
}

/// One request to the engine, with its answer.
pub enum Exchange {
    Reset,
    Key { ch: char, reply: Reply },
    Backspace { reply: Reply },
    Seed { keys: Seq<char>, fed: bool },
    Style { modern: bool },
}

/// What is known of an engine that was made in one way: how it answers a key or a
/// Backspace, whether it takes a seed, and whether it is at the beginning of a word,
/// after given requests; and how it places tones until it is told otherwise.
pub struct Nature {
    pub answer: spec_fn(Seq<Exchange>, char) -> Reply,
    pub erasure: spec_fn(Seq<Exchange>) -> Reply,
    pub takes: spec_fn(Seq<Exchange>, Seq<char>) -> bool,
    pub begins: spec_fn(Seq<Exchange>) -> bool,
    pub modern: bool,
}

/// The natures of the engines of one kind: for each input method, with and without
/// brackets that type only themselves.
pub type Kind = spec_fn(InputMethod, bool) -> Nature;

/// How tones are placed after given requests, when they are placed `first` at first.
pub open spec fn style_after(first: bool, log: Seq<Exchange>) -> bool
    decreases log.len(),
{
    if log.len() == 0 {
        first
    } else {
        match log.last() {
            Exchange::Style { modern } => modern,
            _ => style_after(first, log.drop_last()),
        }
    }
}

/// A Vietnamese syllable composer: a state machine that answers by what it was asked
/// before.
pub trait SyllableEngine: Sized {
    /// What engines of this kind answer.
    open spec fn nature(method: InputMethod, plain_brackets: bool) -> Nature {
        arbitrary()
    }

    /// Everything that it was asked since it was made.
    open spec fn log(&self) -> Seq<Exchange> {
        Seq::empty()
    }

    /// The input method that it was made for, and whether brackets type only
    /// themselves.
    open spec fn made(&self) -> (InputMethod, bool) {
        arbitrary()
    }

    /// An engine with no pending composition. With `plain_brackets`, brackets type
    /// only themselves.
    fn fresh(method: InputMethod, plain_brackets: bool) -> (e: Self)
        ensures
            e.log() == Seq::<Exchange>::empty(),
            e.made() == (method, plain_brackets),
    ;

    fn process(&mut self, key: char) -> (r: ProcessResult)
        ensures
            final(self).made() == old(self).made(),
            final(self).log() == old(self).log().push(Exchange::Key { ch: key, reply: r@ }),
            r@ == (Self::nature(old(self).made().0, old(self).made().1).answer)(
                old(self).log(),
                key,
            ),
    ;

    fn process_backspace(&mut self) -> (r: ProcessResult)
        ensures
            final(self).made() == old(self).made(),
            final(self).log() == old(self).log().push(Exchange::Backspace { reply: r@ }),
            r@ == (Self::nature(old(self).made().0, old(self).made().1).erasure)(old(self).log()),
    ;

    fn reset(&mut self)
        ensures
            final(self).made() == old(self).made(),
            final(self).log() == old(self).log().push(Exchange::Reset),
    ;

    /// Load `keys` as if they had been typed; whether that was possible.
    fn feed_context(&mut self, keys: &str) -> (fed: bool)
        ensures
            final(self).made() == old(self).made(),
            final(self).log() == old(self).log().push(Exchange::Seed { keys: keys@, fed }),
            fed == (Self::nature(old(self).made().0, old(self).made().1).takes)(
                old(self).log(),
                keys@,
            ),
    ;

    /// Whether the next key starts a fresh word.
    fn at_word_beginning(&self) -> (b: bool)
        ensures
            b == (Self::nature(self.made().0, self.made().1).begins)(self.log()),
    ;

    fn modern_style(&self) -> (b: bool)
        ensures
            b == style_after(Self::nature(self.made().0, self.made().1).modern, self.log()),
    ;

    fn set_modern_style(&mut self, enabled: bool)
        ensures
            final(self).made() == old(self).made(),
            final(self).log() == old(self).log().push(Exchange::Style { modern: enabled }),
    ;
}

/// The kind of an engine type.
pub open spec fn kind_of<E: SyllableEngine>() -> Kind {
    |method: InputMethod, plain_brackets: bool| E::nature(method, plain_brackets)
}

/// Engine state of one text input.
pub struct EngineState<E: SyllableEngine> {
    pub engine: E,
    pub method: InputMethod,
    pub bracket_shortcuts: bool,
}

/// [`EngineState`] as values: its configuration, and what its engine was made for and
/// asked.
pub struct EngineView {
    pub kind: Kind,
    pub made: (InputMethod, bool),
    pub asked: Seq<Exchange>,
    pub method: InputMethod,
    pub bracket_shortcuts: bool,
}

impl<E: SyllableEngine> View for EngineState<E> {
    type V = EngineView;

    open spec fn view(&self) -> EngineView {
        EngineView {
            kind: kind_of::<E>(),
            made: self.engine.made(),
            asked: self.engine.log(),
            method: self.method,
            bracket_shortcuts: self.bracket_shortcuts,
        }
    }
}

/// What the engine answers.
pub open spec fn nature(e: EngineView) -> Nature {
    (e.kind)(e.made.0, e.made.1)
}

/// The engine's answer to a key.
pub open spec fn answer(e: EngineView, ch: char) -> Reply {
    (nature(e).answer)(e.asked, ch)
}

/// The engine's answer to a Backspace.
pub open spec fn erasure(e: EngineView) -> Reply {
    (nature(e).erasure)(e.asked)
}

/// Whether the engine takes the keys of `text` as a seed.
pub open spec fn takes(e: EngineView, text: Seq<char>) -> bool {
    (nature(e).takes)(e.asked, keystrokes::keys_of_text(text, e.method))
}

/// The engine once it was fed the keys of `text`.
pub open spec fn fed_with(e: EngineView, text: Seq<char>) -> EngineView {
    asked(
        e,
        Exchange::Seed { keys: keystrokes::keys_of_text(text, e.method), fed: takes(e, text) },
    )
}

/// Whether the next key starts a fresh word.
pub open spec fn begins(e: EngineView) -> bool {
    (nature(e).begins)(e.asked)
}

/// Whether tones are placed the modern way.
pub open spec fn style(e: EngineView) -> bool {
    style_after(nature(e).modern, e.asked)
}

/// The engine after one more request.
pub open spec fn asked(e: EngineView, x: Exchange) -> EngineView {
    EngineView { asked: e.asked.push(x), ..e }
}

/// Brackets type only themselves, and not Vietnamese letters.
pub open spec fn brackets_plain(method: InputMethod, bracket_shortcuts: bool) -> bool {
    method == InputMethod::Telex && !bracket_shortcuts
}

/// An engine that was not asked anything yet.
pub open spec fn unasked(kind: Kind, method: InputMethod, bracket_shortcuts: bool) -> EngineView {
    EngineView {
        kind,
        made: (method, brackets_plain(method, bracket_shortcuts)),
        asked: Seq::empty(),
        method,
        bracket_shortcuts,
    }
}

/// What is on screen after `key` was answered with `r`.
pub open spec fn shown(screen: Seq<char>, key: char, r: Reply) -> Seq<char> {
    if r.consumed {
        words::chars_dropped(screen, r.backspaces as nat) + r.commit
    } else {
        screen.push(key)
    }
}

/// What an engine was asked once `keys` were typed on it.
pub open spec fn typed(n: Nature, keys: Seq<char>) -> Seq<Exchange>
    decreases keys.len(),
{
    if keys.len() == 0 {
        Seq::empty()
    } else {
        let before = typed(n, keys.drop_last());
        before.push(Exchange::Key { ch: keys.last(), reply: (n.answer)(before, keys.last()) })
    }
}

/// What typing `keys` on an empty screen shows.
pub open spec fn screen(n: Nature, keys: Seq<char>) -> Seq<char>
    decreases keys.len(),
{
    if keys.len() == 0 {
        Seq::empty()
    } else {
        shown(
            screen(n, keys.drop_last()),
            keys.last(),
            (n.answer)(typed(n, keys.drop_last()), keys.last()),
        )
    }
}

/// What typing `keys` from a clean state shows, with the same configuration.
pub open spec fn rendering(e: EngineView, keys: Seq<char>) -> Seq<char> {
    screen(nature(unasked(e.kind, e.method, e.bracket_shortcuts)), keys)
}

/// Put the answer to `key` on the screen.
pub fn show_reply(screen: &mut String, key: char, r: &ProcessResult)
    ensures
        final(screen)@ == shown(old(screen)@, key, r@),
{
    if r.consumed {
        let kept = words::prefix_after_char_delete(screen.as_str(), r.backspaces);
        *screen = kept;
        screen.push_str(r.commit.as_str());
    } else {
        screen.push(key);
    }
}

impl<E: SyllableEngine> EngineState<E> {
    pub fn new(method: InputMethod) -> (s: Self)
        ensures
            s@ == unasked(kind_of::<E>(), method, false),
    {
        Self::new_with_options(method, false)
    }

    pub fn new_with_options(method: InputMethod, bracket_shortcuts: bool) -> (s: Self)
        ensures
            s@ == unasked(kind_of::<E>(), method, bracket_shortcuts),
    {
        let plain_brackets = method == InputMethod::Telex && !bracket_shortcuts;
        Self { engine: E::fresh(method, plain_brackets), method, bracket_shortcuts }
    }

    /// What typing `raw` from a clean state shows, on a throwaway engine with
    /// this configuration.
    pub fn render(&self, raw: &str) -> (shows: String)
        ensures
            shows@ == rendering(self@, raw@),
    {
        let mut scratch: EngineState<E> = Self::new_with_options(
            self.method,
            self.bracket_shortcuts,
        );
        let mut shows = String::new();
        let ghost clean = scratch@;
        let ghost n = nature(clean);
        let ghost mut i: int = 0;
        for ch in it: raw.chars()
            invariant
                it.seq() == raw@,
                i == it.index(),
                n == nature(clean),
                scratch@ == (EngineView { asked: typed(n, raw@.take(i)), ..clean }),
                shows@ == screen(n, raw@.take(i)),
        {
            let r = scratch.process_key(ch);
            show_reply(&mut shows, ch, &r);
            proof {
                assert(raw@.take(i + 1).drop_last() =~= raw@.take(i));
                i = i + 1;
            }
        }
        assert(raw@.take(i) =~= raw@);
        shows
    }

    /// Feed one character.
    pub fn process_key(&mut self, ch: char) -> (r: ProcessResult)
        ensures
            r@ == answer(old(self)@, ch),
            final(self)@ == asked(old(self)@, Exchange::Key { ch, reply: r@ }),
    {
        self.engine.process(ch)
    }

    /// Feed a Backspace. The answer says what to do besides, or instead of,
    /// forwarding it.
    pub fn process_backspace(&mut self) -> (r: ProcessResult)
        ensures
            r@ == erasure(old(self)@),
            final(self)@ == asked(old(self)@, Exchange::Backspace { reply: r@ }),
    {
        self.engine.process_backspace()
    }

    /// Drop the pending composition.
    pub fn reset(&mut self)
        ensures
            final(self)@ == asked(old(self)@, Exchange::Reset),
    {
        self.engine.reset();
    }

    /// Seed from keystrokes or composed text alike.
    pub fn feed_context(&mut self, text: &str) -> (fed: bool)
        ensures
            fed == takes(old(self)@, text@),
            final(self)@ == fed_with(old(self)@, text@),
    {
        let (context, _widths) = keystrokes::context_from_surrounding(text, self.method);
        self.engine.feed_context(context.as_str())
    }

    /// Seed from composed text, behind a render gate: the keys that the text
    /// turns back into must show that text again when typed. Where they do not,
    /// the engine is left untouched and nothing was fed.
    pub fn feed_context_gated(&mut self, text: &str) -> (fed: bool)
        ensures
            fed == seeds(old(self)@, text@),
            final(self)@ == offered(old(self)@, text@),
            !renders(old(self)@, text@) ==> *final(self) == *old(self),
    {
        let (context, _widths) = keystrokes::context_from_surrounding(text, self.method);
        let shows = self.render(context.as_str());
        if *shows.as_str() != *text {
            return false;
        }
        self.engine.feed_context(context.as_str())
    }

    /// Whether the next key starts a fresh word.
    pub fn at_word_beginning(&self) -> (b: bool)
        ensures
            b == begins(self@),
    {
        self.engine.at_word_beginning()
    }

    pub fn modern_style(&self) -> (b: bool)
        ensures
            b == style(self@),
    {
        self.engine.modern_style()
    }

    /// Place tones the modern way (`oà`) or the legacy way (`òa`).
    pub fn set_modern_style(&mut self, enabled: bool)
        ensures
            final(self)@ == asked(old(self)@, Exchange::Style { modern: enabled }),
            style(final(self)@) == enabled,
    {
        self.engine.set_modern_style(enabled);
    }
}

/// The keys that `text` turns back into show it again when typed.
pub open spec fn renders(e: EngineView, text: Seq<char>) -> bool {
    rendering(e, keystrokes::keys_of_text(text, e.method)) == text
}

/// The engine once it was offered the composed `text` as a seed, behind the render gate:
/// it was fed the keys of the text where those show the text again, and otherwise asked
/// nothing.
pub open spec fn offered(e: EngineView, text: Seq<char>) -> EngineView {
    if renders(e, text) {
        fed_with(e, text)
    } else {
        e
    }
}

/// Whether the engine takes the composed `text`, which is offered behind the render
/// gate.
pub open spec fn seeds(e: EngineView, text: Seq<char>) -> bool {
    renders(e, text) && takes(e, text)
}

/// A seed goes in only where its keys render back to the text; any other seed leaves
/// the engine untouched.
pub proof fn law_seed_gate(e: EngineView, text: Seq<char>)
    ensures
        seeds(e, text) ==> rendering(e, keystrokes::keys_of_text(text, e.method)) == text
            && offered(e, text) == asked(
            e,
            Exchange::Seed { keys: keystrokes::keys_of_text(text, e.method), fed: true },
        ),
        rendering(e, keystrokes::keys_of_text(text, e.method)) != text ==> !seeds(e, text)
            && offered(e, text) == e,
{
}

/// Tones are placed as the engine was told last, whatever it was asked since.
pub proof fn law_style_stays(e: EngineView, modern: bool, x: Exchange)
    ensures
        style(asked(e, Exchange::Style { modern })) == modern,
        x !is Style ==> style(asked(e, x)) == style(e),
{
    assert(e.asked.push(Exchange::Style { modern }).last() == (Exchange::Style { modern }));
    assert(e.asked.push(x).drop_last() =~= e.asked);
}

/// An engine that is made with one configuration and asked anything keeps rendering
/// by that configuration.
pub proof fn law_requests_keep_rendering(e: EngineView, x: Exchange, keys: Seq<char>)
    ensures
        rendering(asked(e, x), keys) == rendering(e, keys),
        nature(asked(e, x)) == nature(e),
{
}

/// A reply that leaves the key to the application.
pub open spec fn untaken() -> Reply {
    Reply { backspaces: 0, commit: Seq::empty(), consumed: false }
}

/// The engine that composes nothing: every key goes to the application as it is.
pub struct Verbatim {
    method: InputMethod,
    plain_brackets: bool,
    modern: bool,
    asked: Ghost<Seq<Exchange>>,
}

impl Verbatim {
    #[verifier::type_invariant]
    spec fn keeps_style(self) -> bool {
        self.modern == style_after(true, self.asked@)
    }

    /// The same engine, once it was asked `x`.
    fn noting(&self, x: Ghost<Exchange>, modern: bool) -> (e: Verbatim)
        requires
            modern == style_after(true, self.log().push(x@)),
        ensures
            e.made() == self.made(),
            e.log() == self.log().push(x@),
    {
        Verbatim {
            method: self.method,
            plain_brackets: self.plain_brackets,
            modern,
            asked: Ghost(self.asked@.push(x@)),
        }
    }

    /// Note a request that does not bear on the tones.
    fn note(&mut self, x: Ghost<Exchange>)
        requires
            x@ !is Style,
        ensures
            final(self).made() == old(self).made(),
            final(self).log() == old(self).log().push(x@),
    {
        proof {
            use_type_invariant(&*self);
            assert(self.log().push(x@).drop_last() =~= self.log());
        }
        *self = self.noting(x, self.modern);
    }
}

fn left_alone() -> (r: ProcessResult)
    ensures
        r@ == untaken(),
{
    ProcessResult { backspaces: 0, commit: String::new(), consumed: false }
}

impl SyllableEngine for Verbatim {
    open spec fn nature(method: InputMethod, plain_brackets: bool) -> Nature {
        Nature {
            answer: |log: Seq<Exchange>, key: char| untaken(),
            erasure: |log: Seq<Exchange>| untaken(),
            takes: |log: Seq<Exchange>, keys: Seq<char>| false,
            begins: |log: Seq<Exchange>| true,
            modern: true,
        }
    }

    closed spec fn log(&self) -> Seq<Exchange> {
        self.asked@
    }

    closed spec fn made(&self) -> (InputMethod, bool) {
        (self.method, self.plain_brackets)
    }

    fn fresh(method: InputMethod, plain_brackets: bool) -> (e: Self) {
        Verbatim { method, plain_brackets, modern: true, asked: Ghost(Seq::empty()) }
    }

    fn process(&mut self, key: char) -> (r: ProcessResult) {
        let r = left_alone();
        self.note(Ghost(Exchange::Key { ch: key, reply: r@ }));
        r
    }

    fn process_backspace(&mut self) -> (r: ProcessResult) {
        let r = left_alone();
        self.note(Ghost(Exchange::Backspace { reply: r@ }));
        r
    }

    fn reset(&mut self) {
        self.note(Ghost(Exchange::Reset));
    }

    fn feed_context(&mut self, keys: &str) -> (fed: bool) {
        self.note(Ghost(Exchange::Seed { keys: keys@, fed: false }));
        false
    }

    fn at_word_beginning(&self) -> (b: bool) {
        true
    }

    fn modern_style(&self) -> (b: bool) {
        proof {
            use_type_invariant(self);
        }
        self.modern
    }

    fn set_modern_style(&mut self, enabled: bool) {
        *self = self.noting(Ghost(Exchange::Style { modern: enabled }), enabled);
    }
}

/// What keys show from a clean state is what an engine of the same configuration makes of
/// them, one after the other, on an empty screen: it is asked about each key, and each
/// answer replaces the end of the screen, or leaves the key to it.
pub proof fn law_rendering_is_typing(e: EngineView, keys: Seq<char>, k: char)
    ensures
        ({
            let n = (e.kind)(e.method, e.method == InputMethod::Telex && !e.bracket_shortcuts);
            let t = rendering(e, keys);
            let r = (n.answer)(typed(n, keys), k);
            &&& rendering(e, Seq::empty()).len() == 0
            &&& typed(n, Seq::empty()).len() == 0
            &&& typed(n, keys.push(k)) == typed(n, keys).push(Exchange::Key { ch: k, reply: r })
            &&& rendering(e, keys.push(k)) == if !r.consumed {
                t.push(k)
            } else if r.backspaces <= t.len() {
                t.take(t.len() - r.backspaces) + r.commit
            } else {
                Seq::empty() + r.commit
            }
        }),
{
    let n = (e.kind)(e.method, e.method == InputMethod::Telex && !e.bracket_shortcuts);
    let t = rendering(e, keys);
    assert(keys.push(k).drop_last() =~= keys);
    assert(t.take(0) =~= Seq::<char>::empty());
}

} // verus!
