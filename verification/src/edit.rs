//! Delivering an edit to the focused client.
//!
//! The engine asks for "delete N characters, then insert this text". A
//! [`Strategy`] turns that into calls on an [`OutputSink`], one way per
//! [`BackspaceMethod`].
use vstd::prelude::*;

use crate::edit::modifiers::ModifierState;
use crate::edit::shadow::ShadowBuffer;
use crate::words;

pub mod capability;
pub mod forward_key;
pub mod modifiers;
pub mod shadow;
pub mod surrounding;
pub mod uinput_backspace;
pub mod uinput_device;
pub mod vk_only;

verus! {

/// Linux evdev keycode of Backspace.
pub const KEY_BACKSPACE: u32 = 14;

/// Which edit mechanism a text-input object gets. One per text-input object,
/// not per window: a browser has separate objects for its address bar and page.
#[derive(Debug, Clone, Copy, PartialEq, Eq, Structural)]
pub enum BackspaceMethod {
    /// `delete_surrounding_text` and `commit_string`.
    SurroundingText,
    /// Synthetic Backspace keys and `commit_string`.
    ForwardKey,
    /// Everything as virtual-keyboard keys, for clients without text-input.
    VkOnly,
}

/// The unit of the primary length of a surrounding-text delete.
#[derive(Debug, Clone, Copy, PartialEq, Eq, Structural)]
pub enum DeleteUnit {
    Bytes,
    Chars,
}

#[derive(Debug, Clone, Copy, PartialEq, Eq, Structural)]
pub enum KeyState {
    Pressed,
    Released,
}

/// What to do with one key press.
#[derive(Debug)]
pub enum KeyDecision {
    /// Taken; nothing to emit.
    Consumed,
    /// Not taken: the adapter forwards the key as it is.
    ForwardRaw,
    /// Taken, with an edit to deliver.
    Apply { method: BackspaceMethod, backspaces: usize, commit: String },
}

/// [`KeyDecision`] with its text as characters.
pub enum Decision {
    Consumed,
    ForwardRaw,
    Apply { method: BackspaceMethod, backspaces: usize, commit: Seq<char> },
}

impl View for KeyDecision {
    type V = Decision;

    open spec fn view(&self) -> Decision {
        match *self {
            KeyDecision::Consumed => Decision::Consumed,
            KeyDecision::ForwardRaw => Decision::ForwardRaw,
            KeyDecision::Apply { method, backspaces, commit } => Decision::Apply {
                method,
                backspaces,
                commit: commit@,
            },
        }
    }
}

/// One operation that a sink has carried out.
pub enum SinkCall {
    DeleteSurroundingText {
        before_bytes: u32,
        before_chars: u32,
        after_bytes: u32,
        after_chars: u32,
    },
    CommitString(Seq<char>),
    Commit(u32),
    VkKey { time: u32, key_code: u32, state: KeyState },
    VkModifiers { depressed: u32, latched: u32, locked: u32, group: u32 },
    VkCommitChar { time: u32, c: char },
    CommitViaKeysym { serial: u32, time: u32, text: Seq<char> },
}

/// What a sink has a way to type: characters as keys of a virtual keyboard, and whole
/// texts as keysyms.
pub struct Channels {
    pub keys: Set<char>,
    pub keysyms: Set<Seq<char>>,
}

/// Where edits go: each method is one transport-level operation. `log` is the
/// sequence of operations that the sink has carried out, and `channels` what it has
/// a way to type; that stays as it is.
pub trait OutputSink {
    open spec fn log(&self) -> Seq<SinkCall> {
        Seq::empty()
    }

    open spec fn channels(&self) -> Channels {
        Channels { keys: Set::empty(), keysyms: Set::empty() }
    }

    /// What the sink keeps true of itself, whatever it is asked to carry out.
    open spec fn sound(&self) -> bool {
        true
    }

    /// Delete text around the cursor. The byte counts are what the protocols
    /// specify; the character counts serve clients that measure in characters.
    fn delete_surrounding_text(
        &mut self,
        before_bytes: u32,
        before_chars: u32,
        after_bytes: u32,
        after_chars: u32,
    )
        ensures
            old(self).sound() ==> final(self).sound(),
            final(self).channels() == old(self).channels(),
            final(self).log() == old(self).log().push(
                SinkCall::DeleteSurroundingText {
                    before_bytes,
                    before_chars,
                    after_bytes,
                    after_chars,
                },
            ),
    ;

    fn commit_string(&mut self, text: &str)
        ensures
            old(self).sound() ==> final(self).sound(),
            final(self).channels() == old(self).channels(),
            final(self).log() == old(self).log().push(SinkCall::CommitString(text@)),
    ;

    fn commit(&mut self, serial: u32)
        ensures
            old(self).sound() ==> final(self).sound(),
            final(self).channels() == old(self).channels(),
            final(self).log() == old(self).log().push(SinkCall::Commit(serial)),
    ;

    fn vk_key(&mut self, time: u32, key_code: u32, state: KeyState)
        ensures
            old(self).sound() ==> final(self).sound(),
            final(self).channels() == old(self).channels(),
            final(self).log() == old(self).log().push(SinkCall::VkKey { time, key_code, state }),
    ;

    fn vk_modifiers(&mut self, depressed: u32, latched: u32, locked: u32, group: u32)
        ensures
            old(self).sound() ==> final(self).sound(),
            final(self).channels() == old(self).channels(),
            final(self).log() == old(self).log().push(
                SinkCall::VkModifiers { depressed, latched, locked, group },
            ),
    ;

    /// Whether the keymap has a key for `c`.
    fn vk_can_type(&self, c: char) -> (b: bool)
        ensures
            b == self.channels().keys.contains(c),
    ;

    /// Type `c` on the virtual keyboard. `false`, and nothing emitted, when the
    /// keymap has no key for it.
    fn vk_commit_char(&mut self, time: u32, c: char) -> (emitted: bool)
        ensures
            old(self).sound() ==> final(self).sound(),
            final(self).channels() == old(self).channels(),
            emitted == old(self).channels().keys.contains(c),
            emitted ==> final(self).log() == old(self).log().push(
                SinkCall::VkCommitChar { time, c },
            ),
            !emitted ==> final(self).log() == old(self).log(),
    ;

    /// Type `text` as keysym presses and releases. `false`, and nothing
    /// emitted, when the backend has no such path.
    fn commit_via_keysym(&mut self, serial: u32, time: u32, text: &str) -> (emitted: bool)
        ensures
            old(self).sound() ==> final(self).sound(),
            final(self).channels() == old(self).channels(),
            emitted == old(self).channels().keysyms.contains(text@),
            emitted ==> final(self).log() == old(self).log().push(
                SinkCall::CommitViaKeysym { serial, time, text: text@ },
            ),
            !emitted ==> final(self).log() == old(self).log(),
    ;
}

/// `n` presses and releases of Backspace.
pub open spec fn backspace_calls(time: u32, n: nat) -> Seq<SinkCall>
    decreases n,
{
    if n == 0 {
        Seq::empty()
    } else {
        backspace_calls(time, (n - 1) as nat).push(
            SinkCall::VkKey { time, key_code: KEY_BACKSPACE, state: KeyState::Pressed },
        ).push(SinkCall::VkKey { time, key_code: KEY_BACKSPACE, state: KeyState::Released })
    }
}

/// Press and release Backspace `n` times.
pub fn emit_backspaces<S: OutputSink>(sink: &mut S, time: u32, n: usize)
    ensures
        old(sink).sound() ==> final(sink).sound(),
        final(sink).channels() == old(sink).channels(),
        final(sink).log() == old(sink).log() + backspace_calls(time, n as nat),
{
    let ghost start = sink.log();
    for i in 0..n
        invariant
            sink.log() == start + backspace_calls(time, i as nat),
            old(sink).sound() ==> sink.sound(),
            sink.channels() == old(sink).channels(),
    {
        sink.vk_key(time, KEY_BACKSPACE, KeyState::Pressed);
        sink.vk_key(time, KEY_BACKSPACE, KeyState::Released);
        assert(sink.log() =~= start + backspace_calls(time, (i + 1) as nat));
    }
}

/// Every Backspace that is pressed is released: the two come in equal number,
/// press first.
pub proof fn law_backspaces_are_paired(time: u32, n: nat)
    ensures
        backspace_calls(time, n).len() == 2 * n,
        forall|i: int|
            0 <= i < 2 * n ==> #[trigger] backspace_calls(time, n)[i] == (SinkCall::VkKey {
                time,
                key_code: KEY_BACKSPACE,
                state: if i % 2 == 0 {
                    KeyState::Pressed
                } else {
                    KeyState::Released
                },
            }),
    decreases n,
{
    if n > 0 {
        law_backspaces_are_paired(time, (n - 1) as nat);
    }
}

/// Edit state of one text-input object.
pub struct Strategy {
    pub method: BackspaceMethod,
    pub shadow: ShadowBuffer,
    pub modifiers: ModifierState,
}

/// [`Strategy`] as values.
pub struct StrategyView {
    pub method: BackspaceMethod,
    pub shadow: shadow::Shadow,
    pub modifiers: ModifierState,
}

impl View for Strategy {
    type V = StrategyView;

    open spec fn view(&self) -> StrategyView {
        StrategyView { method: self.method, shadow: self.shadow@, modifiers: self.modifiers }
    }
}

/// What an edit on tier `method` emits, into a sink that types `ch`.
pub open spec fn tier_calls(
    ch: Channels,
    method: BackspaceMethod,
    before: shadow::Shadow,
    backspaces: usize,
    commit: Seq<char>,
    serial: u32,
    time: u32,
    unit: DeleteUnit,
) -> Seq<SinkCall> {
    match method {
        BackspaceMethod::SurroundingText => surrounding::calls(
            before,
            backspaces,
            commit,
            serial,
            time,
            unit,
        ),
        BackspaceMethod::ForwardKey => forward_key::calls(
            ch,
            backspaces,
            commit,
            serial,
            time,
            false,
        ),
        BackspaceMethod::VkOnly => vk_only::calls(ch.keys, backspaces, commit, time),
    }
}

/// The shadow after an edit on tier `method`.
pub open spec fn tier_shadow(
    method: BackspaceMethod,
    before: shadow::Shadow,
    backspaces: usize,
    commit: Seq<char>,
) -> shadow::Shadow {
    match method {
        BackspaceMethod::SurroundingText => surrounding::shadow_after(before, backspaces, commit),
        BackspaceMethod::ForwardKey => forward_key::shadow_after(before, backspaces, commit),
        BackspaceMethod::VkOnly => vk_only::shadow_after(before, backspaces, commit),
    }
}

/// On the tiers that type, every character that the sink has a key for goes out as a
/// key; where the forward-key tier stays on the key channel, all of the text does.
pub proof fn law_text_goes_out_as_keys(
    ch: Channels,
    backspaces: usize,
    commit: Seq<char>,
    serial: u32,
    time: u32,
)
    requires
        forall|i: int| 0 <= i < commit.len() ==> ch.keys.contains(#[trigger] commit[i]),
    ensures
        forward_key::calls(ch, backspaces, commit, serial, time, true) == vk_only::calls(
            ch.keys,
            backspaces,
            commit,
            time,
        ),
        forall|i: int|
            0 <= i < commit.len() ==> #[trigger] vk_only::calls(
                ch.keys,
                backspaces,
                commit,
                time,
            )[2 * backspaces + i] == (SinkCall::VkCommitChar { time, c: commit[i] }),
        vk_only::calls(ch.keys, backspaces, commit, time).len() == 2 * backspaces + commit.len(),
{
    law_backspaces_are_paired(time, backspaces as nat);
    vk_only::lemma_char_calls(ch.keys, time, commit);
}

/// A text that the sink cannot type whole stays on one channel: not a character of it
/// goes out as a key.
pub proof fn law_replacement_stays_whole(
    ch: Channels,
    backspaces: usize,
    commit: Seq<char>,
    serial: u32,
    time: u32,
    i: int,
)
    requires
        0 <= i < commit.len(),
        !ch.keys.contains(commit[i]),
    ensures
        forward_key::calls(ch, backspaces, commit, serial, time, true) == backspace_calls(
            time,
            backspaces as nat,
        ) + forward_key::committed_calls(ch, commit, serial, time),
{
}

/// With nothing selected, every tier leaves the same text in the shadow: the old
/// one without its last `backspaces` characters, and the replacement behind it.
pub proof fn law_tiers_agree_on_text(
    method: BackspaceMethod,
    before: shadow::Shadow,
    backspaces: usize,
    commit: Seq<char>,
)
    requires
        before.selected_before_chars == 0,
    ensures
        tier_shadow(method, before, backspaces, commit).text == words::chars_dropped(
            before.text,
            backspaces as nat,
        ) + commit,
{
}

impl Strategy {
    pub fn new(method: BackspaceMethod) -> (s: Self)
        ensures
            s@ == (StrategyView {
                method,
                shadow: shadow::empty_shadow(),
                modifiers: ModifierState { bits: 0 },
            }),
    {
        Self { method, shadow: ShadowBuffer::new(), modifiers: ModifierState::empty() }
    }

    /// Deliver an edit through the configured tier. `backspaces` counts
    /// characters.
    pub fn apply<S: OutputSink>(
        &mut self,
        backspaces: usize,
        commit: &str,
        serial: u32,
        time: u32,
        sink: &mut S,
        delete_unit: DeleteUnit,
    )
        ensures
            old(sink).sound() ==> final(sink).sound(),
            final(sink).channels() == old(sink).channels(),
            final(self)@ == (StrategyView {
                shadow: tier_shadow(old(self)@.method, old(self)@.shadow, backspaces, commit@),
                ..old(self)@
            }),
            final(sink).log() == old(sink).log() + tier_calls(
                old(sink).channels(),
                old(self)@.method,
                old(self)@.shadow,
                backspaces,
                commit@,
                serial,
                time,
                delete_unit,
            ),
    {
        match self.method {
            BackspaceMethod::SurroundingText => {
                surrounding::apply(
                    &mut self.shadow,
                    backspaces,
                    commit,
                    serial,
                    time,
                    sink,
                    delete_unit,
                );
            },
            BackspaceMethod::ForwardKey => {
                forward_key::apply(&mut self.shadow, backspaces, commit, serial, time, sink, false);
            },
            BackspaceMethod::VkOnly => {
                vk_only::apply(&mut self.shadow, backspaces, commit, time, sink);
            },
        }
    }

    /// Deliver an edit with Backspace keys whatever the tier, keeping the
    /// replacement on the key channel where the sink can type all of it. The tier
    /// stays.
    pub fn apply_forward_key<S: OutputSink>(
        &mut self,
        backspaces: usize,
        commit: &str,
        serial: u32,
        time: u32,
        sink: &mut S,
    )
        ensures
            old(sink).sound() ==> final(sink).sound(),
            final(sink).channels() == old(sink).channels(),
            final(self)@ == (StrategyView {
                shadow: forward_key::shadow_after(old(self)@.shadow, backspaces, commit@),
                ..old(self)@
            }),
            final(sink).log() == old(sink).log() + forward_key::calls(
                old(sink).channels(),
                backspaces,
                commit@,
                serial,
                time,
                true,
            ),
    {
        forward_key::apply(&mut self.shadow, backspaces, commit, serial, time, sink, true);
    }

    /// Take over the client's view of the text in front of the cursor.
    pub fn on_surrounding_text(&mut self, text: &str, cursor: u32, anchor: u32)
        ensures
            final(self)@ == (StrategyView {
                shadow: shadow::synced(text@, cursor, anchor),
                ..old(self)@
            }),
    {
        let _ = self.shadow.observe_surrounding(text, cursor, anchor);
    }

    /// Forget the shadow, on focus loss or a navigation key.
    pub fn reset_shadow(&mut self)
        ensures
            final(self)@ == (StrategyView { shadow: shadow::empty_shadow(), ..old(self)@ }),
    {
        self.shadow.clear();
    }

    pub fn set_modifiers(&mut self, m: ModifierState)
        ensures
            final(self)@ == (StrategyView { modifiers: m, ..old(self)@ }),
    {
        self.modifiers = m;
    }

    pub fn method(&self) -> (m: BackspaceMethod)
        ensures
            m == self@.method,
    {
        self.method
    }

    /// Switch the tier at run time. The shadow is kept.
    pub fn set_method(&mut self, m: BackspaceMethod)
        ensures
            final(self)@ == (StrategyView { method: m, ..old(self)@ }),
    {
        self.method = m;
    }
}

} // verus!
