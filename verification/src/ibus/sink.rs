//! Edits for IBus, kept until they can be sent.
//!
//! Signals are sent asynchronously, edits are made synchronously. So an
//! [`IbusSink`] collects what an edit emits, and the caller sends it.
use vstd::prelude::*;

use crate::edit::{Channels, KeyState, OutputSink, SinkCall};
use crate::ibus::keyval::{IBUS_FORWARD_MASK, IBUS_RELEASE_MASK, XK_BACKSPACE};

verus! {

/// A deletion: where it starts, relative to the cursor, and how many characters it
/// takes.
#[derive(Debug, Clone, Copy, PartialEq, Eq, Structural)]
pub struct PendingDelete {
    pub offset: i32,
    pub n_chars: u32,
}

/// A key event for the client.
#[derive(Debug, Clone, Copy, PartialEq, Eq, Structural)]
pub struct PendingForward {
    pub keyval: u32,
    pub keycode: u32,
    pub state: u32,
}

/// What was emitted and not sent yet.
pub struct IbusSink {
    pub commits: Vec<String>,
    pub deletes: Vec<PendingDelete>,
    pub forwards: Vec<PendingForward>,
    pub calls: Ghost<Seq<SinkCall>>,
}

/// What was emitted, as values.
pub struct Emitted {
    pub commits: Seq<Seq<char>>,
    pub deletes: Seq<PendingDelete>,
    pub forwards: Seq<PendingForward>,
}

impl View for IbusSink {
    type V = Emitted;

    open spec fn view(&self) -> Emitted {
        Emitted {
            commits: crate::strings::texts(self.commits@),
            deletes: self.deletes@,
            forwards: self.forwards@,
        }
    }
}

/// Nothing emitted.
pub open spec fn nothing() -> Emitted {
    Emitted { commits: Seq::empty(), deletes: Seq::empty(), forwards: Seq::empty() }
}

/// The deletion of characters before and behind the cursor. Counts that no text
/// reaches are cut off.
pub open spec fn delete_of(before: u32, after: u32) -> PendingDelete {
    PendingDelete {
        offset: if before <= i32::MAX {
            (0 - before) as i32
        } else {
            (0 - i32::MAX) as i32
        },
        n_chars: if before + after <= u32::MAX {
            (before + after) as u32
        } else {
            u32::MAX
        },
    }
}

/// The event for a press or a release of Backspace.
pub open spec fn backspace_event(state: KeyState) -> PendingForward {
    PendingForward {
        keyval: XK_BACKSPACE,
        keycode: 14,
        state: match state {
            KeyState::Pressed => IBUS_FORWARD_MASK,
            KeyState::Released => IBUS_FORWARD_MASK | IBUS_RELEASE_MASK,
        },
    }
}

/// What one more operation adds: deletions, texts that are not empty, and
/// Backspace keys. Nothing else reaches an IBus client.
pub open spec fn with_call(e: Emitted, c: SinkCall) -> Emitted {
    match c {
        SinkCall::DeleteSurroundingText { before_bytes, before_chars, after_bytes, after_chars } => {
            Emitted { deletes: e.deletes.push(delete_of(before_chars, after_chars)), ..e }
        },
        SinkCall::CommitString(t) => if t.len() > 0 {
            Emitted { commits: e.commits.push(t), ..e }
        } else {
            e
        },
        SinkCall::VkKey { time, key_code, state } => if key_code == 14 {
            Emitted { forwards: e.forwards.push(backspace_event(state)), ..e }
        } else {
            e
        },
        _ => e,
    }
}

/// What a sequence of operations emits.
pub open spec fn emitted(calls: Seq<SinkCall>) -> Emitted
    decreases calls.len(),
{
    if calls.len() == 0 {
        nothing()
    } else {
        with_call(emitted(calls.drop_last()), calls.last())
    }
}

/// The sink holds exactly what its operations emitted.
pub open spec fn faithful(s: IbusSink) -> bool {
    s@ == emitted(s.calls@)
}

proof fn lemma_one_more(calls: Seq<SinkCall>, c: SinkCall)
    ensures
        emitted(calls.push(c)) == with_call(emitted(calls), c),
{
    assert(calls.push(c).drop_last() =~= calls);
}

/// IBus types nothing, neither as keys nor as keysyms.
pub open spec fn no_channels() -> Channels {
    Channels { keys: Set::empty(), keysyms: Set::empty() }
}

impl Default for IbusSink {
    fn default() -> (s: Self)
        ensures
            s@ == nothing(),
            s.calls@ == Seq::<SinkCall>::empty(),
            faithful(s),
    {
        let s = IbusSink {
            commits: Vec::new(),
            deletes: Vec::new(),
            forwards: Vec::new(),
            calls: Ghost(Seq::empty()),
        };
        assert(s@.commits =~= nothing().commits);
        s
    }
}

impl IbusSink {
    pub fn new() -> (s: Self)
        ensures
            s@ == nothing(),
            s.calls@ == Seq::<SinkCall>::empty(),
            faithful(s),
    {
        IbusSink::default()
    }

    /// IBus has no way to type text as keys.
    pub fn commit_key_channel_text(&mut self, serial: u32, time: u32, text: &str) -> (b: bool)
        ensures
            !b,
            *final(self) == *old(self),
    {
        false
    }
}

impl OutputSink for IbusSink {
    open spec fn log(&self) -> Seq<SinkCall> {
        self.calls@
    }

    open spec fn channels(&self) -> Channels {
        no_channels()
    }

    open spec fn sound(&self) -> bool {
        faithful(*self)
    }

    fn delete_surrounding_text(
        &mut self,
        before_bytes: u32,
        before_chars: u32,
        after_bytes: u32,
        after_chars: u32,
    )
        ensures
            final(self)@ == (Emitted {
                deletes: old(self)@.deletes.push(delete_of(before_chars, after_chars)),
                ..old(self)@
            }),
    {
        let offset: i32 = if before_chars <= 0x7fff_ffff {
            -(before_chars as i32)
        } else {
            -0x7fff_ffff
        };
        let n_chars: u32 = before_chars.saturating_add(after_chars);
        self.deletes.push(PendingDelete { offset, n_chars });
        let ghost c = SinkCall::DeleteSurroundingText {
            before_bytes,
            before_chars,
            after_bytes,
            after_chars,
        };
        proof {
            lemma_one_more(self.calls@, c);
        }
        self.calls = Ghost(self.calls@.push(c));
    }

    fn commit_string(&mut self, text: &str)
        ensures
            final(self)@ == with_call(old(self)@, SinkCall::CommitString(text@)),
    {
        let ghost before = self@;
        if !text.is_empty() {
            let owned = text.to_owned();
            self.commits.push(owned);
            assert(self@.commits =~= before.commits.push(text@));
        }
        proof {
            lemma_one_more(self.calls@, SinkCall::CommitString(text@));
        }
        self.calls = Ghost(self.calls@.push(SinkCall::CommitString(text@)));
    }

    fn commit(&mut self, serial: u32)
        ensures
            final(self)@ == old(self)@,
    {
        proof {
            lemma_one_more(self.calls@, SinkCall::Commit(serial));
        }
        self.calls = Ghost(self.calls@.push(SinkCall::Commit(serial)));
    }

    fn vk_key(&mut self, time: u32, key_code: u32, state: KeyState)
        ensures
            final(self)@ == with_call(old(self)@, SinkCall::VkKey { time, key_code, state }),
    {
        if key_code == 14 {
            let mask: u32 = match state {
                KeyState::Pressed => IBUS_FORWARD_MASK,
                KeyState::Released => IBUS_FORWARD_MASK | IBUS_RELEASE_MASK,
            };
            self.forwards.push(
                PendingForward { keyval: XK_BACKSPACE, keycode: key_code, state: mask },
            );
        }
        let ghost c = SinkCall::VkKey { time, key_code, state };
        proof {
            lemma_one_more(self.calls@, c);
        }
        self.calls = Ghost(self.calls@.push(c));
    }

    fn vk_modifiers(&mut self, depressed: u32, latched: u32, locked: u32, group: u32)
        ensures
            final(self)@ == old(self)@,
    {
        let ghost c = SinkCall::VkModifiers { depressed, latched, locked, group };
        proof {
            lemma_one_more(self.calls@, c);
        }
        self.calls = Ghost(self.calls@.push(c));
    }

    fn vk_can_type(&self, c: char) -> (b: bool)
        ensures
            !b,
    {
        false
    }

    fn vk_commit_char(&mut self, time: u32, c: char) -> (emitted: bool)
        ensures
            !emitted,
            *final(self) == *old(self),
    {
        false
    }

    fn commit_via_keysym(&mut self, serial: u32, time: u32, text: &str) -> (emitted: bool)
        ensures
            !emitted,
            *final(self) == *old(self),
    {
        false
    }
}

} // verus!
