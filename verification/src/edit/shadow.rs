//! The text in front of the cursor, as the input method believes it to be.
use vstd::prelude::*;
use vstd::string::*;

use crate::text;
use crate::words;

verus! {

/// Tracks the text in front of the cursor, the last cursor that the client
/// reported, and the selection around it.
pub struct ShadowBuffer {
    pub text: String,
    pub last_cursor: Option<u32>,
    /// Selected characters in front of the cursor (anchor before cursor).
    pub selected_before_chars: usize,
    /// Selected bytes and characters behind the cursor (anchor after cursor).
    pub selected_after_bytes: u32,
    pub selected_after_chars: u32,
    /// An edit was issued whose echo has not arrived yet: the next cursor
    /// change is expected.
    pub pending_commit: bool,
}

/// [`ShadowBuffer`] with its text as characters.
pub struct Shadow {
    pub text: Seq<char>,
    pub last_cursor: Option<u32>,
    pub selected_before_chars: usize,
    pub selected_after_bytes: u32,
    pub selected_after_chars: u32,
    pub pending_commit: bool,
}

impl View for ShadowBuffer {
    type V = Shadow;

    open spec fn view(&self) -> Shadow {
        Shadow {
            text: self.text@,
            last_cursor: self.last_cursor,
            selected_before_chars: self.selected_before_chars,
            selected_after_bytes: self.selected_after_bytes,
            selected_after_chars: self.selected_after_chars,
            pending_commit: self.pending_commit,
        }
    }
}

pub open spec fn empty_shadow() -> Shadow {
    Shadow {
        text: Seq::empty(),
        last_cursor: None,
        selected_before_chars: 0,
        selected_after_bytes: 0,
        selected_after_chars: 0,
        pending_commit: false,
    }
}

/// The shadow after a surrounding-text frame: the text up to the cursor, and
/// the selection between cursor and anchor, both cut back to character
/// boundaries.
pub open spec fn synced(s: Seq<char>, cursor: u32, anchor: u32) -> Shadow {
    let c = text::chars_within(s, cursor as nat);
    let a = text::chars_within(s, anchor as nat);
    Shadow {
        text: s.take(c as int),
        last_cursor: Some(cursor),
        selected_before_chars: if a < c {
            (c - a) as usize
        } else {
            0
        },
        selected_after_bytes: if a > c {
            text::utf8_len(s.subrange(c as int, a as int)) as u32
        } else {
            0
        },
        selected_after_chars: if a > c {
            (a - c) as u32
        } else {
            0
        },
        pending_commit: false,
    }
}

/// Something is selected, on one side of the cursor or the other.
pub open spec fn selects(s: Shadow) -> bool {
    s.selected_before_chars > 0 || s.selected_after_bytes > 0 || s.selected_after_chars > 0
}

/// How many characters a request to delete `n` takes from a text of `len`.
pub open spec fn taken(len: nat, n: nat) -> nat {
    if n <= len {
        n
    } else {
        len
    }
}

/// `n` plus the selected characters in front of the cursor.
pub open spec fn span_target(s: Shadow, backspaces: usize) -> nat {
    if backspaces + s.selected_before_chars <= usize::MAX {
        (backspaces + s.selected_before_chars) as nat
    } else {
        usize::MAX as nat
    }
}

/// The shadow without its last `n` characters.
pub open spec fn popped(s: Shadow, n: nat) -> Shadow {
    Shadow { text: words::chars_dropped(s.text, n), ..s }
}

/// Width in bytes of the last `n` characters.
pub open spec fn tail_bytes(s: Seq<char>, n: nat) -> nat {
    text::utf8_len(s.skip(s.len() - taken(s.len(), n)))
}

impl Default for ShadowBuffer {
    fn default() -> (s: Self)
        ensures
            s@ == empty_shadow(),
    {
        Self::new()
    }
}

impl ShadowBuffer {
    pub fn new() -> (s: Self)
        ensures
            s@ == empty_shadow(),
    {
        Self {
            text: String::new(),
            last_cursor: None,
            selected_before_chars: 0,
            selected_after_bytes: 0,
            selected_after_chars: 0,
            pending_commit: false,
        }
    }

    pub fn append(&mut self, text: &str)
        ensures
            final(self)@ == (Shadow { text: old(self)@.text + text@, ..old(self)@ }),
    {
        self.text.push_str(text);
    }

    /// Remove the last `n` characters, or all when there are fewer. Returns how
    /// many bytes and how many characters went, as 32-bit counts.
    pub fn pop_chars(&mut self, n: usize) -> (r: (u32, u32))
        ensures
            final(self)@ == popped(old(self)@, n as nat),
            r.0 == tail_bytes(old(self)@.text, n as nat) as u32,
            r.1 == taken(old(self)@.text.len(), n as nat) as u32,
    {
        let ghost start = self.text@;
        let total: usize = text::byte_len(self.text.as_str());
        let count: usize = self.text.as_str().unicode_len();
        let pop: usize = if n <= count {
            n
        } else {
            count
        };
        for i in 0..pop
            invariant
                pop <= start.len(),
                self.text@ == start.take(start.len() - i),
                self@ == (Shadow { text: self@.text, ..old(self)@ }),
        {
            let _ = self.text.pop();
            assert(start.take(start.len() - i).drop_last() =~= start.take(start.len() - i - 1));
        }
        let left: usize = text::byte_len(self.text.as_str());
        proof {
            let cut = start.len() - pop;
            assert(start =~= start.take(cut) + start.skip(cut));
            text::lemma_utf8_len_concat(start.take(cut), start.skip(cut));
        }
        ((total - left) as u32, pop as u32)
    }

    pub fn clear(&mut self)
        ensures
            final(self)@ == empty_shadow(),
    {
        self.text = String::new();
        self.last_cursor = None;
        self.selected_before_chars = 0;
        self.selected_after_bytes = 0;
        self.selected_after_chars = 0;
        self.pending_commit = false;
    }

    /// Lengths of a surrounding-text delete for `backspaces`, with the current
    /// selection folded in: `(before_bytes, before_chars, after_bytes,
    /// after_chars)`. A selection in front of the cursor is deleted with the
    /// text before it; one behind the cursor is reported as `after_*`.
    pub fn pop_delete_span(&mut self, backspaces: usize) -> (r: (u32, u32, u32, u32))
        ensures
            final(self)@ == span_popped(old(self)@, backspaces),
            r == delete_span(old(self)@, backspaces),
    {
        let before_target: usize = backspaces.saturating_add(self.selected_before_chars);
        let (before_bytes, before_chars) = self.pop_chars(before_target);
        let after_bytes: u32 = self.selected_after_bytes;
        let after_chars: u32 = self.selected_after_chars;
        self.selected_before_chars = 0;
        self.selected_after_bytes = 0;
        self.selected_after_chars = 0;
        (before_bytes, before_chars, after_bytes, after_chars)
    }

    /// Whether something is selected.
    pub fn has_selection(&self) -> (b: bool)
        ensures
            b == selects(self@),
    {
        self.selected_before_chars > 0 || self.selected_after_bytes > 0
            || self.selected_after_chars > 0
    }

    /// Take over a surrounding-text frame: the text up to the cursor becomes
    /// the shadow. Returns whether the cursor moved with no edit pending, which
    /// a mouse click or an arrow key does.
    pub fn observe_surrounding(&mut self, text: &str, cursor: u32, anchor: u32) -> (moved: bool)
        ensures
            final(self)@ == synced(text@, cursor, anchor),
            moved == (!old(self)@.pending_commit && old(self)@.last_cursor is Some
                && old(self)@.last_cursor != Some(cursor)),
    {
        let c: usize = text::char_floor(text, cursor as usize);
        let a: usize = text::char_floor(text, anchor as usize);
        proof {
            text::lemma_chars_within(text@, cursor as nat);
            text::lemma_chars_within(text@, anchor as nat);
        }
        let moved = !self.pending_commit && match self.last_cursor {
            Some(last) => last != cursor,
            None => false,
        };
        self.text = text.substring_char(0, c).to_owned();
        assert(text@.subrange(0, c as int) =~= text@.take(c as int));
        if a < c {
            self.selected_before_chars = c - a;
            self.selected_after_bytes = 0;
            self.selected_after_chars = 0;
        } else if a > c {
            self.selected_before_chars = 0;
            self.selected_after_bytes = text::byte_len(text.substring_char(c, a)) as u32;
            self.selected_after_chars = (a - c) as u32;
        } else {
            self.selected_before_chars = 0;
            self.selected_after_bytes = 0;
            self.selected_after_chars = 0;
        }
        self.last_cursor = Some(cursor);
        self.pending_commit = false;
        moved
    }

    pub fn text(&self) -> (r: &str)
        ensures
            r@ == self@.text,
    {
        self.text.as_str()
    }

    pub fn text_mut(&mut self) -> (r: &mut String)
        ensures
            r@ == old(self)@.text,
            final(self)@ == (Shadow { text: final(r)@, ..old(self)@ }),
    {
        &mut self.text
    }

    pub fn last_cursor(&self) -> (r: Option<u32>)
        ensures
            r == self@.last_cursor,
    {
        self.last_cursor
    }
}

/// What `pop_delete_span` returns.
pub open spec fn delete_span(s: Shadow, backspaces: usize) -> (u32, u32, u32, u32) {
    let n = span_target(s, backspaces);
    (
        tail_bytes(s.text, n) as u32,
        taken(s.text.len(), n) as u32,
        s.selected_after_bytes,
        s.selected_after_chars,
    )
}

/// The shadow that `pop_delete_span` leaves.
pub open spec fn span_popped(s: Shadow, backspaces: usize) -> Shadow {
    Shadow {
        text: words::chars_dropped(s.text, span_target(s, backspaces)),
        selected_before_chars: 0,
        selected_after_bytes: 0,
        selected_after_chars: 0,
        ..s
    }
}

/// What was appended is what a pop of as many characters takes away again.
pub proof fn law_pop_undoes_append(s: Shadow, t: Seq<char>)
    ensures
        popped(Shadow { text: s.text + t, ..s }, t.len()) == s,
        tail_bytes(s.text + t, t.len()) == text::utf8_len(t),
{
    assert((s.text + t).take(s.text.len() as int) =~= s.text);
    assert((s.text + t).skip(s.text.len() as int) =~= t);
}

/// Bytes popped and bytes left add up to the bytes there were.
pub proof fn law_pop_conserves_bytes(s: Shadow, n: nat)
    ensures
        text::utf8_len(popped(s, n).text) + tail_bytes(s.text, n) == text::utf8_len(s.text),
{
    let cut = s.text.len() - taken(s.text.len(), n);
    assert(s.text =~= s.text.take(cut) + s.text.skip(cut));
    text::lemma_utf8_len_concat(s.text.take(cut), s.text.skip(cut));
}

/// A frame without a selection leaves nothing selected.
pub proof fn law_no_selection_no_span(s: Seq<char>, cursor: u32)
    ensures
        synced(s, cursor, cursor).selected_before_chars == 0,
        synced(s, cursor, cursor).selected_after_bytes == 0,
        synced(s, cursor, cursor).selected_after_chars == 0,
        !selects(synced(s, cursor, cursor)),
{
}

/// A frame whose cursor and anchor lie on different characters leaves something
/// selected.
pub proof fn law_selection_is_noticed(s: Seq<char>, cursor: u32, anchor: u32)
    requires
        text::chars_within(s, cursor as nat) != text::chars_within(s, anchor as nat),
    ensures
        selects(synced(s, cursor, anchor)),
{
    let c = text::chars_within(s, cursor as nat) as int;
    let a = text::chars_within(s, anchor as nat) as int;
    text::lemma_chars_within(s, cursor as nat);
    text::lemma_chars_within(s, anchor as nat);
    text::lemma_utf8_len_take(s, 0, c);
    text::lemma_utf8_len_take(s, 0, a);
}

} // verus!
