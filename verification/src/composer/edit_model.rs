//! The tier, the shadow, and the last surrounding-text frame.
use vstd::prelude::*;

use crate::edit;
use crate::edit::modifiers::ModifierState;
use crate::edit::shadow;
use crate::edit::{BackspaceMethod, DeleteUnit, OutputSink, Strategy};
use crate::words;

verus! {

/// Edit state together with the last frame that the client sent.
pub struct EditModel {
    pub strategy: Strategy,
    pub prev_text: String,
    pub prev_cursor: u32,
    pub prev_anchor: u32,
}

/// [`EditModel`] as values.
pub struct Edit {
    pub strategy: edit::StrategyView,
    pub prev_text: Seq<char>,
    pub prev_cursor: u32,
    pub prev_anchor: u32,
}

impl View for EditModel {
    type V = Edit;

    open spec fn view(&self) -> Edit {
        Edit {
            strategy: self.strategy@,
            prev_text: self.prev_text@,
            prev_cursor: self.prev_cursor,
            prev_anchor: self.prev_anchor,
        }
    }
}

pub open spec fn with_shadow(e: Edit, s: shadow::Shadow) -> Edit {
    Edit { strategy: edit::StrategyView { shadow: s, ..e.strategy }, ..e }
}

pub open spec fn with_shadow_text(e: Edit, t: Seq<char>) -> Edit {
    with_shadow(e, shadow::Shadow { text: t, ..e.strategy.shadow })
}

pub open spec fn recorded(e: Edit, text: Seq<char>, cursor: u32, anchor: u32) -> Edit {
    Edit { prev_text: text, prev_cursor: cursor, prev_anchor: anchor, ..e }
}

/// The frame is exactly the last one recorded.
pub open spec fn duplicate(e: Edit, text: Seq<char>, cursor: u32, anchor: u32) -> bool {
    text == e.prev_text && cursor == e.prev_cursor && anchor == e.prev_anchor
}

impl EditModel {
    pub fn new(method: BackspaceMethod) -> (e: Self)
        ensures
            e@ == (Edit {
                strategy: edit::StrategyView {
                    method,
                    shadow: shadow::empty_shadow(),
                    modifiers: ModifierState { bits: 0 },
                },
                prev_text: Seq::empty(),
                prev_cursor: 0,
                prev_anchor: 0,
            }),
    {
        Self {
            strategy: Strategy::new(method),
            prev_text: String::new(),
            prev_cursor: 0,
            prev_anchor: 0,
        }
    }

    pub fn method(&self) -> (m: BackspaceMethod)
        ensures
            m == self@.strategy.method,
    {
        self.strategy.method()
    }

    pub fn set_method(&mut self, m: BackspaceMethod)
        ensures
            final(self)@ == (Edit {
                strategy: edit::StrategyView { method: m, ..old(self)@.strategy },
                ..old(self)@
            }),
    {
        self.strategy.set_method(m);
    }

    pub fn set_modifiers(&mut self, m: ModifierState)
        ensures
            final(self)@ == (Edit {
                strategy: edit::StrategyView { modifiers: m, ..old(self)@.strategy },
                ..old(self)@
            }),
    {
        self.strategy.set_modifiers(m);
    }

    /// Forget the text that the input method owns; keep the last frame, so that
    /// a repetition of it is still recognised.
    pub fn reset_composition(&mut self)
        ensures
            final(self)@ == with_shadow(old(self)@, shadow::empty_shadow()),
    {
        self.strategy.reset_shadow();
    }

    pub fn shadow_text(&self) -> (r: &str)
        ensures
            r@ == self@.strategy.shadow.text,
    {
        self.strategy.shadow.text()
    }

    pub fn push_forwarded_char(&mut self, ch: char)
        ensures
            final(self)@ == with_shadow_text(
                old(self)@,
                old(self)@.strategy.shadow.text.push(ch),
            ),
    {
        self.strategy.shadow.text.push(ch);
    }

    pub fn pop_forwarded_char(&mut self)
        ensures
            final(self)@ == with_shadow_text(
                old(self)@,
                words::chars_dropped(old(self)@.strategy.shadow.text, 1),
            ),
    {
        let _ = self.strategy.shadow.text.pop();
        assert(self@.strategy.shadow.text =~= words::chars_dropped(
            old(self)@.strategy.shadow.text,
            1,
        ));
    }

    pub fn on_surrounding_text(&mut self, text: &str, cursor: u32, anchor: u32)
        ensures
            final(self)@ == with_shadow(old(self)@, shadow::synced(text@, cursor, anchor)),
    {
        self.strategy.on_surrounding_text(text, cursor, anchor);
    }

    pub fn record_surrounding(&mut self, text: &str, cursor: u32, anchor: u32)
        ensures
            final(self)@ == recorded(old(self)@, text@, cursor, anchor),
    {
        self.prev_text = text.to_owned();
        self.prev_cursor = cursor;
        self.prev_anchor = anchor;
    }

    pub fn one_char_insertion_since_prev(&self, text: &str, cursor: u32) -> (r: bool)
        ensures
            r == words::one_char_inserted(
                self@.prev_text,
                self@.prev_cursor as nat,
                text@,
                cursor as nat,
            ),
    {
        words::detect_one_char_insertion(self.prev_text.as_str(), self.prev_cursor, text, cursor)
    }

    pub fn deletion_since_prev(&self, text: &str, cursor: u32) -> (r: bool)
        ensures
            r == words::span_deleted(
                self@.prev_text,
                self@.prev_cursor as nat,
                text@,
                cursor as nat,
            ),
    {
        words::detect_deletion(self.prev_text.as_str(), self.prev_cursor, text, cursor)
    }

    /// Whether `text` is the last frame's text with exactly `ch` inserted before
    /// `cursor`.
    pub fn confirms_inserted_char(&self, text: &str, cursor: u32, ch: char) -> (r: bool)
        ensures
            r == words::char_inserted_before(self@.prev_text, text@, cursor as nat, ch),
    {
        words::confirms_insertion(self.prev_text.as_str(), text, cursor, ch)
    }

    pub fn is_duplicate_frame(&self, text: &str, cursor: u32, anchor: u32) -> (r: bool)
        ensures
            r == duplicate(self@, text@, cursor, anchor),
    {
        *text == *self.prev_text.as_str() && cursor == self.prev_cursor && anchor
            == self.prev_anchor
    }

    pub fn clear_prev_surrounding(&mut self)
        ensures
            final(self)@ == recorded(old(self)@, Seq::empty(), 0, 0),
    {
        self.prev_text = String::new();
        self.prev_cursor = 0;
        self.prev_anchor = 0;
    }

    pub fn prev_surrounding_for_trace(&self) -> (r: (&str, u32))
        ensures
            r.0@ == self@.prev_text,
            r.1 == self@.prev_cursor,
    {
        (self.prev_text.as_str(), self.prev_cursor)
    }

    pub fn apply<S: OutputSink>(
        &mut self,
        backspaces: usize,
        commit: &str,
        serial: u32,
        time: u32,
        sink: &mut S,
        delete_unit: DeleteUnit,
    )
        ensures
            old(sink).sound() ==> final(sink).sound(),
            final(sink).channels() == old(sink).channels(),
            final(self)@ == with_shadow(
                old(self)@,
                edit::tier_shadow(
                    old(self)@.strategy.method,
                    old(self)@.strategy.shadow,
                    backspaces,
                    commit@,
                ),
            ),
            final(sink).log() == old(sink).log() + edit::tier_calls(
                old(sink).channels(),
                old(self)@.strategy.method,
                old(self)@.strategy.shadow,
                backspaces,
                commit@,
                serial,
                time,
                delete_unit,
            ),
    {
        self.strategy.apply(backspaces, commit, serial, time, sink, delete_unit);
    }

    pub fn apply_forward_key<S: OutputSink>(
        &mut self,
        backspaces: usize,
        commit: &str,
        serial: u32,
        time: u32,
        sink: &mut S,
    )
        ensures
            old(sink).sound() ==> final(sink).sound(),
            final(sink).channels() == old(sink).channels(),
            final(self)@ == with_shadow(
                old(self)@,
                edit::forward_key::shadow_after(
                    old(self)@.strategy.shadow,
                    backspaces,
                    commit@,
                ),
            ),
            final(sink).log() == old(sink).log() + edit::forward_key::calls(
                old(sink).channels(),
                backspaces,
                commit@,
                serial,
                time,
                true,
            ),
    {
        self.strategy.apply_forward_key(backspaces, commit, serial, time, sink);
    }
}

/// A frame that was recorded is recognised when it comes again.
pub proof fn law_recorded_frame_is_duplicate(e: Edit, text: Seq<char>, cursor: u32, anchor: u32)
    ensures
        duplicate(recorded(e, text, cursor, anchor), text, cursor, anchor),
{
}

/// Forgetting the composition keeps the last frame recognisable.
pub proof fn law_reset_keeps_duplicates(e: Edit, text: Seq<char>, cursor: u32, anchor: u32)
    ensures
        duplicate(with_shadow(e, shadow::empty_shadow()), text, cursor, anchor) == duplicate(
            e,
            text,
            cursor,
            anchor,
        ),
{
}

} // verus!
