//! State that takes effect all at once.
use vstd::prelude::*;

verus! {

/// What a text input reports between two `done` events.
#[derive(Debug)]
pub struct DoneFrame {
    pub pending_activate: bool,
    pub pending_deactivate: bool,
    pub surrounding_text: Option<SurroundingText>,
    pub change_cause: Option<u32>,
    pub purpose: u32,
}

/// The text around the cursor; cursor and anchor in bytes.
#[derive(Debug)]
pub struct SurroundingText {
    pub text: String,
    pub cursor: u32,
    pub anchor: u32,
}

/// [`SurroundingText`] as characters.
pub struct Around {
    pub text: Seq<char>,
    pub cursor: u32,
    pub anchor: u32,
}

/// [`DoneFrame`] as values.
pub struct FrameState {
    pub activate: bool,
    pub deactivate: bool,
    pub around: Option<Around>,
    pub change_cause: Option<u32>,
    pub purpose: u32,
}

impl View for SurroundingText {
    type V = Around;

    open spec fn view(&self) -> Around {
        Around { text: self.text@, cursor: self.cursor, anchor: self.anchor }
    }
}

impl View for DoneFrame {
    type V = FrameState;

    open spec fn view(&self) -> FrameState {
        FrameState {
            activate: self.pending_activate,
            deactivate: self.pending_deactivate,
            around: match self.surrounding_text {
                Some(t) => Some(t@),
                None => None,
            },
            change_cause: self.change_cause,
            purpose: self.purpose,
        }
    }
}

/// Nothing reported, for a text input of this purpose.
pub open spec fn nothing_for(purpose: u32) -> FrameState {
    FrameState { activate: false, deactivate: false, around: None, change_cause: None, purpose }
}

impl Default for DoneFrame {
    fn default() -> (f: Self)
        ensures
            f@ == nothing_for(0),
    {
        DoneFrame {
            pending_activate: false,
            pending_deactivate: false,
            surrounding_text: None,
            change_cause: None,
            purpose: 0,
        }
    }
}

impl DoneFrame {
    /// The frame took effect. The purpose belongs to the text input and stays.
    pub fn reset(&mut self)
        ensures
            final(self)@ == nothing_for(old(self)@.purpose),
    {
        self.pending_activate = false;
        self.pending_deactivate = false;
        self.surrounding_text = None;
        self.change_cause = None;
    }

    /// The text input is gone, and its purpose with it: the next one must not
    /// inherit it.
    pub fn end_session(&mut self)
        ensures
            final(self)@ == (FrameState { purpose: 0, ..old(self)@ }),
    {
        self.purpose = 0;
    }
}

} // verus!
