//! Stale surrounding-text echoes in contenteditable widgets.
use vstd::prelude::*;
use vstd::string::*;

use crate::edit::DeleteUnit;
use crate::words;

verus! {

/// Remembers the correction just issued and judges the frames that follow it.
#[derive(Debug)]
pub struct FirefoxContenteditableQuirk {
    pub expected_echo: Option<PendingEcho>,
    pub delete_unit: DeleteUnit,
    pub use_forward_delete: bool,
    pub forward_sticky: bool,
}

/// The two echoes that a healthy client may show for a correction.
#[derive(Debug)]
pub struct PendingEcho {
    /// The text once delete and commit are both applied.
    pub expected: String,
    /// The text in between, with only the delete applied.
    pub delete_echo: String,
}

/// [`PendingEcho`] as characters.
pub struct Echo {
    pub expected: Seq<char>,
    pub delete_echo: Seq<char>,
}

/// [`FirefoxContenteditableQuirk`] as values.
pub struct Firefox {
    pub expected_echo: Option<Echo>,
    pub delete_unit: DeleteUnit,
    pub use_forward_delete: bool,
    pub forward_sticky: bool,
}

impl View for FirefoxContenteditableQuirk {
    type V = Firefox;

    open spec fn view(&self) -> Firefox {
        Firefox {
            expected_echo: match self.expected_echo {
                Some(e) => Some(Echo { expected: e.expected@, delete_echo: e.delete_echo@ }),
                None => None,
            },
            delete_unit: self.delete_unit,
            use_forward_delete: self.use_forward_delete,
            forward_sticky: self.forward_sticky,
        }
    }
}

/// White space or closing punctuation.
pub open spec fn closes_word(c: char) -> bool {
    ||| words::whitespace(c)
    ||| c == '.' || c == ',' || c == ';' || c == ':' || c == '!' || c == '?'
    ||| c == ')' || c == ']' || c == '}'
}

/// Nothing expected, nothing learned in this correction. What was learned of
/// the text input stays.
pub open spec fn cleared(q: Firefox) -> Firefox {
    Firefox {
        expected_echo: None,
        delete_unit: DeleteUnit::Bytes,
        use_forward_delete: false,
        ..q
    }
}

pub open spec fn fresh() -> Firefox {
    Firefox {
        expected_echo: None,
        delete_unit: DeleteUnit::Bytes,
        use_forward_delete: false,
        forward_sticky: false,
    }
}

/// The judgement of a frame whose text up to the cursor is `before`.
///
/// Three shapes are healthy: the final echo, the echo of the delete alone, and
/// any mismatch that does not come right after an action. Every other shape is
/// stale, and moves the delete to character counts and Backspace keys, unless
/// the cursor of a retroactive edit has already left the word.
pub open spec fn observed(q: Firefox, before: Seq<char>, recent: bool, retroactive: bool) -> Firefox {
    match q.expected_echo {
        None => q,
        Some(echo) => if before == echo.expected {
            cleared(q)
        } else if before == echo.delete_echo {
            q
        } else if recent {
            if retroactive && before.len() > 0 && closes_word(before.last()) {
                cleared(q)
            } else {
                Firefox {
                    expected_echo: None,
                    delete_unit: DeleteUnit::Chars,
                    use_forward_delete: true,
                    ..q
                }
            }
        } else {
            cleared(q)
        },
    }
}

fn is_word_boundary(c: char) -> (b: bool)
    ensures
        b == closes_word(c),
{
    words::is_whitespace(c) || matches!(c, '.' | ',' | ';' | ':' | '!' | '?' | ')' | ']' | '}')
}

impl FirefoxContenteditableQuirk {
    pub fn new() -> (q: Self)
        ensures
            q@ == fresh(),
    {
        Self {
            expected_echo: None,
            delete_unit: DeleteUnit::Bytes,
            use_forward_delete: false,
            forward_sticky: false,
        }
    }

    pub fn delete_unit(&self) -> (u: DeleteUnit)
        ensures
            u == self@.delete_unit,
    {
        self.delete_unit
    }

    pub fn use_forward_delete(&self) -> (b: bool)
        ensures
            b == self@.use_forward_delete,
    {
        self.use_forward_delete
    }

    pub fn forward_sticky(&self) -> (b: bool)
        ensures
            b == self@.forward_sticky,
    {
        self.forward_sticky
    }

    pub fn arm_forward_sticky(&mut self)
        ensures
            final(self)@ == (Firefox { forward_sticky: true, ..old(self)@ }),
    {
        self.forward_sticky = true;
    }

    pub fn reset_forward_sticky(&mut self)
        ensures
            final(self)@ == (Firefox { forward_sticky: false, ..old(self)@ }),
    {
        self.forward_sticky = false;
    }

    /// Character counts serve for one correction.
    pub fn reset_delete_unit_after_use(&mut self)
        ensures
            final(self)@ == (Firefox { delete_unit: DeleteUnit::Bytes, ..old(self)@ }),
    {
        if self.delete_unit == DeleteUnit::Chars {
            self.delete_unit = DeleteUnit::Bytes;
        }
    }

    pub fn record_expected_echo(&mut self, expected: String, delete_echo: String)
        ensures
            final(self)@ == (Firefox {
                expected_echo: Some(
                    Echo { expected: expected@, delete_echo: delete_echo@ },
                ),
                ..old(self)@
            }),
    {
        self.expected_echo = Some(PendingEcho { expected, delete_echo });
    }

    pub fn clear(&mut self)
        ensures
            final(self)@ == cleared(old(self)@),
    {
        self.expected_echo = None;
        self.delete_unit = DeleteUnit::Bytes;
        self.use_forward_delete = false;
    }

    /// Stop waiting for an echo; keep what was learned.
    pub fn forget_expected_echo(&mut self)
        ensures
            final(self)@ == (Firefox { expected_echo: None, ..old(self)@ }),
    {
        self.expected_echo = None;
    }

    /// Judge a frame against the correction just issued.
    pub fn observe_surrounding(
        &mut self,
        before_cursor: &str,
        recent_action: bool,
        retroactive_context: bool,
    )
        ensures
            final(self)@ == observed(
                old(self)@,
                before_cursor@,
                recent_action,
                retroactive_context,
            ),
    {
        let (is_final, is_delete) = match &self.expected_echo {
            None => {
                return;
            },
            Some(echo) => (
                *before_cursor == *echo.expected.as_str(),
                *before_cursor == *echo.delete_echo.as_str(),
            ),
        };
        if is_final {
            self.clear();
        } else if is_delete {
        } else if recent_action {
            let n: usize = before_cursor.unicode_len();
            let left_word = retroactive_context && n > 0 && is_word_boundary(
                before_cursor.get_char(n - 1),
            );
            if left_word {
                self.clear();
            } else {
                self.delete_unit = DeleteUnit::Chars;
                self.use_forward_delete = true;
                self.expected_echo = None;
            }
        } else {
            self.clear();
        }
    }

    pub fn has_pending_echo(&self) -> (b: bool)
        ensures
            b == (self@.expected_echo is Some),
    {
        self.expected_echo.is_some()
    }
}

/// The final echo is judged healthy: whatever was learned of this correction
/// is cleared, and the delete goes back to bytes.
pub proof fn law_final_echo_heals(q: Firefox, recent: bool, retroactive: bool)
    requires
        q.expected_echo is Some,
    ensures
        observed(q, q.expected_echo->0.expected, recent, retroactive) == cleared(q),
{
}

/// A frame never makes the delete use characters unless it is stale: some echo
/// was expected, the frame shows neither echo, and an action was recent.
pub proof fn law_only_stale_frames_arm(
    q: Firefox,
    before: Seq<char>,
    recent: bool,
    retroactive: bool,
)
    requires
        !q.use_forward_delete,
        observed(q, before, recent, retroactive).use_forward_delete,
    ensures
        recent,
        q.expected_echo is Some,
        before != q.expected_echo->0.expected,
        before != q.expected_echo->0.delete_echo,
{
}

/// Judging a frame never touches the sticky mode.
pub proof fn law_frames_keep_sticky(q: Firefox, before: Seq<char>, recent: bool, retroactive: bool)
    ensures
        observed(q, before, recent, retroactive).forward_sticky == q.forward_sticky,
{
}

/// White space, the marks that end a sentence or a clause, and closing brackets close a
/// word; letters, digits and opening brackets do not.
pub proof fn law_what_closes_a_word(c: char)
    ensures
        words::whitespace(c) ==> closes_word(c),
        c == '.' || c == ',' || c == ';' || c == ':' || c == '!' || c == '?' ==> closes_word(c),
        c == ')' || c == ']' || c == '}' ==> closes_word(c),
        c == '(' || c == '[' || c == '{' ==> !closes_word(c),
        'a' <= c <= 'z' || 'A' <= c <= 'Z' || '0' <= c <= '9' ==> !closes_word(c),
        0xc0 <= c as u32 <= 0x24f || 0x1e00 <= c as u32 <= 0x1eff ==> !closes_word(c),
        closes_word(c) ==> words::ends_word(c, words::Boundary::Punctuated),
{
}

} // verus!
