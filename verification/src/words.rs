//! Words around a cursor, and what changed between two surrounding-text frames.
use vstd::prelude::*;
use vstd::string::*;

use crate::text;

verus! {

/// Unicode `White_Space`.
pub open spec fn whitespace(c: char) -> bool {
    let v = c as u32;
    ||| 0x9 <= v <= 0xd
    ||| v == 0x20
    ||| v == 0x85
    ||| v == 0xa0
    ||| v == 0x1680
    ||| 0x2000 <= v <= 0x200a
    ||| v == 0x2028
    ||| v == 0x2029
    ||| v == 0x202f
    ||| v == 0x205f
    ||| v == 0x3000
}

/// Whether `c` is white space.
pub fn is_whitespace(c: char) -> (b: bool)
    ensures
        b == whitespace(c),
{
    let v: u32 = c as u32;
    (0x9 <= v && v <= 0xd) || v == 0x20 || v == 0x85 || v == 0xa0 || v == 0x1680 || (0x2000 <= v
        && v <= 0x200a) || v == 0x2028 || v == 0x2029 || v == 0x202f || v == 0x205f || v == 0x3000
}

/// Punctuation that ends a word. Hyphen is not in it: Vietnamese writes hyphens
/// inside compounds and proper nouns (`bán-nguyệt`, `Ê-đê`).
pub open spec fn word_punctuation(c: char) -> bool {
    ||| c == '.' || c == ',' || c == ';' || c == ':' || c == '!' || c == '?'
    ||| c == '"' || c == '\'' || c == '“' || c == '”' || c == '‘' || c == '’'
    ||| c == '(' || c == ')' || c == '[' || c == ']' || c == '{' || c == '}'
    ||| c == '/' || c == '\\' || c == '|' || c == '…'
}

/// What separates one word from the next.
#[derive(Clone, Copy, Debug, PartialEq, Eq, Structural)]
pub enum Boundary {
    /// White space, NUL and sentence or bracket punctuation.
    Punctuated,
    /// White space and NUL alone.
    Spaced,
}

/// Whether `c` ends a word under `kind`.
pub open spec fn ends_word(c: char, kind: Boundary) -> bool {
    ||| whitespace(c)
    ||| c == '\0'
    ||| kind == Boundary::Punctuated && word_punctuation(c)
}

/// Whether `c` ends a word: white space, NUL or punctuation.
pub fn is_word_boundary(c: char) -> (b: bool)
    ensures
        b == ends_word(c, Boundary::Punctuated),
{
    is_whitespace(c) || c == '\0' || matches!(
        c,
        '.' | ',' | ';' | ':' | '!' | '?' | '"' | '\'' | '“' | '”' | '‘' | '’' | '(' | ')' | '['
        | ']' | '{' | '}' | '/' | '\\' | '|' | '…'
    )
}

/// The run of characters at the end of `s` that holds no word boundary.
pub open spec fn trailing_word(s: Seq<char>, kind: Boundary) -> Seq<char>
    decreases s.len(),
{
    if s.len() == 0 || ends_word(s.last(), kind) {
        Seq::empty()
    } else {
        trailing_word(s.drop_last(), kind).push(s.last())
    }
}

/// The text before a byte cursor: the longest prefix of whole characters that
/// ends at or before it.
pub open spec fn before_cursor(s: Seq<char>, cursor: nat) -> Seq<char> {
    s.take(text::chars_within(s, cursor) as int)
}

/// The word that ends at a byte cursor.
pub open spec fn word_before(s: Seq<char>, cursor: nat) -> Seq<char> {
    trailing_word(before_cursor(s, cursor), Boundary::Punctuated)
}

/// The word that ends at the end of `s`, as seen by a 32-bit cursor.
#[verifier::opaque]
pub open spec fn last_word(s: Seq<char>) -> Seq<char> {
    word_before(s, (text::utf8_len(s) as u32) as nat)
}

/// The trailing word is a suffix of the text.
pub proof fn lemma_trailing_word_suffix(s: Seq<char>, kind: Boundary)
    ensures
        trailing_word(s, kind).len() <= s.len(),
        trailing_word(s, kind) == s.skip(s.len() - trailing_word(s, kind).len()),
    decreases s.len(),
{
    if s.len() > 0 && !ends_word(s.last(), kind) {
        lemma_trailing_word_suffix(s.drop_last(), kind);
        let w = trailing_word(s.drop_last(), kind);
        assert(w.push(s.last()) =~= s.skip(s.len() - w.len() - 1));
    } else {
        assert(s.skip(s.len() as int) =~= Seq::<char>::empty());
    }
}

/// The trailing word is the longest suffix that holds no word boundary.
pub proof fn law_trailing_word_maximal(s: Seq<char>, kind: Boundary)
    ensures
        forall|i: int|
            0 <= i < trailing_word(s, kind).len() ==> !ends_word(
                #[trigger] trailing_word(s, kind)[i],
                kind,
            ),
        trailing_word(s, kind).len() < s.len() ==> ends_word(
            s[s.len() - trailing_word(s, kind).len() - 1],
            kind,
        ),
        s.len() > 0 ==> (trailing_word(s, kind).len() == 0 <==> ends_word(s.last(), kind)),
    decreases s.len(),
{
    if s.len() > 0 && !ends_word(s.last(), kind) {
        law_trailing_word_maximal(s.drop_last(), kind);
    }
}

/// A word without a boundary is its own trailing word.
pub proof fn law_trailing_word_idempotent(s: Seq<char>, kind: Boundary)
    ensures
        trailing_word(trailing_word(s, kind), kind) == trailing_word(s, kind),
    decreases s.len(),
{
    if s.len() > 0 && !ends_word(s.last(), kind) {
        law_trailing_word_idempotent(s.drop_last(), kind);
        let w = trailing_word(s.drop_last(), kind);
        assert(w.push(s.last()).drop_last() =~= w);
    }
}

/// A cursor at the end of a text that a 32-bit cursor can address sees all of it.
pub proof fn law_cursor_at_end(s: Seq<char>)
    requires
        text::utf8_len(s) <= u32::MAX,
    ensures
        before_cursor(s, text::utf8_len(s)) == s,
        last_word(s) == trailing_word(s, Boundary::Punctuated),
{
    reveal(last_word);
    assert(s.take(s.len() as int) =~= s);
}

/// Everything in front of the cursor, cut back to a character boundary.
pub fn text_before_cursor(text: &str, cursor: u32) -> (r: &str)
    ensures
        r@ == before_cursor(text@, cursor as nat),
{
    let k: usize = text::char_floor(text, cursor as usize);
    proof {
        text::lemma_chars_within(text@, cursor as nat);
        assert(text@.subrange(0, k as int) =~= text@.take(k as int));
    }
    text.substring_char(0, k)
}

/// The word that ends at the end of `text`.
pub fn word_at_end(text: &str, kind: Boundary) -> (r: &str)
    ensures
        r@ == trailing_word(text@, kind),
{
    let n: usize = text.unicode_len();
    let mut start: usize = 0;
    let mut i: usize = 0;
    for c in it: text.chars()
        invariant
            it.seq() == text@,
            i == it.index(),
            n == text@.len(),
            start <= i <= n,
            start == i - trailing_word(text@.take(i as int), kind).len(),
    {
        assert(text@.take(i + 1).drop_last() =~= text@.take(i as int));
        let stop = match kind {
            Boundary::Punctuated => is_word_boundary(c),
            Boundary::Spaced => is_whitespace(c) || c == '\0',
        };
        i = i + 1;
        if stop {
            start = i;
        }
    }
    proof {
        assert(text@.take(n as int) =~= text@);
        lemma_trailing_word_suffix(text@, kind);
        assert(text@.subrange(start as int, n as int) =~= text@.skip(start as int));
    }
    text.substring_char(start, n)
}

/// The word that ends at `cursor`.
pub fn current_word_before_cursor(text: &str, cursor: u32) -> (r: &str)
    ensures
        r@ == word_before(text@, cursor as nat),
{
    word_at_end(text_before_cursor(text, cursor), Boundary::Punctuated)
}

/// The word that ends where typing would insert: at the nearer end of the
/// selection.
pub fn current_word_before_insertion_point(text: &str, cursor: u32, anchor: u32) -> (r: &str)
    ensures
        r@ == word_before(
            text@,
            if cursor <= anchor {
                cursor as nat
            } else {
                anchor as nat
            },
        ),
{
    let at: u32 = if cursor <= anchor {
        cursor
    } else {
        anchor
    };
    current_word_before_cursor(text, at)
}

/// The last word of `text`, as seen by a 32-bit cursor.
pub fn last_word_of(text: &str) -> (r: &str)
    ensures
        r@ == last_word(text@),
{
    reveal(last_word);
    let at: u32 = text::byte_len(text) as u32;
    current_word_before_cursor(text, at)
}

/// The character position of byte offset `at`, when it is one.
pub fn char_at_byte(text: &str, at: usize) -> (r: Option<usize>)
    ensures
        r matches Some(k) ==> k <= text@.len() && text::utf8_len(text@.take(k as int)) == at,
        r is None ==> forall|k: int| 0 <= k <= text@.len() ==> #[trigger] text::utf8_len(text@.take(k)) != at,
{
    let k: usize = text::char_floor(text, at);
    proof {
        text::lemma_chars_within(text@, at as nat);
        assert(text@.subrange(0, k as int) =~= text@.take(k as int));
    }
    if text::byte_len(text.substring_char(0, k)) == at {
        Some(k)
    } else {
        proof {
            assert forall|j: int| 0 <= j <= text@.len() implies #[trigger] text::utf8_len(text@.take(j))
                != at by {
                if j < k {
                    text::lemma_utf8_len_take(text@, j, k as int);
                }
            }
        }
        None
    }
}

/// The byte offset of character `char_idx`; the end of the text when the text
/// is not that long.
pub fn char_to_byte_offset(text: &str, char_idx: u32) -> (b: u32)
    ensures
        b == text::utf8_len(
            text@.take(
                if char_idx <= text@.len() {
                    char_idx as int
                } else {
                    text@.len() as int
                },
            ),
        ) as u32,
{
    let n: usize = text.unicode_len();
    let k: usize = if char_idx as usize <= n {
        char_idx as usize
    } else {
        n
    };
    proof {
        assert(text@.subrange(0, k as int) =~= text@.take(k as int));
    }
    text::byte_len(text.substring_char(0, k)) as u32
}

/// `text` without its last `backspaces` characters.
pub fn prefix_after_char_delete(text: &str, backspaces: usize) -> (r: String)
    ensures
        r@ == chars_dropped(text@, backspaces as nat),
{
    let n: usize = text.unicode_len();
    let keep: usize = n.saturating_sub(backspaces);
    proof {
        assert(text@.subrange(0, keep as int) =~= text@.take(keep as int));
    }
    text.substring_char(0, keep).to_owned()
}

/// `s` without its last `n` characters; empty when it has no more than that.
pub open spec fn chars_dropped(s: Seq<char>, n: nat) -> Seq<char> {
    s.take(
        if n <= s.len() {
            s.len() - n
        } else {
            0
        },
    )
}

/// The frame (`cur`, `cc`) is the frame (`prev`, `pc`) with one character
/// inserted at the cursor.
pub open spec fn one_char_inserted(prev: Seq<char>, pc: nat, cur: Seq<char>, cc: nat) -> bool {
    exists|k: int, c: char|
        {
            &&& 0 <= k <= prev.len()
            &&& text::utf8_len(prev.take(k)) == pc
            &&& cur == #[trigger] prev.insert(k, c)
            &&& cc == pc + text::char_width(c)
        }
}

/// The frame (`cur`, `cc`) is the frame (`prev`, `pc`) with the characters
/// between the two cursors deleted.
pub open spec fn span_deleted(prev: Seq<char>, pc: nat, cur: Seq<char>, cc: nat) -> bool {
    exists|i: int, j: int|
        {
            &&& 0 <= i < j <= prev.len()
            &&& text::utf8_len(prev.take(i)) == cc
            &&& text::utf8_len(prev.take(j)) == pc
            &&& cur == #[trigger] (prev.take(i) + prev.skip(j))
        }
}

/// `cur` is `prev` with `ch` inserted immediately before the byte cursor.
pub open spec fn char_inserted_before(prev: Seq<char>, cur: Seq<char>, cursor: nat, ch: char) -> bool {
    exists|k: int|
        {
            &&& 0 <= k <= prev.len()
            &&& cur == #[trigger] prev.insert(k, ch)
            &&& text::utf8_len(cur.take(k + 1)) == if cursor <= text::utf8_len(cur) {
                cursor
            } else {
                text::utf8_len(cur)
            }
        }
}

proof fn lemma_take_injective(s: Seq<char>, i: int, j: int)
    requires
        0 <= i <= s.len(),
        0 <= j <= s.len(),
        text::utf8_len(s.take(i)) == text::utf8_len(s.take(j)),
    ensures
        i == j,
{
    if i < j {
        text::lemma_utf8_len_take(s, i, j);
    } else {
        text::lemma_utf8_len_take(s, j, i);
    }
}

proof fn lemma_insert_take(s: Seq<char>, k: int, c: char)
    requires
        0 <= k <= s.len(),
    ensures
        s.insert(k, c).take(k) == s.take(k),
        s.insert(k, c).skip(k + 1) == s.skip(k),
        s.insert(k, c).len() == s.len() + 1,
        s.insert(k, c)[k] == c,
        text::utf8_len(s.insert(k, c).take(k + 1)) == text::utf8_len(s.take(k)) + text::char_width(c),
{
    let t = s.insert(k, c);
    assert(t.take(k) =~= s.take(k));
    assert(t.skip(k + 1) =~= s.skip(k));
    assert(t.take(k + 1).drop_last() =~= t.take(k));
}

/// Whether the second frame is the first with exactly one character inserted
/// at its cursor, in the middle of the text or at its end.
pub fn detect_one_char_insertion(
    prev_text: &str,
    prev_cursor: u32,
    text: &str,
    cursor: u32,
) -> (r: bool)
    ensures
        r == one_char_inserted(prev_text@, prev_cursor as nat, text@, cursor as nat),
{
    let ghost p = prev_text@;
    let ghost t = text@;
    proof {
        assert forall|k: int, c: char|
            0 <= k <= p.len() && t == #[trigger] p.insert(k, c) implies t.take(k) == p.take(k)
            && t.skip(k + 1) == p.skip(k) && t.len() == p.len() + 1 && t[k] == c && text::utf8_len(
            t.take(k + 1),
        ) == text::utf8_len(p.take(k)) + text::char_width(c) by {
            lemma_insert_take(p, k, c);
        }
    }
    match (char_at_byte(prev_text, prev_cursor as usize), char_at_byte(text, cursor as usize)) {
        (Some(k), Some(j)) => {
            proof {
                if one_char_inserted(p, prev_cursor as nat, t, cursor as nat) {
                    let (k0, c0) = choose|k0: int, c0: char|
                        0 <= k0 <= p.len() && text::utf8_len(p.take(k0)) == prev_cursor && t
                            == #[trigger] p.insert(k0, c0) && cursor == prev_cursor + text::char_width(c0);
                    lemma_take_injective(p, k as int, k0);
                    lemma_take_injective(t, j as int, k0 + 1);
                }
            }
            if j == 0 || k != j - 1 {
                return false;
            }
            let n: usize = prev_text.unicode_len();
            let m: usize = text.unicode_len();
            proof {
                assert(p.subrange(0, k as int) =~= p.take(k as int));
                assert(t.subrange(0, k as int) =~= t.take(k as int));
                assert(p.subrange(k as int, n as int) =~= p.skip(k as int));
                assert(t.subrange(j as int, m as int) =~= t.skip(j as int));
            }
            if *text.substring_char(0, k) == *prev_text.substring_char(0, k)
                && *text.substring_char(j, m) == *prev_text.substring_char(k, n) {
                proof {
                    assert(t =~= p.insert(k as int, t[k as int]));
                    lemma_insert_take(p, k as int, t[k as int]);
                }
                true
            } else {
                false
            }
        },
        _ => {
            proof {
                if one_char_inserted(p, prev_cursor as nat, t, cursor as nat) {
                    let (k0, c0) = choose|k0: int, c0: char|
                        0 <= k0 <= p.len() && text::utf8_len(p.take(k0)) == prev_cursor && t
                            == #[trigger] p.insert(k0, c0) && cursor == prev_cursor + text::char_width(c0);
                    assert(text::utf8_len(t.take(k0 + 1)) == cursor);
                }
            }
            false
        },
    }
}

/// Whether the second frame is the first with the text between the two cursors
/// deleted.
pub fn detect_deletion(prev_text: &str, prev_cursor: u32, text: &str, cursor: u32) -> (r: bool)
    ensures
        r == span_deleted(prev_text@, prev_cursor as nat, text@, cursor as nat),
{
    let ghost p = prev_text@;
    let ghost t = text@;
    proof {
        if span_deleted(p, prev_cursor as nat, t, cursor as nat) {
            let (i0, j0) = choose|i: int, j: int|
                0 <= i < j <= p.len() && text::utf8_len(p.take(i)) == cursor && text::utf8_len(p.take(j))
                    == prev_cursor && t == #[trigger] (p.take(i) + p.skip(j));
            assert(t.take(i0) =~= p.take(i0));
            assert(t.skip(i0) =~= p.skip(j0));
        }
    }
    match (char_at_byte(prev_text, cursor as usize), char_at_byte(prev_text, prev_cursor as usize)) {
        (Some(i), Some(j)) => {
            let n: usize = prev_text.unicode_len();
            let m: usize = text.unicode_len();
            proof {
                if span_deleted(p, prev_cursor as nat, t, cursor as nat) {
                    let (i0, j0) = choose|i: int, j: int|
                        0 <= i < j <= p.len() && text::utf8_len(p.take(i)) == cursor && text::utf8_len(
                            p.take(j),
                        ) == prev_cursor && t == #[trigger] (p.take(i) + p.skip(j));
                    lemma_take_injective(p, i as int, i0);
                    lemma_take_injective(p, j as int, j0);
                }
            }
            if i >= j || i > m {
                return false;
            }
            proof {
                assert(p.subrange(0, i as int) =~= p.take(i as int));
                assert(t.subrange(0, i as int) =~= t.take(i as int));
                assert(p.subrange(j as int, n as int) =~= p.skip(j as int));
                assert(t.subrange(i as int, m as int) =~= t.skip(i as int));
            }
            if *text.substring_char(0, i) == *prev_text.substring_char(0, i)
                && *text.substring_char(i, m) == *prev_text.substring_char(j, n) {
                assert(t =~= p.take(i as int) + p.skip(j as int));
                true
            } else {
                false
            }
        },
        _ => false,
    }
}

/// Whether `text` is `prev_text` with exactly `ch` inserted immediately before
/// `cursor`. How the cursor got there is irrelevant: the unchanged prefix and
/// suffix prove that this key, and no equal character that stood there before,
/// produced the frame.
pub fn confirms_insertion(prev_text: &str, text: &str, cursor: u32, ch: char) -> (r: bool)
    ensures
        r == char_inserted_before(prev_text@, text@, cursor as nat, ch),
{
    let ghost p = prev_text@;
    let ghost t = text@;
    let total: usize = text::byte_len(text);
    let at: usize = if (cursor as usize) < total {
        cursor as usize
    } else {
        total
    };
    match char_at_byte(text, at) {
        Some(j) => {
            proof {
                if char_inserted_before(p, t, cursor as nat, ch) {
                    let k0 = choose|k: int|
                        0 <= k <= p.len() && t == #[trigger] p.insert(k, ch) && text::utf8_len(
                            t.take(k + 1),
                        ) == at;
                    lemma_insert_take(p, k0, ch);
                    lemma_take_injective(t, j as int, k0 + 1);
                }
            }
            let n: usize = prev_text.unicode_len();
            let m: usize = text.unicode_len();
            if j == 0 || n != m - 1 {
                return false;
            }
            let k: usize = j - 1;
            proof {
                assert(p.subrange(0, k as int) =~= p.take(k as int));
                assert(t.subrange(0, k as int) =~= t.take(k as int));
                assert(p.subrange(k as int, n as int) =~= p.skip(k as int));
                assert(t.subrange(j as int, m as int) =~= t.skip(j as int));
            }
            if text.get_char(k) == ch && *text.substring_char(0, k) == *prev_text.substring_char(
                0,
                k,
            ) && *text.substring_char(j, m) == *prev_text.substring_char(k, n) {
                assert(t =~= p.insert(k as int, ch));
                true
            } else {
                false
            }
        },
        None => {
            proof {
                if char_inserted_before(p, t, cursor as nat, ch) {
                    let k0 = choose|k: int|
                        0 <= k <= p.len() && t == #[trigger] p.insert(k, ch) && text::utf8_len(
                            t.take(k + 1),
                        ) == at;
                    lemma_insert_take(p, k0, ch);
                }
            }
            false
        },
    }
}

/// No transition is both an insertion and a deletion.
pub proof fn law_insertion_is_no_deletion(prev: Seq<char>, pc: nat, cur: Seq<char>, cc: nat)
    ensures
        !(one_char_inserted(prev, pc, cur, cc) && span_deleted(prev, pc, cur, cc)),
{
    if one_char_inserted(prev, pc, cur, cc) && span_deleted(prev, pc, cur, cc) {
        let (k, c) = choose|k: int, c: char|
            0 <= k <= prev.len() && text::utf8_len(prev.take(k)) == pc && cur == #[trigger] prev.insert(
                k,
                c,
            ) && cc == pc + text::char_width(c);
        assert(cur.len() == prev.len() + 1);
    }
}

/// Deleting what was just inserted leads back to the frame before it.
pub proof fn law_deletion_undoes_insertion(prev: Seq<char>, pc: nat, cur: Seq<char>, cc: nat)
    requires
        one_char_inserted(prev, pc, cur, cc),
    ensures
        span_deleted(cur, cc, prev, pc),
{
    let (k, c) = choose|k: int, c: char|
        0 <= k <= prev.len() && text::utf8_len(prev.take(k)) == pc && cur == #[trigger] prev.insert(k, c)
            && cc == pc + text::char_width(c);
    lemma_insert_take(prev, k, c);
    assert(prev =~= cur.take(k) + cur.skip(k + 1));
}

/// A frame that inserts one character at the cursor confirms that character.
pub proof fn law_insertion_confirms_char(prev: Seq<char>, pc: nat, cur: Seq<char>, cc: nat)
    requires
        one_char_inserted(prev, pc, cur, cc),
    ensures
        exists|c: char| #[trigger] char_inserted_before(prev, cur, cc, c),
{
    let (k, c) = choose|k: int, c: char|
        0 <= k <= prev.len() && text::utf8_len(prev.take(k)) == pc && cur == #[trigger] prev.insert(k, c)
            && cc == pc + text::char_width(c);
    lemma_insert_take(prev, k, c);
    text::lemma_utf8_len_take(cur, k + 1, cur.len() as int);
    assert(cur.take(cur.len() as int) =~= cur);
    assert(char_inserted_before(prev, cur, cc, c));
}

/// Letters and digits are parts of words, whatever ends them; white space ends every word,
/// and a bracket or a quotation mark does so on either side of what it encloses.
pub proof fn law_letters_are_parts_of_words(c: char, kind: Boundary)
    ensures
        'a' <= c <= 'z' || 'A' <= c <= 'Z' || '0' <= c <= '9' ==> !ends_word(c, kind),
        0xc0 <= c as u32 <= 0x24f || 0x1e00 <= c as u32 <= 0x1eff ==> !ends_word(c, kind),
        whitespace(c) ==> ends_word(c, kind),
        ends_word(c, Boundary::Spaced) ==> ends_word(c, Boundary::Punctuated),
        word_punctuation('(') == word_punctuation(')') && word_punctuation('[')
            == word_punctuation(']') && word_punctuation('{') == word_punctuation('}')
            && word_punctuation('“') == word_punctuation('”') && word_punctuation('‘')
            == word_punctuation('’'),
        word_punctuation(c) ==> !whitespace(c),
{
}

/// Dropping characters drops them at the end: what is in front of them stays, and there
/// are never fewer than none.
pub proof fn law_dropping_drops_the_end(a: Seq<char>, b: Seq<char>, n: nat)
    ensures
        chars_dropped(a + b, b.len()) == a,
        n >= a.len() ==> chars_dropped(a, n).len() == 0,
        chars_dropped(a, 0) == a,
{
    assert((a + b).take((a + b).len() - b.len()) =~= a);
    assert(a.take(a.len() as int) =~= a);
}

/// A word is what stands behind the last end of a word.
pub proof fn law_words_stand_behind_ends(s: Seq<char>, c: char, word: Seq<char>, kind: Boundary)
    requires
        ends_word(c, kind),
        forall|i: int| 0 <= i < word.len() ==> !ends_word(#[trigger] word[i], kind),
    ensures
        trailing_word(s.push(c) + word, kind) == word,
        trailing_word(word, kind) == word,
    decreases word.len(),
{
    let t = s.push(c) + word;
    if word.len() == 0 {
        assert(t =~= s.push(c));
        assert(trailing_word(t, kind) =~= word);
        assert(trailing_word(word, kind) =~= word);
    } else {
        let w = word.drop_last();
        assert forall|i: int| 0 <= i < w.len() implies !ends_word(#[trigger] w[i], kind) by {
            assert(w[i] == word[i]);
        }
        law_words_stand_behind_ends(s, c, w, kind);
        assert(t.drop_last() =~= s.push(c) + w);
        assert(t.last() == word[word.len() - 1]);
        assert(w.push(word.last()) =~= word);
    }
}

} // verus!
