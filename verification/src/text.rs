//! Text measured two ways.
//!
//! Clients report cursors as UTF-8 byte offsets or as character offsets. Here a
//! text is a sequence of characters, each with its UTF-8 width, and every byte
//! offset is resolved to a character position once, at the boundary.
use vstd::prelude::*;
use vstd::utf8::*;

verus! {

/// `String::push`: the character is appended to the text.
pub assume_specification[ String::push ](s: &mut String, c: char)
    ensures
        final(s)@ == old(s)@.push(c),
;

/// `String::pop`: the last character is removed and returned; an empty text is
/// left as it is.
pub assume_specification[ String::pop ](s: &mut String) -> (r: Option<char>)
    ensures
        old(s)@.len() == 0 ==> r is None && final(s)@ == old(s)@,
        old(s)@.len() > 0 ==> r == Some(old(s)@.last()) && final(s)@ == old(s)@.drop_last(),
;

/// `String::push_str`: the characters of `t` are appended in order.
pub assume_specification[ String::push_str ](s: &mut String, t: &str)
    ensures
        final(s)@ == old(s)@ + t@,
;

/// `str == str`: two texts are equal when they hold the same characters.
pub assume_specification[ <str as PartialEq<str>>::eq ](a: &str, b: &str) -> (r: bool)
    ensures
        r == (a@ == b@),
;

/// Number of bytes in the UTF-8 encoding of `c`.
pub open spec fn char_width(c: char) -> nat {
    if (c as u32) < 0x80 {
        1
    } else if (c as u32) < 0x800 {
        2
    } else if (c as u32) < 0x10000 {
        3
    } else {
        4
    }
}

/// Number of bytes in the UTF-8 encoding of `s`.
pub open spec fn utf8_len(s: Seq<char>) -> nat
    decreases s.len(),
{
    if s.len() == 0 {
        0
    } else {
        utf8_len(s.drop_last()) + char_width(s.last())
    }
}

/// How many whole characters of `s` fit in its first `bytes` bytes.
pub open spec fn chars_within(s: Seq<char>, bytes: nat) -> nat
    decreases s.len(),
{
    if utf8_len(s) <= bytes {
        s.len()
    } else {
        chars_within(s.drop_last(), bytes)
    }
}

pub fn width(c: char) -> (w: usize)
    ensures
        w == char_width(c),
{
    let v: u32 = c as u32;
    if v < 0x80 {
        1
    } else if v < 0x800 {
        2
    } else if v < 0x10000 {
        3
    } else {
        4
    }
}

/// The width of a concatenation is the sum of the widths.
pub proof fn lemma_utf8_len_concat(a: Seq<char>, b: Seq<char>)
    ensures
        utf8_len(a + b) == utf8_len(a) + utf8_len(b),
    decreases b.len(),
{
    if b.len() == 0 {
        assert(a + b =~= a);
    } else {
        assert((a + b).drop_last() =~= a + b.drop_last());
        lemma_utf8_len_concat(a, b.drop_last());
    }
}

/// A longer prefix is wider, by at least one byte per character.
pub proof fn lemma_utf8_len_take(s: Seq<char>, i: int, j: int)
    requires
        0 <= i <= j <= s.len(),
    ensures
        utf8_len(s.take(i)) + (j - i) <= utf8_len(s.take(j)),
    decreases j - i,
{
    if i < j {
        lemma_utf8_len_take(s, i, j - 1);
        assert(s.take(j).drop_last() =~= s.take(j - 1));
    }
}

/// `chars_within` is the longest prefix that fits, and the only one.
pub proof fn lemma_chars_within(s: Seq<char>, bytes: nat)
    ensures
        chars_within(s, bytes) <= s.len(),
        utf8_len(s.take(chars_within(s, bytes) as int)) <= bytes,
        forall|k: int|
            chars_within(s, bytes) < k <= s.len() ==> bytes < #[trigger] utf8_len(s.take(k)),
    decreases s.len(),
{
    if utf8_len(s) <= bytes {
        assert(s.take(s.len() as int) =~= s);
    } else {
        let t = s.drop_last();
        lemma_chars_within(t, bytes);
        let c = chars_within(t, bytes) as int;
        assert(s.take(c) =~= t.take(c));
        assert forall|k: int| c < k <= s.len() implies bytes < #[trigger] utf8_len(s.take(k)) by {
            if k == s.len() {
                assert(s.take(k) =~= s);
            } else {
                assert(s.take(k) =~= t.take(k));
            }
        }
    }
}

/// A prefix that fits and cannot be extended by one character is `chars_within`.
pub proof fn lemma_chars_within_unique(s: Seq<char>, bytes: nat, k: int)
    requires
        0 <= k <= s.len(),
        utf8_len(s.take(k)) <= bytes,
        k < s.len() ==> bytes < utf8_len(s.take(k + 1)),
    ensures
        chars_within(s, bytes) == k,
{
    lemma_chars_within(s, bytes);
    let c = chars_within(s, bytes) as int;
    if c > k {
        lemma_utf8_len_take(s, k + 1, c);
    }
}

/// The UTF-8 encoding of `s` has `utf8_len(s)` bytes.
pub proof fn lemma_utf8_len_encode(s: Seq<char>)
    ensures
        encode_utf8(s).len() == utf8_len(s),
    decreases s.len(),
{
    if s.len() > 0 {
        lemma_utf8_len_encode(s.drop_first());
        assert(s =~= seq![s[0]] + s.drop_first());
        lemma_utf8_len_concat(seq![s[0]], s.drop_first());
        assert(seq![s[0]].drop_last() =~= Seq::<char>::empty());
        reveal_with_fuel(utf8_len, 2);
        char_is_scalar(s[0]);
    }
}

/// Number of bytes in the UTF-8 encoding of `text`.
pub fn byte_len(text: &str) -> (n: usize)
    ensures
        n == utf8_len(text@),
{
    proof {
        lemma_utf8_len_encode(text@);
    }
    text.as_bytes().len()
}

/// How many whole characters of `text` fit in its first `bytes` bytes.
pub fn char_floor(text: &str, bytes: usize) -> (k: usize)
    ensures
        k == chars_within(text@, bytes as nat),
{
    let mut k: usize = 0;
    let mut used: usize = 0;
    for c in it: text.chars()
        invariant
            it.seq() == text@,
            k == it.index(),
            k <= used <= bytes,
            used == utf8_len(text@.take(k as int)),
    {
        let w: usize = width(c);
        assert(text@.take(k + 1).drop_last() =~= text@.take(k as int));
        if w > bytes - used {
            proof {
                lemma_chars_within_unique(text@, bytes as nat, k as int);
            }
            return k;
        }
        used = used + w;
        k = k + 1;
    }
    proof {
        lemma_chars_within_unique(text@, bytes as nat, k as int);
    }
    k
}

} // verus!
