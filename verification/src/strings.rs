//! Small operations on text: trimming, splitting, ASCII case.
use vstd::prelude::*;
use vstd::string::*;

use crate::words;

pub mod laws;

verus! {

/// The texts of a list of strings.
pub open spec fn texts(v: Seq<String>) -> Seq<Seq<char>> {
    v.map_values(|s: String| s@)
}

/// `s` without white space at its end.
pub open spec fn end_trimmed(s: Seq<char>) -> Seq<char>
    decreases s.len(),
{
    if s.len() > 0 && words::whitespace(s.last()) {
        end_trimmed(s.drop_last())
    } else {
        s
    }
}

/// `s` without white space at its start.
pub open spec fn start_trimmed(s: Seq<char>) -> Seq<char>
    decreases s.len(),
{
    if s.len() > 0 && words::whitespace(s[0]) {
        start_trimmed(s.drop_first())
    } else {
        s
    }
}

/// `s` without white space at either end.
pub open spec fn trimmed(s: Seq<char>) -> Seq<char> {
    end_trimmed(start_trimmed(s))
}

/// The lower-case form of an ASCII letter; any other character as it is.
pub open spec fn ascii_lower(c: char) -> char {
    if 'A' <= c <= 'Z' {
        ((c as u32 + 32) as u32) as char
    } else {
        c
    }
}

/// `s` with its ASCII letters in lower case.
pub open spec fn lowered(s: Seq<char>) -> Seq<char> {
    s.map_values(|c: char| ascii_lower(c))
}

/// The parts of `s` between occurrences of `sep`.
pub open spec fn split(s: Seq<char>, sep: char) -> Seq<Seq<char>>
    decreases s.len(),
{
    if s.len() == 0 {
        seq![Seq::empty()]
    } else {
        let rest = split(s.drop_last(), sep);
        if s.last() == sep {
            rest.push(Seq::empty())
        } else {
            rest.drop_last().push(rest.last().push(s.last()))
        }
    }
}

pub proof fn lemma_split_nonempty(s: Seq<char>, sep: char)
    ensures
        split(s, sep).len() > 0,
    decreases s.len(),
{
    if s.len() > 0 {
        lemma_split_nonempty(s.drop_last(), sep);
    }
}

/// The parts of `s` that white space separates.
pub open spec fn fields(s: Seq<char>) -> Seq<Seq<char>>
    decreases s.len(),
{
    if s.len() == 0 {
        Seq::empty()
    } else if words::whitespace(s.last()) {
        fields(s.drop_last())
    } else if s.len() == 1 || words::whitespace(s[s.len() - 2]) {
        fields(s.drop_last()).push(seq![s.last()])
    } else {
        let rest = fields(s.drop_last());
        rest.drop_last().push(rest.last().push(s.last()))
    }
}

/// The items of `parts` that hold some text once trimmed, trimmed.
pub open spec fn trimmed_parts(parts: Seq<Seq<char>>) -> Seq<Seq<char>>
    decreases parts.len(),
{
    if parts.len() == 0 {
        Seq::empty()
    } else {
        let rest = trimmed_parts(parts.drop_last());
        let t = trimmed(parts.last());
        if t.len() == 0 {
            rest
        } else {
            rest.push(t)
        }
    }
}

/// The texts of `parts` one behind the other, with `sep` between them.
pub open spec fn joined(parts: Seq<Seq<char>>, sep: Seq<char>) -> Seq<char>
    decreases parts.len(),
{
    if parts.len() == 0 {
        Seq::empty()
    } else if parts.len() == 1 {
        parts[0]
    } else {
        joined(parts.drop_last(), sep) + sep + parts.last()
    }
}

/// `s` starts with `p`.
pub open spec fn has_prefix(s: Seq<char>, p: Seq<char>) -> bool {
    p.len() <= s.len() && s.take(p.len() as int) == p
}

/// `s` ends with `p`.
pub open spec fn has_suffix(s: Seq<char>, p: Seq<char>) -> bool {
    p.len() <= s.len() && s.skip(s.len() - p.len()) == p
}

proof fn lemma_start_trimmed(s: Seq<char>, k: int)
    requires
        0 <= k <= s.len(),
        forall|i: int| 0 <= i < k ==> words::whitespace(#[trigger] s[i]),
        k < s.len() ==> !words::whitespace(s[k]),
    ensures
        start_trimmed(s) == s.skip(k),
    decreases s.len(),
{
    if k == 0 {
        assert(s.skip(0) =~= s);
    } else {
        assert(words::whitespace(s[0]));
        let t = s.drop_first();
        assert forall|i: int| 0 <= i < k - 1 implies words::whitespace(#[trigger] t[i]) by {
            assert(t[i] == s[i + 1]);
        }
        lemma_start_trimmed(t, k - 1);
        assert(t.skip(k - 1) =~= s.skip(k));
    }
}

proof fn lemma_end_trimmed(s: Seq<char>, k: int)
    requires
        0 <= k <= s.len(),
        forall|i: int| k <= i < s.len() ==> words::whitespace(#[trigger] s[i]),
        k > 0 ==> !words::whitespace(s[k - 1]),
    ensures
        end_trimmed(s) == s.take(k),
    decreases s.len(),
{
    if k == s.len() {
        assert(s.take(k) =~= s);
    } else {
        assert(words::whitespace(s.last()));
        let t = s.drop_last();
        assert forall|i: int| k <= i < t.len() implies words::whitespace(#[trigger] t[i]) by {
            assert(t[i] == s[i]);
        }
        lemma_end_trimmed(t, k);
        assert(t.take(k) =~= s.take(k));
    }
}

/// `s` without white space at either end.
pub fn trim(s: &str) -> (r: &str)
    ensures
        r@ == trimmed(s@),
{
    let n: usize = s.unicode_len();
    let mut i: usize = 0;
    while i < n && words::is_whitespace(s.get_char(i))
        invariant
            n == s@.len(),
            i <= n,
            forall|j: int| 0 <= j < i ==> words::whitespace(#[trigger] s@[j]),
        decreases n - i,
    {
        i = i + 1;
    }
    proof {
        lemma_start_trimmed(s@, i as int);
    }
    let ghost t = s@.skip(i as int);
    let mut k: usize = n;
    while k > i && words::is_whitespace(s.get_char(k - 1))
        invariant
            n == s@.len(),
            i <= k <= n,
            t == s@.skip(i as int),
            forall|j: int| k - i <= j < t.len() ==> words::whitespace(#[trigger] t[j]),
        decreases k,
    {
        assert(t[k - i - 1] == s@[k - 1]);
        k = k - 1;
    }
    proof {
        assert(k > i ==> t[k - i - 1] == s@[k - 1]);
        lemma_end_trimmed(t, k - i);
        assert(t.take(k - i) =~= s@.subrange(i as int, k as int));
    }
    s.substring_char(i, k)
}

/// The lower-case form of an ASCII letter.
pub fn to_ascii_lower(c: char) -> (r: char)
    ensures
        r == ascii_lower(c),
{
    if 'A' <= c && c <= 'Z' {
        (c as u8 + 32) as char
    } else {
        c
    }
}

/// `s` with its ASCII letters in lower case.
pub fn to_lower(s: &str) -> (r: String)
    ensures
        r@ == lowered(s@),
{
    let mut r = String::new();
    let ghost mut i: int = 0;
    for c in it: s.chars()
        invariant
            it.seq() == s@,
            i == it.index(),
            r@ == lowered(s@.take(i)),
    {
        r.push(to_ascii_lower(c));
        proof {
            assert(lowered(s@.take(i + 1)) =~= lowered(s@.take(i)).push(ascii_lower(s@[i])));
            i = i + 1;
        }
    }
    assert(s@.take(i) =~= s@);
    r
}

/// Whether `a` and `b` are the same but for the case of ASCII letters.
pub fn same_ignoring_case(a: &str, b: &str) -> (r: bool)
    ensures
        r == (lowered(a@) == lowered(b@)),
{
    let x = to_lower(a);
    let y = to_lower(b);
    *x.as_str() == *y.as_str()
}

proof fn lemma_texts_push(v: Seq<String>, s: String)
    ensures
        texts(v.push(s)) == texts(v).push(s@),
{
    assert(texts(v.push(s)) =~= texts(v).push(s@));
}

/// The parts of `s` between occurrences of `sep`.
pub fn split_at_char(s: &str, sep: char) -> (parts: Vec<String>)
    ensures
        texts(parts@) == split(s@, sep),
{
    let mut parts: Vec<String> = Vec::new();
    let mut cur = String::new();
    let ghost mut i: int = 0;
    for c in it: s.chars()
        invariant
            it.seq() == s@,
            i == it.index(),
            texts(parts@).push(cur@) == split(s@.take(i), sep),
    {
        let ghost before = texts(parts@);
        let ghost cur0 = cur@;
        proof {
            assert(s@.take(i + 1).drop_last() =~= s@.take(i));
            lemma_split_nonempty(s@.take(i), sep);
            assert(split(s@.take(i), sep).drop_last() =~= before);
            assert(split(s@.take(i), sep).last() == cur0);
        }
        if c == sep {
            proof {
                lemma_texts_push(parts@, cur);
            }
            parts.push(cur);
            cur = String::new();
        } else {
            cur.push(c);
        }
        proof {
            i = i + 1;
        }
    }
    proof {
        assert(s@.take(i) =~= s@);
        lemma_texts_push(parts@, cur);
    }
    parts.push(cur);
    parts
}

proof fn lemma_fields_open(s: Seq<char>)
    requires
        s.len() > 0,
        !words::whitespace(s.last()),
    ensures
        fields(s).len() > 0,
    decreases s.len(),
{
    if s.len() > 1 && !words::whitespace(s[s.len() - 2]) {
        lemma_fields_open(s.drop_last());
    }
}

/// The parts of `s` that white space separates.
pub fn split_fields(s: &str) -> (parts: Vec<String>)
    ensures
        texts(parts@) == fields(s@),
{
    let mut parts: Vec<String> = Vec::new();
    let mut cur = String::new();
    let mut open = false;
    let ghost mut i: int = 0;
    for c in it: s.chars()
        invariant
            it.seq() == s@,
            i == it.index(),
            open == (i > 0 && !words::whitespace(s@[i - 1])),
            open ==> texts(parts@).push(cur@) == fields(s@.take(i)),
            !open ==> texts(parts@) == fields(s@.take(i)) && cur@.len() == 0,
    {
        proof {
            let t = s@.take(i + 1);
            assert(t.drop_last() =~= s@.take(i));
            if i > 0 {
                assert(t[t.len() - 2] == s@[i - 1]);
            }
            if open {
                assert(fields(s@.take(i)).drop_last() =~= texts(parts@));
            }
        }
        if words::is_whitespace(c) {
            if open {
                proof {
                    lemma_texts_push(parts@, cur);
                }
                parts.push(cur);
                cur = String::new();
                open = false;
            }
        } else {
            cur.push(c);
            proof {
                if !open {
                    assert(cur@ =~= seq![c]);
                }
            }
            open = true;
        }
        proof {
            i = i + 1;
        }
    }
    assert(s@.take(i) =~= s@);
    if open {
        proof {
            lemma_texts_push(parts@, cur);
        }
        parts.push(cur);
    }
    parts
}

/// The items of `parts` that hold some text once trimmed, trimmed.
pub fn trim_parts(parts: &Vec<String>) -> (r: Vec<String>)
    ensures
        texts(r@) == trimmed_parts(texts(parts@)),
{
    let mut r: Vec<String> = Vec::new();
    for i in 0..parts.len()
        invariant
            texts(r@) == trimmed_parts(texts(parts@).take(i as int)),
    {
        let t = trim(parts[i].as_str());
        assert(texts(parts@).take(i + 1).drop_last() =~= texts(parts@).take(i as int));
        if !t.is_empty() {
            let owned = t.to_owned();
            proof {
                lemma_texts_push(r@, owned);
            }
            r.push(owned);
        }
    }
    assert(texts(parts@).take(parts.len() as int) =~= texts(parts@));
    r
}

/// The texts of `parts` one behind the other, with `sep` between them.
pub fn join(parts: &Vec<String>, sep: &str) -> (r: String)
    ensures
        r@ == joined(texts(parts@), sep@),
{
    let mut r = String::new();
    for i in 0..parts.len()
        invariant
            r@ == joined(texts(parts@).take(i as int), sep@),
    {
        let ghost t = texts(parts@).take(i + 1);
        assert(t.drop_last() =~= texts(parts@).take(i as int));
        if i > 0 {
            r.push_str(sep);
        }
        r.push_str(parts[i].as_str());
        assert(t.last() == parts[i as int]@);
        if i == 0 {
            assert(r@ =~= t[0]);
        }
    }
    assert(texts(parts@).take(parts.len() as int) =~= texts(parts@));
    r
}

/// What follows `p` in `s`, when `s` starts with it.
pub fn strip_prefix<'a>(s: &'a str, p: &str) -> (r: Option<&'a str>)
    ensures
        match r {
            Some(rest) => has_prefix(s@, p@) && rest@ == s@.skip(p@.len() as int),
            None => !has_prefix(s@, p@),
        },
{
    let n: usize = s.unicode_len();
    let m: usize = p.unicode_len();
    if m > n {
        return None;
    }
    assert(s@.subrange(0, m as int) =~= s@.take(m as int));
    assert(s@.subrange(m as int, n as int) =~= s@.skip(m as int));
    if *s.substring_char(0, m) == *p {
        Some(s.substring_char(m, n))
    } else {
        None
    }
}

/// What precedes `p` in `s`, when `s` ends with it.
pub fn strip_suffix<'a>(s: &'a str, p: &str) -> (r: Option<&'a str>)
    ensures
        match r {
            Some(rest) => has_suffix(s@, p@) && rest@ == s@.take(s@.len() - p@.len()),
            None => !has_suffix(s@, p@),
        },
{
    let n: usize = s.unicode_len();
    let m: usize = p.unicode_len();
    if m > n {
        return None;
    }
    assert(s@.subrange(n - m, n as int) =~= s@.skip(n - m));
    assert(s@.subrange(0, n - m) =~= s@.take(n - m));
    if *s.substring_char(n - m, n) == *p {
        Some(s.substring_char(0, n - m))
    } else {
        None
    }
}

/// Whether `v` holds `s`.
pub fn contains_text(v: &Vec<String>, s: &str) -> (r: bool)
    ensures
        r == texts(v@).contains(s@),
{
    for i in 0..v.len()
        invariant
            forall|j: int| 0 <= j < i ==> texts(v@)[j] != s@,
    {
        if *v[i].as_str() == *s {
            assert(texts(v@)[i as int] == s@);
            return true;
        }
    }
    false
}

/// Copies of all strings of `v`.
pub fn clone_all(v: &Vec<String>) -> (r: Vec<String>)
    ensures
        texts(r@) == texts(v@),
{
    let mut r: Vec<String> = Vec::new();
    for i in 0..v.len()
        invariant
            texts(r@) == texts(v@).take(i as int),
    {
        let s = v[i].as_str().to_owned();
        proof {
            lemma_texts_push(r@, s);
            assert(texts(v@).take(i + 1) =~= texts(v@).take(i as int).push(v[i as int]@));
        }
        r.push(s);
    }
    assert(texts(v@).take(v.len() as int) =~= texts(v@));
    r
}

/// Joining with a separator that no part holds, and splitting again, gives the
/// parts back.
pub proof fn law_split_undoes_join(parts: Seq<Seq<char>>, sep: char)
    requires
        parts.len() > 0,
        forall|i: int| 0 <= i < parts.len() ==> !(#[trigger] parts[i]).contains(sep),
    ensures
        split(joined(parts, seq![sep]), sep) == parts,
    decreases parts.len(),
{
    if parts.len() == 1 {
        lemma_split_without(Seq::empty(), parts[0], sep);
        assert(Seq::<char>::empty() + parts[0] =~= parts[0]);
        assert(split(parts[0], sep) =~= parts);
    } else {
        let p = parts.drop_last();
        assert forall|i: int| 0 <= i < p.len() implies !(#[trigger] p[i]).contains(sep) by {
            assert(p[i] == parts[i]);
        }
        law_split_undoes_join(p, sep);
        let head = joined(p, seq![sep]) + seq![sep];
        assert(head.drop_last() =~= joined(p, seq![sep]));
        assert(head.last() == sep);
        assert(split(head, sep) == p.push(Seq::empty()));
        assert(!parts[parts.len() - 1].contains(sep));
        lemma_split_without(head, parts.last(), sep);
        let whole = split(joined(parts, seq![sep]), sep);
        assert(joined(parts, seq![sep]) =~= head + parts.last());
        assert(Seq::<char>::empty() + parts.last() =~= parts.last());
        assert(split(head, sep).drop_last() =~= p);
        assert(whole =~= whole.drop_last().push(whole.last()));
        assert(p.push(parts.last()) =~= parts);
    }
}

proof fn lemma_split_without(head: Seq<char>, t: Seq<char>, sep: char)
    requires
        !t.contains(sep),
    ensures
        split(head + t, sep).len() == split(head, sep).len(),
        split(head, sep).len() > 0,
        split(head + t, sep).drop_last() == split(head, sep).drop_last(),
        split(head + t, sep).last() == split(head, sep).last() + t,
    decreases t.len(),
{
    lemma_split_nonempty(head, sep);
    if t.len() == 0 {
        assert(head + t =~= head);
        assert(split(head, sep).last() + t =~= split(head, sep).last());
    } else {
        let u = t.drop_last();
        assert(!u.contains(sep)) by {
            if u.contains(sep) {
                let i = u.index_of(sep);
                assert(t[i] == sep);
            }
        }
        lemma_split_without(head, u, sep);
        assert((head + t).drop_last() =~= head + u);
        assert(t.contains(t.last())) by {
            assert(t[t.len() - 1] == t.last());
        }
        let rest = split(head + u, sep);
        assert(split(head + t, sep) == rest.drop_last().push(rest.last().push(t.last())));
        assert(split(head + t, sep).drop_last() =~= rest.drop_last());
        assert((split(head, sep).last() + u).push(t.last()) =~= split(head, sep).last() + t);
    }
}

/// `line` without the carriage return that ends it.
pub open spec fn without_return(line: Seq<char>) -> Seq<char> {
    if line.len() > 0 && line.last() == '\r' {
        line.drop_last()
    } else {
        line
    }
}

/// The lines of a text. A line ends with a newline, or with a carriage return and
/// a newline; the ending of the last line may be missing.
pub open spec fn lines(s: Seq<char>) -> Seq<Seq<char>> {
    let parts = split(s, '\n');
    let ended = parts.drop_last().map_values(|line: Seq<char>| without_return(line));
    if parts.last().len() == 0 {
        ended
    } else {
        ended.push(parts.last())
    }
}

/// The lines of a text, each as a string of its own.
pub fn split_lines(s: &str) -> (v: Vec<String>)
    ensures
        texts(v@) == lines(s@),
{
    let parts = split_at_char(s, '\n');
    let ghost all = texts(parts@);
    proof {
        lemma_split_nonempty(s@, '\n');
    }
    let n: usize = parts.len() - 1;
    let ghost ended = all.drop_last().map_values(|line: Seq<char>| without_return(line));
    let mut v: Vec<String> = Vec::new();
    for i in 0..n
        invariant
            n + 1 == parts@.len(),
            all == texts(parts@),
            ended == all.drop_last().map_values(|line: Seq<char>| without_return(line)),
            texts(v@) == ended.take(i as int),
    {
        let mut line = parts[i].as_str().to_owned();
        let ghost before = texts(v@);
        assert(all[i as int] == parts[i as int]@);
        let count: usize = line.as_str().unicode_len();
        if count > 0 && line.as_str().get_char(count - 1) == '\r' {
            let _ = line.pop();
        }
        assert(line@ =~= without_return(all[i as int]));
        v.push(line);
        assert(texts(v@) =~= before.push(line@));
        assert(ended.take(i + 1) =~= ended.take(i as int).push(ended[i as int]));
    }
    assert(ended.take(n as int) =~= ended);
    let ghost before = texts(v@);
    let last = &parts[n];
    assert(all.last() == last@);
    if last.as_str().unicode_len() > 0 {
        v.push(last.as_str().to_owned());
        assert(texts(v@) =~= before.push(last@));
    }
    v
}

/// `s` as `{:?}` prints it.
pub uninterp spec fn debug_text(s: Seq<char>) -> Seq<char>;

/// `format!("{:?}", s)`: the text in quotes, with escapes, as the standard library
/// prints a text for debugging. What it looks like is left to the standard library.
#[verifier::external_body]
pub(crate) fn to_debug_text(s: &str) -> (r: String)
    ensures
        r@ == debug_text(s@),
{
    format!("{:?}", s)
}

} // verus!
