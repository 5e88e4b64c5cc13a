//! What holds of texts that are trimmed, split and joined.
use vstd::prelude::*;

use crate::strings;
use crate::words;

verus! {

/// Nothing but white space.
pub open spec fn blank(s: Seq<char>) -> bool {
    forall|i: int| 0 <= i < s.len() ==> words::whitespace(#[trigger] s[i])
}

/// No white space at all, and not empty.
pub open spec fn solid(s: Seq<char>) -> bool {
    s.len() > 0 && forall|i: int| 0 <= i < s.len() ==> !words::whitespace(#[trigger] s[i])
}

/// White space at neither end.
pub open spec fn trim(s: Seq<char>) -> bool {
    s.len() > 0 ==> !words::whitespace(s[0]) && !words::whitespace(s.last())
}

/// Trimming takes white space away at both ends, and all of it, and nothing else.
pub proof fn law_trimming_takes_white_space(a: Seq<char>, t: Seq<char>, b: Seq<char>)
    requires
        blank(a) && blank(b) && trim(t),
    ensures
        strings::trimmed(a + t + b) == t,
{
    let s = a + t + b;
    if t.len() == 0 {
        assert forall|i: int| 0 <= i < s.len() implies words::whitespace(#[trigger] s[i]) by {
            if i >= a.len() {
                assert(s[i] == b[i - a.len()]);
            }
        }
        strings::lemma_start_trimmed(s, s.len() as int);
        assert(s.skip(s.len() as int) =~= t);
        assert(strings::end_trimmed(t) == t);
    } else {
        let k = a.len() as int;
        strings::lemma_start_trimmed(s, k);
        let u = s.skip(k);
        assert(u =~= t + b);
        assert forall|i: int| t.len() <= i < u.len() implies words::whitespace(#[trigger] u[i]) by {
            assert(u[i] == b[i - t.len()]);
        }
        assert(u[t.len() - 1] == t.last());
        strings::lemma_end_trimmed(u, t.len() as int);
        assert(u.take(t.len() as int) =~= t);
    }
}

/// Every text is white space, then what trimming leaves of it, then white space.
pub proof fn law_texts_are_trimmed_between(s: Seq<char>)
    ensures
        trim(strings::trimmed(s)),
        exists|a: Seq<char>, b: Seq<char>|
            blank(a) && blank(b) && s == #[trigger] (a + strings::trimmed(s) + b),
{
    let i = lemma_first_solid(s);
    let a = s.take(i);
    let u = s.skip(i);
    strings::lemma_start_trimmed(s, i);
    let j = lemma_last_solid(u);
    strings::lemma_end_trimmed(u, j);
    let t = strings::trimmed(s);
    let b = u.skip(j);
    assert(t == u.take(j));
    if j > 0 {
        assert(u[0] == s[i]);
        assert(t[0] == u[0]);
        assert(t.last() == u[j - 1]);
    }
    assert forall|k: int| 0 <= k < a.len() implies words::whitespace(#[trigger] a[k]) by {
        assert(a[k] == s[k]);
    }
    assert forall|k: int| 0 <= k < b.len() implies words::whitespace(#[trigger] b[k]) by {
        assert(b[k] == u[j + k]);
    }
    assert(s =~= a + t + b);
}

proof fn lemma_first_solid(s: Seq<char>) -> (k: int)
    ensures
        0 <= k <= s.len(),
        forall|i: int| 0 <= i < k ==> words::whitespace(#[trigger] s[i]),
        k < s.len() ==> !words::whitespace(s[k]),
    decreases s.len(),
{
    if s.len() > 0 && words::whitespace(s[0]) {
        let k = lemma_first_solid(s.drop_first());
        assert forall|i: int| 0 <= i < k + 1 implies words::whitespace(#[trigger] s[i]) by {
            if i > 0 {
                assert(s.drop_first()[i - 1] == s[i]);
            }
        }
        k + 1
    } else {
        0
    }
}

proof fn lemma_last_solid(s: Seq<char>) -> (k: int)
    ensures
        0 <= k <= s.len(),
        forall|i: int| k <= i < s.len() ==> words::whitespace(#[trigger] s[i]),
        k > 0 ==> !words::whitespace(s[k - 1]),
    decreases s.len(),
{
    if s.len() > 0 && words::whitespace(s.last()) {
        let k = lemma_last_solid(s.drop_last());
        assert forall|i: int| k <= i < s.len() implies words::whitespace(#[trigger] s[i]) by {
            if i < s.len() - 1 {
                assert(s.drop_last()[i] == s[i]);
            }
        }
        k
    } else {
        s.len() as int
    }
}

/// Small letters stand for great ones, one for one, and nothing else changes.
pub proof fn law_lowering_changes_case_alone(s: Seq<char>)
    ensures
        strings::lowered(s).len() == s.len(),
        forall|i: int|
            #![trigger strings::lowered(s)[i]]
            0 <= i < s.len() ==> {
                let c = s[i] as int;
                strings::lowered(s)[i] as int == if 0x41 <= c <= 0x5a {
                    c + 0x20
                } else {
                    c
                }
            },
        strings::lowered(strings::lowered(s)) == strings::lowered(s),
{
    assert forall|i: int| #![trigger strings::lowered(s)[i]] 0 <= i < s.len() implies {
        let c = s[i] as int;
        strings::lowered(s)[i] as int == if 0x41 <= c <= 0x5a {
            c + 0x20
        } else {
            c
        }
    } by {
        lemma_lower(s[i]);
    }
    assert forall|i: int| 0 <= i < s.len() implies strings::lowered(strings::lowered(s))[i]
        == strings::lowered(s)[i] by {
        lemma_lower(s[i]);
        lemma_lower(strings::ascii_lower(s[i]));
    }
    assert(strings::lowered(strings::lowered(s)) =~= strings::lowered(s));
}

proof fn lemma_lower(c: char)
    ensures
        strings::ascii_lower(c) as int == if 0x41 <= c as int <= 0x5a {
            c as int + 0x20
        } else {
            c as int
        },
{
}

/// The pieces between separators hold none, and put together again with separators in
/// between they are the text.
pub proof fn law_join_undoes_split(s: Seq<char>, sep: char)
    ensures
        strings::joined(strings::split(s, sep), seq![sep]) == s,
        forall|i: int|
            0 <= i < strings::split(s, sep).len() ==> !(#[trigger] strings::split(
                s,
                sep,
            )[i]).contains(sep),
    decreases s.len(),
{
    let parts = strings::split(s, sep);
    if s.len() == 0 {
        assert(parts =~= seq![Seq::<char>::empty()]);
        assert(strings::joined(parts, seq![sep]) =~= s);
    } else {
        let h = s.drop_last();
        let rest = strings::split(h, sep);
        law_join_undoes_split(h, sep);
        strings::lemma_split_nonempty(h, sep);
        if s.last() == sep {
            assert(parts.drop_last() =~= rest);
            assert(strings::joined(parts, seq![sep]) =~= strings::joined(rest, seq![sep])
                + seq![sep]);
            assert(s =~= h + seq![sep]);
            assert forall|i: int| 0 <= i < parts.len() implies !(#[trigger] parts[i]).contains(
                sep,
            ) by {
                if i < rest.len() {
                    assert(parts[i] == rest[i]);
                }
            }
        } else {
            let piece = rest.last().push(s.last());
            assert(parts == rest.drop_last().push(piece));
            assert(parts.drop_last() =~= rest.drop_last());
            if rest.len() == 1 {
                assert(strings::joined(rest, seq![sep]) == rest[0]);
                assert(strings::joined(parts, seq![sep]) == piece);
            } else {
                assert(strings::joined(parts, seq![sep]) =~= strings::joined(rest, seq![sep]).push(
                    s.last(),
                ));
            }
            assert(s =~= h.push(s.last()));
            assert forall|i: int| 0 <= i < parts.len() implies !(#[trigger] parts[i]).contains(
                sep,
            ) by {
                if i < rest.len() - 1 {
                    assert(parts[i] == rest[i]);
                } else {
                    assert(!rest[rest.len() - 1].contains(sep));
                    if piece.contains(sep) {
                        let k = piece.index_of(sep);
                        assert(rest.last()[k] == sep);
                    }
                }
            }
        }
    }
}

/// A word alone is one field.
pub proof fn law_words_are_fields(s: Seq<char>)
    requires
        solid(s),
    ensures
        strings::fields(s) == seq![s],
    decreases s.len(),
{
    assert(s.last() == s[s.len() - 1]);
    if s.len() == 1 {
        assert(s.drop_last() =~= Seq::<char>::empty());
        assert(strings::fields(s.drop_last()) == Seq::<Seq<char>>::empty());
        assert(seq![s.last()] =~= s);
        assert(strings::fields(s) =~= seq![s]);
    } else {
        let h = s.drop_last();
        assert forall|i: int| 0 <= i < h.len() implies !words::whitespace(#[trigger] h[i]) by {
            assert(h[i] == s[i]);
        }
        law_words_are_fields(h);
        assert(h.push(s.last()) =~= s);
        assert(strings::fields(s) =~= seq![s]);
    }
}

/// White space divides the fields of a text: those on either side are found by themselves.
pub proof fn law_white_space_divides_fields(a: Seq<char>, w: char, b: Seq<char>)
    requires
        words::whitespace(w),
    ensures
        strings::fields(a.push(w) + b) == strings::fields(a) + strings::fields(b),
    decreases b.len(),
{
    let s = a.push(w) + b;
    if b.len() == 0 {
        assert(s =~= a.push(w));
        assert(s.drop_last() =~= a);
        assert(strings::fields(a) + strings::fields(b) =~= strings::fields(a));
    } else {
        let c = b.drop_last();
        law_white_space_divides_fields(a, w, c);
        assert(s.drop_last() =~= a.push(w) + c);
        assert(s.last() == b.last());
        if words::whitespace(b.last()) {
        } else if b.len() == 1 {
            assert(s[s.len() - 2] == w);
            assert(c =~= Seq::<char>::empty());
            assert(strings::fields(s) =~= strings::fields(a) + strings::fields(b));
        } else {
            assert(s[s.len() - 2] == b[b.len() - 2]);
            if words::whitespace(b[b.len() - 2]) {
                assert(strings::fields(s) =~= strings::fields(a) + strings::fields(b));
            } else {
                assert(c.last() == b[b.len() - 2]);
                strings::lemma_fields_open(c);
                let f = strings::fields(a) + strings::fields(c);
                assert(f.last() == strings::fields(c).last());
                assert(strings::fields(s) =~= strings::fields(a) + strings::fields(b));
            }
        }
    }
}

/// The parts that are left once each is trimmed and the empty ones go are those of one
/// list, followed by those of the other.
pub proof fn law_parts_are_trimmed_one_by_one(a: Seq<Seq<char>>, b: Seq<Seq<char>>, p: Seq<char>)
    ensures
        strings::trimmed_parts(a + b) == strings::trimmed_parts(a) + strings::trimmed_parts(b),
        strings::trimmed_parts(seq![p]) == if strings::trimmed(p).len() > 0 {
            seq![strings::trimmed(p)]
        } else {
            Seq::empty()
        },
    decreases b.len(),
{
    assert(seq![p].drop_last() =~= Seq::<Seq<char>>::empty());
    assert(strings::trimmed_parts(seq![p].drop_last()) == Seq::<Seq<char>>::empty());
    assert(strings::trimmed_parts(seq![p]) =~= if strings::trimmed(p).len() > 0 {
        seq![strings::trimmed(p)]
    } else {
        Seq::empty()
    });
    if b.len() == 0 {
        assert(a + b =~= a);
        assert(strings::trimmed_parts(a) + strings::trimmed_parts(b) =~= strings::trimmed_parts(a));
    } else {
        law_parts_are_trimmed_one_by_one(a, b.drop_last(), p);
        assert((a + b).drop_last() =~= a + b.drop_last());
        assert(strings::trimmed_parts(a + b) =~= strings::trimmed_parts(a)
            + strings::trimmed_parts(b));
    }
}

pub proof fn lemma_split_front(a: Seq<char>, sep: char, b: Seq<char>)
    requires
        !a.contains(sep),
    ensures
        strings::split(a.push(sep) + b, sep) == seq![a] + strings::split(b, sep),
    decreases b.len(),
{
    let s = a.push(sep) + b;
    if b.len() == 0 {
        assert(s =~= a.push(sep));
        assert(s.drop_last() =~= a);
        strings::lemma_split_without(Seq::empty(), a, sep);
        assert(Seq::<char>::empty() + a =~= a);
        assert(strings::split(a, sep) =~= seq![a]);
        assert(strings::split(s, sep) =~= seq![a] + strings::split(b, sep));
    } else {
        lemma_split_front(a, sep, b.drop_last());
        strings::lemma_split_nonempty(b.drop_last(), sep);
        assert(s.drop_last() =~= a.push(sep) + b.drop_last());
        assert(s.last() == b.last());
        let rest = strings::split(b.drop_last(), sep);
        let f = seq![a] + rest;
        assert(f.last() == rest.last());
        assert(strings::split(s, sep) =~= seq![a] + strings::split(b, sep));
    }
}

/// A text is its first line, without the line's end, followed by its other lines. What
/// stands behind the last line's end is a line only where it is not empty.
pub proof fn law_lines_come_one_by_one(a: Seq<char>, b: Seq<char>)
    requires
        !a.contains('\n'),
    ensures
        strings::lines(a.push('\n') + b) == seq![strings::without_return(a)] + strings::lines(b),
        strings::lines(a) == if a.len() == 0 {
            Seq::empty()
        } else {
            seq![a]
        },
{
    lemma_split_front(a, '\n', b);
    strings::lemma_split_nonempty(b, '\n');
    let p = strings::split(b, '\n');
    let q = strings::split(a.push('\n') + b, '\n');
    assert(q.last() == p.last());
    assert(q.drop_last() =~= seq![a] + p.drop_last());
    assert(strings::lines(a.push('\n') + b) =~= seq![strings::without_return(a)] + strings::lines(
        b,
    ));
    strings::lemma_split_without(Seq::empty(), a, '\n');
    assert(Seq::<char>::empty() + a =~= a);
    let r = strings::split(a, '\n');
    assert(r =~= seq![a]);
    assert(r.drop_last() =~= Seq::<Seq<char>>::empty());
    assert(strings::lines(a) =~= if a.len() == 0 {
        Seq::empty()
    } else {
        seq![a]
    });
}

/// A text begins with another exactly when it is that text and something behind it, and
/// ends with another exactly when it is something and that text behind it.
pub proof fn law_prefixes_and_suffixes(s: Seq<char>, p: Seq<char>)
    ensures
        strings::has_prefix(s, p) == exists|r: Seq<char>| s == #[trigger] (p + r),
        strings::has_suffix(s, p) == exists|r: Seq<char>| s == #[trigger] (r + p),
{
    if strings::has_prefix(s, p) {
        let r = s.skip(p.len() as int);
        assert(s =~= p + r);
    }
    if exists|r: Seq<char>| s == #[trigger] (p + r) {
        let r = choose|r: Seq<char>| s == #[trigger] (p + r);
        assert((p + r).take(p.len() as int) =~= p);
    }
    if strings::has_suffix(s, p) {
        let r = s.take(s.len() - p.len());
        assert(s =~= r + p);
    }
    if exists|r: Seq<char>| s == #[trigger] (r + p) {
        let r = choose|r: Seq<char>| s == #[trigger] (r + p);
        assert((r + p).skip(r.len() as int) =~= p);
    }
}

/// A line that ends with a carriage return loses it, and only it; any other stays.
pub proof fn law_carriage_returns_go(a: Seq<char>, c: char)
    ensures
        strings::without_return(a.push('\r')) == a,
        c != '\r' ==> strings::without_return(a.push(c)) == a.push(c),
        strings::without_return(Seq::empty()).len() == 0,
{
    assert(a.push('\r').drop_last() =~= a);
}

} // verus!
