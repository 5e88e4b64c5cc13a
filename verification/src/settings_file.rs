//! Editing a settings file in place.
//!
//! Values are replaced where they stand, so that comments and everything else in
//! the file survive. Only the part before the first table is searched: a key of
//! the same name inside a table is another key.
use vstd::prelude::*;

use crate::config;
use crate::config::{Config, MethodConfig, Settings};
use crate::paths;
use crate::strings;
use crate::text;
use crate::words;

verus! {

/// The first index at or behind `from` at which `needle` occurs in `s`.
pub open spec fn found_from(s: Seq<char>, needle: Seq<char>, from: int) -> Option<int>
    decreases s.len() + 1 - from,
{
    if from < 0 || from + needle.len() > s.len() {
        None
    } else if s.subrange(from, from + needle.len()) == needle {
        Some(from)
    } else {
        found_from(s, needle, from + 1)
    }
}

/// Where the line that holds index `from` ends; the end of a text without a
/// newline behind `from` is `otherwise`.
pub open spec fn line_end(s: Seq<char>, from: int, otherwise: int) -> int {
    match found_from(s, seq!['\n'], from) {
        Some(k) => k,
        None => otherwise,
    }
}

/// The first visible character of `s` is `c`.
pub open spec fn opens_with(s: Seq<char>, c: char) -> bool {
    strings::start_trimmed(s).len() > 0 && strings::start_trimmed(s)[0] == c
}

/// A value stands at `from`: there is room for one before `until`, and the line
/// does not go on with a comment.
pub open spec fn value_at(s: Seq<char>, from: int, until: int) -> bool {
    from < until && !opens_with(s.subrange(from, line_end(s, from, until)), '#')
}

/// Where the value at `from` ends: behind the bracket that closes an array, or
/// else at the end of its line.
pub open spec fn value_end(s: Seq<char>, from: int, until: int) -> int {
    let end = line_end(s, from, until);
    let line = s.subrange(from, end);
    if opens_with(line, '[') {
        let open = end - strings::start_trimmed(line).len();
        if open > until {
            end
        } else {
            match found_from(s.take(until), seq![']'], open) {
                Some(close) => close + 1,
                None => end,
            }
        }
    } else {
        end
    }
}

/// The index behind `prefix`, which stands at `at`, if a value stands there.
pub open spec fn value_after(s: Seq<char>, prefix: Seq<char>, at: int, until: int) -> Option<int> {
    if at + prefix.len() <= until && s.subrange(at, at + prefix.len()) == prefix && value_at(
        s,
        at + prefix.len(),
        until,
    ) {
        Some((at + prefix.len()) as int)
    } else {
        None
    }
}

/// Where the value of `key` starts on the line at `at`, if the line has one.
pub open spec fn value_on_line(s: Seq<char>, key: Seq<char>, at: int, until: int) -> Option<int> {
    match value_after(s, key + " = "@, at, until) {
        Some(k) => Some(k),
        None => value_after(s, key + " ="@, at, until),
    }
}

/// Where the value of `key` starts on the first line, from the one at `at` on, that
/// has one before `until`.
pub open spec fn entry_from(s: Seq<char>, key: Seq<char>, at: int, until: int) -> Option<int>
    decreases until - at,
{
    if at < 0 || at >= until {
        None
    } else if value_on_line(s, key, at, until) is Some {
        value_on_line(s, key, at, until)
    } else {
        let end = line_end(s.take(until), at, until);
        if at <= end < until {
            entry_from(s, key, end + 1, until)
        } else {
            None
        }
    }
}

/// Where the value of `key` starts, in the text before `until`: on the first line
/// that has one.
pub open spec fn entry(s: Seq<char>, key: Seq<char>, until: int) -> Option<int> {
    entry_from(s, key, 0, until)
}

/// The text with the value of `key` replaced, if it has one before `until`.
pub open spec fn replaced(s: Seq<char>, key: Seq<char>, val: Seq<char>, until: int) -> Option<
    Seq<char>,
> {
    match entry(s, key, until) {
        Some(k) => Some(s.take(k) + val + s.skip(value_end(s, k, until))),
        None => None,
    }
}

/// A line that starts a table, with or without a comment behind it.
pub open spec fn table_header(line: Seq<char>) -> bool {
    let t = strings::end_trimmed(strings::split(strings::trimmed(line), '#')[0]);
    t.len() > 0 && t[0] == '[' && t.last() == ']'
}

/// The start of the first line at or behind `from` that starts a table.
pub open spec fn table_from(s: Seq<char>, from: int) -> Option<int>
    decreases s.len() - from,
{
    if from < 0 || from >= s.len() {
        None
    } else {
        let end = line_end(s, from, s.len() as int);
        if table_header(s.subrange(from, end)) {
            Some(from)
        } else if from <= end < s.len() {
            table_from(s, end + 1)
        } else {
            None
        }
    }
}

/// The end of the part before the first table.
pub open spec fn top_end(s: Seq<char>) -> int {
    match table_from(s, 0) {
        Some(k) => k,
        None => s.len() as int,
    }
}

/// A text, and the entries that still have to be put into it.
pub struct Draft {
    pub text: Seq<char>,
    pub pending: Seq<char>,
}

/// The draft with `key` set to `val`: in place where it has a value, else as an
/// entry to put in.
pub open spec fn with_entry(d: Draft, key: Seq<char>, val: Seq<char>) -> Draft {
    match replaced(d.text, key, val, top_end(d.text)) {
        Some(t) => Draft { text: t, ..d },
        None => Draft { pending: d.pending + "\n"@ + key + " = "@ + val, ..d },
    }
}

/// The text of a draft: entries to put in go before the first table, and a newline
/// keeps them apart from what follows.
pub open spec fn finished(d: Draft) -> Seq<char> {
    if d.pending.len() == 0 {
        d.text
    } else {
        let rest = d.text.skip(top_end(d.text));
        d.text.take(top_end(d.text)) + d.pending + (if rest.len() > 0 && rest[0] == '\n' {
            rest
        } else {
            "\n"@ + rest
        })
    }
}

/// The settings that the tray writes.
pub struct TrayChange {
    pub method: MethodConfig,
    pub modern_style: bool,
    pub enable_evdev_grab: bool,
}

/// The name of a method in a settings file.
pub open spec fn method_name(m: MethodConfig) -> Seq<char> {
    match m {
        MethodConfig::Telex => "telex"@,
        MethodConfig::Vni => "vni"@,
        MethodConfig::Viqr => "viqr"@,
    }
}

/// `true` or `false`.
pub open spec fn bool_name(b: bool) -> Seq<char> {
    if b {
        "true"@
    } else {
        "false"@
    }
}

/// A settings file with the tray's settings in it; `hooks` is the text of the list
/// of hooks.
pub open spec fn edited(s: Seq<char>, c: TrayChange, hooks: Seq<char>) -> Seq<char> {
    let d0 = Draft { text: s, pending: Seq::empty() };
    let d1 = with_entry(d0, "method"@, "\""@ + method_name(c.method) + "\""@);
    let d2 = with_entry(d1, "modern_style"@, bool_name(c.modern_style));
    let d3 = with_entry(d2, "enable_evdev_grab"@, bool_name(c.enable_evdev_grab));
    finished(with_entry(d3, "evdev_grab_hooks"@, hooks))
}

/// Whether a text is TOML.
pub uninterp spec fn valid_toml(s: Seq<char>) -> bool;

/// `toml::from_str::<toml::Value>`: whether it accepts the text. Which texts those
/// are is left to the TOML parser.
#[verifier::external_body]
fn is_valid_toml(s: &str) -> (b: bool)
    ensures
        b == valid_toml(s@),
{
    toml::from_str::<toml::Value>(s).is_ok()
}

/// An array of strings as TOML.
pub uninterp spec fn toml_array(items: Seq<Seq<char>>) -> Seq<char>;

/// `toml::Value::to_string` of an array of strings. How the strings are quoted is
/// left to the TOML writer.
#[verifier::external_body]
fn toml_array_text(items: &Vec<String>) -> (s: String)
    ensures
        s@ == toml_array(strings::texts(items@)),
{
    toml::Value::Array(items.iter().map(|h| toml::Value::String(h.to_owned())).collect()).to_string()
}

/// A list of hooks on one line.
pub open spec fn hooks_text(hooks: Seq<Seq<char>>) -> Seq<char> {
    strings::joined(strings::lines(toml_array(hooks)), ""@)
}

/// A list of hooks on one line.
pub fn format_hooks_array(hooks: &Vec<String>) -> (s: String)
    ensures
        s@ == hooks_text(strings::texts(hooks@)),
{
    let array = toml_array_text(hooks);
    let lines = strings::split_lines(array.as_str());
    strings::join(&lines, "")
}

fn chars_of(s: &str) -> (v: Vec<char>)
    ensures
        v@ == s@,
{
    let mut v: Vec<char> = Vec::new();
    for c in it: s.chars()
        invariant
            it.seq() == s@,
            v@ == s@.take(it.index()),
    {
        v.push(c);
        assert(s@.take(it.index() + 1) =~= s@.take(it.index()).push(c));
    }
    assert(s@.take(s@.len() as int) =~= s@);
    v
}

fn text_of(v: &Vec<char>) -> (s: String)
    ensures
        s@ == v@,
{
    let mut s = String::new();
    for i in 0..v.len()
        invariant
            s@ == v@.take(i as int),
    {
        s.push(v[i]);
        assert(v@.take(i + 1) =~= v@.take(i as int).push(v@[i as int]));
    }
    assert(v@.take(v.len() as int) =~= v@);
    s
}

/// Whether `needle` stands in `s` at `at`.
fn stands_at(s: &Vec<char>, needle: &Vec<char>, at: usize) -> (b: bool)
    requires
        at + needle@.len() <= s@.len(),
    ensures
        b == (s@.subrange(at as int, at + needle@.len()) == needle@),
{
    for i in 0..needle.len()
        invariant
            at + needle.len() <= s.len(),
            forall|j: int| 0 <= j < i ==> s@[at + j] == needle@[j],
    {
        if s[at + i] != needle[i] {
            assert(s@.subrange(at as int, at + needle@.len())[i as int] != needle@[i as int]);
            return false;
        }
    }
    assert(s@.subrange(at as int, at + needle@.len()) =~= needle@);
    true
}

/// The first index from `from` on at which `needle` occurs before `until`.
fn find_from(s: &Vec<char>, needle: &Vec<char>, from: usize, until: usize) -> (r: Option<usize>)
    requires
        until <= s@.len(),
    ensures
        match r {
            Some(k) => found_from(s@.take(until as int), needle@, from as int) == Some(k as int)
                && from <= k && k + needle@.len() <= until,
            None => found_from(s@.take(until as int), needle@, from as int) is None,
        },
{
    let ghost region = s@.take(until as int);
    let n: usize = needle.len();
    let mut i: usize = from;
    while i <= until && n <= until - i
        invariant
            until <= s@.len(),
            region == s@.take(until as int),
            n == needle@.len(),
            from <= i,
            i <= until || i == from,
            found_from(region, needle@, from as int) == found_from(region, needle@, i as int),
        decreases until - i,
    {
        assert(region.subrange(i as int, i + n) =~= s@.subrange(i as int, i + n));
        if stands_at(s, needle, i) {
            return Some(i);
        }
        assert(i < until) by {
            if i == until {
                assert(s@.subrange(i as int, i + n) =~= needle@);
            }
        }
        i = i + 1;
    }
    None
}

fn find_char(s: &Vec<char>, c: char, from: usize, until: usize) -> (r: Option<usize>)
    requires
        until <= s@.len(),
    ensures
        match r {
            Some(k) => found_from(s@.take(until as int), seq![c], from as int) == Some(k as int)
                && from <= k < until,
            None => found_from(s@.take(until as int), seq![c], from as int) is None,
        },
{
    let mut needle: Vec<char> = Vec::new();
    needle.push(c);
    assert(needle@ =~= seq![c]);
    find_from(s, &needle, from, until)
}

fn end_of_line(s: &Vec<char>, from: usize, otherwise: usize) -> (e: usize)
    requires
        from <= otherwise <= s@.len(),
    ensures
        e == line_end(s@, from as int, otherwise as int),
        from <= e <= s@.len(),
{
    assert(s@.take(s@.len() as int) =~= s@);
    match find_char(s, '\n', from, s.len()) {
        Some(k) => k,
        None => otherwise,
    }
}

/// The first visible character from `from` on; `to` when there is none.
fn first_visible(s: &Vec<char>, from: usize, to: usize) -> (k: usize)
    requires
        from <= to <= s@.len(),
    ensures
        from <= k <= to,
        strings::start_trimmed(s@.subrange(from as int, to as int)) == s@.subrange(
            k as int,
            to as int,
        ),
{
    let mut k: usize = from;
    while k < to && words::is_whitespace(s[k])
        invariant
            from <= k <= to <= s@.len(),
            strings::start_trimmed(s@.subrange(from as int, to as int))
                == strings::start_trimmed(s@.subrange(k as int, to as int)),
        decreases to - k,
    {
        assert(s@.subrange(k as int, to as int).drop_first() =~= s@.subrange(k + 1, to as int));
        assert(s@.subrange(k as int, to as int)[0] == s@[k as int]);
        k = k + 1;
    }
    if k < to {
        assert(s@.subrange(k as int, to as int)[0] == s@[k as int]);
    }
    k
}

/// The end of the visible part of what stands between `from` and `to`.
fn last_visible(s: &Vec<char>, from: usize, to: usize) -> (k: usize)
    requires
        from <= to <= s@.len(),
    ensures
        from <= k <= to,
        strings::end_trimmed(s@.subrange(from as int, to as int)) == s@.subrange(
            from as int,
            k as int,
        ),
{
    let mut k: usize = to;
    while k > from && words::is_whitespace(s[k - 1])
        invariant
            from <= k <= to <= s@.len(),
            strings::end_trimmed(s@.subrange(from as int, to as int))
                == strings::end_trimmed(s@.subrange(from as int, k as int)),
        decreases k,
    {
        assert(s@.subrange(from as int, k as int).drop_last() =~= s@.subrange(
            from as int,
            k - 1,
        ));
        assert(s@.subrange(from as int, k as int).last() == s@[k - 1]);
        k = k - 1;
    }
    if k > from {
        assert(s@.subrange(from as int, k as int).last() == s@[k - 1]);
    }
    k
}

fn is_value_at(s: &Vec<char>, from: usize, until: usize) -> (b: bool)
    requires
        from <= until <= s@.len(),
    ensures
        b == value_at(s@, from as int, until as int),
{
    if from >= until {
        return false;
    }
    let end = end_of_line(s, from, until);
    let k = first_visible(s, from, end);
    if k < end {
        assert(s@.subrange(k as int, end as int)[0] == s@[k as int]);
    }
    !(k < end && s[k] == '#')
}

fn end_of_value(s: &Vec<char>, from: usize, until: usize) -> (e: usize)
    requires
        from <= until <= s@.len(),
    ensures
        e == value_end(s@, from as int, until as int),
        from <= e <= s@.len(),
{
    let end = end_of_line(s, from, until);
    let k = first_visible(s, from, end);
    if k < end {
        assert(s@.subrange(k as int, end as int)[0] == s@[k as int]);
        if s[k] == '[' {
            if k > until {
                return end;
            }
            return match find_char(s, ']', k, until) {
                Some(close) => close + 1,
                None => end,
            };
        }
    }
    end
}

fn find_value_after(s: &Vec<char>, prefix: &Vec<char>, at: usize, until: usize) -> (r: Option<
    usize,
>)
    requires
        at <= until <= s@.len(),
    ensures
        match r {
            Some(k) => value_after(s@, prefix@, at as int, until as int) == Some(k as int) && k
                <= until,
            None => value_after(s@, prefix@, at as int, until as int) is None,
        },
{
    if prefix.len() <= until - at && stands_at(s, prefix, at) && is_value_at(
        s,
        at + prefix.len(),
        until,
    ) {
        Some(at + prefix.len())
    } else {
        None
    }
}

fn needle_of(start: &str, key: &str, end: &str) -> (v: Vec<char>)
    ensures
        v@ == start@ + key@ + end@,
{
    let mut s = start.to_owned();
    s.push_str(key);
    s.push_str(end);
    chars_of(s.as_str())
}

fn find_entry(s: &Vec<char>, key: &str, until: usize) -> (r: Option<usize>)
    requires
        until <= s@.len(),
    ensures
        match r {
            Some(k) => entry(s@, key@, until as int) == Some(k as int) && k <= until,
            None => entry(s@, key@, until as int) is None,
        },
{
    let spaced = needle_of("", key, " = ");
    let tight = needle_of("", key, " =");
    proof {
        reveal_strlit("");
        assert(spaced@ =~= key@ + " = "@);
        assert(tight@ =~= key@ + " ="@);
    }
    let mut at: usize = 0;
    while at < until
        invariant
            until <= s@.len(),
            spaced@ == key@ + " = "@,
            tight@ == key@ + " ="@,
            at <= until,
            entry(s@, key@, until as int) == entry_from(s@, key@, at as int, until as int),
        decreases until - at,
    {
        if let Some(k) = find_value_after(s, &spaced, at, until) {
            return Some(k);
        }
        if let Some(k) = find_value_after(s, &tight, at, until) {
            return Some(k);
        }
        match find_char(s, '\n', at, until) {
            Some(end) => {
                at = end + 1;
            },
            None => {
                return None;
            },
        }
    }
    None
}

/// The characters of `s` from `from` to `to`, behind `out`.
fn push_range(out: &mut Vec<char>, s: &Vec<char>, from: usize, to: usize)
    requires
        from <= to <= s@.len(),
    ensures
        final(out)@ == old(out)@ + s@.subrange(from as int, to as int),
{
    let ghost start = out@;
    for i in from..to
        invariant
            from <= to <= s@.len(),
            out@ == start + s@.subrange(from as int, i as int),
    {
        out.push(s[i]);
        assert(s@.subrange(from as int, i + 1) =~= s@.subrange(from as int, i as int).push(
            s@[i as int],
        ));
    }
}

fn replace_in(s: &Vec<char>, key: &str, val: &str, until: usize) -> (r: Option<Vec<char>>)
    requires
        until <= s@.len(),
    ensures
        match r {
            Some(v) => replaced(s@, key@, val@, until as int) == Some(v@),
            None => replaced(s@, key@, val@, until as int) is None,
        },
{
    match find_entry(s, key, until) {
        Some(k) => {
            let end = end_of_value(s, k, until);
            let val = chars_of(val);
            let mut out: Vec<char> = Vec::new();
            push_range(&mut out, s, 0, k);
            push_range(&mut out, &val, 0, val.len());
            push_range(&mut out, s, end, s.len());
            assert(out@ =~= s@.take(k as int) + val@ + s@.skip(end as int));
            Some(out)
        },
        None => None,
    }
}

/// The end of the part in which keys are looked for: `bound` in bytes, or else the
/// end of the text.
pub open spec fn search_end(s: Seq<char>, bound: Option<usize>) -> int {
    match bound {
        Some(b) => text::chars_within(s, b as nat) as int,
        None => s.len() as int,
    }
}

/// Replace the value of `key` on the first line that gives it one, in the first
/// `bound` bytes of the text or in all of it. Values are what follows on the line, or an array that may span lines.
/// `false`, and the text unchanged, when there is none to replace.
pub fn replace_toml_value(text: &mut String, key: &str, new_val: &str, bound: Option<usize>) -> (r:
    bool)
    requires
        bound matches Some(b) ==> b <= text::utf8_len(old(text)@) && text::utf8_len(
            old(text)@.take(text::chars_within(old(text)@, b as nat) as int),
        ) == b,
    ensures
        match replaced(old(text)@, key@, new_val@, search_end(old(text)@, bound)) {
            Some(t) => r && final(text)@ == t,
            None => !r && final(text)@ == old(text)@,
        },
{
    let v = chars_of(text.as_str());
    let until: usize = match bound {
        Some(b) => text::char_floor(text.as_str(), b),
        None => v.len(),
    };
    proof {
        if bound is Some {
            text::lemma_chars_within(text@, bound->0 as nat);
        }
    }
    match replace_in(&v, key, new_val, until) {
        Some(new) => {
            *text = text_of(&new);
            true
        },
        None => false,
    }
}

fn is_table_header(s: &Vec<char>, from: usize, to: usize) -> (b: bool)
    requires
        from <= to <= s@.len(),
    ensures
        b == table_header(s@.subrange(from as int, to as int)),
{
    let a = first_visible(s, from, to);
    let z = last_visible(s, a, to);
    let ghost line = strings::trimmed(s@.subrange(from as int, to as int));
    assert(line == s@.subrange(a as int, z as int));
    let hash: usize = match find_char(s, '#', a, z) {
        Some(k) => k,
        None => z,
    };
    proof {
        lemma_found_shifts(s@, seq!['#'], a as int, z as int);
        lemma_first_part(line, '#');
        assert(line.take(hash - a) =~= s@.subrange(a as int, hash as int));
    }
    let end = last_visible(s, a, hash);
    if end > a {
        assert(s@.subrange(a as int, end as int)[0] == s@[a as int]);
        assert(s@.subrange(a as int, end as int).last() == s@[end - 1]);
    }
    end > a && s[a] == '[' && s[end - 1] == ']'
}

/// Searching a part is searching the whole up to the part's end.
proof fn lemma_found_shifts(s: Seq<char>, needle: Seq<char>, a: int, z: int)
    requires
        0 <= a <= z <= s.len(),
    ensures
        found_from(s.subrange(a, z), needle, 0) == match found_from(s.take(z), needle, a) {
            Some(k) => Some(k - a),
            None => None,
        },
{
    lemma_found_shifts_from(s, needle, a, z, 0);
}

proof fn lemma_found_shifts_from(s: Seq<char>, needle: Seq<char>, a: int, z: int, i: int)
    requires
        0 <= a <= z <= s.len(),
        0 <= i,
    ensures
        found_from(s.subrange(a, z), needle, i) == match found_from(s.take(z), needle, a + i) {
            Some(k) => Some(k - a),
            None => None,
        },
    decreases z - a - i,
{
    if i + needle.len() <= z - a {
        assert(s.subrange(a, z).subrange(i, i + needle.len()) =~= s.take(z).subrange(
            a + i,
            a + i + needle.len(),
        ));
        if i < z - a {
            lemma_found_shifts_from(s, needle, a, z, i + 1);
        } else {
            assert(found_from(s.subrange(a, z), needle, i + 1) is None);
            assert(found_from(s.take(z), needle, a + i + 1) is None);
        }
    }
}

/// The first part of a text is what stands before the first separator.
proof fn lemma_first_part(s: Seq<char>, sep: char)
    ensures
        strings::split(s, sep).len() > 0,
        strings::split(s, sep)[0] == match found_from(s, seq![sep], 0) {
            Some(k) => s.take(k),
            None => s,
        },
    decreases s.len(),
{
    if s.len() == 0 {
        assert(s =~= Seq::<char>::empty());
    } else {
        let t = s.drop_last();
        lemma_first_part(t, sep);
        lemma_found_in_longer(t, s.last(), sep, 0);
        let rest = strings::split(t, sep);
        assert(t.push(s.last()) =~= s);
        if found_from(t, seq![sep], 0) is Some {
            let k = found_from(t, seq![sep], 0)->0;
            assert(s.take(k) =~= t.take(k));
            lemma_separated(t, sep);
            assert(strings::split(s, sep)[0] == rest[0]);
        } else {
            lemma_unseparated(t, sep);
            assert(rest.len() == 1);
            if s.last() == sep {
                assert(s.take(s.len() - 1) =~= t);
                assert(strings::split(s, sep)[0] == rest[0]);
            } else {
                assert(strings::split(s, sep)[0] == rest[0].push(s.last()));
            }
        }
    }
}

proof fn lemma_found_in_longer(t: Seq<char>, c: char, sep: char, from: int)
    requires
        0 <= from <= t.len(),
    ensures
        found_from(t.push(c), seq![sep], from) == match found_from(t, seq![sep], from) {
            Some(k) => Some(k),
            None => if c == sep {
                Some(t.len() as int)
            } else {
                None
            },
        },
        found_from(t, seq![sep], from) matches Some(k) ==> from <= k < t.len(),
    decreases t.len() - from,
{
    let s = t.push(c);
    assert(s.subrange(from, from + 1) =~= seq![s[from]]);
    if from < t.len() {
        assert(t.subrange(from, from + 1) =~= seq![t[from]]);
        assert(seq![t[from]][0] == t[from]);
        assert(seq![sep][0] == sep);
        lemma_found_in_longer(t, c, sep, from + 1);
    } else {
        assert(seq![s[from]][0] == c);
        assert(seq![sep][0] == sep);
        assert(found_from(s, seq![sep], from + 1) is None);
    }
}

/// A text with a separator in it has several parts.
proof fn lemma_separated(s: Seq<char>, sep: char)
    requires
        found_from(s, seq![sep], 0) is Some,
    ensures
        strings::split(s, sep).len() > 1,
    decreases s.len(),
{
    if s.len() == 0 {
        assert(false);
    } else {
        let t = s.drop_last();
        assert(t.push(s.last()) =~= s);
        lemma_found_in_longer(t, s.last(), sep, 0);
        if found_from(t, seq![sep], 0) is Some {
            lemma_separated(t, sep);
        } else {
            lemma_unseparated(t, sep);
        }
    }
}

/// A text without a separator in it is one part.
proof fn lemma_unseparated(s: Seq<char>, sep: char)
    requires
        found_from(s, seq![sep], 0) is None,
    ensures
        strings::split(s, sep).len() == 1,
    decreases s.len(),
{
    if s.len() > 0 {
        let t = s.drop_last();
        assert(t.push(s.last()) =~= s);
        lemma_found_in_longer(t, s.last(), sep, 0);
        lemma_unseparated(t, sep);
    }
}

fn find_table(s: &Vec<char>) -> (r: Option<usize>)
    ensures
        match r {
            Some(k) => table_from(s@, 0) == Some(k as int) && k < s@.len(),
            None => table_from(s@, 0) is None,
        },
{
    let n: usize = s.len();
    let mut from: usize = 0;
    while from < n
        invariant
            n == s@.len(),
            from <= n,
            table_from(s@, 0) == table_from(s@, from as int),
        decreases n - from,
    {
        let end = end_of_line(s, from, n);
        if is_table_header(s, from, end) {
            return Some(from);
        }
        if end >= n {
            return None;
        }
        from = end + 1;
    }
    None
}

/// Where the first table starts, in bytes.
pub fn find_first_table_pos(text: &str) -> (r: Option<usize>)
    ensures
        match r {
            Some(b) => table_from(text@, 0) is Some && b == text::utf8_len(
                text@.take(table_from(text@, 0)->0),
            ),
            None => table_from(text@, 0) is None,
        },
{
    let v = chars_of(text);
    match find_table(&v) {
        Some(k) => {
            let mut front: Vec<char> = Vec::new();
            push_range(&mut front, &v, 0, k);
            assert(front@ =~= text@.take(k as int));
            let s = text_of(&front);
            Some(text::byte_len(s.as_str()))
        },
        None => None,
    }
}

/// A text under way, and the entries that still have to be put into it.
struct DraftText {
    text: Vec<char>,
    pending: String,
}

impl DraftText {
    spec fn draft(&self) -> Draft {
        Draft { text: self.text@, pending: self.pending@ }
    }

    fn set(&mut self, key: &str, val: &str)
        ensures
            final(self).draft() == with_entry(old(self).draft(), key@, val@),
    {
        let until: usize = match find_table(&self.text) {
            Some(k) => k,
            None => self.text.len(),
        };
        match replace_in(&self.text, key, val, until) {
            Some(new) => {
                self.text = new;
            },
            None => {
                self.pending.push_str("\n");
                self.pending.push_str(key);
                self.pending.push_str(" = ");
                self.pending.push_str(val);
            },
        }
    }

    fn finish(&self) -> (s: String)
        ensures
            s@ == finished(self.draft()),
    {
        let pending = chars_of(self.pending.as_str());
        if pending.len() == 0 {
            return text_of(&self.text);
        }
        let n: usize = self.text.len();
        let at: usize = match find_table(&self.text) {
            Some(k) => k,
            None => n,
        };
        let mut out: Vec<char> = Vec::new();
        push_range(&mut out, &self.text, 0, at);
        push_range(&mut out, &pending, 0, pending.len());
        let ghost front = self.text@.take(at as int) + self.pending@;
        assert(out@ =~= front);
        proof {
            reveal_strlit("\n");
        }
        if !(at < n && self.text[at] == '\n') {
            out.push('\n');
        }
        push_range(&mut out, &self.text, at, n);
        assert(self.text@.skip(at as int) =~= self.text@.subrange(at as int, n as int));
        assert(out@ =~= finished(self.draft()));
        text_of(&out)
    }
}

fn bool_text(b: bool) -> (s: &'static str)
    ensures
        s@ == bool_name(b),
{
    if b {
        "true"
    } else {
        "false"
    }
}

/// A settings file with the tray's settings in it; `hooks` is the text of the list
/// of hooks.
pub fn edit_settings(text: &str, change: &TrayChange, hooks: &str) -> (s: String)
    ensures
        s@ == edited(text@, *change, hooks@),
{
    let mut d = DraftText { text: chars_of(text), pending: String::new() };
    assert(d.draft() == (Draft { text: text@, pending: Seq::<char>::empty() })) by {
        assert(d.pending@ =~= Seq::<char>::empty());
    }
    let mut method = "\"".to_owned();
    method.push_str(
        match change.method {
            MethodConfig::Telex => "telex",
            MethodConfig::Vni => "vni",
            MethodConfig::Viqr => "viqr",
        },
    );
    method.push_str("\"");
    d.set("method", method.as_str());
    d.set("modern_style", bool_text(change.modern_style));
    d.set("enable_evdev_grab", bool_text(change.enable_evdev_grab));
    d.set("evdev_grab_hooks", hooks);
    d.finish()
}

/// What is written to a settings file.
#[derive(Debug)]
pub enum SavePlan {
    Write(String),
    /// There is nothing to edit, or not as TOML: the file is made from scratch, with
    /// these settings.
    Generate(Config),
}

/// The settings of a file that is made from scratch: the tray's, and otherwise the
/// usual ones.
pub open spec fn generated(change: TrayChange, hooks: Seq<Seq<char>>) -> Settings {
    Settings {
        method: change.method,
        modern_style: change.modern_style,
        enable_evdev_grab: change.enable_evdev_grab,
        evdev_grab_hooks: hooks,
        ..config::default_settings()
    }
}

/// The settings of a file that is made from scratch.
pub fn generated_config(change: &TrayChange, hooks: &Vec<String>) -> (c: Config)
    ensures
        c@ == generated(*change, strings::texts(hooks@)),
{
    let mut c = Config::default();
    c.method = change.method;
    c.modern_style = change.modern_style;
    c.enable_evdev_grab = change.enable_evdev_grab;
    c.evdev_grab_hooks = strings::clone_all(hooks);
    c
}

/// What is written to a settings file that now holds `text`. Nothing is written
/// that is not TOML.
pub fn plan_save(text: &str, change: &TrayChange, hooks: &Vec<String>) -> (p: SavePlan)
    ensures
        ({
            let new = edited(text@, *change, hooks_text(strings::texts(hooks@)));
            match p {
                SavePlan::Generate(c) => c@ == generated(*change, strings::texts(hooks@)) && (
                text@.len() == 0 || !valid_toml(text@) || !valid_toml(new)),
                SavePlan::Write(s) => s@ == new && text@.len() > 0 && valid_toml(text@)
                    && valid_toml(new),
            }
        }),
{
    if text.is_empty() || !is_valid_toml(text) {
        return SavePlan::Generate(generated_config(change, hooks));
    }
    let list = format_hooks_array(hooks);
    let new = edit_settings(text, change, list.as_str());
    if is_valid_toml(new.as_str()) {
        SavePlan::Write(new)
    } else {
        SavePlan::Generate(generated_config(change, hooks))
    }
}

proof fn lemma_found_within(s: Seq<char>, needle: Seq<char>, from: int)
    ensures
        found_from(s, needle, from) matches Some(k) ==> from <= k && k + needle.len() <= s.len()
            && s.subrange(k, k + needle.len()) == needle,
    decreases s.len() + 1 - from,
{
    if !(from < 0 || from + needle.len() > s.len()) && s.subrange(from, from + needle.len())
        != needle {
        lemma_found_within(s, needle, from + 1);
    }
}

/// A search stops at the first place, so not behind any other.
proof fn lemma_found_first(s: Seq<char>, c: char, from: int, at: int)
    requires
        0 <= from <= at < s.len(),
        s[at] == c,
    ensures
        found_from(s, seq![c], from) matches Some(k) && k <= at,
    decreases at - from,
{
    assert(s.subrange(from, from + 1) =~= seq![s[from]]);
    if from < at {
        lemma_found_first(s, c, from + 1, at);
    }
}

/// The first table starts a line.
pub proof fn law_table_starts_line(s: Seq<char>, from: int)
    requires
        from == 0 || (0 < from <= s.len() && s[from - 1] == '\n'),
    ensures
        table_from(s, from) matches Some(k) ==> from <= k < s.len() && (k == 0 || s[k - 1]
            == '\n'),
    decreases s.len() - from,
{
    if from < s.len() {
        let end = line_end(s, from, s.len() as int);
        lemma_found_within(s, seq!['\n'], from);
        if from <= end < s.len() {
            assert(s.subrange(end, end + 1)[0] == '\n');
            law_table_starts_line(s, end + 1);
        }
    }
}

/// A value that is searched for before a line's start ends before it.
proof fn lemma_value_ends_before(s: Seq<char>, from: int, until: int)
    requires
        0 <= from < until <= s.len(),
        until == s.len() || s[until - 1] == '\n',
    ensures
        from <= value_end(s, from, until) <= until,
{
    let end = line_end(s, from, until);
    lemma_found_within(s, seq!['\n'], from);
    if until < s.len() {
        lemma_found_first(s, '\n', from, until - 1);
    }
    assert(from <= end <= until);
    let line = s.subrange(from, end);
    lemma_start_trimmed_shrinks(line);
    lemma_found_within(
        s.take(until),
        seq![']'],
        end - strings::start_trimmed(line).len(),
    );
}

proof fn lemma_start_trimmed_shrinks(s: Seq<char>)
    ensures
        strings::start_trimmed(s).len() <= s.len(),
    decreases s.len(),
{
    if s.len() > 0 && words::whitespace(s[0]) {
        lemma_start_trimmed_shrinks(s.drop_first());
    }
}

proof fn lemma_entry_before(s: Seq<char>, key: Seq<char>, until: int)
    requires
        0 <= until <= s.len(),
    ensures
        entry(s, key, until) matches Some(k) ==> 0 <= k < until && value_at(s, k, until),
{
    lemma_entry_from_before(s, key, 0, until);
}

proof fn lemma_entry_from_before(s: Seq<char>, key: Seq<char>, at: int, until: int)
    requires
        0 <= at,
        until <= s.len(),
    ensures
        entry_from(s, key, at, until) matches Some(k) ==> at <= k < until && value_at(s, k, until),
    decreases until - at,
{
    if at < until && value_on_line(s, key, at, until) is None {
        let end = line_end(s.take(until), at, until);
        if at <= end < until {
            lemma_entry_from_before(s, key, end + 1, until);
        }
    }
}

/// Of several lines that give `key` a value, the first is the one that counts: from a
/// line on, it is that line's where it has one, and else that of the lines below.
pub proof fn law_first_line_counts(s: Seq<char>, key: Seq<char>, at: int, until: int)
    requires
        0 <= at < until <= s.len(),
    ensures
        match value_on_line(s, key, at, until) {
            Some(k) => entry_from(s, key, at, until) == Some(k),
            None => entry_from(s, key, at, until) == match found_from(
                s.take(until),
                seq!['\n'],
                at,
            ) {
                Some(end) => entry_from(s, key, end + 1, until),
                None => None,
            },
        },
{
    lemma_found_within(s.take(until), seq!['\n'], at);
}

/// Replacing a value changes nothing else: what stands before the value stays
/// before it, and what stands behind it stays behind it.
pub proof fn law_replacing_keeps_rest(
    s: Seq<char>,
    key: Seq<char>,
    val: Seq<char>,
    until: int,
)
    requires
        0 <= until <= s.len(),
        until == s.len() || until == 0 || s[until - 1] == '\n',
    ensures
        replaced(s, key, val, until) matches Some(t) ==> {
            let k = entry(s, key, until)->0;
            let e = value_end(s, k, until);
            &&& 0 <= k <= e <= until
            &&& t.take(k) == s.take(k)
            &&& t.subrange(k, k + val.len()) == val
            &&& t.skip(k + val.len()) == s.skip(e)
        },
{
    lemma_entry_before(s, key, until);
    if let Some(k) = entry(s, key, until) {
        lemma_value_ends_before(s, k, until);
        let e = value_end(s, k, until);
        let t = s.take(k) + val + s.skip(e);
        assert(t.take(k) =~= s.take(k));
        assert(t.subrange(k, k + val.len()) =~= val);
        assert(t.skip(k + val.len()) =~= s.skip(e));
    }
}

/// Setting a key never touches the tables: from the first table on the text stays
/// as it is.
pub proof fn law_tables_stay(d: Draft, key: Seq<char>, val: Seq<char>)
    ensures
        strings::has_suffix(with_entry(d, key, val).text, d.text.skip(top_end(d.text))),
        strings::has_suffix(finished(d), d.text.skip(top_end(d.text))),
{
    let s = d.text;
    let until = top_end(s);
    law_table_starts_line(s, 0);
    let tail = s.skip(until);
    law_replacing_keeps_rest(s, key, val, until);
    if let Some(t) = replaced(s, key, val, until) {
        let k = entry(s, key, until)->0;
        let e = value_end(s, k, until);
        assert(t.skip(t.len() - tail.len()) =~= tail) by {
            assert(t.skip(k + val.len()) == s.skip(e));
            assert forall|i: int| 0 <= i < tail.len() implies t[t.len() - tail.len() + i]
                == tail[i] by {
                assert(s.skip(e)[until - e + i] == tail[i]);
                assert(t.skip(k + val.len())[until - e + i] == t[k + val.len() + until - e + i]);
            }
        }
    } else {
        assert(s.skip(s.len() - tail.len()) =~= tail);
    }
    reveal_strlit("\n");
    let f = finished(d);
    if d.pending.len() == 0 {
        assert(s.skip(s.len() - tail.len()) =~= tail);
    } else {
        assert(f.skip(f.len() - tail.len()) =~= tail);
    }
}

/// A key that has no value yet is put in before the first table, as the last of
/// the keys there.
pub proof fn law_missing_key_is_added(s: Seq<char>, key: Seq<char>, val: Seq<char>)
    requires
        entry(s, key, top_end(s)) is None,
    ensures
        ({
            let d = with_entry(Draft { text: s, pending: Seq::empty() }, key, val);
            &&& d.text == s
            &&& strings::has_prefix(
                finished(d),
                s.take(top_end(s)) + ("\n"@ + key + " = "@ + val),
            )
        }),
{
    law_table_starts_line(s, 0);
    reveal_strlit("\n");
    let d = with_entry(Draft { text: s, pending: Seq::empty() }, key, val);
    assert(d.pending =~= "\n"@ + key + " = "@ + val);
    let front = s.take(top_end(s)) + ("\n"@ + key + " = "@ + val);
    assert(finished(d).take(front.len() as int) =~= front);
}

/// Where an example of the settings file is looked for, in order.
pub open spec fn example_places(home: Option<Seq<char>>) -> Seq<Seq<char>> {
    match home {
        Some(h) => seq![
            paths::join_of(
                paths::join_of(
                    paths::join_of(paths::join_of(h, ".local"@), "share"@),
                    "daklak"@,
                ),
                "config.toml.example"@,
            ),
            "/usr/share/daklak/config.toml.example"@,
        ],
        None => seq!["/usr/share/daklak/config.toml.example"@],
    }
}

/// Where an example of the settings file is looked for, in order.
pub fn config_example_candidates(home: &Option<String>) -> (v: Vec<String>)
    ensures
        strings::texts(v@) == example_places(config::opt_text(*home)),
{
    let mut v: Vec<String> = Vec::new();
    match home {
        Some(h) => {
            let d = paths::join(h.as_str(), ".local");
            let d = paths::join(d.as_str(), "share");
            let d = paths::join(d.as_str(), "daklak");
            v.push(paths::join(d.as_str(), "config.toml.example"));
        },
        None => {},
    }
    v.push("/usr/share/daklak/config.toml.example".to_owned());
    assert(strings::texts(v@) =~= example_places(config::opt_text(*home)));
    v
}

/// What is written for a setting is read back as that setting.
pub proof fn law_written_values_are_read_back(m: MethodConfig, b: bool)
    ensures
        config::named_method(method_name(m)) == m,
        config::truthy(bool_name(b)) == b,
{
    reveal_strlit("telex");
    reveal_strlit("vni");
    reveal_strlit("viqr");
    assert(strings::lowered("telex"@) =~= "telex"@);
    assert(strings::lowered("vni"@) =~= "vni"@);
    assert(strings::lowered("viqr"@) =~= "viqr"@);
    assert("telex"@.len() == 5 && "vni"@.len() == 3 && "viqr"@.len() == 4);
    config::law_printed_switches_are_understood();
}

/// A file that has none of the settings gets all of them, in front of its first table, one
/// on a line, each with its own value; the rest of the file stays.
pub proof fn law_missing_settings_are_added(s: Seq<char>, c: TrayChange, hooks: Seq<char>)
    requires
        entry(s, "method"@, top_end(s)) is None,
        entry(s, "modern_style"@, top_end(s)) is None,
        entry(s, "enable_evdev_grab"@, top_end(s)) is None,
        entry(s, "evdev_grab_hooks"@, top_end(s)) is None,
    ensures
        ({
            let quoted = match c.method {
                MethodConfig::Telex => "\""@ + "telex"@ + "\""@,
                MethodConfig::Vni => "\""@ + "vni"@ + "\""@,
                MethodConfig::Viqr => "\""@ + "viqr"@ + "\""@,
            };
            let added = "\n"@ + "method"@ + " = "@ + quoted + "\n"@ + "modern_style"@ + " = "@ + (
            if c.modern_style {
                "true"@
            } else {
                "false"@
            }) + "\n"@ + "enable_evdev_grab"@ + " = "@ + (if c.enable_evdev_grab {
                "true"@
            } else {
                "false"@
            }) + "\n"@ + "evdev_grab_hooks"@ + " = "@ + hooks;
            let rest = s.skip(top_end(s));
            edited(s, c, hooks) == s.take(top_end(s)) + added + (if rest.len() > 0 && rest[0]
                == '\n' {
                rest
            } else {
                "\n"@ + rest
            })
        }),
{
    reveal_strlit("\n");
    let d0 = Draft { text: s, pending: Seq::empty() };
    let v1 = "\""@ + method_name(c.method) + "\""@;
    let v2 = bool_name(c.modern_style);
    let v3 = bool_name(c.enable_evdev_grab);
    let d1 = with_entry(d0, "method"@, v1);
    let d2 = with_entry(d1, "modern_style"@, v2);
    let d3 = with_entry(d2, "enable_evdev_grab"@, v3);
    let d4 = with_entry(d3, "evdev_grab_hooks"@, hooks);
    assert(d4.text == s);
    let p1 = "\n"@ + "method"@ + " = "@ + v1;
    assert(d1.pending =~= p1);
    assert(d2.pending == p1 + "\n"@ + "modern_style"@ + " = "@ + v2);
    assert(d4.pending.len() > 0);
}

/// A line that holds a name in square brackets starts a table, whatever white space is
/// around it.
pub proof fn law_bracketed_lines_are_tables(a: Seq<char>, name: Seq<char>, b: Seq<char>)
    requires
        strings::laws::blank(a) && strings::laws::blank(b),
        !name.contains('#'),
    ensures
        table_header(a + (seq!['['] + name + seq![']']) + b),
{
    let t = seq!['['] + name + seq![']'];
    assert(t[0] == '[' && t.last() == ']');
    strings::laws::law_trimming_takes_white_space(a, t, b);
    assert(!t.contains('#')) by {
        if t.contains('#') {
            let i = choose|i: int| 0 <= i < t.len() && t[i] == '#';
            assert(name[i - 1] == '#');
        }
    }
    strings::law_split_undoes_join(seq![t], '#');
    assert(strings::joined(seq![t], seq!['#']) == t);
    assert(strings::split(t, '#')[0] == t);
    assert(strings::end_trimmed(t) == t);
}

/// A file that is made from scratch has the settings that were chosen, and else the
/// defaults.
pub proof fn law_generated_settings(change: TrayChange, hooks: Seq<Seq<char>>)
    ensures
        ({
            let g = generated(change, hooks);
            let d = config::default_settings();
            &&& g.method == change.method && g.modern_style == change.modern_style
            &&& g.enable_evdev_grab == change.enable_evdev_grab && g.evdev_grab_hooks == hooks
            &&& g.enable_wayland == d.enable_wayland && g.log_level == d.log_level && g.log_path
                == d.log_path && g.log_modules == d.log_modules
            &&& g.bracket_shortcuts == d.bracket_shortcuts && g.enable_ibus == d.enable_ibus
        }),
{
}

proof fn lemma_found_at(s: Seq<char>, c: char, from: int, at: int)
    requires
        0 <= from <= at < s.len(),
        s[at] == c,
        forall|i: int| from <= i < at ==> #[trigger] s[i] != c,
    ensures
        found_from(s, seq![c], from) == Some(at),
{
    lemma_found_first(s, c, from, at);
    lemma_found_within(s, seq![c], from);
    let k = found_from(s, seq![c], from)->0;
    assert(s.subrange(k, k + 1)[0] == s[k]);
}

/// A value ends with its line; a list ends with its closing bracket, on whichever line that
/// stands.
pub proof fn law_values_end_where_they_should(
    front: Seq<char>,
    line: Seq<char>,
    items: Seq<char>,
    rest: Seq<char>,
)
    requires
        !line.contains('\n'),
        line.len() > 0 && line[0] != '[' && !words::whitespace(line[0]),
        !items.contains(']'),
    ensures
        ({
            let s = front + line + seq!['\n'] + rest;
            value_end(s, front.len() as int, s.len() as int) == front.len() + line.len()
        }),
        ({
            let s = front + (seq!['['] + items + seq![']']) + rest;
            value_end(s, front.len() as int, s.len() as int) == front.len() + items.len() + 2
        }),
{
    let n = front.len() as int;
    let s = front + line + seq!['\n'] + rest;
    assert forall|i: int| n <= i < n + line.len() implies #[trigger] s[i] != '\n' by {
        assert(s[i] == line[i - n]);
    }
    lemma_found_at(s, '\n', n, n + line.len());
    assert(s.subrange(n, n + line.len()) =~= line);
    assert(strings::start_trimmed(line) == line);
    let list = seq!['['] + items + seq![']'];
    let t = front + list + rest;
    let end = line_end(t, n, t.len() as int);
    lemma_found_within(t, seq!['\n'], n);
    assert(t[n] == '[');
    assert(n < end) by {
        if found_from(t, seq!['\n'], n) == Some(n) {
            assert(t.subrange(n, n + 1)[0] == t[n]);
        }
    }
    let head = t.subrange(n, end);
    assert(head[0] == '[');
    assert(strings::start_trimmed(head) == head);
    assert(t.take(t.len() as int) =~= t);
    let close = n + items.len() + 1;
    assert(t[close] == ']');
    assert forall|i: int| n <= i < close implies #[trigger] t[i] != ']' by {
        if i > n {
            assert(t[i] == items[i - n - 1]);
        }
    }
    lemma_found_at(t, ']', n, close);
}

/// A line that names a key has its value behind the equals sign, with white space in front
/// of it or without; where only a comment stands there, it has none.
pub proof fn law_lines_hold_values(
    front: Seq<char>,
    key: Seq<char>,
    val: Seq<char>,
    rest: Seq<char>,
)
    requires
        val.len() > 0 && !val.contains('\n'),
        !words::whitespace(val[0]),
    ensures
        ({
            let s = front + key + seq![' ', '=', ' '] + val + seq!['\n'] + rest;
            let t = front + key + seq![' ', '='] + val + seq!['\n'] + rest;
            let n = front.len() as int + key.len();
            &&& val[0] != '#' ==> value_on_line(s, key, front.len() as int, s.len() as int) == Some(
                n + 3,
            )
            &&& val[0] != '#' ==> value_on_line(t, key, front.len() as int, t.len() as int) == Some(
                n + 2,
            )
            &&& val[0] == '#' ==> value_on_line(s, key, front.len() as int, s.len() as int) is None
            &&& val[0] == '#' ==> value_on_line(t, key, front.len() as int, t.len() as int) is None
        }),
{
    reveal_strlit(" = ");
    reveal_strlit(" =");
    assert(" = "@ =~= seq![' ', '=', ' ']);
    assert(" ="@ =~= seq![' ', '=']);
    let f = front.len() as int;
    let n = f + key.len();
    let s = front + key + seq![' ', '=', ' '] + val + seq!['\n'] + rest;
    let t = front + key + seq![' ', '='] + val + seq!['\n'] + rest;
    assert(s.subrange(f, n + 3) =~= key + " = "@);
    assert(s.subrange(f, n + 2) =~= key + " ="@);
    assert(t.subrange(f, n + 2) =~= key + " ="@);
    assert(t[n + 2] == val[0]);
    assert(!words::whitespace('#'));
    assert(t.subrange(f, n + 3) != key + " = "@) by {
        assert(t.subrange(f, n + 3)[key.len() as int + 2] == val[0]);
        assert((key + " = "@)[key.len() as int + 2] == ' ');
        assert(words::whitespace(' '));
    }
    lemma_value_line(s, n + 3, val);
    lemma_value_line(t, n + 2, val);
    let gap = seq![' '] + val;
    let line = s.subrange(n + 2, n + 3 + val.len());
    assert(line =~= gap);
    assert forall|i: int| n + 2 <= i < n + 3 + val.len() implies #[trigger] s[i] != '\n' by {
        if i > n + 2 {
            assert(s[i] == val[i - n - 3]);
        }
    }
    lemma_found_at(s, '\n', n + 2, n + 3 + val.len());
    assert(gap.drop_first() =~= val);
    assert(strings::start_trimmed(val) == val);
    assert(strings::start_trimmed(gap) == val);
}

proof fn lemma_value_line(s: Seq<char>, at: int, val: Seq<char>)
    requires
        0 <= at,
        at + val.len() < s.len(),
        val.len() > 0 && !val.contains('\n'),
        !words::whitespace(val[0]),
        forall|i: int| 0 <= i < val.len() ==> s[at + i] == #[trigger] val[i],
        s[at + val.len()] == '\n',
    ensures
        value_at(s, at, s.len() as int) == (val[0] != '#'),
{
    assert forall|i: int| at <= i < at + val.len() implies #[trigger] s[i] != '\n' by {
        assert(s[at + (i - at)] == val[i - at]);
    }
    lemma_found_at(s, '\n', at, at + val.len());
    assert(s.subrange(at, at + val.len()) =~= val);
    assert(strings::start_trimmed(val) == val);
}

/// A comment behind a table's name changes nothing.
pub proof fn law_tables_may_have_comments(
    a: Seq<char>,
    name: Seq<char>,
    b: Seq<char>,
    comment: Seq<char>,
)
    requires
        strings::laws::blank(a) && strings::laws::blank(b),
        strings::laws::solid(comment),
        !name.contains('#'),
    ensures
        table_header(a + ((seq!['['] + name + seq![']'] + b).push('#') + comment)),
{
    let none = Seq::<char>::empty();
    let t = seq!['['] + name + seq![']'];
    let x = t + b;
    let whole = x.push('#') + comment;
    assert(whole[0] == '[' && whole.last() == comment[comment.len() - 1]);
    strings::laws::law_trimming_takes_white_space(a, whole, none);
    assert(a + whole + none =~= a + whole);
    assert(!x.contains('#')) by {
        if x.contains('#') {
            let i = choose|i: int| 0 <= i < x.len() && x[i] == '#';
            if i < t.len() {
                assert(t[i] == '#');
                assert(name[i - 1] == '#');
            } else {
                assert(b[i - t.len()] == '#');
                assert(words::whitespace(b[i - t.len()]));
            }
        }
    }
    strings::laws::lemma_split_front(x, '#', comment);
    assert(strings::split(whole, '#')[0] == x);
    assert(t[0] == '[' && t.last() == ']');
    strings::laws::law_trimming_takes_white_space(none, t, b);
    assert(none + t + b =~= x);
    assert(x[0] == '[');
    assert(strings::start_trimmed(x) == x);
}

} // verus!
