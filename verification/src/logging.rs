//! Logging directives.
use vstd::prelude::*;
use vstd::string::*;

use crate::strings;

verus! {

/// Why a logging setting is refused.
#[derive(Debug)]
pub enum LogError {
    /// Not one of `error`, `info` and `debug`.
    Level(String),
    /// Not of the form `target=level`.
    Directive(String),
    /// A directive whose target is empty.
    EmptyTarget(String),
}

/// [`LogError`] with its text as characters.
pub enum Refusal {
    Level(Seq<char>),
    Directive(Seq<char>),
    EmptyTarget(Seq<char>),
}

impl View for LogError {
    type V = Refusal;

    open spec fn view(&self) -> Refusal {
        match *self {
            LogError::Level(s) => Refusal::Level(s@),
            LogError::Directive(s) => Refusal::Directive(s@),
            LogError::EmptyTarget(s) => Refusal::EmptyTarget(s@),
        }
    }
}

/// The text of a refusal.
pub open spec fn refusal_text(e: Refusal) -> Seq<char> {
    match e {
        Refusal::Level(l) => "invalid log level "@ + strings::debug_text(l)
            + "; use error, info, or debug"@,
        Refusal::Directive(d) => "invalid log directive "@ + strings::debug_text(d)
            + "; use target=level"@,
        Refusal::EmptyTarget(d) => "invalid log directive "@ + strings::debug_text(d)
            + "; target is empty"@,
    }
}

impl LogError {
    pub fn message(&self) -> (s: String)
        ensures
            s@ == refusal_text(self@),
    {
        let (what, quoted, advice) = match self {
            LogError::Level(l) => ("invalid log level ", l, "; use error, info, or debug"),
            LogError::Directive(d) => ("invalid log directive ", d, "; use target=level"),
            LogError::EmptyTarget(d) => ("invalid log directive ", d, "; target is empty"),
        };
        let mut s = what.to_owned();
        let quoted = strings::to_debug_text(quoted.as_str());
        s.push_str(quoted.as_str());
        s.push_str(advice);
        s
    }
}

/// A result with its texts as characters.
pub open spec fn result_view(r: Result<String, LogError>) -> Result<Seq<char>, Refusal> {
    match r {
        Ok(s) => Ok(s@),
        Err(e) => Err(e@),
    }
}

/// The level that a setting names. `debug` stands for everything.
pub open spec fn level_of(raw: Seq<char>) -> Result<Seq<char>, Refusal> {
    let t = strings::lowered(strings::trimmed(raw));
    if t == "error"@ {
        Ok("error"@)
    } else if t == "info"@ {
        Ok("info"@)
    } else if t == "debug"@ {
        Ok("trace"@)
    } else {
        Err(Refusal::Level(t))
    }
}

/// Where the first `=` stands; the length of `s` when there is none.
pub open spec fn first_equals(s: Seq<char>) -> nat
    decreases s.len(),
{
    if s.len() == 0 || s[0] == '=' {
        0
    } else {
        1 + first_equals(s.drop_first())
    }
}

/// A directive in normal form; empty for an empty one.
pub open spec fn directive_of(raw: Seq<char>) -> Result<Seq<char>, Refusal> {
    let t = strings::trimmed(raw);
    let at = first_equals(t) as int;
    if t.len() == 0 {
        Ok(Seq::empty())
    } else if at >= t.len() {
        Err(Refusal::Directive(t))
    } else {
        let target = strings::trimmed(t.take(at));
        if target.len() == 0 {
            Err(Refusal::EmptyTarget(t))
        } else {
            match level_of(t.skip(at + 1)) {
                Ok(level) => Ok(target + "="@ + level),
                Err(e) => Err(e),
            }
        }
    }
}

/// The directives of `modules` in normal form, without empty ones; the first
/// refusal when there is one.
pub open spec fn directives_of(modules: Seq<Seq<char>>) -> Result<Seq<Seq<char>>, Refusal>
    decreases modules.len(),
{
    if modules.len() == 0 {
        Ok(Seq::empty())
    } else {
        match directives_of(modules.drop_last()) {
            Err(e) => Err(e),
            Ok(rest) => match directive_of(modules.last()) {
                Err(e) => Err(e),
                Ok(d) => if d.len() == 0 {
                    Ok(rest)
                } else {
                    Ok(rest.push(d))
                },
            },
        }
    }
}

/// The whole filter: the level, then a directive per module, comma-separated.
pub open spec fn filter_of(level: Seq<char>, modules: Seq<Seq<char>>) -> Result<Seq<char>, Refusal> {
    match level_of(level) {
        Err(e) => Err(e),
        Ok(l) => match directives_of(modules) {
            Err(e) => Err(e),
            Ok(ds) => Ok(strings::joined(seq![l] + ds, ","@)),
        },
    }
}

pub fn normalize_level(raw: &str) -> (r: Result<String, LogError>)
    ensures
        result_view(r) == level_of(raw@),
{
    let t = strings::to_lower(strings::trim(raw));
    if *t.as_str() == *"error" {
        Ok("error".to_owned())
    } else if *t.as_str() == *"info" {
        Ok("info".to_owned())
    } else if *t.as_str() == *"debug" {
        Ok("trace".to_owned())
    } else {
        Err(LogError::Level(t))
    }
}

proof fn lemma_first_equals(s: Seq<char>, k: int)
    requires
        0 <= k <= s.len(),
        forall|i: int| 0 <= i < k ==> #[trigger] s[i] != '=',
        k < s.len() ==> s[k] == '=',
    ensures
        first_equals(s) == k,
    decreases s.len(),
{
    if k > 0 {
        assert(s[0] != '=');
        let t = s.drop_first();
        assert forall|i: int| 0 <= i < k - 1 implies #[trigger] t[i] != '=' by {
            assert(t[i] == s[i + 1]);
        }
        lemma_first_equals(t, k - 1);
    }
}

fn find_equals(s: &str) -> (k: usize)
    ensures
        k == first_equals(s@),
        k <= s@.len(),
{
    let n: usize = s.unicode_len();
    let mut k: usize = 0;
    while k < n && s.get_char(k) != '='
        invariant
            n == s@.len(),
            k <= n,
            forall|i: int| 0 <= i < k ==> #[trigger] s@[i] != '=',
        decreases n - k,
    {
        k = k + 1;
    }
    proof {
        lemma_first_equals(s@, k as int);
    }
    k
}

pub fn normalize_directive(raw: &str) -> (r: Result<String, LogError>)
    ensures
        result_view(r) == directive_of(raw@),
{
    let t = strings::trim(raw);
    if t.is_empty() {
        let s = String::new();
        return Ok(s);
    }
    let n: usize = t.unicode_len();
    let at: usize = find_equals(t);
    if at >= n {
        return Err(LogError::Directive(t.to_owned()));
    }
    assert(t@.subrange(0, at as int) =~= t@.take(at as int));
    assert(t@.subrange(at + 1, n as int) =~= t@.skip(at + 1));
    let target = strings::trim(t.substring_char(0, at));
    if target.is_empty() {
        return Err(LogError::EmptyTarget(t.to_owned()));
    }
    match normalize_level(t.substring_char(at + 1, n)) {
        Ok(level) => {
            let mut s = target.to_owned();
            s.push_str("=");
            s.push_str(level.as_str());
            Ok(s)
        },
        Err(e) => Err(e),
    }
}

/// The filter for a level and per-module directives.
pub fn build_directives(log_level: &str, log_modules: &Vec<String>) -> (r: Result<String, LogError>)
    ensures
        result_view(r) == filter_of(log_level@, strings::texts(log_modules@)),
{
    let level = match normalize_level(log_level) {
        Ok(l) => l,
        Err(e) => {
            return Err(e);
        },
    };
    let ghost l = level@;
    let ghost all = strings::texts(log_modules@);
    let mut directives: Vec<String> = Vec::new();
    directives.push(level);
    assert(strings::texts(directives@) =~= seq![l]);
    let ghost mut ds: Seq<Seq<char>> = Seq::empty();
    assert(all.take(0) =~= Seq::<Seq<char>>::empty());
    for i in 0..log_modules.len()
        invariant
            all == strings::texts(log_modules@),
            level_of(log_level@) == Ok::<Seq<char>, Refusal>(l),
            strings::texts(directives@) == seq![l] + ds,
            directives_of(all.take(i as int)) == Ok::<Seq<Seq<char>>, Refusal>(ds),
    {
        let d = normalize_directive(log_modules[i].as_str());
        proof {
            assert(all.take(i + 1).drop_last() =~= all.take(i as int));
            assert(all.take(i + 1).last() == log_modules[i as int]@);
        }
        match d {
            Err(e) => {
                proof {
                    lemma_refusal_stays(all, i + 1);
                }
                return Err(e);
            },
            Ok(d) => {
                if !d.as_str().is_empty() {
                    let ghost before = strings::texts(directives@);
                    proof {
                        ds = ds.push(d@);
                    }
                    directives.push(d);
                    assert(strings::texts(directives@) =~= before.push(d@));
                    assert(before.push(d@) =~= seq![l] + ds);
                }
            },
        }
    }
    assert(all.take(log_modules.len() as int) =~= all);
    let s = strings::join(&directives, ",");
    Ok(s)
}

proof fn lemma_refusal_stays(modules: Seq<Seq<char>>, k: int)
    requires
        0 <= k <= modules.len(),
        directives_of(modules.take(k)) is Err,
    ensures
        directives_of(modules) == directives_of(modules.take(k)),
    decreases modules.len() - k,
{
    if k < modules.len() {
        assert(modules.take(k + 1).drop_last() =~= modules.take(k));
        lemma_refusal_stays(modules, k + 1);
    } else {
        assert(modules.take(k) =~= modules);
    }
}

/// Where the log goes.
#[derive(Debug, Clone, Copy, PartialEq, Eq, Structural)]
pub enum LogTarget {
    Stdout,
    File,
}

/// Whether a log path is the standard output.
pub fn log_target(path: &str) -> (t: LogTarget)
    ensures
        t == if strings::trimmed(path@) == "/dev/stdout"@ {
            LogTarget::Stdout
        } else {
            LogTarget::File
        },
{
    if *strings::trim(path) == *"/dev/stdout" {
        LogTarget::Stdout
    } else {
        LogTarget::File
    }
}

/// A level is one of three words, in any case and with white space around it; `debug`
/// lets everything through. Anything else is said to be none.
pub proof fn law_levels_are_words(a: Seq<char>, word: Seq<char>, b: Seq<char>)
    requires
        strings::laws::blank(a) && strings::laws::blank(b) && strings::laws::trim(word),
    ensures
        ({
            let w = strings::lowered(word);
            level_of(a + word + b) == if w == "error"@ {
                Ok::<Seq<char>, Refusal>("error"@)
            } else if w == "info"@ {
                Ok("info"@)
            } else if w == "debug"@ {
                Ok("trace"@)
            } else {
                Err(Refusal::Level(w))
            }
        }),
{
    strings::laws::law_trimming_takes_white_space(a, word, b);
}

/// A directive is a target, an equals sign and a level, with white space around either.
pub proof fn law_directives_name_target_and_level(target: Seq<char>, level: Seq<char>)
    requires
        strings::laws::solid(target),
        !target.contains('='),
        strings::laws::solid(level),
    ensures
        directive_of(target + seq!['='] + level) == match level_of(level) {
            Ok(l) => Ok::<Seq<char>, Refusal>(target + "="@ + l),
            Err(e) => Err(e),
        },
        directive_of(target) == Err::<Seq<char>, Refusal>(Refusal::Directive(target)),
        directive_of(seq!['='] + level) == Err::<Seq<char>, Refusal>(
            Refusal::EmptyTarget(seq!['='] + level),
        ),
{
    let none = Seq::<char>::empty();
    let s = target + seq!['='] + level;
    let k = target.len() as int;
    assert(s.last() == level[level.len() - 1]);
    assert(target.last() == target[k - 1]);
    assert(s[0] == target[0]);
    strings::laws::law_trimming_takes_white_space(none, s, none);
    assert(none + s + none =~= s);
    strings::laws::law_trimming_takes_white_space(none, target, none);
    assert(none + target + none =~= target);
    assert(forall|i: int| 0 <= i < k ==> s[i] == target[i]);
    lemma_first_equals(s, k);
    assert(s.take(k) =~= target);
    assert(s.skip(k + 1) =~= level);
    lemma_first_equals(target, k);
    let e = seq!['='] + level;
    assert(e[0] == '=' && e.last() == level[level.len() - 1]);
    strings::laws::law_trimming_takes_white_space(none, e, none);
    assert(none + e + none =~= e);
    assert(e.take(0) =~= none);
    strings::laws::law_trimming_takes_white_space(none, none, none);
    assert(none + none + none =~= none);
}

/// The filter is the level for all, followed by the directives for single modules, in
/// order.
pub proof fn law_filters_start_with_the_level(level: Seq<char>, modules: Seq<Seq<char>>)
    ensures
        filter_of(level, modules) matches Ok(t) ==> level_of(level) is Ok && directives_of(modules)
            is Ok && t == strings::joined(seq![level_of(level)->Ok_0] + directives_of(modules)->Ok_0, ","@),
        filter_of(level, Seq::empty()) == level_of(level),
        level_of(level) is Err ==> filter_of(level, modules) is Err,
        directives_of(modules) is Err ==> filter_of(level, modules) is Err,
{
    assert(directives_of(Seq::empty()) == Ok::<Seq<Seq<char>>, Refusal>(Seq::empty()));
    if let Ok(l) = level_of(level) {
        assert(seq![l] + Seq::<Seq<char>>::empty() =~= seq![l]);
    }
}

} // verus!
