//! The edit that turns what is on screen into what the engine wants.
use vstd::prelude::*;
use vstd::string::*;

use crate::engine;
use crate::engine::ProcessResult;
use crate::words;

verus! {

/// A correction that answers a frame rather than a keystroke.
#[derive(Debug, Clone)]
pub struct RetroEdit {
    pub backspaces: usize,
    pub commit: String,
}

/// [`RetroEdit`] with its text as characters.
pub struct Retro {
    pub backspaces: usize,
    pub commit: Seq<char>,
}

/// An optional correction with its text as characters.
pub open spec fn retro_view(e: Option<RetroEdit>) -> Option<Retro> {
    match e {
        Some(e) => Some(Retro { backspaces: e.backspaces, commit: e.commit@ }),
        None => None,
    }
}

/// How many leading characters `a` and `b` share.
pub open spec fn shared_prefix(a: Seq<char>, b: Seq<char>) -> nat
    decreases a.len(),
{
    if a.len() > 0 && b.len() > 0 && a[0] == b[0] {
        1 + shared_prefix(a.drop_first(), b.drop_first())
    } else {
        0
    }
}

/// The shortest end-replacement that turns `screen` into `desired`; none when
/// they are the same.
pub open spec fn end_replacement(screen: Seq<char>, desired: Seq<char>) -> Option<Retro> {
    let p = shared_prefix(screen, desired) as int;
    if screen.len() == p && desired.len() == p {
        None
    } else {
        Some(Retro { backspaces: (screen.len() - p) as usize, commit: desired.skip(p) })
    }
}

/// The correction for a raw key `ch` that stands behind `base` on screen, when
/// the engine answered that key with `reply`.
pub open spec fn repair(base: Seq<char>, ch: char, reply: engine::Reply) -> Option<Retro> {
    if !reply.consumed {
        None
    } else {
        end_replacement(base.push(ch), engine::shown(base, ch, reply))
    }
}

proof fn lemma_shared_prefix(a: Seq<char>, b: Seq<char>)
    ensures
        shared_prefix(a, b) <= a.len(),
        shared_prefix(a, b) <= b.len(),
        a.take(shared_prefix(a, b) as int) == b.take(shared_prefix(a, b) as int),
        shared_prefix(a, b) < a.len() && shared_prefix(a, b) < b.len() ==> a[shared_prefix(a, b) as int]
            != b[shared_prefix(a, b) as int],
    decreases a.len(),
{
    if a.len() > 0 && b.len() > 0 && a[0] == b[0] {
        let (x, y) = (a.drop_first(), b.drop_first());
        lemma_shared_prefix(x, y);
        let p = shared_prefix(x, y) as int;
        assert forall|i: int| 0 <= i < p + 1 implies a[i] == b[i] by {
            if i > 0 {
                assert(x.take(p)[i - 1] == a[i]);
                assert(y.take(p)[i - 1] == b[i]);
            }
        }
        assert(a.take(p + 1) =~= b.take(p + 1));
    } else {
        assert(a.take(0) =~= b.take(0));
    }
}

proof fn lemma_shared_prefix_unique(a: Seq<char>, b: Seq<char>, p: int)
    requires
        0 <= p <= a.len(),
        p <= b.len(),
        forall|i: int| 0 <= i < p ==> a[i] == b[i],
        p < a.len() && p < b.len() ==> a[p] != b[p],
    ensures
        shared_prefix(a, b) == p,
    decreases a.len(),
{
    if a.len() > 0 && b.len() > 0 && a[0] == b[0] {
        assert(p > 0);
        assert forall|i: int| 0 <= i < p - 1 implies a.drop_first()[i] == b.drop_first()[i] by {
            assert(a[i + 1] == b[i + 1]);
        }
        lemma_shared_prefix_unique(a.drop_first(), b.drop_first(), p - 1);
    } else if p > 0 {
        assert(a[0] == b[0]);
    }
}

/// How many leading characters `a` and `b` share.
fn shared_prefix_len(a: &str, b: &str) -> (p: usize)
    ensures
        p == shared_prefix(a@, b@),
{
    let n: usize = a.unicode_len();
    let m: usize = b.unicode_len();
    let mut p: usize = 0;
    while p < n && p < m && a.get_char(p) == b.get_char(p)
        invariant
            n == a@.len(),
            m == b@.len(),
            p <= n,
            p <= m,
            forall|i: int| 0 <= i < p ==> a@[i] == b@[i],
        decreases n - p,
    {
        p = p + 1;
    }
    proof {
        lemma_shared_prefix_unique(a@, b@, p as int);
    }
    p
}

/// The correction for the raw key `ch` behind `base`, from the engine's answer.
pub fn repair_edit(base: &str, ch: char, reply: &ProcessResult) -> (r: Option<RetroEdit>)
    ensures
        retro_view(r) == repair(base@, ch, reply@),
{
    if !reply.consumed {
        return None;
    }
    let mut screen = base.to_owned();
    screen.push(ch);
    let mut desired = base.to_owned();
    engine::show_reply(&mut desired, ch, reply);
    let p: usize = shared_prefix_len(screen.as_str(), desired.as_str());
    let n: usize = screen.as_str().unicode_len();
    let m: usize = desired.as_str().unicode_len();
    proof {
        lemma_shared_prefix(screen@, desired@);
    }
    if n == p && m == p {
        return None;
    }
    let commit = desired.as_str().substring_char(p, m).to_owned();
    assert(commit@ =~= desired@.skip(p as int));
    Some(RetroEdit { backspaces: n - p, commit })
}

/// An end-replacement does what it is for: deleting and then inserting turns the
/// screen into the desired text.
pub proof fn law_repair_reaches_desired(screen: Seq<char>, desired: Seq<char>)
    requires
        screen.len() <= usize::MAX,
    ensures
        match end_replacement(screen, desired) {
            None => screen == desired,
            Some(e) => words::chars_dropped(screen, e.backspaces as nat) + e.commit == desired,
        },
{
    lemma_shared_prefix(screen, desired);
    let p = shared_prefix(screen, desired) as int;
    if screen.len() == p && desired.len() == p {
        assert(screen.take(p) =~= screen);
        assert(desired.take(p) =~= desired);
    } else {
        assert(desired =~= desired.take(p) + desired.skip(p));
    }
}

/// An end-replacement deletes no more than there is.
pub proof fn law_repair_stays_in_the_screen(screen: Seq<char>, desired: Seq<char>)
    requires
        screen.len() <= usize::MAX,
    ensures
        end_replacement(screen, desired) matches Some(e) ==> e.backspaces <= screen.len(),
{
    lemma_shared_prefix(screen, desired);
}

/// No end-replacement that reaches the desired text deletes fewer characters.
pub proof fn law_repair_is_shortest(screen: Seq<char>, desired: Seq<char>, n: nat, commit: Seq<char>)
    requires
        screen.len() <= usize::MAX,
        n <= screen.len(),
        words::chars_dropped(screen, n) + commit == desired,
    ensures
        end_replacement(screen, desired) matches Some(e) ==> e.backspaces <= n,
{
    lemma_shared_prefix(screen, desired);
    let p = shared_prefix(screen, desired) as int;
    let k = screen.len() - n;
    if p < k {
        assert(desired[p] == screen.take(k)[p]);
    }
}

} // verus!
