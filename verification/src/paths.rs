//! File paths as text.
use vstd::prelude::*;
use vstd::string::*;

use crate::strings;

verus! {

/// `name` below directory `dir`, where `name` is relative.
pub open spec fn join_of(dir: Seq<char>, name: Seq<char>) -> Seq<char> {
    if dir.len() == 0 || dir.last() == '/' {
        dir + name
    } else {
        dir + "/"@ + name
    }
}

/// `name` below directory `dir`, where `name` is relative.
pub fn join(dir: &str, name: &str) -> (r: String)
    ensures
        r@ == join_of(dir@, name@),
{
    let mut r = dir.to_owned();
    let n: usize = dir.unicode_len();
    if n > 0 && dir.get_char(n - 1) != '/' {
        r.push_str("/");
    }
    r.push_str(name);
    r
}

/// The names along a path: empty ones do not count, nor does `.`, except at the
/// start of a relative path.
pub open spec fn steps(parts: Seq<Seq<char>>) -> Seq<Seq<char>>
    decreases parts.len(),
{
    if parts.len() == 0 {
        Seq::empty()
    } else {
        let rest = steps(parts.drop_last());
        if parts.last().len() == 0 || (parts.last() == "."@ && parts.len() > 1) {
            rest
        } else {
            rest.push(parts.last())
        }
    }
}

/// Two texts that name the same path.
pub open spec fn same_path(a: Seq<char>, b: Seq<char>) -> bool {
    let rooted_a = a.len() > 0 && a[0] == '/';
    let rooted_b = b.len() > 0 && b[0] == '/';
    rooted_a == rooted_b && steps(strings::split(a, '/')) == steps(strings::split(b, '/'))
}

fn steps_of(path: &str) -> (v: Vec<String>)
    ensures
        strings::texts(v@) == steps(strings::split(path@, '/')),
{
    let parts = strings::split_at_char(path, '/');
    let ghost all = strings::texts(parts@);
    let mut v: Vec<String> = Vec::new();
    assert(strings::texts(v@) =~= Seq::<Seq<char>>::empty());
    for i in 0..parts.len()
        invariant
            all == strings::texts(parts@),
            strings::texts(v@) == steps(all.take(i as int)),
    {
        let part = parts[i].as_str();
        proof {
            assert(all.take(i + 1).drop_last() =~= all.take(i as int));
            assert(all.take(i + 1).last() == part@);
        }
        if part.unicode_len() > 0 && !(*part == *"." && i > 0) {
            let ghost before = strings::texts(v@);
            v.push(part.to_owned());
            assert(strings::texts(v@) =~= before.push(part@));
        }
    }
    assert(all.take(parts.len() as int) =~= all);
    v
}

fn is_rooted(path: &str) -> (b: bool)
    ensures
        b == (path@.len() > 0 && path@[0] == '/'),
{
    path.unicode_len() > 0 && path.get_char(0) == '/'
}

/// Whether two texts name the same path.
pub fn same(a: &str, b: &str) -> (r: bool)
    ensures
        r == same_path(a@, b@),
{
    if is_rooted(a) != is_rooted(b) {
        return false;
    }
    let sa = steps_of(a);
    let sb = steps_of(b);
    let ghost ta = strings::texts(sa@);
    let ghost tb = strings::texts(sb@);
    if sa.len() != sb.len() {
        assert(ta.len() != tb.len());
        return false;
    }
    for i in 0..sa.len()
        invariant
            sa@.len() == sb@.len(),
            ta == strings::texts(sa@),
            tb == strings::texts(sb@),
            ta == steps(strings::split(a@, '/')),
            tb == steps(strings::split(b@, '/')),
            forall|j: int| 0 <= j < i ==> ta[j] == tb[j],
    {
        assert(ta[i as int] == sa[i as int]@);
        assert(tb[i as int] == sb[i as int]@);
        if *sa[i].as_str() != *sb[i].as_str() {
            return false;
        }
    }
    assert(ta =~= tb);
    true
}

/// `path` names the same path as one of `paths`.
pub open spec fn is_among(path: Seq<char>, paths: Seq<Seq<char>>) -> bool {
    exists|i: int| 0 <= i < paths.len() && #[trigger] same_path(paths[i], path)
}

pub fn among(path: &str, paths: &Vec<String>) -> (b: bool)
    ensures
        b == is_among(path@, strings::texts(paths@)),
{
    let ghost all = strings::texts(paths@);
    for i in 0..paths.len()
        invariant
            all == strings::texts(paths@),
            forall|j: int| 0 <= j < i ==> !#[trigger] same_path(all[j], path@),
    {
        assert(all[i as int] == paths[i as int]@);
        if same(paths[i].as_str(), path) {
            assert(same_path(all[i as int], path@));
            return true;
        }
    }
    false
}

/// A name in a directory is the directory, one stroke, and the name.
pub proof fn law_names_stand_behind_one_stroke(dir: Seq<char>, name: Seq<char>)
    requires
        dir.len() > 0,
        dir.last() != '/',
    ensures
        join_of(dir, name) == join_of(dir.push('/'), name),
        join_of(dir, name) == dir.push('/') + name,
        join_of(Seq::empty(), name) == name,
{
    reveal_strlit("/");
    assert("/"@ =~= seq!['/']);
    assert(dir + "/"@ + name =~= dir.push('/') + name);
    assert(Seq::<char>::empty() + name =~= name);
}

/// To be the same path is to be so both ways, and a path is the same as itself; a path
/// from the root is none from elsewhere.
pub proof fn law_same_paths(a: Seq<char>, b: Seq<char>, c: Seq<char>)
    ensures
        same_path(a, a),
        same_path(a, b) ==> same_path(b, a),
        same_path(a, b) && same_path(b, c) ==> same_path(a, c),
        a.len() > 0 && a[0] == '/' && (b.len() == 0 || b[0] != '/') ==> !same_path(a, b),
{
}

/// Strokes in a row, at the end too, and steps that stay where they are make no
/// difference.
pub proof fn law_idle_steps_are_skipped(parts: Seq<Seq<char>>)
    requires
        parts.len() > 0,
    ensures
        steps(parts.push(Seq::empty())) == steps(parts),
        steps(parts.push("."@)) == steps(parts),
        forall|p: Seq<char>|
            p.len() > 0 && p != "."@ ==> #[trigger] steps(parts.push(p)) == steps(parts).push(p),
{
    assert(parts.push(Seq::<char>::empty()).drop_last() =~= parts);
    assert(parts.push("."@).drop_last() =~= parts);
    assert forall|p: Seq<char>| p.len() > 0 && p != "."@ implies #[trigger] steps(parts.push(p))
        == steps(parts).push(p) by {
        assert(parts.push(p).drop_last() =~= parts);
    }
}

} // verus!
