//! The focused window in a compositor's window tree.
use vstd::prelude::*;

use crate::json;
use crate::json::{member_text, parse_json, Json, Tree};

verus! {

/// The list of a member, or no list where it is none.
pub open spec fn children(node: Tree, key: Seq<char>) -> Seq<Tree> {
    match json::member(node, key) {
        Some(Tree::Array(items)) => items,
        _ => Seq::empty(),
    }
}

/// A container that has the focus.
pub open spec fn has_focus(node: Tree) -> bool {
    json::member(node, "focused"@) == Some(Tree::Bool(true))
}

/// Application id and title of a container.
pub open spec fn window_of(node: Tree) -> (Seq<char>, Seq<char>) {
    (
        json::text_or_empty(json::member(node, "app_id"@)),
        json::text_or_empty(json::member(node, "name"@)),
    )
}

/// Application id and title of the first focused container, in depth-first
/// order: a container before its children, tiled children before floating ones.
pub open spec fn focused_in(node: Tree) -> Option<(Seq<char>, Seq<char>)>
    decreases node, 2nat,
{
    if has_focus(node) {
        Some(window_of(node))
    } else {
        match focused_below(node, "nodes"@) {
            Some(w) => Some(w),
            None => focused_below(node, "floating_nodes"@),
        }
    }
}

/// The same for the children under a member.
pub open spec fn focused_below(node: Tree, key: Seq<char>) -> Option<(Seq<char>, Seq<char>)>
    decreases node, 1nat,
{
    match node {
        Tree::Object(members) => match json::member_at(members, key, 0) {
            Some(k) => if 0 <= k < members.len() {
                match members[k].1 {
                    Tree::Array(items) => first_focused(items, items.len()),
                    _ => None,
                }
            } else {
                None
            },
            None => None,
        },
        _ => None,
    }
}

/// The same for the first `n` containers of a list.
pub open spec fn first_focused(list: Seq<Tree>, n: nat) -> Option<(Seq<char>, Seq<char>)>
    decreases list, n,
{
    if n == 0 || n > list.len() {
        None
    } else {
        match first_focused(list, (n - 1) as nat) {
            Some(w) => Some(w),
            None => focused_in(list[n - 1]),
        }
    }
}

/// A found window as characters.
pub open spec fn found_view(r: Option<(String, String)>) -> Option<(Seq<char>, Seq<char>)> {
    match r {
        Some((a, n)) => Some((a@, n@)),
        None => None,
    }
}

/// Application id and title of the focused container.
pub fn find_focused(node: &Json) -> (r: Option<(String, String)>)
    ensures
        found_view(r) == focused_in(json::tree(*node)),
    decreases node, 2nat,
{
    let focused = match node.get("focused") {
        Some(v) => v.is_true(),
        None => false,
    };
    if focused {
        let app_id = member_text(node, "app_id");
        let name = member_text(node, "name");
        return Some((app_id, name));
    }
    match find_below(node, "nodes") {
        Some(r) => Some(r),
        None => find_below(node, "floating_nodes"),
    }
}

fn find_below(node: &Json, key: &str) -> (r: Option<(String, String)>)
    ensures
        found_view(r) == focused_below(json::tree(*node), key@),
    decreases node, 1nat,
{
    proof {
        match json::tree(*node) {
            Tree::Object(members) => json::lemma_member_at(members, key@, 0),
            _ => {},
        }
    }
    match node.get(key) {
        Some(Json::Array(items)) => {
            proof {
                json::lemma_trees(items@, items@.len());
            }
            let ghost list = json::trees(items@, items@.len());
            assert(focused_below(json::tree(*node), key@) == first_focused(list, list.len()));
            for i in 0..items.len()
                invariant
                    list == json::trees(items@, items@.len()),
                    list.len() == items@.len(),
                    focused_below(json::tree(*node), key@) == first_focused(list, list.len()),
                    forall|j: int|
                        0 <= j < list.len() ==> #[trigger] list[j] == json::tree(items@[j]),
                    first_focused(list, i as nat) is None,
                    decreases_to!(node => items@),
            {
                let found = find_focused(&items[i]);
                assert(list[i as int] == json::tree(items@[i as int]));
                if found.is_some() {
                    proof {
                        lemma_found_stays(list, (i + 1) as nat, list.len());
                    }
                    return found;
                }
            }
            None
        },
        _ => None,
    }
}

proof fn lemma_found_stays(list: Seq<Tree>, n: nat, m: nat)
    requires
        n <= m <= list.len(),
        first_focused(list, n) is Some,
    ensures
        first_focused(list, m) == first_focused(list, n),
    decreases m - n,
{
    if n < m {
        lemma_found_stays(list, n, (m - 1) as nat);
    }
}

/// Application id and title of the focused window, from the window tree as the
/// compositor prints it; `None` where nothing is focused or it is no JSON.
pub fn focused_app_info(tree: &Vec<u8>) -> (r: Option<(String, String)>)
    ensures
        found_view(r) == match json::json_of(tree@) {
            Some(t) => focused_in(t),
            None => None,
        },
{
    match parse_json(tree) {
        Some(j) => find_focused(&j),
        None => None,
    }
}

/// A tree in which nothing is focused at the top is searched child by child: the
/// first child that holds a focused container decides.
pub proof fn law_first_child_decides(node: Tree, k: int)
    requires
        !has_focus(node),
        0 <= k < children(node, "nodes"@).len(),
        focused_in(children(node, "nodes"@)[k]) is Some,
        forall|i: int|
            0 <= i < k ==> focused_in(#[trigger] children(node, "nodes"@)[i]) is None,
    ensures
        focused_in(node) == focused_in(children(node, "nodes"@)[k]),
{
    let list = children(node, "nodes"@);
    match node {
        Tree::Object(members) => json::lemma_member_at(members, "nodes"@, 0),
        _ => {},
    }
    lemma_none_before(list, k as nat);
    lemma_found_stays(list, (k + 1) as nat, list.len());
}

proof fn lemma_none_before(list: Seq<Tree>, k: nat)
    requires
        k <= list.len(),
        forall|i: int| 0 <= i < k ==> focused_in(#[trigger] list[i]) is None,
    ensures
        first_focused(list, k) is None,
    decreases k,
{
    if k > 0 {
        lemma_none_before(list, (k - 1) as nat);
        assert(focused_in(list[k - 1]) is None);
    }
}

/// A container that has the focus is the one that is found, with its own application id
/// and title.
pub proof fn law_focus_decides(node: Tree)
    requires
        json::member(node, "focused"@) == Some(Tree::Bool(true)),
    ensures
        focused_in(node) is Some,
        focused_in(node) matches Some((id, title)) ==> {
            &&& json::member(node, "app_id"@) matches Some(Tree::Text(t)) ==> id == t
            &&& json::member(node, "name"@) matches Some(Tree::Text(t)) ==> title == t
            &&& json::member(node, "app_id"@) is None ==> id.len() == 0
            &&& json::member(node, "name"@) is None ==> title.len() == 0
        },
{
}

/// Where no tiled child holds the focus, the floating ones are searched, child by child.
pub proof fn law_floating_children_come_after(node: Tree, k: int)
    requires
        !has_focus(node),
        forall|i: int|
            0 <= i < children(node, "nodes"@).len() ==> focused_in(
                #[trigger] children(node, "nodes"@)[i],
            ) is None,
        0 <= k < children(node, "floating_nodes"@).len(),
        focused_in(children(node, "floating_nodes"@)[k]) is Some,
        forall|i: int|
            0 <= i < k ==> focused_in(#[trigger] children(node, "floating_nodes"@)[i]) is None,
    ensures
        focused_in(node) == focused_in(children(node, "floating_nodes"@)[k]),
{
    let tiled = children(node, "nodes"@);
    let list = children(node, "floating_nodes"@);
    match node {
        Tree::Object(members) => {
            json::lemma_member_at(members, "nodes"@, 0);
            json::lemma_member_at(members, "floating_nodes"@, 0);
        },
        _ => {},
    }
    lemma_none_before(tiled, tiled.len());
    lemma_none_before(list, k as nat);
    lemma_found_stays(list, (k + 1) as nat, list.len());
}

} // verus!
