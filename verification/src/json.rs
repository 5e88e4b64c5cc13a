//! JSON values.
use vstd::prelude::*;

verus! {

/// A JSON value. Numbers are kept as they are printed.
#[derive(Debug)]
pub enum Json {
    Null,
    Bool(bool),
    Number(String),
    Text(String),
    Array(Vec<Json>),
    Object(Vec<(String, Json)>),
}

/// [`Json`] as values.
pub enum Tree {
    Null,
    Bool(bool),
    Number(Seq<char>),
    Text(Seq<char>),
    Array(Seq<Tree>),
    Object(Seq<(Seq<char>, Tree)>),
}

/// A JSON value as values.
pub open spec fn tree(j: Json) -> Tree
    decreases j, 0nat,
{
    match j {
        Json::Null => Tree::Null,
        Json::Bool(b) => Tree::Bool(b),
        Json::Number(n) => Tree::Number(n@),
        Json::Text(t) => Tree::Text(t@),
        Json::Array(items) => Tree::Array(trees(items@, items@.len())),
        Json::Object(members) => Tree::Object(members_view(members@, members@.len())),
    }
}

/// The first `n` values of a list as values.
pub open spec fn trees(items: Seq<Json>, n: nat) -> Seq<Tree>
    decreases items, n,
{
    if n == 0 || n > items.len() {
        Seq::empty()
    } else {
        trees(items, (n - 1) as nat).push(tree(items[n - 1]))
    }
}

/// The first `n` members of an object as values.
pub open spec fn members_view(members: Seq<(String, Json)>, n: nat) -> Seq<(Seq<char>, Tree)>
    decreases members, n,
{
    if n == 0 || n > members.len() {
        Seq::empty()
    } else {
        members_view(members, (n - 1) as nat).push((members[n - 1].0@, tree(members[n - 1].1)))
    }
}

pub proof fn lemma_trees(items: Seq<Json>, n: nat)
    requires
        n <= items.len(),
    ensures
        trees(items, n).len() == n,
        forall|i: int| 0 <= i < n ==> #[trigger] trees(items, n)[i] == tree(items[i]),
    decreases n,
{
    if n > 0 {
        lemma_trees(items, (n - 1) as nat);
    }
}

proof fn lemma_members(members: Seq<(String, Json)>, n: nat)
    requires
        n <= members.len(),
    ensures
        members_view(members, n).len() == n,
        forall|i: int|
            0 <= i < n ==> #[trigger] members_view(members, n)[i] == (
                members[i].0@,
                tree(members[i].1),
            ),
    decreases n,
{
    if n > 0 {
        lemma_members(members, (n - 1) as nat);
    }
}

/// Where member `key` first occurs among the members from `k` on.
pub open spec fn member_at(members: Seq<(Seq<char>, Tree)>, key: Seq<char>, k: int) -> Option<int>
    decreases members.len() - k,
{
    if k < 0 || k >= members.len() {
        None
    } else if members[k].0 == key {
        Some(k)
    } else {
        member_at(members, key, k + 1)
    }
}

/// Member `key` of a value; `None` where the value is no object or has no such
/// member.
pub open spec fn member(t: Tree, key: Seq<char>) -> Option<Tree> {
    match t {
        Tree::Object(members) => match member_at(members, key, 0) {
            Some(k) => Some(members[k].1),
            None => None,
        },
        _ => None,
    }
}

/// A member that was found is a member, and smaller than its object.
pub proof fn lemma_member_at(members: Seq<(Seq<char>, Tree)>, key: Seq<char>, k: int)
    requires
        0 <= k <= members.len(),
    ensures
        member_at(members, key, k) matches Some(i) ==> k <= i < members.len() && members[i].0
            == key,
    decreases members.len() - k,
{
    if k < members.len() && members[k].0 != key {
        lemma_member_at(members, key, k + 1);
    }
}

/// The value that a JSON text stands for; `None` where it is no JSON.
pub uninterp spec fn json_of(bytes: Seq<u8>) -> Option<Tree>;

/// A JSON value as the parser gives it.
#[verifier::external_type_specification]
#[verifier::external_body]
pub struct ExValue(serde_json::Value);

/// A `serde_json::Value` as a [`Json`]: each variant becomes the one of its kind,
/// arrays and objects item by item.
#[verifier::external_body]
fn converted(v: serde_json::Value) -> Json {
    match v {
        serde_json::Value::Null => Json::Null,
        serde_json::Value::Bool(b) => Json::Bool(b),
        serde_json::Value::Number(n) => Json::Number(n.to_string()),
        serde_json::Value::String(s) => Json::Text(s),
        serde_json::Value::Array(a) => Json::Array(a.into_iter().map(converted).collect()),
        serde_json::Value::Object(m) => {
            Json::Object(m.into_iter().map(|(k, v)| (k, converted(v))).collect())
        },
    }
}

/// `serde_json::from_slice::<serde_json::Value>`: the value that the bytes stand
/// for. Which bytes are JSON is left to the parser.
#[verifier::external_body]
fn parse(bytes: &[u8]) -> (r: Option<Json>)
    ensures
        r is Some <==> json_of(bytes@) is Some,
        r matches Some(j) ==> json_of(bytes@) == Some(tree(j)),
{
    serde_json::from_slice::<serde_json::Value>(bytes).ok().map(converted)
}

/// The value that a JSON text stands for; `None` where it is no JSON.
pub fn parse_json(bytes: &Vec<u8>) -> (r: Option<Json>)
    ensures
        r is Some <==> json_of(bytes@) is Some,
        r matches Some(j) ==> json_of(bytes@) == Some(tree(j)),
{
    parse(bytes.as_slice())
}

impl Json {
    /// Member `key` of a value.
    pub fn get(&self, key: &str) -> (r: Option<&Json>)
        ensures
            r is Some <==> member(tree(*self), key@) is Some,
            r matches Some(j) ==> member(tree(*self), key@) == Some(tree(*j)),
            r matches Some(j) ==> self matches Json::Object(m) && exists|i: int|
                0 <= i < m@.len() && *j == #[trigger] m@[i].1,
    {
        let members = match self {
            Json::Object(m) => m,
            _ => {
                return None;
            },
        };
        let ghost all = members_view(members@, members@.len());
        proof {
            lemma_members(members@, members@.len());
        }
        for k in 0..members.len()
            invariant
                *self == Json::Object(*members),
                all == members_view(members@, members@.len()),
                all.len() == members@.len(),
                forall|i: int|
                    0 <= i < all.len() ==> #[trigger] all[i] == (
                        members@[i].0@,
                        tree(members@[i].1),
                    ),
                member_at(all, key@, 0) == member_at(all, key@, k as int),
        {
            assert(all[k as int].0 == members@[k as int].0@);
            if *members[k].0.as_str() == *key {
                assert(*self matches Json::Object(m) && m@[k as int].1 == members@[k as int].1);
                return Some(&members[k].1);
            }
        }
        None
    }

    /// Whether a value is `true`.
    pub fn is_true(&self) -> (b: bool)
        ensures
            b == (tree(*self) == Tree::Bool(true)),
    {
        match self {
            Json::Bool(b) => *b,
            _ => false,
        }
    }
}

/// The text of a value, or nothing where it is none.
pub open spec fn text_or_empty(t: Option<Tree>) -> Seq<char> {
    match t {
        Some(Tree::Text(s)) => s,
        _ => Seq::empty(),
    }
}

/// The text of member `key`, or nothing where it is none.
pub fn member_text(j: &Json, key: &str) -> (s: String)
    ensures
        s@ == text_or_empty(member(tree(*j), key@)),
{
    match j.get(key) {
        Some(Json::Text(s)) => s.as_str().to_owned(),
        _ => String::new(),
    }
}

/// A member is looked up by its name: the first of that name, and none where there is none.
pub proof fn law_first_member_counts(members: Seq<(Seq<char>, Tree)>, key: Seq<char>, k: int)
    requires
        0 <= k <= members.len(),
    ensures
        match member_at(members, key, k) {
            Some(i) => k <= i < members.len() && members[i].0 == key && forall|j: int|
                k <= j < i ==> (#[trigger] members[j]).0 != key,
            None => forall|j: int| k <= j < members.len() ==> (#[trigger] members[j]).0 != key,
        },
    decreases members.len() - k,
{
    if k < members.len() && members[k].0 != key {
        law_first_member_counts(members, key, k + 1);
    }
}

/// Only a text has a text; anything else, and nothing, has an empty one.
pub proof fn law_texts_of_values(t: Tree)
    ensures
        t matches Tree::Text(s) ==> text_or_empty(Some(t)) == s,
        !(t is Text) ==> text_or_empty(Some(t)).len() == 0,
        text_or_empty(None).len() == 0,
{
}

} // verus!
