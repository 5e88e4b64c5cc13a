//! Texts as IBus sends them.
//!
//! A text is a structure of a type name, an empty dictionary of attachments, the
//! text itself, and a variant that holds a list of attributes.
use vstd::prelude::*;

verus! {

/// A plain field of a structure.
#[derive(Debug)]
pub enum IbusLeaf {
    Str(String),
    /// An empty dictionary from texts to variants.
    EmptyDict,
    /// An empty array of variants.
    EmptyArray,
    /// Anything else.
    Other,
}

/// A field of a structure.
#[derive(Debug)]
pub enum IbusField {
    Leaf(IbusLeaf),
    /// A variant that holds a structure.
    Variant(Vec<IbusLeaf>),
}

/// A value: a structure, or anything else.
#[derive(Debug)]
pub enum IbusValue {
    Structure(Vec<IbusField>),
    Other,
}

/// [`IbusLeaf`] as values.
pub enum Leaf {
    Str(Seq<char>),
    EmptyDict,
    EmptyArray,
    Other,
}

/// [`IbusField`] as values.
pub enum Field {
    Leaf(Leaf),
    Variant(Seq<Leaf>),
}

/// [`IbusValue`] as values.
pub enum Tree {
    Structure(Seq<Field>),
    Other,
}

impl View for IbusLeaf {
    type V = Leaf;

    open spec fn view(&self) -> Leaf {
        match *self {
            IbusLeaf::Str(s) => Leaf::Str(s@),
            IbusLeaf::EmptyDict => Leaf::EmptyDict,
            IbusLeaf::EmptyArray => Leaf::EmptyArray,
            IbusLeaf::Other => Leaf::Other,
        }
    }
}

/// Leaves as values.
pub open spec fn leaves(v: Seq<IbusLeaf>) -> Seq<Leaf> {
    v.map_values(|l: IbusLeaf| l@)
}

impl View for IbusField {
    type V = Field;

    open spec fn view(&self) -> Field {
        match *self {
            IbusField::Leaf(l) => Field::Leaf(l@),
            IbusField::Variant(v) => Field::Variant(leaves(v@)),
        }
    }
}

/// Fields as values.
pub open spec fn fields(v: Seq<IbusField>) -> Seq<Field> {
    v.map_values(|f: IbusField| f@)
}

impl View for IbusValue {
    type V = Tree;

    open spec fn view(&self) -> Tree {
        match *self {
            IbusValue::Structure(v) => Tree::Structure(fields(v@)),
            IbusValue::Other => Tree::Other,
        }
    }
}

/// A list of no attributes.
pub open spec fn attr_leaves() -> Seq<Leaf> {
    seq![Leaf::Str("IBusAttrList"@), Leaf::EmptyDict, Leaf::EmptyArray]
}

/// A list of no attributes, as a value of its own.
pub open spec fn attr_list() -> Tree {
    Tree::Structure(
        seq![
            Field::Leaf(Leaf::Str("IBusAttrList"@)),
            Field::Leaf(Leaf::EmptyDict),
            Field::Leaf(Leaf::EmptyArray),
        ],
    )
}

/// A text without attributes.
pub open spec fn text_value(t: Seq<char>) -> Tree {
    Tree::Structure(
        seq![
            Field::Leaf(Leaf::Str("IBusText"@)),
            Field::Leaf(Leaf::EmptyDict),
            Field::Leaf(Leaf::Str(t)),
            Field::Variant(attr_leaves()),
        ],
    )
}

/// A list of no attributes.
pub fn ibus_attr_list() -> (v: IbusValue)
    ensures
        v@ == attr_list(),
{
    let mut v: Vec<IbusField> = Vec::new();
    v.push(IbusField::Leaf(IbusLeaf::Str("IBusAttrList".to_owned())));
    v.push(IbusField::Leaf(IbusLeaf::EmptyDict));
    v.push(IbusField::Leaf(IbusLeaf::EmptyArray));
    assert(fields(v@) =~= attr_list()->Structure_0);
    IbusValue::Structure(v)
}

/// A text without attributes.
pub fn ibus_text(text: &str) -> (v: IbusValue)
    ensures
        v@ == text_value(text@),
{
    let mut attrs: Vec<IbusLeaf> = Vec::new();
    attrs.push(IbusLeaf::Str("IBusAttrList".to_owned()));
    attrs.push(IbusLeaf::EmptyDict);
    attrs.push(IbusLeaf::EmptyArray);
    assert(leaves(attrs@) =~= attr_leaves());
    let mut v: Vec<IbusField> = Vec::new();
    v.push(IbusField::Leaf(IbusLeaf::Str("IBusText".to_owned())));
    v.push(IbusField::Leaf(IbusLeaf::EmptyDict));
    v.push(IbusField::Leaf(IbusLeaf::Str(text.to_owned())));
    v.push(IbusField::Variant(attrs));
    assert(fields(v@) =~= text_value(text@)->Structure_0);
    IbusValue::Structure(v)
}

/// The text in a value: the third field of a structure, if it is a text.
pub open spec fn text_in(v: Tree) -> Option<Seq<char>> {
    match v {
        Tree::Structure(f) => if f.len() >= 3 {
            match f[2] {
                Field::Leaf(Leaf::Str(s)) => Some(s),
                _ => None,
            }
        } else {
            None
        },
        Tree::Other => None,
    }
}

/// The text in a value.
pub fn extract_ibus_text_string(v: &IbusValue) -> (r: Option<String>)
    ensures
        crate::config::opt_text(r) == text_in(v@),
{
    match v {
        IbusValue::Structure(f) => {
            if f.len() < 3 {
                return None;
            }
            assert(v@->Structure_0[2] == f@[2]@);
            match &f[2] {
                IbusField::Leaf(IbusLeaf::Str(s)) => Some(s.as_str().to_owned()),
                _ => None,
            }
        },
        IbusValue::Other => None,
    }
}

/// The D-Bus signature of a field.
pub open spec fn leaf_signature(l: Leaf) -> Seq<char> {
    match l {
        Leaf::Str(_) => "s"@,
        Leaf::EmptyDict => "a{sv}"@,
        Leaf::EmptyArray => "av"@,
        Leaf::Other => "v"@,
    }
}

/// The D-Bus signatures of fields, one behind the other. A variant is a variant,
/// whatever it holds.
pub open spec fn field_signatures(f: Seq<Field>) -> Seq<char>
    decreases f.len(),
{
    if f.len() == 0 {
        Seq::empty()
    } else {
        field_signatures(f.drop_last()) + match f.last() {
            Field::Leaf(l) => leaf_signature(l),
            Field::Variant(_) => "v"@,
        }
    }
}

/// The D-Bus signature of a value.
pub open spec fn signature(v: Tree) -> Seq<char> {
    match v {
        Tree::Structure(f) => "("@ + field_signatures(f) + ")"@,
        Tree::Other => "v"@,
    }
}

impl IbusValue {
    /// The D-Bus signature of the value.
    pub fn value_signature(&self) -> (s: String)
        ensures
            s@ == signature(self@),
    {
        match self {
            IbusValue::Other => "v".to_owned(),
            IbusValue::Structure(f) => {
                let ghost all = fields(f@);
                let mut s = "(".to_owned();
                assert(all.take(0) =~= Seq::<Field>::empty());
                assert("("@ + Seq::<char>::empty() =~= "("@);
                for i in 0..f.len()
                    invariant
                        all == fields(f@),
                        s@ == "("@ + field_signatures(all.take(i as int)),
                {
                    let ghost before = s@;
                    proof {
                        assert(all.take(i + 1).drop_last() =~= all.take(i as int));
                        assert(all.take(i + 1).last() == f@[i as int]@);
                    }
                    let part = match &f[i] {
                        IbusField::Leaf(IbusLeaf::Str(_)) => "s",
                        IbusField::Leaf(IbusLeaf::EmptyDict) => "a{sv}",
                        IbusField::Leaf(IbusLeaf::EmptyArray) => "av",
                        IbusField::Leaf(IbusLeaf::Other) => "v",
                        IbusField::Variant(_) => "v",
                    };
                    s.push_str(part);
                    assert(s@ =~= "("@ + field_signatures(all.take(i + 1)));
                }
                assert(all.take(f.len() as int) =~= all);
                s.push_str(")");
                s
            },
        }
    }
}

/// A text is found again in the value that was made from it.
pub proof fn law_text_round_trip(t: Seq<char>)
    ensures
        text_in(text_value(t)) == Some(t),
{
}

/// Texts and lists of attributes have the signatures that IBus gives them.
pub proof fn law_signatures(t: Seq<char>)
    ensures
        signature(text_value(t)) == "(sa{sv}sv)"@,
        signature(attr_list()) == "(sa{sv}av)"@,
{
    reveal_strlit("(");
    reveal_strlit(")");
    reveal_strlit("s");
    reveal_strlit("v");
    reveal_strlit("a{sv}");
    reveal_strlit("av");
    reveal_strlit("(sa{sv}sv)");
    reveal_strlit("(sa{sv}av)");
    reveal_with_fuel(field_signatures, 5);
    let f = text_value(t)->Structure_0;
    let g = attr_list()->Structure_0;
    assert(f.drop_last().drop_last().drop_last().drop_last() =~= Seq::<Field>::empty());
    assert(g.drop_last().drop_last().drop_last() =~= Seq::<Field>::empty());
    assert(signature(text_value(t)) =~= "(sa{sv}sv)"@);
    assert(signature(attr_list()) =~= "(sa{sv}av)"@);
}

} // verus!
