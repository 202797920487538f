use vstd::prelude::*;

use crate::classify::same_text;

verus! {

/// A leaf value of an attribute snapshot. Composite values (objects and
/// arrays) are kept as their textual form and never compared key by key.
#[derive(Debug)]
pub enum AttrValue {
    Null,
    Bool(bool),
    /// A number, as its decimal text.
    Number(String),
    Str(String),
    /// An object or array, as its default text.
    Composite(String),
}

/// The mathematical form of a leaf value.
pub enum Leaf {
    Null,
    Bool(bool),
    Number(Seq<char>),
    Str(Seq<char>),
    Composite(Seq<char>),
}

impl View for AttrValue {
    type V = Leaf;

    open spec fn view(&self) -> Leaf {
        match self {
            AttrValue::Null => Leaf::Null,
            AttrValue::Bool(b) => Leaf::Bool(*b),
            AttrValue::Number(s) => Leaf::Number(s@),
            AttrValue::Str(s) => Leaf::Str(s@),
            AttrValue::Composite(s) => Leaf::Composite(s@),
        }
    }
}

impl AttrValue {
    /// Whether two values are equal as leaves.
    pub fn same_value(&self, other: &AttrValue) -> (r: bool)
        ensures
            r == (self@ == other@),
    {
        match (self, other) {
            (AttrValue::Null, AttrValue::Null) => true,
            (AttrValue::Bool(a), AttrValue::Bool(b)) => *a == *b,
            (AttrValue::Number(a), AttrValue::Number(b)) => same_text(a.as_str(), b.as_str()),
            (AttrValue::Str(a), AttrValue::Str(b)) => same_text(a.as_str(), b.as_str()),
            (AttrValue::Composite(a), AttrValue::Composite(b)) => same_text(
                a.as_str(),
                b.as_str(),
            ),
            _ => false,
        }
    }

    /// A copy of the value.
    pub fn copied(&self) -> (r: AttrValue)
        ensures
            r@ == self@,
    {
        match self {
            AttrValue::Null => AttrValue::Null,
            AttrValue::Bool(b) => AttrValue::Bool(*b),
            AttrValue::Number(s) => AttrValue::Number(s.clone()),
            AttrValue::Str(s) => AttrValue::Str(s.clone()),
            AttrValue::Composite(s) => AttrValue::Composite(s.clone()),
        }
    }
}

/// One key of a snapshot with its value.
#[derive(Debug)]
pub struct Attribute {
    pub key: String,
    pub value: AttrValue,
}

impl View for Attribute {
    type V = (Seq<char>, Leaf);

    open spec fn view(&self) -> (Seq<char>, Leaf) {
        (self.key@, self.value@)
    }
}

/// A flat attribute snapshot: keys with their values, in the snapshot's own
/// key order.
#[derive(Debug)]
pub struct Snapshot {
    pub attributes: Vec<Attribute>,
}

impl View for Snapshot {
    type V = Seq<(Seq<char>, Leaf)>;

    open spec fn view(&self) -> Seq<(Seq<char>, Leaf)> {
        self.attributes@.map_values(|a: Attribute| a@)
    }
}

/// No key occurs twice.
pub open spec fn keys_distinct(s: Seq<(Seq<char>, Leaf)>) -> bool {
    forall|i: int, j: int| 0 <= i < j < s.len() ==> s[i].0 != s[j].0
}

impl Snapshot {
    pub open spec fn wf(&self) -> bool {
        keys_distinct(self@)
    }
}

/// The view of an optional snapshot.
pub open spec fn opt_snapshot(s: Option<Snapshot>) -> Option<Seq<(Seq<char>, Leaf)>> {
    match s {
        Some(x) => Some(x@),
        None => None,
    }
}

/// The value that a snapshot holds under a key, the last one if the key
/// occurs more than once.
pub open spec fn lookup(s: Seq<(Seq<char>, Leaf)>, k: Seq<char>) -> Option<Leaf>
    decreases s.len(),
{
    if s.len() == 0 {
        None
    } else if s.last().0 == k {
        Some(s.last().1)
    } else {
        lookup(s.drop_last(), k)
    }
}

/// The raw change of one resource: its action tags and its snapshots.
#[derive(Debug)]
pub struct Change {
    pub actions: Vec<String>,
    pub before: Option<Snapshot>,
    pub after: Option<Snapshot>,
}

/// One resource of a plan.
#[derive(Debug)]
pub struct ResourceChange {
    pub address: String,
    pub change: Change,
}

/// A plan: its resource changes, in display order.
#[derive(Debug)]
pub struct TerraformPlan {
    pub resource_changes: Vec<ResourceChange>,
}

} // verus!
