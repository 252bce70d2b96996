//! A JSON value as a tree of plain data, with its mathematical view, and the
//! two places where text is turned into such a tree and back.

use vstd::prelude::*;

verus! {

/// A JSON value held by the library.
///
/// A number is kept as its decimal text, an object as its members in order.
#[derive(Debug, PartialEq, Eq)]
pub enum Json {
    Null,
    Bool(bool),
    Number(String),
    Text(String),
    Array(Vec<Json>),
    Object(Vec<(String, Json)>),
}

/// The mathematical value of a [`Json`].
pub ghost enum JsonTree {
    Null,
    Bool(bool),
    Number(Seq<char>),
    Text(Seq<char>),
    Array(Seq<JsonTree>),
    Object(Seq<(Seq<char>, JsonTree)>),
}

impl View for Json {
    type V = JsonTree;

    open spec fn view(&self) -> JsonTree
        decreases self,
    {
        match self {
            Json::Null => JsonTree::Null,
            Json::Bool(b) => JsonTree::Bool(*b),
            Json::Number(n) => JsonTree::Number(n@),
            Json::Text(s) => JsonTree::Text(s@),
            Json::Array(items) => JsonTree::Array(
                Seq::new(
                    items.len() as nat,
                    |i: int|
                        if 0 <= i < items.len() {
                            items[i].view()
                        } else {
                            JsonTree::Null
                        },
                ),
            ),
            Json::Object(members) => JsonTree::Object(
                Seq::new(
                    members.len() as nat,
                    |i: int|
                        (
                            members[i].0@,
                            if 0 <= i < members.len() {
                                members[i].1.view()
                            } else {
                                JsonTree::Null
                            },
                        ),
                ),
            ),
        }
    }
}

/// The views of a run of values, in order.
pub open spec fn trees(items: Seq<Json>) -> Seq<JsonTree> {
    Seq::new(items.len(), |i: int| items[i]@)
}

/// The views of a run of members, in order.
pub open spec fn member_trees(members: Seq<(String, Json)>) -> Seq<(Seq<char>, JsonTree)> {
    Seq::new(members.len(), |i: int| (members[i].0@, members[i].1@))
}

/// The value of the first member of `members` named `key`, if there is one.
pub open spec fn lookup(members: Seq<(Seq<char>, JsonTree)>, key: Seq<char>) -> Option<JsonTree>
    decreases members.len(),
{
    if members.len() == 0 {
        None
    } else if members[0].0 == key {
        Some(members[0].1)
    } else {
        lookup(members.skip(1), key)
    }
}

/// The member named `key` of an object; `None` for any other value.
pub open spec fn field(tree: JsonTree, key: Seq<char>) -> Option<JsonTree> {
    match tree {
        JsonTree::Object(members) => lookup(members, key),
        _ => None,
    }
}

/// The position of the first member of `members` named `key`, or the length
/// of `members` if none has that name.
pub open spec fn position(members: Seq<(Seq<char>, JsonTree)>, key: Seq<char>) -> int
    decreases members.len(),
{
    if members.len() == 0 {
        0
    } else if members[0].0 == key {
        0
    } else {
        1 + position(members.skip(1), key)
    }
}

/// `position` stays inside the run, names the first match, and agrees with
/// `lookup`.
pub proof fn lemma_position(members: Seq<(Seq<char>, JsonTree)>, key: Seq<char>)
    ensures
        0 <= position(members, key) <= members.len(),
        forall|i: int| 0 <= i < position(members, key) ==> (#[trigger] members[i]).0 != key,
        position(members, key) < members.len() ==> {
            &&& members[position(members, key)].0 == key
            &&& lookup(members, key) == Some(members[position(members, key)].1)
        },
        position(members, key) == members.len() ==> lookup(members, key) is None,
    decreases members.len(),
{
    if members.len() > 0 && members[0].0 != key {
        let rest = members.skip(1);
        lemma_position(rest, key);
        assert forall|i: int| 0 <= i < position(members, key) implies (#[trigger] members[i]).0
            != key by {
            if i > 0 {
                assert(members[i] == rest[i - 1]);
            }
        }
        if position(members, key) < members.len() {
            assert(members[position(members, key)] == rest[position(rest, key)]);
        }
    }
}

/// An array's view holds the views of its items.
pub proof fn lemma_array_view(json: Json)
    requires
        json is Array,
    ensures
        json@ == JsonTree::Array(trees(json->Array_0@)),
{
    assert(json@->Array_0 =~= trees(json->Array_0@));
}

/// An object's view holds the views of its members.
pub proof fn lemma_object_view(json: Json)
    requires
        json is Object,
    ensures
        json@ == JsonTree::Object(member_trees(json->Object_0@)),
{
    assert(json@->Object_0 =~= member_trees(json->Object_0@));
}

/// The tree that a JSON text stands for, or `None` where the text is not
/// valid JSON.
pub uninterp spec fn json_of_text(text: Seq<char>) -> Option<JsonTree>;

/// The tree that a `serde_json::Value` holds: a number as its decimal text,
/// the members of an object in the order in which the value hands them out.
pub uninterp spec fn value_tree(value: serde_json::Value) -> JsonTree;

/// The tree held by the `serde_json::Value` that is built from `tree`. A
/// `serde_json::Value` keeps the members of an object by their names, so a
/// name that is repeated keeps one value and the order may change; and it
/// keeps a number only where it reads the text as one.
pub uninterp spec fn stored_tree(tree: JsonTree) -> JsonTree;

/// The compact JSON text that `serde_json` writes for a value that holds
/// `tree`.
pub uninterp spec fn tree_text(tree: JsonTree) -> Seq<char>;

/// The compact JSON text of a tree.
pub open spec fn text_of_json(tree: JsonTree) -> Seq<char> {
    tree_text(stored_tree(tree))
}

/// `serde_json::Value`, carried between `serde_json` and the converters below
/// and never looked into.
#[verifier::external_type_specification]
#[verifier::external_body]
pub struct ExValue(serde_json::Value);

/// Calls `serde_json::from_str` for a `serde_json::Value`. The contract
/// claims only that the outcome is a function of the text: a value that
/// holds the tree that the text stands for, or nothing where `serde_json`
/// rejects the text.
#[verifier::external_body]
fn parse_value(text: &str) -> (r: Option<serde_json::Value>)
    ensures
        r matches Some(value) ==> json_of_text(text@) == Some(value_tree(value)),
        r is None ==> json_of_text(text@) is None,
{
    serde_json::from_str::<serde_json::Value>(text).ok()
}

/// Moves a `serde_json::Value` into a [`Json`], variant by variant, a number
/// through `serde_json::Number`'s `to_string`. The contract claims that the
/// result's view is what the value holds.
#[verifier::external_body]
fn from_value(value: serde_json::Value) -> (r: Json)
    ensures
        r@ == value_tree(value),
{
    match value {
        serde_json::Value::Null => Json::Null,
        serde_json::Value::Bool(b) => Json::Bool(b),
        serde_json::Value::Number(n) => Json::Number(n.to_string()),
        serde_json::Value::String(s) => Json::Text(s),
        serde_json::Value::Array(items) => Json::Array(items.into_iter().map(from_value).collect()),
        serde_json::Value::Object(members) => Json::Object(
            members.into_iter().map(|(k, v)| (k, from_value(v))).collect(),
        ),
    }
}

/// Builds a `serde_json::Value` from a [`Json`], variant by variant, a number
/// through `serde_json::Number`'s `from_str`, with `null` where that fails.
/// The contract claims only that what the value holds is a function of the
/// view.
#[verifier::external_body]
fn to_value(json: &Json) -> (r: serde_json::Value)
    ensures
        value_tree(r) == stored_tree(json@),
{
    match json {
        Json::Null => serde_json::Value::Null,
        Json::Bool(b) => serde_json::Value::Bool(*b),
        Json::Number(n) => n.parse().map_or(serde_json::Value::Null, serde_json::Value::Number),
        Json::Text(s) => serde_json::Value::String(s.clone()),
        Json::Array(items) => serde_json::Value::Array(items.iter().map(to_value).collect()),
        Json::Object(members) => serde_json::Value::Object(
            members.iter().map(|(k, v)| (k.clone(), to_value(v))).collect(),
        ),
    }
}

/// Calls `serde_json::to_string` on a `serde_json::Value`. The contract
/// claims only that the text is a function of what the value holds.
#[verifier::external_body]
fn write_value(value: &serde_json::Value) -> (r: String)
    ensures
        r@ == tree_text(value_tree(*value)),
{
    serde_json::to_string(value).unwrap_or_default()
}

/// Reads one JSON text.
pub fn read_json(text: &str) -> (r: Option<Json>)
    ensures
        r matches Some(json) ==> json_of_text(text@) == Some(json@),
        r is None ==> json_of_text(text@) is None,
{
    match parse_value(text) {
        Some(value) => Some(from_value(value)),
        None => None,
    }
}

impl Clone for Json {
    /// A copy with the same view.
    fn clone(&self) -> (r: Json)
        ensures
            r@ == self@,
        decreases self,
    {
        match self {
            Json::Null => Json::Null,
            Json::Bool(b) => Json::Bool(*b),
            Json::Number(n) => Json::Number(n.clone()),
            Json::Text(s) => Json::Text(s.clone()),
            Json::Array(items) => {
                let mut copy: Vec<Json> = Vec::new();
                let mut i: usize = 0;
                while i < items.len()
                    invariant
                        0 <= i <= items.len(),
                        *self == Json::Array(*items),
                        copy.len() == i,
                        forall|j: int| 0 <= j < i ==> (#[trigger] copy[j])@ == items[j]@,
                    decreases items.len() - i,
                {
                    assert(decreases_to!(*self => self->Array_0));
                    assert(decreases_to!(*items => items[i as int]));
                    copy.push(items[i].clone());
                    i += 1;
                }
                let r = Json::Array(copy);
                proof {
                    lemma_array_view(*self);
                    lemma_array_view(r);
                    assert(trees(copy@) =~= trees(items@));
                }
                r
            },
            Json::Object(members) => {
                let mut copy: Vec<(String, Json)> = Vec::new();
                let mut i: usize = 0;
                while i < members.len()
                    invariant
                        0 <= i <= members.len(),
                        *self == Json::Object(*members),
                        copy.len() == i,
                        forall|j: int|
                            0 <= j < i ==> (#[trigger] copy[j]).0@ == members[j].0@ && copy[j].1@
                                == members[j].1@,
                    decreases members.len() - i,
                {
                    assert(decreases_to!(*self => self->Object_0));
                    assert(decreases_to!(*members => members[i as int]));
                    assert(decreases_to!(members[i as int] => members[i as int].1));
                    copy.push((members[i].0.clone(), members[i].1.clone()));
                    i += 1;
                }
                let r = Json::Object(copy);
                proof {
                    lemma_object_view(*self);
                    lemma_object_view(r);
                    assert(member_trees(copy@) =~= member_trees(members@));
                }
                r
            },
        }
    }
}

impl Json {
    /// The compact JSON text of this value.
    pub fn to_text(&self) -> (r: String)
        ensures
            r@ == text_of_json(self@),
    {
        let value = to_value(self);
        write_value(&value)
    }

    /// A text value holding a copy of `text`.
    pub fn text(text: &str) -> (r: Json)
        ensures
            r@ == JsonTree::Text(text@),
    {
        Json::Text(text.to_owned())
    }

    /// The text of a text value.
    pub fn as_text(&self) -> (r: Option<&String>)
        ensures
            match self@ {
                JsonTree::Text(s) => r matches Some(t) && t@ == s,
                _ => r is None,
            },
    {
        match self {
            Json::Text(s) => Some(s),
            _ => None,
        }
    }

    /// The truth value of a boolean.
    pub fn as_bool(&self) -> (r: Option<bool>)
        ensures
            match self@ {
                JsonTree::Bool(b) => r == Some(b),
                _ => r is None,
            },
    {
        match self {
            Json::Bool(b) => Some(*b),
            _ => None,
        }
    }

    /// The items of an array.
    pub fn as_array(&self) -> (r: Option<&Vec<Json>>)
        ensures
            match self@ {
                JsonTree::Array(items) => r matches Some(v) && trees(v@) == items,
                _ => r is None,
            },
    {
        match self {
            Json::Array(items) => {
                proof {
                    lemma_array_view(*self);
                }
                Some(items)
            },
            _ => None,
        }
    }

    /// The members of an object.
    pub fn as_object(&self) -> (r: Option<&Vec<(String, Json)>>)
        ensures
            match self@ {
                JsonTree::Object(members) => r matches Some(v) && member_trees(v@) == members,
                _ => r is None,
            },
    {
        match self {
            Json::Object(members) => {
                proof {
                    lemma_object_view(*self);
                }
                Some(members)
            },
            _ => None,
        }
    }

    /// The first member named `key` of an object.
    pub fn get(&self, key: &str) -> (r: Option<&Json>)
        ensures
            match field(self@, key@) {
                Some(tree) => r matches Some(json) && json@ == tree,
                None => r is None,
            },
    {
        match self {
            Json::Object(members) => {
                proof {
                    lemma_object_view(*self);
                }
                find_member(members, key)
            },
            _ => None,
        }
    }
}

/// Whether two strings hold the same characters.
pub fn same_text(a: &str, b: &str) -> (r: bool)
    ensures
        r == (a@ == b@),
{
    let x: String = a.to_owned();
    let y: String = b.to_owned();
    x == y
}

/// The first member named `key` among `members`.
pub fn find_member<'a>(members: &'a Vec<(String, Json)>, key: &str) -> (r: Option<&'a Json>)
    ensures
        match lookup(member_trees(members@), key@) {
            Some(tree) => r matches Some(json) && json@ == tree,
            None => r is None,
        },
{
    let ghost all = member_trees(members@);
    let mut i: usize = 0;
    while i < members.len()
        invariant
            0 <= i <= members.len(),
            all == member_trees(members@),
            forall|j: int| 0 <= j < i ==> (#[trigger] all[j]).0 != key@,
        decreases members.len() - i,
    {
        if same_text(members[i].0.as_str(), key) {
            proof {
                lemma_position(all, key@);
                assert(all[i as int].0 == key@);
                assert(position(all, key@) == i);
            }
            return Some(&members[i].1);
        }
        i += 1;
    }
    proof {
        lemma_position(all, key@);
    }
    None
}

} // verus!
