//! An outgoing record: a mapping from field names to JSON values that keeps
//! the order in which its fields were first set.

use crate::json::{
    find_member, lemma_object_view, lemma_position, lookup, member_trees, position, text_of_json,
    Json, JsonTree,
};
use crate::loader::document::{document_members, lemma_document_keys_differ, Document};
use vstd::prelude::*;

verus! {

/// No two members have the same name.
pub open spec fn unique_keys(members: Seq<(Seq<char>, JsonTree)>) -> bool {
    forall|i: int, j: int|
        0 <= i < j < members.len() ==> (#[trigger] members[i]).0 != (#[trigger] members[j]).0
}

/// `members` with `key` set to `value`: in place where a member has that
/// name, at the end otherwise.
pub open spec fn upsert(members: Seq<(Seq<char>, JsonTree)>, key: Seq<char>, value: JsonTree) -> Seq<
    (Seq<char>, JsonTree),
> {
    if position(members, key) < members.len() {
        members.update(position(members, key), (key, value))
    } else {
        members.push((key, value))
    }
}

/// Setting a key keeps the names unique, makes `lookup` find the new value
/// under that key, and leaves every other key as it was.
pub proof fn lemma_upsert(members: Seq<(Seq<char>, JsonTree)>, key: Seq<char>, value: JsonTree)
    ensures
        unique_keys(members) ==> unique_keys(upsert(members, key, value)),
        lookup(upsert(members, key, value), key) == Some(value),
        forall|other: Seq<char>|
            other != key ==> lookup(upsert(members, key, value), other) == lookup(members, other),
{
    let p = position(members, key);
    let after = upsert(members, key, value);
    lemma_position(members, key);
    lemma_position(after, key);
    assert(position(after, key) == p) by {
        if position(after, key) < p {
            assert(after[position(after, key)].0 == members[position(after, key)].0);
        }
        if position(after, key) > p {
            assert(after[p].0 == key);
        }
    }
    assert forall|other: Seq<char>| other != key implies lookup(after, other) == lookup(
        members,
        other,
    ) by {
        let q = position(members, other);
        let r = position(after, other);
        lemma_position(members, other);
        lemma_position(after, other);
        if q < members.len() {
            assert(q != p);
            assert(after[q] == members[q]);
            if r < q {
                assert(after[r].0 == other);
                assert(members[r].0 != other);
            }
            if r > q {
                assert(after[q].0 == other);
            }
        } else {
            if r < after.len() {
                assert(after[r].0 == other);
                if r < members.len() {
                    assert(members[r].0 != other);
                }
            }
        }
    }
    if unique_keys(members) {
        assert forall|i: int, j: int| 0 <= i < j < after.len() implies (#[trigger] after[i]).0 != (
        #[trigger] after[j]).0 by {
            if p < members.len() {
                assert(after[i].0 == members[i].0);
                assert(after[j].0 == members[j].0);
            } else {
                if j < members.len() {
                    assert(after[i] == members[i]);
                    assert(after[j] == members[j]);
                } else {
                    assert(after[i] == members[i]);
                    assert(members[i].0 != key);
                }
            }
        }
    }
}

/// An outgoing record.
#[derive(Debug, PartialEq, Eq)]
pub struct Record {
    pub fields: Vec<(String, Json)>,
}

impl View for Record {
    type V = Seq<(Seq<char>, JsonTree)>;

    open spec fn view(&self) -> Seq<(Seq<char>, JsonTree)> {
        member_trees(self.fields@)
    }
}

impl Clone for Record {
    /// A copy with the same fields.
    fn clone(&self) -> (r: Record)
        ensures
            r@ == self@,
    {
        let mut fields: Vec<(String, Json)> = Vec::new();
        let mut i: usize = 0;
        while i < self.fields.len()
            invariant
                0 <= i <= self.fields.len(),
                fields.len() == i,
                forall|j: int|
                    0 <= j < i ==> (#[trigger] fields[j]).0@ == self.fields[j].0@ && fields[j].1@
                        == self.fields[j].1@,
            decreases self.fields.len() - i,
        {
            fields.push((self.fields[i].0.clone(), self.fields[i].1.clone()));
            i += 1;
        }
        assert(member_trees(fields@) =~= member_trees(self.fields@));
        Record { fields }
    }
}

impl Record {
    /// A record is well formed when no field name occurs twice.
    pub open spec fn wf(&self) -> bool {
        unique_keys(self@)
    }

    /// The record without fields.
    pub fn new() -> (r: Record)
        ensures
            r@ == Seq::<(Seq<char>, JsonTree)>::empty(),
            r.wf(),
    {
        let r = Record { fields: Vec::new() };
        assert(r@ =~= Seq::<(Seq<char>, JsonTree)>::empty());
        r
    }

    /// The number of fields.
    pub fn len(&self) -> (r: usize)
        ensures
            r == self@.len(),
    {
        self.fields.len()
    }

    /// The value of the field named `key`.
    pub fn get(&self, key: &str) -> (r: Option<&Json>)
        ensures
            match lookup(self@, key@) {
                Some(tree) => r matches Some(json) && json@ == tree,
                None => r is None,
            },
    {
        find_member(&self.fields, key)
    }

    /// Whether a field is named `key`.
    pub fn contains_key(&self, key: &str) -> (r: bool)
        ensures
            r == lookup(self@, key@) is Some,
    {
        self.get(key).is_some()
    }

    /// Sets the field named `key` to `value`: in place where the record has
    /// that field, as a new last field otherwise.
    pub fn insert(&mut self, key: String, value: Json)
        ensures
            final(self)@ == upsert(old(self)@, key@, value@),
            old(self).wf() ==> final(self).wf(),
    {
        let ghost before = self@;
        proof {
            lemma_position(before, key@);
            lemma_upsert(before, key@, value@);
        }
        let mut i: usize = 0;
        while i < self.fields.len()
            invariant
                0 <= i <= self.fields.len(),
                self@ == before,
                before == old(self)@,
                forall|j: int| 0 <= j < i ==> (#[trigger] before[j]).0 != key@,
            decreases self.fields.len() - i,
        {
            if self.fields[i].0 == key {
                proof {
                    lemma_position(before, key@);
                    lemma_upsert(before, key@, value@);
                    assert(before[i as int].0 == key@);
                    assert(position(before, key@) == i);
                }
                self.fields[i] = (key, value);
                assert(self@ =~= upsert(before, key@, value@));
                return ;
            }
            i += 1;
        }
        proof {
            lemma_position(before, key@);
        }
        self.fields.push((key, value));
        assert(self@ =~= upsert(before, key@, value@));
    }

    /// This record as a JSON object.
    pub fn to_json(&self) -> (r: Json)
        ensures
            r@ == JsonTree::Object(self@),
    {
        let copy = self.clone();
        let r = Json::Object(copy.fields);
        proof {
            lemma_object_view(r);
        }
        r
    }

    /// This record as JSON text.
    pub fn to_json_string(&self) -> (r: String)
        ensures
            r@ == text_of_json(JsonTree::Object(self@)),
    {
        self.to_json().to_text()
    }
}

impl Document {
    /// The record of this document: one field for each field of the
    /// document, in their order.
    pub fn to_hashmap(&self) -> (r: Record)
        ensures
            r@ == document_members(self@),
            r.wf(),
    {
        let r = Record { fields: self.to_members() };
        proof {
            lemma_document_keys_differ();
        }
        r
    }
}

} // verus!
