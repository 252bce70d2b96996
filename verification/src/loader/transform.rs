//! The per-record field transform: dropping fields of a document and
//! copying fields of a record under a second name.

use crate::json::{lemma_position, lookup, position, same_text, JsonTree};
use crate::loader::document::{
    document_members, image_items, lemma_document_keys_differ, lemma_lookup_at, texts, Document,
    DocumentView, ImageView,
};
use crate::loader::record::{lemma_upsert, upsert, Record};
use vstd::prelude::*;
use vstd::string::StrSliceExecFns;

verus! {

/// Whether the token `=>` starts at position `i` of `s`.
pub open spec fn arrow_at(s: Seq<char>, i: int) -> bool {
    0 <= i && i + 1 < s.len() && s[i] == '=' && s[i + 1] == '>'
}

/// Whether `s` splits on `=>` into exactly two parts, both non-empty, with
/// the token at position `p`.
pub open spec fn splits_at(s: Seq<char>, p: int) -> bool {
    &&& arrow_at(s, p)
    &&& forall|q: int| arrow_at(s, q) ==> q == p
    &&& 0 < p
    &&& p + 2 < s.len()
}

/// The source and the target of a copy rule, or `None` where the rule does
/// not split on `=>` into exactly two non-empty parts.
pub open spec fn copy_rule(s: Seq<char>) -> Option<(Seq<char>, Seq<char>)> {
    if exists|p: int| splits_at(s, p) {
        let p = choose|p: int| splits_at(s, p);
        Some((s.subrange(0, p), s.subrange(p + 2, s.len() as int)))
    } else {
        None
    }
}

/// Reads a copy rule `source=>target`.
pub fn parse_copy_field(setting: &str) -> (r: Option<(String, String)>)
    ensures
        match copy_rule(setting@) {
            Some(parts) => r matches Some(got) && got.0@ == parts.0 && got.1@ == parts.1,
            None => r is None,
        },
{
    let n = setting.unicode_len();
    let mut found: Option<usize> = None;
    let mut i: usize = 0;
    while i < n
        invariant
            n == setting@.len(),
            0 <= i <= n,
            match found {
                Some(p) => p < i && arrow_at(setting@, p as int),
                None => true,
            },
            forall|q: int| 0 <= q < i && arrow_at(setting@, q) ==> found == Some(q as usize),
        decreases n - i,
    {
        if i + 1 < n && setting.get_char(i) == '=' && setting.get_char(i + 1) == '>' {
            if found.is_some() {
                assert forall|p: int| !splits_at(setting@, p) by {
                    if splits_at(setting@, p) {
                        assert(arrow_at(setting@, i as int));
                        assert(arrow_at(setting@, found->0 as int));
                    }
                }
                return None;
            }
            found = Some(i);
        }
        i += 1;
    }
    match found {
        Some(p) => {
            if 0 < p && p + 2 < n {
                assert(splits_at(setting@, p as int));
                let source = setting.substring_char(0, p).to_owned();
                let target = setting.substring_char(p + 2, n).to_owned();
                Some((source, target))
            } else {
                assert forall|q: int| !splits_at(setting@, q) by {
                    if splits_at(setting@, q) {
                        assert(arrow_at(setting@, p as int));
                    }
                }
                None
            }
        },
        None => {
            assert forall|q: int| !splits_at(setting@, q) by {
                if splits_at(setting@, q) {
                    assert(arrow_at(setting@, q));
                }
            }
            None
        },
    }
}

/// What became of one copy rule.
#[derive(Clone, Copy, Debug, PartialEq, Eq)]
pub enum CopyOutcome {
    /// The value of the source was set under the target.
    Copied,
    /// The record has no field named as the rule's source; nothing was copied.
    MissingSource,
    /// The rule does not read as `source=>target`; nothing was copied.
    InvalidRule,
}

/// What becomes of `rule` on a record with these members.
pub open spec fn rule_outcome(members: Seq<(Seq<char>, JsonTree)>, rule: Seq<char>) -> CopyOutcome {
    match copy_rule(rule) {
        Some(parts) => if lookup(members, parts.0) is Some {
            CopyOutcome::Copied
        } else {
            CopyOutcome::MissingSource
        },
        None => CopyOutcome::InvalidRule,
    }
}

/// The members after `rule`: the value of the source also stands under the
/// target where the rule reads and the source is there; nothing changes
/// otherwise.
pub open spec fn apply_rule(members: Seq<(Seq<char>, JsonTree)>, rule: Seq<char>) -> Seq<
    (Seq<char>, JsonTree),
> {
    match copy_rule(rule) {
        Some(parts) => match lookup(members, parts.0) {
            Some(value) => upsert(members, parts.1, value),
            None => members,
        },
        None => members,
    }
}

/// The members after each of `rules` in turn.
pub open spec fn apply_rules(members: Seq<(Seq<char>, JsonTree)>, rules: Seq<Seq<char>>) -> Seq<
    (Seq<char>, JsonTree),
>
    decreases rules.len(),
{
    if rules.len() == 0 {
        members
    } else {
        apply_rule(apply_rules(members, rules.drop_last()), rules.last())
    }
}

/// Applies one copy rule to a record.
pub fn copy_field(record: &mut Record, rule: &str) -> (r: CopyOutcome)
    ensures
        final(record)@ == apply_rule(old(record)@, rule@),
        r == rule_outcome(old(record)@, rule@),
        old(record).wf() ==> final(record).wf(),
{
    match parse_copy_field(rule) {
        Some((source, target)) => {
            let value = match record.get(source.as_str()) {
                Some(value) => value.clone(),
                None => {
                    return CopyOutcome::MissingSource;
                },
            };
            record.insert(target, value);
            CopyOutcome::Copied
        },
        None => CopyOutcome::InvalidRule,
    }
}

/// Applies copy rules to a record, in their order, and says what became of
/// each.
pub fn copy_fields(record: &mut Record, rules: &Vec<String>) -> (r: Vec<CopyOutcome>)
    ensures
        final(record)@ == apply_rules(old(record)@, texts(rules@)),
        r.len() == rules.len(),
        forall|i: int|
            0 <= i < rules.len() ==> #[trigger] r[i] == rule_outcome(
                apply_rules(old(record)@, texts(rules@).take(i)),
                rules[i]@,
            ),
        old(record).wf() ==> final(record).wf(),
{
    let ghost all = texts(rules@);
    let mut outcomes: Vec<CopyOutcome> = Vec::new();
    let mut i: usize = 0;
    assert(all.take(0) =~= Seq::<Seq<char>>::empty());
    while i < rules.len()
        invariant
            0 <= i <= rules.len(),
            all == texts(rules@),
            record@ == apply_rules(old(record)@, all.take(i as int)),
            old(record).wf() ==> record.wf(),
            outcomes.len() == i,
            forall|j: int|
                0 <= j < i ==> #[trigger] outcomes[j] == rule_outcome(
                    apply_rules(old(record)@, all.take(j)),
                    rules[j]@,
                ),
        decreases rules.len() - i,
    {
        proof {
            let next = all.take(i + 1);
            assert(next.drop_last() =~= all.take(i as int));
            assert(next.last() == rules[i as int]@);
        }
        let outcome = copy_field(record, rules[i].as_str());
        outcomes.push(outcome);
        i += 1;
    }
    assert(all.take(rules.len() as int) =~= all);
    outcomes
}

/// The document without the fields that `names` asks to drop: `images` and
/// `links` are emptied where named; any other name changes nothing.
pub open spec fn drop_fields(doc: DocumentView, names: Seq<Seq<char>>) -> DocumentView {
    DocumentView {
        images: if names.contains("images"@) {
            Seq::empty()
        } else {
            doc.images
        },
        links: if names.contains("links"@) {
            Seq::empty()
        } else {
            doc.links
        },
        ..doc
    }
}

/// Empties the fields of a document that `names` asks to drop.
pub fn drop_document_fields(doc: &mut Document, names: &Vec<String>)
    ensures
        final(doc)@ == drop_fields(old(doc)@, texts(names@)),
{
    let ghost all = texts(names@);
    let mut images = false;
    let mut links = false;
    let mut i: usize = 0;
    while i < names.len()
        invariant
            0 <= i <= names.len(),
            all == texts(names@),
            images == all.take(i as int).contains("images"@),
            links == all.take(i as int).contains("links"@),
        decreases names.len() - i,
    {
        proof {
            let before = all.take(i as int);
            let next = all.take(i + 1);
            assert(next =~= before.push(names[i as int]@));
            assert forall|x: Seq<char>| next.contains(x) == (before.contains(x) || x
                == names[i as int]@) by {
                if before.contains(x) {
                    let k = choose|k: int| 0 <= k < before.len() && before[k] == x;
                    assert(next[k] == x);
                }
                if x == names[i as int]@ {
                    assert(next[i as int] == x);
                }
            }
        }
        if same_text(names[i].as_str(), "images") {
            images = true;
        }
        if same_text(names[i].as_str(), "links") {
            links = true;
        }
        i += 1;
    }
    assert(all.take(names.len() as int) =~= all);
    if images {
        doc.images.clear();
    }
    if links {
        doc.links.clear();
    }
    assert(doc@.images =~= drop_fields(old(doc)@, all).images);
    assert(doc@.links =~= drop_fields(old(doc)@, all).links);
}

/// Dropping `images` empties the images of the record and changes no other
/// field of it: not `links` either, unless that is dropped as well.
pub proof fn lemma_drop_images(doc: DocumentView, names: Seq<Seq<char>>)
    requires
        names.contains("images"@),
    ensures
        lookup(document_members(drop_fields(doc, names)), "images"@) == Some(
            JsonTree::Array(Seq::empty()),
        ),
        forall|key: Seq<char>|
            key != "images"@ && (key != "links"@ || !names.contains("links"@)) ==> lookup(
                document_members(drop_fields(doc, names)),
                key,
            ) == lookup(document_members(doc), key),
{
    let before = document_members(doc);
    let after = document_members(drop_fields(doc, names));
    lemma_document_keys_differ();
    lemma_lookup_at(after, "images"@, 7);
    assert(image_items(Seq::<ImageView>::empty())->Array_0 =~= Seq::<JsonTree>::empty());
    assert forall|key: Seq<char>|
        key != "images"@ && (key != "links"@ || !names.contains("links"@)) implies lookup(
        after,
        key,
    ) == lookup(before, key) by {
        lemma_position(before, key);
        lemma_position(after, key);
        let p = position(before, key);
        let q = position(after, key);
        assert(forall|i: int| 0 <= i < 9 ==> (#[trigger] before[i]).0 == after[i].0);
        assert(forall|i: int| 0 <= i < 7 ==> #[trigger] before[i] == after[i]);
        if p < 9 {
            assert(before[p].0 == key);
            assert(after[p].0 == key);
            if q < p {
                assert(after[q].0 == key);
                assert(before[q].0 == key);
            }
            assert(p != 7);
            if p == 8 {
                assert(before[8].0 == "links"@);
                assert(before[8] == after[8]);
            }
        } else {
            if q < 9 {
                assert(after[q].0 == key);
                assert(before[q].0 == key);
            }
        }
    }
}

/// The record of a document after the field transform: the fields of the
/// document without what `drops` asks to drop, and then the copy rules in
/// their order.
pub open spec fn transformed(doc: DocumentView, drops: Seq<Seq<char>>, rules: Seq<Seq<char>>) -> Seq<
    (Seq<char>, JsonTree),
> {
    apply_rules(document_members(drop_fields(doc, drops)), rules)
}

/// The field transform: drops fields of the document, makes its record and
/// applies the copy rules. Says what became of each rule.
pub fn apply(document: Document, drops: &Vec<String>, rules: &Vec<String>) -> (r: (
    Record,
    Vec<CopyOutcome>,
))
    ensures
        r.0@ == transformed(document@, texts(drops@), texts(rules@)),
        r.0.wf(),
        r.1.len() == rules.len(),
        forall|i: int|
            0 <= i < rules.len() ==> #[trigger] r.1[i] == rule_outcome(
                transformed(document@, texts(drops@), texts(rules@).take(i)),
                rules[i]@,
            ),
{
    let mut document = document;
    drop_document_fields(&mut document, drops);
    let mut record = document.to_hashmap();
    let outcomes = copy_fields(&mut record, rules);
    (record, outcomes)
}

/// A copy rule whose source is there leaves the record with the source's
/// value under both names, and changes no field but the target.
pub proof fn lemma_copy_keeps_both(
    members: Seq<(Seq<char>, JsonTree)>,
    rule: Seq<char>,
    source: Seq<char>,
    target: Seq<char>,
    value: JsonTree,
)
    requires
        copy_rule(rule) == Some((source, target)),
        lookup(members, source) == Some(value),
    ensures
        lookup(apply_rule(members, rule), source) == Some(value),
        lookup(apply_rule(members, rule), target) == Some(value),
        forall|key: Seq<char>|
            key != target ==> lookup(apply_rule(members, rule), key) == lookup(members, key),
{
    lemma_upsert(members, target, value);
}

} // verus!
