use wiki_json_loader::json::Json;
use wiki_json_loader::loader::document::Document;
use wiki_json_loader::loader::record::Record;
use wiki_json_loader::loader::transform::{
    apply, copy_field, copy_fields, drop_document_fields, parse_copy_field, CopyOutcome,
};

fn text(s: &str) -> Json {
    Json::Text(s.to_string())
}

fn pair(a: &str, b: &str) -> Option<(String, String)> {
    Some((a.to_string(), b.to_string()))
}

#[test]
fn reads_a_copy_rule() {
    assert_eq!(parse_copy_field("title=>display_title"), pair("title", "display_title"));
    assert_eq!(parse_copy_field("a=>b"), pair("a", "b"));
    assert_eq!(parse_copy_field("a==>b"), pair("a=", "b"));
    assert_eq!(parse_copy_field("a=>>b"), pair("a", ">b"));
    assert_eq!(parse_copy_field("a =>b "), pair("a ", "b "));
    assert_eq!(parse_copy_field("名前=>名"), pair("名前", "名"));
}

#[test]
fn refuses_a_rule_without_two_parts() {
    assert_eq!(parse_copy_field(""), None);
    assert_eq!(parse_copy_field("title"), None);
    assert_eq!(parse_copy_field("a=b"), None);
    assert_eq!(parse_copy_field("a>=b"), None);
    assert_eq!(parse_copy_field("a=>b=>c"), None);
    assert_eq!(parse_copy_field("a=>=>c"), None);
}

#[test]
fn refuses_a_rule_with_an_empty_part() {
    assert_eq!(parse_copy_field("=>"), None);
    assert_eq!(parse_copy_field("=>b"), None);
    assert_eq!(parse_copy_field("a=>"), None);
}

#[test]
fn copy_rule_duplicates_the_title() {
    let doc = Document::new(r#"{"title":"X","id":"1"}"#).unwrap();
    let mut record = doc.to_hashmap();
    let outcomes = copy_fields(&mut record, &vec!["title=>display_title".to_string()]);
    assert_eq!(outcomes, vec![CopyOutcome::Copied]);
    assert_eq!(record.get("title"), Some(&text("X")));
    assert_eq!(record.get("display_title"), Some(&text("X")));
    assert_eq!(record.get("id"), Some(&text("1")));
    assert_eq!(record.len(), 10);
}

#[test]
fn copy_rules_apply_in_order() {
    let mut record = Record::new();
    record.insert("a".to_string(), text("1"));
    let rules = vec![
        "a=>b".to_string(),
        "b=>c".to_string(),
        "missing=>d".to_string(),
        "broken".to_string(),
        "c=>a".to_string(),
    ];
    let outcomes = copy_fields(&mut record, &rules);
    assert_eq!(
        outcomes,
        vec![
            CopyOutcome::Copied,
            CopyOutcome::Copied,
            CopyOutcome::MissingSource,
            CopyOutcome::InvalidRule,
            CopyOutcome::Copied,
        ]
    );
    assert_eq!(
        record.fields,
        vec![
            ("a".to_string(), text("1")),
            ("b".to_string(), text("1")),
            ("c".to_string(), text("1")),
        ]
    );
}

#[test]
fn a_copy_onto_a_field_replaces_its_value() {
    let mut record = Record::new();
    record.insert("a".to_string(), text("1"));
    record.insert("b".to_string(), text("2"));
    assert_eq!(copy_field(&mut record, "b=>a"), CopyOutcome::Copied);
    assert_eq!(
        record.fields,
        vec![("a".to_string(), text("2")), ("b".to_string(), text("2"))]
    );
    assert_eq!(copy_field(&mut record, "z=>a"), CopyOutcome::MissingSource);
    assert_eq!(copy_field(&mut record, "a=>"), CopyOutcome::InvalidRule);
    assert_eq!(record.len(), 2);
}

#[test]
fn record_keeps_one_value_for_each_name() {
    let mut record = Record::new();
    assert_eq!(record.len(), 0);
    assert!(!record.contains_key("k"));
    record.insert("k".to_string(), text("1"));
    record.insert("l".to_string(), text("2"));
    record.insert("k".to_string(), text("3"));
    assert_eq!(record.len(), 2);
    assert!(record.contains_key("k"));
    assert_eq!(record.get("k"), Some(&text("3")));
    assert_eq!(record.get("l"), Some(&text("2")));
    assert_eq!(record.get("m"), None);
    assert_eq!(record.clone(), record);
    assert_eq!(record.to_json(), Json::Object(record.fields.clone()));
    assert_eq!(record.to_json_string(), r#"{"k":"3","l":"2"}"#);
}

fn with_two_images() -> Document {
    Document::new(
        r#"{"id":"1","title":"T","contents":["c"],"images":[{"target":"a","target_type":"Image","text":{"text":"x"}},{"target":"b","target_type":"File","text":{"text":"y"}}],"links":[{"link_target":"l"}]}"#,
    )
    .unwrap()
}

#[test]
fn dropping_images_empties_them_and_nothing_else() {
    let before = with_two_images();
    let mut doc = with_two_images();
    assert_eq!(doc.images.len(), 2);
    drop_document_fields(&mut doc, &vec!["images".to_string()]);
    assert!(doc.images.is_empty());
    assert_eq!(doc.links, before.links);
    assert_eq!(doc.id, before.id);
    assert_eq!(doc.title, before.title);
    assert_eq!(doc.contents, before.contents);
    let record = doc.to_hashmap();
    assert_eq!(record.get("images"), Some(&Json::Array(vec![])));
    let original = before.to_hashmap();
    for key in ["id", "revision_id", "title", "timestamp", "contents", "headings", "categories", "links"] {
        assert_eq!(record.get(key), original.get(key), "{}", key);
    }
}

#[test]
fn dropping_links_and_unknown_names() {
    let before = with_two_images();
    let mut doc = with_two_images();
    drop_document_fields(&mut doc, &vec!["title".to_string(), "nothing".to_string()]);
    assert_eq!(doc, before);
    drop_document_fields(&mut doc, &vec![]);
    assert_eq!(doc, before);
    drop_document_fields(&mut doc, &vec!["links".to_string(), "Images".to_string()]);
    assert!(doc.links.is_empty());
    assert_eq!(doc.images, before.images);
    drop_document_fields(&mut doc, &vec!["links".to_string(), "images".to_string()]);
    assert!(doc.links.is_empty());
    assert!(doc.images.is_empty());
}

#[test]
fn the_transform_drops_then_copies() {
    let (record, outcomes) = apply(
        with_two_images(),
        &vec!["images".to_string()],
        &vec!["title=>display_title".to_string(), "images=>pictures".to_string(), "x".to_string()],
    );
    assert_eq!(
        outcomes,
        vec![CopyOutcome::Copied, CopyOutcome::Copied, CopyOutcome::InvalidRule]
    );
    assert_eq!(record.get("images"), Some(&Json::Array(vec![])));
    assert_eq!(record.get("pictures"), Some(&Json::Array(vec![])));
    assert_eq!(record.get("title"), Some(&text("T")));
    assert_eq!(record.get("display_title"), Some(&text("T")));
    assert_eq!(record.get("links"), with_two_images().to_hashmap().get("links"));
    assert_eq!(record.len(), 11);
    let names: Vec<&str> = record.fields.iter().map(|(name, _)| name.as_str()).collect();
    assert_eq!(
        names,
        vec![
            "id",
            "revision_id",
            "title",
            "timestamp",
            "contents",
            "headings",
            "categories",
            "images",
            "links",
            "display_title",
            "pictures"
        ]
    );
}

#[test]
fn the_transform_without_rules_is_the_record_of_the_document() {
    let (record, outcomes) = apply(with_two_images(), &vec![], &vec![]);
    assert_eq!(outcomes, vec![]);
    assert_eq!(record, with_two_images().to_hashmap());
}
