use wiki_json_loader::json::{read_json, Json};
use wiki_json_loader::loader::document::{
    Document, Image, ImageType, Link, MalformedRecord, Text,
};

fn text(s: &str) -> Json {
    Json::Text(s.to_string())
}

fn full_line() -> &'static str {
    r#"{"id":"12","revision_id":"99","title":"Rust","timestamp":"2020-01-01T00:00:00Z","contents":["first","second"],"headings":["Intro"],"categories":["Languages","Systems"],"images":[{"target":"Ferris.png","target_type":"Image","text":{"text":"the crab","link_target":"Ferris"}},{"target":"spec.pdf","target_type":"File","text":{"text":"plain"}}],"links":[{"link_target":"https://www.rust-lang.org"},{"link_target":"Cargo"}]}"#
}

#[test]
fn parses_a_minimal_document() {
    let doc = Document::new(r#"{"id":"1","title":"X"}"#).unwrap();
    assert_eq!(doc.id, "1");
    assert_eq!(doc.title, "X");
    assert_eq!(doc.revision_id, "");
    assert_eq!(doc.timestamp, "");
    assert!(doc.contents.is_empty());
    assert!(doc.headings.is_empty());
    assert!(doc.categories.is_empty());
    assert!(doc.images.is_empty());
    assert!(doc.links.is_empty());
}

#[test]
fn parses_every_field_of_a_document() {
    let doc = Document::new(full_line()).unwrap();
    assert_eq!(doc.id, "12");
    assert_eq!(doc.revision_id, "99");
    assert_eq!(doc.title, "Rust");
    assert_eq!(doc.timestamp, "2020-01-01T00:00:00Z");
    assert_eq!(doc.contents, vec!["first".to_string(), "second".to_string()]);
    assert_eq!(doc.headings, vec!["Intro".to_string()]);
    assert_eq!(doc.categories, vec!["Languages".to_string(), "Systems".to_string()]);
    assert_eq!(
        doc.images,
        vec![
            Image {
                target: "Ferris.png".to_string(),
                target_type: ImageType::Image,
                text: Text::LinkText {
                    text: "the crab".to_string(),
                    link: Link::ExternalLink { link_target: "Ferris".to_string() },
                },
            },
            Image {
                target: "spec.pdf".to_string(),
                target_type: ImageType::File,
                text: Text::Text { text: "plain".to_string() },
            },
        ]
    );
    assert_eq!(
        doc.links,
        vec![
            Link::ExternalLink { link_target: "https://www.rust-lang.org".to_string() },
            Link::ExternalLink { link_target: "Cargo".to_string() },
        ]
    );
}

#[test]
fn ignores_members_that_are_no_fields() {
    let doc = Document::new(r#"{"id":"7","extra":[1,2,3],"title":"T"}"#).unwrap();
    assert_eq!(doc.id, "7");
    assert_eq!(doc.title, "T");
}

#[test]
fn rejects_a_line_that_is_not_json() {
    assert_eq!(Document::new("{oops").unwrap_err(), MalformedRecord::InvalidJson);
    assert_eq!(Document::new("").unwrap_err(), MalformedRecord::InvalidJson);
}

#[test]
fn rejects_a_line_without_id() {
    assert_eq!(Document::new(r#"{"title":"X"}"#).unwrap_err(), MalformedRecord::InvalidDocument);
}

#[test]
fn rejects_an_empty_id() {
    assert_eq!(
        Document::new(r#"{"id":"","title":"X"}"#).unwrap_err(),
        MalformedRecord::InvalidDocument
    );
}

#[test]
fn rejects_an_id_that_is_no_text() {
    assert_eq!(Document::new(r#"{"id":5}"#).unwrap_err(), MalformedRecord::InvalidDocument);
}

#[test]
fn rejects_json_that_is_no_object() {
    assert_eq!(Document::new(r#"["id","1"]"#).unwrap_err(), MalformedRecord::InvalidDocument);
    assert_eq!(Document::new("null").unwrap_err(), MalformedRecord::InvalidDocument);
}

#[test]
fn rejects_a_field_of_the_wrong_shape() {
    for line in [
        r#"{"id":"1","title":5}"#,
        r#"{"id":"1","title":null}"#,
        r#"{"id":"1","contents":"text"}"#,
        r#"{"id":"1","contents":["a",1]}"#,
        r#"{"id":"1","images":[{"target":"a","target_type":"Movie","text":{"text":"t"}}]}"#,
        r#"{"id":"1","images":[{"target":"a","target_type":"Image"}]}"#,
        r#"{"id":"1","images":[{"target":"a","target_type":"Image","text":{}}]}"#,
        r#"{"id":"1","links":[{"target":"a"}]}"#,
        r#"{"id":"1","links":{"link_target":"a"}}"#,
    ] {
        assert_eq!(Document::new(line).unwrap_err(), MalformedRecord::InvalidDocument, "{}", line);
    }
}

#[test]
fn reads_a_caption_with_a_target_that_is_no_text_as_plain() {
    let json = read_json(r#"{"text":"t","link_target":4}"#).unwrap();
    assert_eq!(Text::from_json(&json), Some(Text::Text { text: "t".to_string() }));
}

#[test]
fn reads_image_types_by_name() {
    assert_eq!(ImageType::from_name("Image"), Some(ImageType::Image));
    assert_eq!(ImageType::from_name("File"), Some(ImageType::File));
    assert_eq!(ImageType::from_name("image"), None);
    assert_eq!(ImageType::Image.name(), "Image");
    assert_eq!(ImageType::File.name(), "File");
}

#[test]
fn writes_a_document_as_an_object_of_its_fields() {
    let doc = Document::new(r#"{"id":"1","title":"X","contents":["a","b"]}"#).unwrap();
    let expected = Json::Object(vec![
        ("id".to_string(), text("1")),
        ("revision_id".to_string(), text("")),
        ("title".to_string(), text("X")),
        ("timestamp".to_string(), text("")),
        ("contents".to_string(), Json::Array(vec![text("a"), text("b")])),
        ("headings".to_string(), Json::Array(vec![])),
        ("categories".to_string(), Json::Array(vec![])),
        ("images".to_string(), Json::Array(vec![])),
        ("links".to_string(), Json::Array(vec![])),
    ]);
    assert_eq!(doc.to_json(), expected);
    assert_eq!(doc.to_hashmap().fields, doc.to_members());
    assert_eq!(Json::Object(doc.to_members()), expected);
}

#[test]
fn writes_links_captions_and_images() {
    let inner = Link::Link { link_target: "Cargo".to_string() };
    assert_eq!(inner.target(), "Cargo");
    assert_eq!(inner.to_json(), Json::Object(vec![("link_target".to_string(), text("Cargo"))]));
    let caption = Text::LinkText { text: "crab".to_string(), link: inner };
    assert_eq!(
        caption.to_json(),
        Json::Object(vec![
            ("text".to_string(), text("crab")),
            ("link_target".to_string(), text("Cargo")),
        ])
    );
    let image = Image { target: "a.png".to_string(), target_type: ImageType::File, text: caption };
    assert_eq!(
        image.to_json(),
        Json::Object(vec![
            ("target".to_string(), text("a.png")),
            ("target_type".to_string(), text("File")),
            (
                "text".to_string(),
                Json::Object(vec![
                    ("text".to_string(), text("crab")),
                    ("link_target".to_string(), text("Cargo")),
                ])
            ),
        ])
    );
}

#[test]
fn round_trip_keeps_id_title_and_sequences() {
    let first = Document::new(full_line()).unwrap();
    let line = first.to_json_string();
    let second = Document::new(&line).unwrap();
    assert_eq!(second.id, first.id);
    assert_eq!(second.title, first.title);
    assert_eq!(second.contents, first.contents);
    assert_eq!(second.headings, first.headings);
    assert_eq!(second.categories, first.categories);
    assert_eq!(second, first);
}

#[test]
fn round_trip_of_a_written_document_loses_only_the_link_variant() {
    let doc = Document {
        id: "9".to_string(),
        revision_id: "r".to_string(),
        title: "t".to_string(),
        timestamp: "now".to_string(),
        contents: vec!["c".to_string()],
        headings: vec![],
        categories: vec!["k".to_string()],
        images: vec![],
        links: vec![Link::Link { link_target: "Inside".to_string() }],
    };
    let back = Document::from_json(&doc.to_json()).unwrap();
    assert_eq!(back.id, doc.id);
    assert_eq!(back.title, doc.title);
    assert_eq!(back.contents, doc.contents);
    assert_eq!(back.categories, doc.categories);
    assert_eq!(back.links, vec![Link::ExternalLink { link_target: "Inside".to_string() }]);
}

#[test]
fn writes_a_document_as_one_line_of_json() {
    let doc = Document::new(r#"{"title":"X","id":"1"}"#).unwrap();
    assert_eq!(
        doc.to_json_string(),
        r#"{"categories":[],"contents":[],"headings":[],"id":"1","images":[],"links":[],"revision_id":"","timestamp":"","title":"X"}"#
    );
}

#[test]
fn tells_whether_a_document_has_a_key() {
    let mut doc = Document::new(r#"{"id":"1"}"#).unwrap();
    assert!(doc.has_key());
    doc.id = String::new();
    assert!(!doc.has_key());
}
