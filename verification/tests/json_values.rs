use wiki_json_loader::json::{find_member, read_json, same_text, Json};

fn text(s: &str) -> Json {
    Json::Text(s.to_string())
}

#[test]
fn reads_every_kind_of_value() {
    assert_eq!(read_json("null"), Some(Json::Null));
    assert_eq!(read_json("true"), Some(Json::Bool(true)));
    assert_eq!(read_json("false"), Some(Json::Bool(false)));
    assert_eq!(read_json("404"), Some(Json::Number("404".to_string())));
    assert_eq!(read_json("-2.5"), Some(Json::Number("-2.5".to_string())));
    assert_eq!(read_json(r#""a\nb""#), Some(text("a\nb")));
    assert_eq!(read_json("[1,\"x\",[]]"), Some(Json::Array(vec![
        Json::Number("1".to_string()),
        text("x"),
        Json::Array(vec![]),
    ])));
    assert_eq!(
        read_json(r#"{"k":{"n":null}}"#),
        Some(Json::Object(vec![(
            "k".to_string(),
            Json::Object(vec![("n".to_string(), Json::Null)])
        )]))
    );
}

#[test]
fn refuses_text_that_is_not_json() {
    assert_eq!(read_json(""), None);
    assert_eq!(read_json("{"), None);
    assert_eq!(read_json("[1,]"), None);
    assert_eq!(read_json("{\"a\":1} trailing"), None);
}

#[test]
fn writes_compact_text() {
    let value = Json::Object(vec![
        ("a".to_string(), Json::Array(vec![Json::Null, Json::Bool(true), Json::Bool(false)])),
        ("b".to_string(), text("q\"uote")),
        ("c".to_string(), Json::Number("17".to_string())),
    ]);
    assert_eq!(value.to_text(), r#"{"a":[null,true,false],"b":"q\"uote","c":17}"#);
    assert_eq!(Json::Null.to_text(), "null");
    assert_eq!(text("é").to_text(), "\"é\"");
}

#[test]
fn writing_keeps_members_by_name() {
    let value = Json::Object(vec![
        ("b".to_string(), text("1")),
        ("a".to_string(), text("2")),
        ("b".to_string(), text("3")),
    ]);
    assert_eq!(value.to_text(), r#"{"a":"2","b":"3"}"#);
}

#[test]
fn writing_a_number_that_is_none_gives_null() {
    assert_eq!(Json::Number("seven".to_string()).to_text(), "null");
    assert_eq!(Json::Number("1.5".to_string()).to_text(), "1.5");
}

#[test]
fn text_survives_a_round_trip() {
    let value = read_json(r#"{"items":[{"index":{"_id":"a","status":201}}],"errors":false}"#)
        .unwrap();
    assert_eq!(read_json(&value.to_text()), Some(value));
}

#[test]
fn clone_is_equal() {
    let value = read_json(r#"{"a":[1,{"b":"c"}],"d":null}"#).unwrap();
    assert_eq!(value.clone(), value);
}

#[test]
fn looks_members_up_by_name() {
    let value = Json::Object(vec![
        ("a".to_string(), text("first")),
        ("b".to_string(), Json::Bool(true)),
        ("a".to_string(), text("second")),
    ]);
    assert_eq!(value.get("a"), Some(&text("first")));
    assert_eq!(value.get("b"), Some(&Json::Bool(true)));
    assert_eq!(value.get("c"), None);
    assert_eq!(text("a").get("a"), None);
    assert_eq!(Json::Array(vec![]).get("a"), None);
    let members = vec![("k".to_string(), Json::Null)];
    assert_eq!(find_member(&members, "k"), Some(&Json::Null));
    assert_eq!(find_member(&members, "K"), None);
}

#[test]
fn tells_the_kinds_of_values_apart() {
    assert_eq!(text("x").as_text(), Some(&"x".to_string()));
    assert_eq!(Json::Null.as_text(), None);
    assert_eq!(Json::Bool(true).as_bool(), Some(true));
    assert_eq!(text("true").as_bool(), None);
    assert_eq!(Json::Array(vec![Json::Null]).as_array(), Some(&vec![Json::Null]));
    assert_eq!(Json::Null.as_array(), None);
    assert_eq!(Json::Object(vec![]).as_object(), Some(&vec![]));
    assert_eq!(Json::Array(vec![]).as_object(), None);
    assert_eq!(Json::text("abc"), text("abc"));
}

#[test]
fn compares_texts_by_their_characters() {
    assert!(same_text("id", "id"));
    assert!(!same_text("id", "Id"));
    assert!(!same_text("id", "id "));
    assert!(same_text("", ""));
}
