use wiki_json_loader::loader::document::{Document, MalformedRecord};
use wiki_json_loader::loader::loader::{load_line, load_lines, parse_document};
use wiki_json_loader::output::azure_search_output::{AzureSearchConfig, AzureSearchOutput};
use wiki_json_loader::output::batch::ChunkRange;
use wiki_json_loader::output::elasticsearch_output::{ElasticsearchOutput, EsConfig};
use wiki_json_loader::output::search_engine::SearchEngine;

fn elasticsearch(buffer_size: usize) -> ElasticsearchOutput {
    ElasticsearchOutput::new(EsConfig {
        url: "http://localhost:9200".to_string(),
        buffer_size,
        index_name: "wiki".to_string(),
        schema_file: "schema.json".to_string(),
    })
    .unwrap()
}

fn azure(buffer_size: usize) -> AzureSearchOutput {
    AzureSearchOutput::new(AzureSearchConfig {
        service_name: "svc".to_string(),
        buffer_size,
        index_name: "wiki".to_string(),
        schema_file: "schema.json".to_string(),
        api_key: "SECRET".to_string(),
        drop_fields: vec![],
        copy_fields: vec!["title=>name".to_string()],
    })
    .unwrap()
}

#[test]
fn parse_document_reads_a_line() {
    assert_eq!(parse_document(r#"{"id":"1"}"#), Document::new(r#"{"id":"1"}"#));
    assert_eq!(parse_document(r#"{"id":"1"}"#).unwrap().id, "1");
    assert_eq!(parse_document("{"), Err(MalformedRecord::InvalidJson));
    assert_eq!(parse_document("{}"), Err(MalformedRecord::InvalidDocument));
}

#[test]
fn a_line_is_loaded_into_the_buffer() {
    let mut engine = elasticsearch(2);
    assert_eq!(load_line(&mut engine, r#"{"id":"a","title":"A"}"#), Ok(()));
    assert_eq!(engine.buffered_len(), 1);
    assert_eq!(load_line(&mut engine, "nonsense"), Err(MalformedRecord::InvalidJson));
    assert_eq!(load_line(&mut engine, r#"{"title":"A"}"#), Err(MalformedRecord::InvalidDocument));
    assert_eq!(engine.buffered_len(), 1);
    let lines = engine.bulk_body(ChunkRange { start: 0, end: 1 });
    assert_eq!(lines[1], Document::new(r#"{"id":"a","title":"A"}"#).unwrap().to_json());
}

#[test]
fn lines_are_loaded_in_order() {
    let mut engine = elasticsearch(2);
    let lines: Vec<String> =
        ["a", "b", "c"].iter().map(|id| format!(r#"{{"id":"{}"}}"#, id)).collect();
    assert_eq!(load_lines(&mut engine, &lines), Ok(()));
    assert_eq!(engine.buffered_len(), 3);
    assert_eq!(
        engine.chunks(),
        vec![ChunkRange { start: 0, end: 2 }, ChunkRange { start: 2, end: 3 }]
    );
    assert_eq!(engine.first_id(ChunkRange { start: 0, end: 2 }), "a");
    assert_eq!(engine.first_id(ChunkRange { start: 1, end: 2 }), "b");
    assert_eq!(engine.first_id(ChunkRange { start: 2, end: 3 }), "c");
    assert_eq!(load_lines(&mut engine, &vec![]), Ok(()));
    assert_eq!(engine.buffered_len(), 3);
}

#[test]
fn loading_stops_at_the_first_line_that_is_no_document() {
    let mut engine = azure(5);
    let lines = vec![
        r#"{"id":"a","title":"A"}"#.to_string(),
        r#"{"id":"b"}"#.to_string(),
        r#"{"id":""}"#.to_string(),
        r#"{"id":"d"}"#.to_string(),
        "not json".to_string(),
    ];
    assert_eq!(load_lines(&mut engine, &lines), Err((2, MalformedRecord::InvalidDocument)));
    assert_eq!(engine.buffered_len(), 2);
    assert_eq!(
        load_lines(&mut engine, &lines[4..].to_vec()),
        Err((0, MalformedRecord::InvalidJson))
    );
    assert_eq!(engine.buffered_len(), 2);
    let body = engine.bulk_body(ChunkRange { start: 0, end: 1 });
    assert_eq!(
        body,
        r#"{ "value": [{"@search.action":"upload","categories":[],"contents":[],"headings":[],"id":"a","images":[],"links":[],"name":"A","revision_id":"","timestamp":"","title":"A"}]}"#
    );
}
