use wiki_json_loader::json::{read_json, Json};
use wiki_json_loader::loader::document::Document;
use wiki_json_loader::loader::transform::CopyOutcome;
use wiki_json_loader::output::azure_search_output::{
    read_azure_item, read_azure_outcomes, read_optional_message, AzureDocument,
    AzureSearchConfig, AzureSearchOutput, HttpMethod,
};
use wiki_json_loader::output::batch::ChunkRange;
use wiki_json_loader::output::flush::{Flush, FlushAction, FlushStage};
use wiki_json_loader::output::elasticsearch_output::{
    read_es_item, read_es_outcomes, ElasticsearchOutput, EsConfig,
};
use wiki_json_loader::output::search_engine::{
    creation_result, load_schema, plan_initialization, probe_result, read_status_code, read_u16,
    status_is_success, successful_body, BackendError, HttpReply, InitAction, Phase, SearchEngine,
    UploadOutcome,
};

fn text(s: &str) -> Json {
    Json::Text(s.to_string())
}

fn reply(status: u16, body: &str) -> HttpReply {
    HttpReply::Response { status, body: body.to_string() }
}

fn doc(id: &str) -> Document {
    Document::new(&format!(r#"{{"id":"{}","title":"T{}"}}"#, id, id)).unwrap()
}

fn es_config(buffer_size: usize) -> EsConfig {
    EsConfig {
        url: "http://localhost:9200".to_string(),
        buffer_size,
        index_name: "wiki".to_string(),
        schema_file: "schema.json".to_string(),
    }
}

fn azure_config(buffer_size: usize, drops: &[&str], copies: &[&str]) -> AzureSearchConfig {
    AzureSearchConfig {
        service_name: "svc".to_string(),
        buffer_size,
        index_name: "wiki".to_string(),
        schema_file: "schema.json".to_string(),
        api_key: "SECRET".to_string(),
        drop_fields: drops.iter().map(|s| s.to_string()).collect(),
        copy_fields: copies.iter().map(|s| s.to_string()).collect(),
    }
}

fn transport(status: Option<u16>) -> BackendError {
    BackendError::Transport { status }
}

#[test]
fn success_is_200_to_299() {
    assert!(!status_is_success(199));
    assert!(status_is_success(200));
    assert!(status_is_success(201));
    assert!(status_is_success(299));
    assert!(!status_is_success(300));
    assert!(!status_is_success(404));
    assert!(!status_is_success(0));
}

#[test]
fn probe_maps_404_and_200() {
    assert_eq!(probe_result(&reply(404, "")), Ok(false));
    assert_eq!(probe_result(&reply(200, "{}")), Ok(true));
    assert_eq!(probe_result(&reply(201, "")), Err(transport(Some(201))));
    assert_eq!(probe_result(&reply(500, "")), Err(transport(Some(500))));
    assert_eq!(probe_result(&HttpReply::NoResponse), Err(transport(None)));
}

#[test]
fn probe_twice_gives_the_same_answer() {
    let engine = ElasticsearchOutput::new(es_config(2)).unwrap();
    for status in [200u16, 404] {
        let first = engine.exist_index(&reply(status, "a"));
        let second = engine.exist_index(&reply(status, "b"));
        assert_eq!(first, second);
    }
}

#[test]
fn creation_needs_a_success() {
    assert_eq!(creation_result(&reply(200, "")), Ok(()));
    assert_eq!(creation_result(&reply(201, "")), Ok(()));
    assert_eq!(creation_result(&reply(400, "")), Err(transport(Some(400))));
    assert_eq!(creation_result(&HttpReply::NoResponse), Err(transport(None)));
}

#[test]
fn initialize_creates_only_a_missing_index() {
    assert_eq!(plan_initialization(&reply(200, "")), Ok(InitAction::Skip));
    assert_eq!(plan_initialization(&reply(404, "")), Ok(InitAction::CreateIndex));
    assert_eq!(plan_initialization(&reply(503, "")), Err(transport(Some(503))));
    assert_eq!(plan_initialization(&HttpReply::NoResponse), Err(transport(None)));
}

#[test]
fn initialize_is_idempotent() {
    let mut engine = ElasticsearchOutput::new(es_config(2)).unwrap();
    assert_eq!(engine.current_phase(), Phase::Created);
    assert_eq!(engine.initialize(&reply(404, "")), Ok(InitAction::CreateIndex));
    assert_eq!(engine.current_phase(), Phase::Created);
    assert_eq!(engine.index_created(&reply(500, "")), Err(transport(Some(500))));
    assert_eq!(engine.current_phase(), Phase::Created);
    assert_eq!(engine.index_created(&reply(200, "")), Ok(()));
    assert_eq!(engine.current_phase(), Phase::Ready);

    let mut again = ElasticsearchOutput::new(es_config(2)).unwrap();
    assert_eq!(again.initialize(&reply(200, "")), Ok(InitAction::Skip));
    assert_eq!(again.current_phase(), Phase::Ready);

    let mut azure = AzureSearchOutput::new(azure_config(2, &[], &[])).unwrap();
    assert_eq!(azure.initialize(&reply(200, "")), Ok(InitAction::Skip));
    assert_eq!(azure.current_phase(), Phase::Ready);
    let mut failing = AzureSearchOutput::new(azure_config(2, &[], &[])).unwrap();
    assert_eq!(failing.initialize(&reply(403, "")), Err(transport(Some(403))));
    assert_eq!(failing.current_phase(), Phase::Created);
    assert_eq!(failing.initialize(&reply(404, "")), Ok(InitAction::CreateIndex));
    assert_eq!(failing.index_created(&reply(201, "")), Ok(()));
    assert_eq!(failing.current_phase(), Phase::Ready);
}

#[test]
fn an_address_that_is_no_url_is_a_configuration_error() {
    for url in ["", "//nowhere", "not a url", "http://", "/relative/path"] {
        let mut config = es_config(2);
        config.url = url.to_string();
        assert_eq!(ElasticsearchOutput::new(config).err(), Some(BackendError::Config), "{}", url);
    }
    for url in ["http://localhost:9200", "https://example.org/es/", "http://10.0.0.1:9200"] {
        let mut config = es_config(2);
        config.url = url.to_string();
        let engine = ElasticsearchOutput::new(config).unwrap();
        assert_eq!(engine.config().url, url);
    }
}

#[test]
fn a_buffer_size_of_zero_is_a_configuration_error() {
    assert_eq!(ElasticsearchOutput::new(es_config(0)).err(), Some(BackendError::Config));
    assert_eq!(
        AzureSearchOutput::new(azure_config(0, &[], &[])).err(),
        Some(BackendError::Config)
    );
}

#[test]
fn schema_has_to_be_json() {
    assert_eq!(load_schema(r#"{"mappings":{}}"#), Ok(read_json(r#"{"mappings":{}}"#).unwrap()));
    assert_eq!(load_schema("mappings:"), Err(BackendError::Config));
}

#[test]
fn reads_status_codes() {
    assert_eq!(read_u16("0"), Some(0));
    assert_eq!(read_u16("404"), Some(404));
    assert_eq!(read_u16("65535"), Some(65535));
    assert_eq!(read_u16("65536"), None);
    assert_eq!(read_u16("99999999999999999999"), None);
    assert_eq!(read_u16(""), None);
    assert_eq!(read_u16("-1"), None);
    assert_eq!(read_u16("2e2"), None);
    assert_eq!(read_u16("200.0"), None);
    assert_eq!(read_u16("007"), Some(7));
    assert_eq!(read_status_code(Some(&Json::Number("409".to_string()))), 409);
    assert_eq!(read_status_code(Some(&Json::Number("70000".to_string()))), 0);
    assert_eq!(read_status_code(Some(&text("409"))), 0);
    assert_eq!(read_status_code(None), 0);
}

#[test]
fn three_documents_flush_as_two_chunks() {
    let mut engine = ElasticsearchOutput::new(es_config(2)).unwrap();
    for id in ["a", "b", "c"] {
        engine.add_document(doc(id));
    }
    assert_eq!(engine.buffered_len(), 3);
    let chunks = engine.chunks();
    assert_eq!(chunks, vec![ChunkRange { start: 0, end: 2 }, ChunkRange { start: 2, end: 3 }]);
    let ids: Vec<Vec<String>> = chunks
        .iter()
        .map(|chunk| {
            engine
                .bulk_body(*chunk)
                .iter()
                .filter_map(|line| line.get("id").and_then(|id| id.as_text()).cloned())
                .collect()
        })
        .collect();
    assert_eq!(ids, vec![vec!["a".to_string(), "b".to_string()], vec!["c".to_string()]]);
    assert_eq!(engine.first_id(chunks[0]), "a");
    assert_eq!(engine.first_id(chunks[1]), "c");
    engine.close();
    assert_eq!(engine.buffered_len(), 0);
    assert_eq!(engine.current_phase(), Phase::Closed);
}

#[test]
fn elasticsearch_body_pairs_an_action_with_each_document() {
    let mut engine = ElasticsearchOutput::new(es_config(5)).unwrap();
    engine.add_document(doc("a"));
    engine.add_document(doc("b"));
    let lines = engine.bulk_body(ChunkRange { start: 0, end: 2 });
    assert_eq!(lines.len(), 4);
    assert_eq!(
        lines[0],
        Json::Object(vec![(
            "index".to_string(),
            Json::Object(vec![("_id".to_string(), text("a"))])
        )])
    );
    assert_eq!(lines[0].to_text(), r#"{"index":{"_id":"a"}}"#);
    assert_eq!(lines[1], doc("a").to_json());
    assert_eq!(lines[2].to_text(), r#"{"index":{"_id":"b"}}"#);
    assert_eq!(lines[3], doc("b").to_json());
    assert_eq!(engine.bulk_body(ChunkRange { start: 1, end: 1 }), vec![]);
    assert_eq!(engine.bulk_body(ChunkRange { start: 1, end: 2 }).len(), 2);
    assert_eq!(engine.config().index_name, "wiki");
}

#[test]
fn elasticsearch_reports_the_rejected_document() {
    let engine = ElasticsearchOutput::new(es_config(3)).unwrap();
    let body = r#"{"took":3,"errors":true,"items":[{"index":{"_id":"a","status":201}},{"index":{"_id":"b","status":400,"error":{"type":"mapper_parsing_exception","reason":"failed to parse"}}},{"index":{"_id":"c","status":201}}]}"#;
    let outcomes = engine.proceed_chunk(&reply(200, body)).unwrap();
    assert_eq!(
        outcomes,
        vec![UploadOutcome {
            key: "b".to_string(),
            status: false,
            status_code: 400,
            error_message: Some("failed to parse".to_string()),
        }]
    );
}

#[test]
fn elasticsearch_reports_nothing_without_errors() {
    let engine = ElasticsearchOutput::new(es_config(3)).unwrap();
    let body = r#"{"errors":false,"items":[{"index":{"_id":"a","status":201}}]}"#;
    assert_eq!(engine.proceed_chunk(&reply(200, body)), Ok(vec![]));
    assert_eq!(engine.proceed_chunk(&reply(201, r#"{"errors":false}"#)), Ok(vec![]));
    let flagged = r#"{"errors":true,"items":[{"index":{"_id":"a","status":201}},{"create":{"_id":"b","error":{"reason":"r"}}},{"index":{"_id":"c","error":"text"}}]}"#;
    assert_eq!(engine.proceed_chunk(&reply(200, flagged)), Ok(vec![]));
}

#[test]
fn elasticsearch_transport_failures_are_errors() {
    let engine = ElasticsearchOutput::new(es_config(3)).unwrap();
    assert_eq!(engine.proceed_chunk(&HttpReply::NoResponse), Err(transport(None)));
    assert_eq!(
        engine.proceed_chunk(&reply(503, r#"{"errors":false}"#)),
        Err(transport(Some(503)))
    );
    assert_eq!(engine.proceed_chunk(&reply(200, "<html>")), Err(BackendError::MalformedResponse));
    for body in [
        r#"{}"#,
        r#"{"errors":"yes"}"#,
        r#"{"errors":true}"#,
        r#"{"errors":true,"items":{}}"#,
        r#"{"errors":true,"items":[{"index":{"error":{"reason":"r"}}}]}"#,
        r#"{"errors":true,"items":[{"index":{"_id":"a","error":{"type":"t"}}}]}"#,
        r#"[]"#,
    ] {
        assert_eq!(
            engine.proceed_chunk(&reply(200, body)),
            Err(BackendError::MalformedResponse),
            "{}",
            body
        );
    }
}

#[test]
fn reads_single_items_of_an_elasticsearch_response() {
    let ok = read_json(r#"{"index":{"_id":"a","status":201}}"#).unwrap();
    assert_eq!(read_es_item(&ok), Some(None));
    let failed = read_json(r#"{"index":{"_id":"a","error":{"reason":"r"}}}"#).unwrap();
    assert_eq!(
        read_es_item(&failed),
        Some(Some(UploadOutcome {
            key: "a".to_string(),
            status: false,
            status_code: 0,
            error_message: Some("r".to_string()),
        }))
    );
    let broken = read_json(r#"{"index":{"_id":1,"error":{"reason":"r"}}}"#).unwrap();
    assert_eq!(read_es_item(&broken), None);
    assert_eq!(read_es_item(&Json::Null), Some(None));
    assert_eq!(read_es_outcomes(&read_json(r#"{"errors":false}"#).unwrap()), Some(vec![]));
    assert_eq!(read_es_outcomes(&Json::Null), None);
}

#[test]
fn successful_body_is_parsed() {
    assert_eq!(successful_body(&reply(200, "[true]")), Ok(Json::Array(vec![Json::Bool(true)])));
    assert_eq!(successful_body(&reply(299, "null")), Ok(Json::Null));
    assert_eq!(successful_body(&reply(300, "null")), Err(transport(Some(300))));
    assert_eq!(successful_body(&reply(200, "nul")), Err(BackendError::MalformedResponse));
    assert_eq!(successful_body(&HttpReply::NoResponse), Err(transport(None)));
}

#[test]
fn azure_addresses_and_headers() {
    let engine = AzureSearchOutput::new(azure_config(2, &[], &[])).unwrap();
    assert_eq!(AzureSearchOutput::get_api_version(), "?api-version=2019-05-06");
    assert_eq!(engine.get_service_url(), "https://svc.search.windows.net/indexes/wiki");
    assert_eq!(
        engine.get_headers(),
        vec![
            ("Content-Type".to_string(), "application/json".to_string()),
            ("api-key".to_string(), "SECRET".to_string()),
        ]
    );
    let probe = engine.exists_request();
    assert_eq!(probe.method, HttpMethod::Get);
    assert_eq!(probe.url, "https://svc.search.windows.net/indexes/wiki?api-version=2019-05-06");
    assert_eq!(probe.body, None);
    assert_eq!(probe.headers, engine.get_headers());
    let schema = read_json(r#"{"name":"wiki","fields":[]}"#).unwrap();
    let create = engine.create_request(&schema);
    assert_eq!(create.method, HttpMethod::Put);
    assert_eq!(create.url, probe.url);
    assert_eq!(create.body, Some(r#"{"fields":[],"name":"wiki"}"#.to_string()));
    assert_eq!(create.headers, engine.get_headers());
    assert_eq!(engine.config().service_name, "svc");
}

#[test]
fn azure_record_has_the_upload_action_and_the_copies() {
    let config = azure_config(2, &[], &["title=>display_title", "nothing=>x", "bad"]);
    let document = Document::new(r#"{"title":"X","id":"1"}"#).unwrap();
    let (azure, outcomes) = AzureDocument::build(&document, &config);
    assert_eq!(
        outcomes,
        vec![CopyOutcome::Copied, CopyOutcome::MissingSource, CopyOutcome::InvalidRule]
    );
    assert_eq!(azure.data.get("title"), Some(&text("X")));
    assert_eq!(azure.data.get("display_title"), Some(&text("X")));
    assert_eq!(azure.data.get("@search.action"), Some(&text("upload")));
    assert_eq!(azure.data.len(), 11);
    assert_eq!(azure.get_id(), Some("\"1\"".to_string()));
    assert_eq!(AzureDocument::new(&document, &config), azure);
    assert_eq!(
        azure.to_json_string(),
        r#"{"@search.action":"upload","categories":[],"contents":[],"display_title":"X","headings":[],"id":"1","images":[],"links":[],"revision_id":"","timestamp":"","title":"X"}"#
    );
}

#[test]
fn azure_drops_fields_before_buffering() {
    let mut engine = AzureSearchOutput::new(azure_config(1, &["images", "other"], &[])).unwrap();
    let line = r#"{"id":"1","images":[{"target":"a","target_type":"Image","text":{"text":"x"}},{"target":"b","target_type":"File","text":{"text":"y"}}],"links":[{"link_target":"l"}]}"#;
    let outcomes = engine.add_document_reporting(Document::new(line).unwrap());
    assert_eq!(outcomes, vec![]);
    engine.add_document(Document::new(line).unwrap());
    assert_eq!(engine.buffered_len(), 2);
    assert_eq!(
        engine.chunks(),
        vec![ChunkRange { start: 0, end: 1 }, ChunkRange { start: 1, end: 2 }]
    );
    let body = engine.bulk_body(ChunkRange { start: 0, end: 1 });
    assert_eq!(
        body,
        r#"{ "value": [{"@search.action":"upload","categories":[],"contents":[],"headings":[],"id":"1","images":[],"links":[{"link_target":"l"}],"revision_id":"","timestamp":"","title":""}]}"#
    );
}

#[test]
fn azure_body_holds_the_records_of_the_chunk_in_order() {
    let mut engine = AzureSearchOutput::new(azure_config(2, &["images", "links"], &[])).unwrap();
    for id in ["a", "b", "c"] {
        engine.add_document(doc(id));
    }
    let chunks = engine.chunks();
    assert_eq!(chunks, vec![ChunkRange { start: 0, end: 2 }, ChunkRange { start: 2, end: 3 }]);
    let record = |id: &str| {
        format!(
            r#"{{"@search.action":"upload","categories":[],"contents":[],"headings":[],"id":"{}","images":[],"links":[],"revision_id":"","timestamp":"","title":"T{}"}}"#,
            id, id
        )
    };
    assert_eq!(
        engine.bulk_body(chunks[0]),
        format!("{{ \"value\": [{}, {}]}}", record("a"), record("b"))
    );
    assert_eq!(engine.bulk_body(chunks[1]), format!("{{ \"value\": [{}]}}", record("c")));
    assert_eq!(engine.bulk_body(ChunkRange { start: 3, end: 3 }), "{ \"value\": []}");
    let request = engine.bulk_request(chunks[1]);
    assert_eq!(request.method, HttpMethod::Post);
    assert_eq!(
        request.url,
        "https://svc.search.windows.net/indexes/wiki/docs/index?api-version=2019-05-06"
    );
    assert_eq!(request.body, Some(engine.bulk_body(chunks[1])));
    assert_eq!(request.headers, engine.get_headers());
    assert!(read_json(&engine.bulk_body(chunks[0])).is_some());
    engine.close();
    assert_eq!(engine.buffered_len(), 0);
    assert_eq!(engine.current_phase(), Phase::Closed);
}

#[test]
fn azure_reports_one_outcome_for_each_document() {
    let engine = AzureSearchOutput::new(azure_config(3, &[], &[])).unwrap();
    let body = r#"{"value":[{"key":"a","status":true,"errorMessage":null,"statusCode":201},{"key":"b","status":false,"errorMessage":"bad key","statusCode":400},{"key":"c","status":true,"statusCode":200}]}"#;
    let outcomes = engine.proceed_chunk(&reply(200, body)).unwrap();
    assert_eq!(
        outcomes,
        vec![
            UploadOutcome {
                key: "a".to_string(),
                status: true,
                status_code: 201,
                error_message: None,
            },
            UploadOutcome {
                key: "b".to_string(),
                status: false,
                status_code: 400,
                error_message: Some("bad key".to_string()),
            },
            UploadOutcome {
                key: "c".to_string(),
                status: true,
                status_code: 200,
                error_message: None,
            },
        ]
    );
    assert_eq!(outcomes.iter().filter(|o| !o.status).count(), 1);
    assert_eq!(engine.proceed_chunk(&reply(207, r#"{"value":[]}"#)), Ok(vec![]));
}

#[test]
fn azure_transport_failures_are_errors() {
    let engine = AzureSearchOutput::new(azure_config(3, &[], &[])).unwrap();
    assert_eq!(engine.proceed_chunk(&HttpReply::NoResponse), Err(transport(None)));
    assert_eq!(engine.proceed_chunk(&reply(403, r#"{"value":[]}"#)), Err(transport(Some(403))));
    for body in [
        "not json",
        r#"{}"#,
        r#"{"value":{}}"#,
        r#"{"value":[{"status":true,"statusCode":200}]}"#,
        r#"{"value":[{"key":"a","status":"true","statusCode":200}]}"#,
        r#"{"value":[{"key":"a","status":true}]}"#,
        r#"{"value":[{"key":"a","status":true,"statusCode":-1}]}"#,
        r#"{"value":[{"key":"a","status":true,"statusCode":70000}]}"#,
        r#"{"value":[{"key":"a","status":true,"statusCode":200,"errorMessage":5}]}"#,
    ] {
        assert_eq!(
            engine.proceed_chunk(&reply(200, body)),
            Err(BackendError::MalformedResponse),
            "{}",
            body
        );
    }
}

#[test]
fn reads_single_entries_of_an_azure_response() {
    let entry = read_json(r#"{"key":"k","status":false,"statusCode":422,"errorMessage":"m"}"#)
        .unwrap();
    assert_eq!(
        read_azure_item(&entry),
        Some(UploadOutcome {
            key: "k".to_string(),
            status: false,
            status_code: 422,
            error_message: Some("m".to_string()),
        })
    );
    assert_eq!(read_azure_item(&Json::Null), None);
    assert_eq!(read_optional_message(None), Some(None));
    assert_eq!(read_optional_message(Some(&Json::Null)), Some(None));
    assert_eq!(read_optional_message(Some(&text("m"))), Some(Some("m".to_string())));
    assert_eq!(read_optional_message(Some(&Json::Bool(true))), None);
    assert_eq!(read_azure_outcomes(&read_json(r#"{"value":[]}"#).unwrap()), Some(vec![]));
    assert_eq!(read_azure_outcomes(&Json::Array(vec![])), None);
}

#[test]
fn flush_sends_the_chunks_in_buffer_order() {
    let mut engine = ElasticsearchOutput::new(es_config(2)).unwrap();
    for id in ["a", "b", "c"] {
        engine.add_document(doc(id));
    }
    let (mut flush, first) = Flush::begin(&engine);
    assert_eq!(first, FlushAction::Send(ChunkRange { start: 0, end: 2 }));
    assert_eq!(flush.current_stage(), FlushStage::Sending);
    let second = flush.on_reply(&engine, &reply(200, r#"{"errors":false,"items":[]}"#));
    assert_eq!(second, FlushAction::Send(ChunkRange { start: 2, end: 3 }));
    assert_eq!(flush.current_stage(), FlushStage::Sending);
    let last = flush.on_reply(&engine, &reply(200, r#"{"errors":false,"items":[]}"#));
    assert_eq!(last, FlushAction::Finished);
    assert_eq!(flush.current_stage(), FlushStage::Finished);
    assert_eq!(flush.outcomes(), &vec![]);
    assert_eq!(flush.rejected(), 0);
}

#[test]
fn flush_of_an_empty_buffer_finishes_at_once() {
    let engine = AzureSearchOutput::new(azure_config(2, &[], &[])).unwrap();
    let (flush, first) = Flush::begin(&engine);
    assert_eq!(first, FlushAction::Finished);
    assert_eq!(flush.current_stage(), FlushStage::Finished);
    assert_eq!(flush.rejected(), 0);
}

#[test]
fn a_rejected_document_does_not_end_the_flush() {
    let mut engine = AzureSearchOutput::new(azure_config(2, &[], &[])).unwrap();
    for id in ["a", "b", "c"] {
        engine.add_document(doc(id));
    }
    let (mut flush, first) = Flush::begin(&engine);
    assert_eq!(first, FlushAction::Send(ChunkRange { start: 0, end: 2 }));
    let body = r#"{"value":[{"key":"a","status":true,"errorMessage":null,"statusCode":201},{"key":"b","status":false,"errorMessage":"bad key","statusCode":400}]}"#;
    let second = flush.on_reply(&engine, &reply(200, body));
    assert_eq!(second, FlushAction::Send(ChunkRange { start: 2, end: 3 }));
    let body = r#"{"value":[{"key":"c","status":true,"errorMessage":null,"statusCode":201}]}"#;
    assert_eq!(flush.on_reply(&engine, &reply(200, body)), FlushAction::Finished);
    assert_eq!(flush.current_stage(), FlushStage::Finished);
    assert_eq!(flush.rejected(), 1);
    let keys: Vec<(&str, bool)> =
        flush.outcomes().iter().map(|o| (o.key.as_str(), o.status)).collect();
    assert_eq!(keys, vec![("a", true), ("b", false), ("c", true)]);
    assert_eq!(engine.buffered_len(), 3);
    let outcomes = flush.finish(&mut engine);
    assert_eq!(outcomes.len(), 3);
    assert_eq!(engine.buffered_len(), 0);
    assert_eq!(engine.current_phase(), Phase::Closed);
}

#[test]
fn a_transport_failure_ends_the_flush() {
    let mut engine = ElasticsearchOutput::new(es_config(1)).unwrap();
    engine.add_document(doc("a"));
    engine.add_document(doc("b"));
    let (mut flush, first) = Flush::begin(&engine);
    assert_eq!(first, FlushAction::Send(ChunkRange { start: 0, end: 1 }));
    let action = flush.on_reply(&engine, &reply(502, ""));
    assert_eq!(action, FlushAction::Failed(transport(Some(502))));
    assert_eq!(flush.current_stage(), FlushStage::Failed);
    assert_eq!(engine.buffered_len(), 2);
    let (mut other, _) = Flush::begin(&engine);
    assert_eq!(
        other.on_reply(&engine, &HttpReply::NoResponse),
        FlushAction::Failed(transport(None))
    );
    assert_eq!(
        Flush::begin(&engine).0.on_reply(&engine, &reply(200, "oops")),
        FlushAction::Failed(BackendError::MalformedResponse)
    );
}
