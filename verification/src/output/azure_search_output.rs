//! The Azure Search back end: documents go out as records with an upload
//! action inside one JSON body, and the response holds one entry for each
//! of them.

use crate::json::{field, lookup, text_of_json, trees, Json, JsonTree};
use crate::loader::document::{
    as_text, document_members, read_text, texts, tree_of, Document, DocumentView,
};
use crate::loader::record::Record;
use crate::loader::record::upsert;
use crate::loader::transform::{
    apply_rules, copy_fields, drop_document_fields, drop_fields, CopyOutcome,
};
use crate::output::batch::{lemma_chunk_bounds, plan_chunks, ChunkRange};
use crate::output::search_engine::{
    bulk_reply_outcome, creation_result, decimal_u16, outcome_views, plan_initialization,
    probe_result, read_u16, successful_body, BackendError, HttpReply, InitAction, OutcomeView,
    Phase, ReplyView, SearchEngine, UploadOutcome,
};
use vstd::prelude::*;
use vstd::string::StringExecFns;

verus! {

/// The configuration of the Azure Search back end.
#[derive(Debug, PartialEq, Eq)]
pub struct AzureSearchConfig {
    pub service_name: String,
    pub buffer_size: usize,
    pub index_name: String,
    pub schema_file: String,
    pub api_key: String,
    pub drop_fields: Vec<String>,
    pub copy_fields: Vec<String>,
}

/// A document as it goes out to Azure Search.
#[derive(Debug, PartialEq, Eq)]
pub struct AzureDocument {
    pub data: Record,
}

/// The Azure Search back end.
#[derive(Debug)]
pub struct AzureSearchOutput {
    buffer: Vec<AzureDocument>,
    config: AzureSearchConfig,
    phase: Phase,
}

/// The method of a request.
#[derive(Clone, Copy, Debug, PartialEq, Eq)]
pub enum HttpMethod {
    Get,
    Put,
    Post,
}

/// A request for the caller to send.
#[derive(Debug, PartialEq, Eq)]
pub struct HttpRequest {
    pub method: HttpMethod,
    pub url: String,
    pub headers: Vec<(String, String)>,
    pub body: Option<String>,
}

/// The record of a document for Azure Search: the document's fields, the
/// upload action, and then the copy rules in their order.
pub open spec fn azure_record(doc: DocumentView, rules: Seq<Seq<char>>) -> Seq<
    (Seq<char>, JsonTree),
> {
    apply_rules(
        upsert(document_members(doc), "@search.action"@, JsonTree::Text("upload"@)),
        rules,
    )
}

/// `parts` with `sep` between each two neighbours.
pub open spec fn join_texts(parts: Seq<Seq<char>>, sep: Seq<char>) -> Seq<char>
    decreases parts.len(),
{
    if parts.len() == 0 {
        Seq::empty()
    } else if parts.len() == 1 {
        parts[0]
    } else {
        join_texts(parts.drop_last(), sep) + sep + parts.last()
    }
}

/// The JSON texts of a run of records.
pub open spec fn record_texts(records: Seq<Seq<(Seq<char>, JsonTree)>>) -> Seq<Seq<char>> {
    Seq::new(records.len(), |i: int| text_of_json(JsonTree::Object(records[i])))
}

/// The body of a bulk request: the records inside a `value` array.
pub open spec fn azure_bulk_text(records: Seq<Seq<(Seq<char>, JsonTree)>>) -> Seq<char> {
    "{ \"value\": ["@ + join_texts(record_texts(records), ", "@) + "]}"@
}

/// The version of the service's interface, as the end of every address.
pub open spec fn api_version() -> Seq<char> {
    "?api-version=2019-05-06"@
}

/// The address of the index of a service.
pub open spec fn service_url(service_name: Seq<char>, index_name: Seq<char>) -> Seq<char> {
    "https://"@ + service_name + ".search.windows.net/indexes/"@ + index_name
}

/// Whether `headers` are the two headers of every request: the content type
/// and the credential.
pub open spec fn is_azure_headers(headers: Seq<(String, String)>, credential: Seq<char>) -> bool {
    &&& headers.len() == 2
    &&& headers[0].0@ == "Content-Type"@
    &&& headers[0].1@ == "application/json"@
    &&& headers[1].0@ == "api-key"@
    &&& headers[1].1@ == credential
}

/// The error message of an entry: absent or `null` is none, a text is that
/// text, and anything else does not read.
pub open spec fn optional_message(tree: Option<JsonTree>) -> Option<Option<Seq<char>>> {
    match tree {
        None => Some(None),
        Some(JsonTree::Null) => Some(None),
        Some(JsonTree::Text(message)) => Some(Some(message)),
        Some(_) => None,
    }
}

/// What one entry of a bulk response reports, or `None` where the entry
/// lacks a text `key`, a boolean `status` or a `statusCode` that writes a
/// `u16`, or holds an `errorMessage` that is neither text nor `null`.
pub open spec fn azure_item_outcome(item: JsonTree) -> Option<OutcomeView> {
    match (
        as_text(field(item, "key"@)),
        field(item, "status"@),
        field(item, "statusCode"@),
        optional_message(field(item, "errorMessage"@)),
    ) {
        (
            Some(key),
            Some(JsonTree::Bool(status)),
            Some(JsonTree::Number(code)),
            Some(error_message),
        ) => match decimal_u16(code) {
            Some(status_code) => Some(OutcomeView { key, status, status_code, error_message }),
            None => None,
        },
        _ => None,
    }
}

/// What the entries of a bulk response report, in order, where all of them
/// read.
pub open spec fn azure_item_outcomes(items: Seq<JsonTree>) -> Option<Seq<OutcomeView>> {
    if forall|i: int| 0 <= i < items.len() ==> azure_item_outcome(#[trigger] items[i]) is Some {
        Some(Seq::new(items.len(), |i: int| azure_item_outcome(items[i])->0))
    } else {
        None
    }
}

/// What the body of a bulk response reports: one outcome for each entry of
/// its `value` array.
pub open spec fn azure_outcomes(body: JsonTree) -> Option<Seq<OutcomeView>> {
    match field(body, "value"@) {
        Some(JsonTree::Array(items)) => azure_item_outcomes(items),
        _ => None,
    }
}

/// Reads the error message of an entry.
pub fn read_optional_message(json: Option<&Json>) -> (r: Option<Option<String>>)
    ensures
        match optional_message(tree_of(json)) {
            Some(Some(message)) => r matches Some(Some(got)) && got@ == message,
            Some(None) => r == Some(None::<String>),
            None => r is None,
        },
{
    match json {
        None => Some(None),
        Some(Json::Null) => Some(None),
        Some(Json::Text(message)) => Some(Some(message.clone())),
        Some(_) => None,
    }
}

/// Reads one entry of a bulk response.
pub fn read_azure_item(item: &Json) -> (r: Option<UploadOutcome>)
    ensures
        match azure_item_outcome(item@) {
            Some(outcome) => r matches Some(got) && got@ == outcome,
            None => r is None,
        },
{
    let key = match read_text(item.get("key")) {
        Some(key) => key,
        None => {
            return None;
        },
    };
    let status = match item.get("status") {
        Some(Json::Bool(status)) => *status,
        _ => {
            return None;
        },
    };
    let status_code = match item.get("statusCode") {
        Some(Json::Number(code)) => match read_u16(code.as_str()) {
            Some(status_code) => status_code,
            None => {
                return None;
            },
        },
        _ => {
            return None;
        },
    };
    let error_message = match read_optional_message(item.get("errorMessage")) {
        Some(error_message) => error_message,
        None => {
            return None;
        },
    };
    Some(UploadOutcome { key, status, status_code, error_message })
}

/// Reads the body of a bulk response.
pub fn read_azure_outcomes(body: &Json) -> (r: Option<Vec<UploadOutcome>>)
    ensures
        match azure_outcomes(body@) {
            Some(outcomes) => r matches Some(got) && outcome_views(got@) == outcomes,
            None => r is None,
        },
{
    let items = match body.get("value") {
        Some(items) => match items.as_array() {
            Some(items) => items,
            None => {
                return None;
            },
        },
        None => {
            return None;
        },
    };
    let ghost all = trees(items@);
    let mut out: Vec<UploadOutcome> = Vec::new();
    let mut i: usize = 0;
    while i < items.len()
        invariant
            0 <= i <= items.len(),
            all == trees(items@),
            field(body@, "value"@) == Some(JsonTree::Array(all)),
            out.len() == i,
            forall|j: int| 0 <= j < i ==> azure_item_outcome(#[trigger] all[j]) is Some,
            forall|j: int| 0 <= j < i ==> (#[trigger] out[j])@ == azure_item_outcome(all[j])->0,
        decreases items.len() - i,
    {
        match read_azure_item(&items[i]) {
            Some(outcome) => {
                out.push(outcome);
            },
            None => {
                assert(azure_item_outcome(all[i as int]) is None);
                return None;
            },
        }
        i += 1;
    }
    assert(outcome_views(out@) =~= azure_item_outcomes(all)->0);
    Some(out)
}

/// The response holds one entry for each document: where the service
/// rejects the document of one entry and accepts the others, exactly that
/// entry's outcome has `status` false, under that entry's key.
pub proof fn lemma_azure_single_rejection(body: JsonTree, outcomes: Seq<OutcomeView>, k: int)
    requires
        azure_outcomes(body) == Some(outcomes),
        0 <= k < outcomes.len(),
        field(field(body, "value"@)->0->Array_0[k], "status"@) == Some(JsonTree::Bool(false)),
        forall|i: int|
            0 <= i < outcomes.len() && i != k ==> field(
                #[trigger] field(body, "value"@)->0->Array_0[i],
                "status"@,
            ) == Some(JsonTree::Bool(true)),
    ensures
        outcomes.len() == field(body, "value"@)->0->Array_0.len(),
        outcomes[k].status == false,
        Some(outcomes[k].key) == as_text(field(field(body, "value"@)->0->Array_0[k], "key"@)),
        forall|i: int| 0 <= i < outcomes.len() && i != k ==> (#[trigger] outcomes[i]).status,
{
    let items = field(body, "value"@)->0->Array_0;
    assert forall|i: int| 0 <= i < outcomes.len() implies azure_item_outcome(items[i]) is Some
        && #[trigger] outcomes[i] == azure_item_outcome(items[i])->0 by {}
}

impl AzureDocument {
    /// The record of a document, and what became of each copy rule.
    pub fn build(document: &Document, config: &AzureSearchConfig) -> (r: (
        AzureDocument,
        Vec<CopyOutcome>,
    ))
        ensures
            r.0.data@ == azure_record(document@, texts(config.copy_fields@)),
            r.0.data.wf(),
            r.1.len() == config.copy_fields.len(),
            forall|i: int|
                0 <= i < config.copy_fields.len() ==> #[trigger] r.1[i]
                    == crate::loader::transform::rule_outcome(
                    azure_record(document@, texts(config.copy_fields@).take(i)),
                    config.copy_fields[i]@,
                ),
    {
        let mut data = document.to_hashmap();
        data.insert("@search.action".to_owned(), Json::text("upload"));
        let outcomes = copy_fields(&mut data, &config.copy_fields);
        (AzureDocument { data }, outcomes)
    }

    /// The record of a document.
    pub fn new(document: &Document, config: &AzureSearchConfig) -> (r: AzureDocument)
        ensures
            r.data@ == azure_record(document@, texts(config.copy_fields@)),
            r.data.wf(),
    {
        AzureDocument::build(document, config).0
    }

    /// The JSON text of the field `id`, where the record has it.
    pub fn get_id(&self) -> (r: Option<String>)
        ensures
            match lookup(self.data@, "id"@) {
                Some(tree) => r matches Some(text) && text@ == text_of_json(tree),
                None => r is None,
            },
    {
        match self.data.get("id") {
            Some(id) => Some(id.to_text()),
            None => None,
        }
    }

    /// This record as JSON text.
    pub fn to_json_string(&self) -> (r: String)
        ensures
            r@ == text_of_json(JsonTree::Object(self.data@)),
    {
        self.data.to_json_string()
    }
}

impl AzureSearchOutput {
    /// The records that wait for upload.
    pub closed spec fn records(&self) -> Seq<Seq<(Seq<char>, JsonTree)>> {
        Seq::new(self.buffer@.len(), |i: int| self.buffer@[i].data@)
    }

    /// The name of the service.
    pub closed spec fn service(&self) -> Seq<char> {
        self.config.service_name@
    }

    /// The name of the index.
    pub closed spec fn index(&self) -> Seq<char> {
        self.config.index_name@
    }

    /// The credential.
    pub closed spec fn credential(&self) -> Seq<char> {
        self.config.api_key@
    }

    /// The names of the fields to drop.
    pub closed spec fn dropped(&self) -> Seq<Seq<char>> {
        texts(self.config.drop_fields@)
    }

    /// The copy rules.
    pub closed spec fn rules(&self) -> Seq<Seq<char>> {
        texts(self.config.copy_fields@)
    }

    /// A back end with an empty buffer, or a configuration error where the
    /// buffer size is zero.
    pub fn new(config: AzureSearchConfig) -> (r: Result<AzureSearchOutput, BackendError>)
        ensures
            match r {
                Ok(engine) => config.buffer_size > 0 && engine.wf() && engine.capacity()
                    == config.buffer_size && engine.phase() == Phase::Created && engine.records()
                    == Seq::<Seq<(Seq<char>, JsonTree)>>::empty() && engine.service()
                    == config.service_name@ && engine.index() == config.index_name@
                    && engine.credential() == config.api_key@ && engine.dropped() == texts(
                    config.drop_fields@,
                ) && engine.rules() == texts(config.copy_fields@),
                Err(e) => config.buffer_size == 0 && e == BackendError::Config,
            },
    {
        if config.buffer_size == 0 {
            return Err(BackendError::Config);
        }
        let engine = AzureSearchOutput { buffer: Vec::new(), config, phase: Phase::Created };
        assert(engine.records() =~= Seq::<Seq<(Seq<char>, JsonTree)>>::empty());
        Ok(engine)
    }

    /// The configuration.
    pub fn config(&self) -> (r: &AzureSearchConfig)
        ensures
            r.buffer_size == self.capacity(),
            r.service_name@ == self.service(),
            r.index_name@ == self.index(),
            r.api_key@ == self.credential(),
            texts(r.drop_fields@) == self.dropped(),
            texts(r.copy_fields@) == self.rules(),
    {
        &self.config
    }

    /// The number of records that wait for upload.
    pub fn buffered_len(&self) -> (r: usize)
        ensures
            r == self.records().len(),
    {
        self.buffer.len()
    }

    /// The stage of this back end's life.
    pub fn current_phase(&self) -> (r: Phase)
        ensures
            r == self.phase(),
    {
        self.phase
    }

    /// The version of the service's interface, as the end of every address.
    pub fn get_api_version() -> (r: String)
        ensures
            r@ == api_version(),
    {
        "?api-version=2019-05-06".to_owned()
    }

    /// The two headers of every request: the content type and the
    /// credential.
    pub fn get_headers(&self) -> (r: Vec<(String, String)>)
        ensures
            is_azure_headers(r@, self.credential()),
    {
        let mut headers: Vec<(String, String)> = Vec::new();
        headers.push(("Content-Type".to_owned(), "application/json".to_owned()));
        headers.push(("api-key".to_owned(), self.config.api_key.clone()));
        headers
    }

    /// The address of the index.
    pub fn get_service_url(&self) -> (r: String)
        ensures
            r@ == service_url(self.service(), self.index()),
    {
        let mut url = "https://".to_owned();
        url.append(self.config.service_name.as_str());
        url.append(".search.windows.net/indexes/");
        url.append(self.config.index_name.as_str());
        url
    }

    /// The request that probes the index: a GET of the index's address.
    pub fn exists_request(&self) -> (r: HttpRequest)
        ensures
            r.method == HttpMethod::Get,
            r.url@ == service_url(self.service(), self.index()) + api_version(),
            r.body is None,
            is_azure_headers(r.headers@, self.credential()),
    {
        let mut url = self.get_service_url();
        url.append(AzureSearchOutput::get_api_version().as_str());
        HttpRequest { method: HttpMethod::Get, url, headers: self.get_headers(), body: None }
    }

    /// The request that creates the index: a PUT of the schema to the
    /// index's address.
    pub fn create_request(&self, schema: &Json) -> (r: HttpRequest)
        ensures
            r.method == HttpMethod::Put,
            r.url@ == service_url(self.service(), self.index()) + api_version(),
            r.body matches Some(body) && body@ == text_of_json(schema@),
            is_azure_headers(r.headers@, self.credential()),
    {
        let mut url = self.get_service_url();
        url.append(AzureSearchOutput::get_api_version().as_str());
        HttpRequest {
            method: HttpMethod::Put,
            url,
            headers: self.get_headers(),
            body: Some(schema.to_text()),
        }
    }

    /// The body of the bulk request of one chunk: the records of the chunk,
    /// in buffer order, inside a `value` array.
    pub fn bulk_body(&self, range: ChunkRange) -> (r: String)
        requires
            self.phase() != Phase::Closed,
            range.start <= range.end <= self.records().len(),
        ensures
            r@ == azure_bulk_text(self.records().subrange(range.start as int, range.end as int)),
    {
        let ghost records = self.records().subrange(range.start as int, range.end as int);
        let ghost parts = record_texts(records);
        let mut body = "{ \"value\": [".to_owned();
        let mut i: usize = range.start;
        assert(parts.take(0) =~= Seq::<Seq<char>>::empty());
        assert(body@ =~= "{ \"value\": ["@ + join_texts(parts.take(0), ", "@));
        while i < range.end
            invariant
                range.start <= i <= range.end <= self.buffer.len(),
                records == self.records().subrange(range.start as int, range.end as int),
                parts == record_texts(records),
                body@ == "{ \"value\": ["@ + join_texts(parts.take(i - range.start), ", "@),
            decreases range.end - i,
        {
            let ghost k = (i - range.start) as int;
            let ghost before = body@;
            if i > range.start {
                body.append(", ");
            }
            let text = self.buffer[i].to_json_string();
            body.append(text.as_str());
            proof {
                assert(records[k] == self.buffer[i as int].data@);
                assert(parts[k] == text@);
                let next = parts.take(k + 1);
                assert(next.drop_last() =~= parts.take(k));
                assert(next.last() == parts[k]);
                if k == 0 {
                    assert(parts.take(0) =~= Seq::<Seq<char>>::empty());
                    assert(join_texts(next, ", "@) == parts[0]);
                    assert(body@ =~= "{ \"value\": ["@ + join_texts(next, ", "@));
                } else {
                    assert(join_texts(next, ", "@) == join_texts(parts.take(k), ", "@) + ", "@
                        + parts[k]);
                    assert(body@ =~= "{ \"value\": ["@ + join_texts(next, ", "@));
                }
            }
            i += 1;
        }
        body.append("]}");
        assert(parts.take(range.end - range.start) =~= parts);
        body
    }

    /// The bulk request of one chunk: a POST of the chunk's body to the
    /// index's document address.
    pub fn bulk_request(&self, range: ChunkRange) -> (r: HttpRequest)
        requires
            self.phase() != Phase::Closed,
            range.start <= range.end <= self.records().len(),
        ensures
            r.method == HttpMethod::Post,
            r.url@ == service_url(self.service(), self.index()) + "/docs/index"@ + api_version(),
            r.body matches Some(body) && body@ == azure_bulk_text(
                self.records().subrange(range.start as int, range.end as int),
            ),
            is_azure_headers(r.headers@, self.credential()),
    {
        let mut url = self.get_service_url();
        url.append("/docs/index");
        url.append(AzureSearchOutput::get_api_version().as_str());
        HttpRequest {
            method: HttpMethod::Post,
            url,
            headers: self.get_headers(),
            body: Some(self.bulk_body(range)),
        }
    }

    /// Appends a document to the buffer, as `add_document` does, and says
    /// what became of each copy rule.
    pub fn add_document_reporting(&mut self, document: Document) -> (r: Vec<CopyOutcome>)
        requires
            old(self).wf(),
            old(self).phase() != Phase::Closed,
        ensures
            final(self).wf(),
            final(self).records() == old(self).records().push(old(self).prepared(document@)),
            final(self).capacity() == old(self).capacity(),
            final(self).phase() == old(self).phase(),
            final(self).service() == old(self).service(),
            final(self).index() == old(self).index(),
            final(self).credential() == old(self).credential(),
            final(self).dropped() == old(self).dropped(),
            final(self).rules() == old(self).rules(),
            r.len() == old(self).rules().len(),
            forall|i: int|
                0 <= i < r.len() ==> #[trigger] r[i] == crate::loader::transform::rule_outcome(
                    azure_record(
                        drop_fields(document@, old(self).dropped()),
                        old(self).rules().take(i),
                    ),
                    old(self).rules()[i],
                ),
    {
        let mut document = document;
        drop_document_fields(&mut document, &self.config.drop_fields);
        let (azure_doc, outcomes) = AzureDocument::build(&document, &self.config);
        self.buffer.push(azure_doc);
        assert(self.records() =~= old(self).records().push(old(self).prepared(document@)));
        outcomes
    }
}

impl SearchEngine for AzureSearchOutput {
    open spec fn buffered(&self) -> Seq<Seq<(Seq<char>, JsonTree)>> {
        self.records()
    }

    open spec fn prepared(&self, doc: DocumentView) -> Seq<(Seq<char>, JsonTree)> {
        azure_record(drop_fields(doc, self.dropped()), self.rules())
    }

    closed spec fn capacity(&self) -> nat {
        self.config.buffer_size as nat
    }

    closed spec fn phase(&self) -> Phase {
        self.phase
    }

    open spec fn wf(&self) -> bool {
        self.capacity() > 0
    }

    open spec fn bulk_outcome(&self, reply: ReplyView) -> Result<Seq<OutcomeView>, BackendError> {
        bulk_reply_outcome(reply, |tree: JsonTree| azure_outcomes(tree))
    }

    fn add_document(&mut self, document: Document)
        ensures
            final(self).service() == old(self).service(),
            final(self).index() == old(self).index(),
            final(self).credential() == old(self).credential(),
    {
        let _ = self.add_document_reporting(document);
    }

    fn exist_index(&self, reply: &HttpReply) -> (r: Result<bool, BackendError>) {
        probe_result(reply)
    }

    fn initialize(&mut self, reply: &HttpReply) -> (r: Result<InitAction, BackendError>)
        ensures
            final(self).service() == old(self).service(),
            final(self).index() == old(self).index(),
            final(self).credential() == old(self).credential(),
    {
        let plan = plan_initialization(reply);
        match plan {
            Ok(InitAction::Skip) => {
                self.phase = Phase::Ready;
            },
            _ => {},
        }
        plan
    }

    fn index_created(&mut self, reply: &HttpReply) -> (r: Result<(), BackendError>)
        ensures
            final(self).service() == old(self).service(),
            final(self).index() == old(self).index(),
            final(self).credential() == old(self).credential(),
    {
        let outcome = creation_result(reply);
        if outcome.is_ok() {
            self.phase = Phase::Ready;
        }
        outcome
    }

    fn chunks(&self) -> (r: Vec<ChunkRange>) {
        proof {
            lemma_chunk_bounds(self.buffer.len() as nat, self.config.buffer_size as nat);
        }
        plan_chunks(self.buffer.len(), self.config.buffer_size)
    }

    fn proceed_chunk(&self, reply: &HttpReply) -> (r: Result<Vec<UploadOutcome>, BackendError>) {
        match successful_body(reply) {
            Err(e) => Err(e),
            Ok(body) => match read_azure_outcomes(&body) {
                Some(outcomes) => Ok(outcomes),
                None => Err(BackendError::MalformedResponse),
            },
        }
    }

    fn close(&mut self)
        ensures
            final(self).service() == old(self).service(),
            final(self).index() == old(self).index(),
            final(self).credential() == old(self).credential(),
    {
        self.buffer.clear();
        self.phase = Phase::Closed;
        assert(self.records() =~= Seq::<Seq<(Seq<char>, JsonTree)>>::empty());
    }
}

} // verus!
