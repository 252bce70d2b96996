//! The Elasticsearch back end: documents go out as pairs of an index action
//! and the document itself, and the response names the documents that the
//! service rejected.

use crate::json::{field, lemma_object_view, member_trees, trees, Json, JsonTree};
use crate::loader::document::{
    as_text, document_members, document_tree, member, read_text, Document, DocumentView,
};
use crate::output::batch::{lemma_chunk_bounds, plan_chunks, ChunkRange};
use crate::output::search_engine::{
    bulk_reply_outcome, creation_result, outcome_views, plan_initialization, probe_result,
    read_status_code, status_code_of, successful_body, BackendError, HttpReply, InitAction,
    OutcomeView, Phase, ReplyView, UploadOutcome,
};
pub use crate::output::search_engine::{load_schema, SearchEngine};
use vstd::prelude::*;

verus! {

/// The configuration of the Elasticsearch back end.
#[derive(Debug, PartialEq, Eq)]
pub struct EsConfig {
    pub url: String,
    pub buffer_size: usize,
    pub index_name: String,
    pub schema_file: String,
}

/// The Elasticsearch back end.
#[derive(Debug)]
pub struct ElasticsearchOutput {
    buffer: Vec<Document>,
    config: EsConfig,
    phase: Phase,
}

/// Whether a text is an absolute URL.
pub uninterp spec fn is_url(text: Seq<char>) -> bool;

/// Calls `url::Url::parse` and says whether it gave a URL. The contract
/// claims only that the answer is a function of the text.
#[verifier::external_body]
fn parses_as_url(text: &str) -> (r: bool)
    ensures
        r == is_url(text@),
{
    url::Url::parse(text).is_ok()
}

/// The action that goes before a document: index it under its `id`.
pub open spec fn index_action(id: Seq<char>) -> JsonTree {
    JsonTree::Object(seq![("index"@, JsonTree::Object(seq![("_id"@, JsonTree::Text(id))]))])
}

/// The lines of a bulk request: for each document its index action, then
/// the document.
pub open spec fn bulk_lines(docs: Seq<DocumentView>) -> Seq<JsonTree> {
    Seq::new(
        2 * docs.len(),
        |i: int|
            if i % 2 == 0 {
                index_action(docs[i / 2].id)
            } else {
                document_tree(docs[i / 2])
            },
    )
}

/// What one item of a bulk response reports: `Some(Some(..))` is a rejected
/// document, `Some(None)` an item without an `index.error` object, and
/// `None` an item with such an object but without a text `_id` or a text
/// `error.reason`.
pub open spec fn es_item_outcome(item: JsonTree) -> Option<Option<OutcomeView>> {
    match field(item, "index"@) {
        Some(index) => match field(index, "error"@) {
            Some(JsonTree::Object(error)) => match (
                as_text(field(index, "_id"@)),
                as_text(field(JsonTree::Object(error), "reason"@)),
            ) {
                (Some(key), Some(reason)) => Some(
                    Some(
                        OutcomeView {
                            key,
                            status: false,
                            status_code: status_code_of(field(index, "status"@)),
                            error_message: Some(reason),
                        },
                    ),
                ),
                _ => None,
            },
            _ => Some(None),
        },
        None => Some(None),
    }
}

/// The rejected documents among the items of a bulk response, in order.
pub open spec fn es_failures(items: Seq<JsonTree>) -> Option<Seq<OutcomeView>>
    decreases items.len(),
{
    if items.len() == 0 {
        Some(Seq::empty())
    } else {
        match (es_failures(items.drop_last()), es_item_outcome(items.last())) {
            (Some(head), Some(Some(outcome))) => Some(head.push(outcome)),
            (Some(head), Some(None)) => Some(head),
            _ => None,
        }
    }
}

/// What the body of a bulk response reports: nothing where `errors` is
/// false, the rejected documents among `items` where it is true.
pub open spec fn es_outcomes(body: JsonTree) -> Option<Seq<OutcomeView>> {
    match field(body, "errors"@) {
        Some(JsonTree::Bool(false)) => Some(Seq::empty()),
        Some(JsonTree::Bool(true)) => match field(body, "items"@) {
            Some(JsonTree::Array(items)) => es_failures(items),
            _ => None,
        },
        _ => None,
    }
}

/// Reads one item of a bulk response.
pub fn read_es_item(item: &Json) -> (r: Option<Option<UploadOutcome>>)
    ensures
        match es_item_outcome(item@) {
            Some(Some(outcome)) => r matches Some(Some(got)) && got@ == outcome,
            Some(None) => r == Some(None::<UploadOutcome>),
            None => r is None,
        },
{
    let index = match item.get("index") {
        Some(index) => index,
        None => {
            return Some(None);
        },
    };
    let error = match index.get("error") {
        Some(error) => error,
        None => {
            return Some(None);
        },
    };
    if error.as_object().is_none() {
        return Some(None);
    }
    let key = match read_text(index.get("_id")) {
        Some(key) => key,
        None => {
            return None;
        },
    };
    let reason = match read_text(error.get("reason")) {
        Some(reason) => reason,
        None => {
            return None;
        },
    };
    let status_code = read_status_code(index.get("status"));
    Some(Some(UploadOutcome { key, status: false, status_code, error_message: Some(reason) }))
}

/// Reads the body of a bulk response.
pub fn read_es_outcomes(body: &Json) -> (r: Option<Vec<UploadOutcome>>)
    ensures
        match es_outcomes(body@) {
            Some(outcomes) => r matches Some(got) && outcome_views(got@) == outcomes,
            None => r is None,
        },
{
    let errors = match body.get("errors") {
        Some(flag) => match flag.as_bool() {
            Some(errors) => errors,
            None => {
                return None;
            },
        },
        None => {
            return None;
        },
    };
    let mut out: Vec<UploadOutcome> = Vec::new();
    if !errors {
        assert(outcome_views(out@) =~= Seq::<OutcomeView>::empty());
        return Some(out);
    }
    let items = match body.get("items") {
        Some(items) => match items.as_array() {
            Some(items) => items,
            None => {
                return None;
            },
        },
        None => {
            return None;
        },
    };
    let ghost all = trees(items@);
    let mut i: usize = 0;
    assert(all.take(0) =~= Seq::<JsonTree>::empty());
    assert(outcome_views(out@) =~= Seq::<OutcomeView>::empty());
    while i < items.len()
        invariant
            0 <= i <= items.len(),
            all == trees(items@),
            es_failures(all.take(i as int)) == Some(outcome_views(out@)),
            field(body@, "errors"@) == Some(JsonTree::Bool(true)),
            field(body@, "items"@) == Some(JsonTree::Array(all)),
        decreases items.len() - i,
    {
        proof {
            let next = all.take(i + 1);
            assert(next.drop_last() =~= all.take(i as int));
            assert(next.last() == items[i as int]@);
        }
        let ghost before = outcome_views(out@);
        match read_es_item(&items[i]) {
            Some(Some(outcome)) => {
                out.push(outcome);
                assert(outcome_views(out@) =~= before.push(outcome@));
            },
            Some(None) => {},
            None => {
                proof {
                    lemma_es_failures_stay_none(all, i + 1);
                }
                return None;
            },
        }
        i += 1;
    }
    assert(all.take(i as int) =~= all);
    Some(out)
}

/// Once a beginning of the items does not read, no longer run of them does.
pub proof fn lemma_es_failures_stay_none(items: Seq<JsonTree>, i: int)
    requires
        0 <= i <= items.len(),
        es_failures(items.take(i)) is None,
    ensures
        es_failures(items) is None,
    decreases items.len() - i,
{
    if i == items.len() {
        assert(items.take(i) =~= items);
    } else {
        let next = items.take(i + 1);
        assert(next.drop_last() =~= items.take(i));
        lemma_es_failures_stay_none(items, i + 1);
    }
}

/// The bulk response reports each rejected document once: where exactly one
/// item carries an `index.error` object and reads, the outcomes are that one
/// rejection and nothing else.
pub proof fn lemma_es_single_rejection(items: Seq<JsonTree>, k: int)
    requires
        0 <= k < items.len(),
        es_item_outcome(items[k]) matches Some(Some(_)),
        forall|i: int| 0 <= i < items.len() && i != k ==> es_item_outcome(#[trigger] items[i]) == Some(
            None::<OutcomeView>,
        ),
    ensures
        es_failures(items) == Some(seq![es_item_outcome(items[k])->0->0]),
        es_failures(items)->0[0].status == false,
        Some(es_failures(items)->0[0].key) == as_text(field(field(items[k], "index"@)->0, "_id"@)),
{
    lemma_es_failures_upto(items, k, items.len() as int);
    assert(items.take(items.len() as int) =~= items);
}

proof fn lemma_es_failures_upto(items: Seq<JsonTree>, k: int, n: int)
    requires
        0 <= k < items.len(),
        0 <= n <= items.len(),
        es_item_outcome(items[k]) matches Some(Some(_)),
        forall|i: int| 0 <= i < items.len() && i != k ==> es_item_outcome(#[trigger] items[i]) == Some(
            None::<OutcomeView>,
        ),
    ensures
        es_failures(items.take(n)) == Some(
            if n <= k {
                Seq::<OutcomeView>::empty()
            } else {
                seq![es_item_outcome(items[k])->0->0]
            },
        ),
    decreases n,
{
    if n > 0 {
        lemma_es_failures_upto(items, k, n - 1);
        let head = items.take(n);
        assert(head.drop_last() =~= items.take(n - 1));
        assert(head.last() == items[n - 1]);
        if n - 1 == k {
            assert(Seq::<OutcomeView>::empty().push(es_item_outcome(items[k])->0->0)
                =~= seq![es_item_outcome(items[k])->0->0]);
        }
    }
}

impl ElasticsearchOutput {
    /// The documents that wait for upload.
    pub closed spec fn documents(&self) -> Seq<DocumentView> {
        Seq::new(self.buffer@.len(), |i: int| self.buffer@[i]@)
    }

    /// The name of the index.
    pub closed spec fn index(&self) -> Seq<char> {
        self.config.index_name@
    }

    /// The address of the service.
    pub closed spec fn address(&self) -> Seq<char> {
        self.config.url@
    }

    /// A back end with an empty buffer, or a configuration error where the
    /// buffer size is zero or the address of the service is no URL.
    pub fn new(config: EsConfig) -> (r: Result<ElasticsearchOutput, BackendError>)
        ensures
            match r {
                Ok(engine) => config.buffer_size > 0 && is_url(config.url@) && engine.wf()
                    && engine.capacity() == config.buffer_size && engine.phase()
                    == Phase::Created && engine.documents() == Seq::<DocumentView>::empty()
                    && engine.index() == config.index_name@ && engine.address() == config.url@,
                Err(e) => (config.buffer_size == 0 || !is_url(config.url@)) && e
                    == BackendError::Config,
            },
    {
        if config.buffer_size == 0 || !parses_as_url(config.url.as_str()) {
            return Err(BackendError::Config);
        }
        let engine = ElasticsearchOutput { buffer: Vec::new(), config, phase: Phase::Created };
        assert(engine.documents() =~= Seq::<DocumentView>::empty());
        Ok(engine)
    }

    /// The configuration.
    pub fn config(&self) -> (r: &EsConfig)
        ensures
            r.buffer_size == self.capacity(),
            r.index_name@ == self.index(),
            r.url@ == self.address(),
    {
        &self.config
    }

    /// The number of documents that wait for upload.
    pub fn buffered_len(&self) -> (r: usize)
        ensures
            r == self.documents().len(),
    {
        self.buffer.len()
    }

    /// The stage of this back end's life.
    pub fn current_phase(&self) -> (r: Phase)
        ensures
            r == self.phase(),
    {
        self.phase
    }

    /// The lines of the bulk request of one chunk: for each document of the
    /// chunk, in buffer order, its index action and then the document.
    pub fn bulk_body(&self, range: ChunkRange) -> (r: Vec<Json>)
        requires
            self.phase() != Phase::Closed,
            range.start <= range.end <= self.documents().len(),
        ensures
            trees(r@) == bulk_lines(
                self.documents().subrange(range.start as int, range.end as int),
            ),
    {
        let ghost docs = self.documents().subrange(range.start as int, range.end as int);
        let mut out: Vec<Json> = Vec::new();
        let mut i: usize = range.start;
        while i < range.end
            invariant
                range.start <= i <= range.end <= self.buffer.len(),
                docs == self.documents().subrange(range.start as int, range.end as int),
                out.len() == 2 * (i - range.start),
                forall|j: int| 0 <= j < out.len() ==> (#[trigger] out[j])@ == bulk_lines(docs)[j],
            decreases range.end - i,
        {
            let doc = &self.buffer[i];
            let ghost k = (i - range.start) as int;
            assert(docs[k] == doc@);
            let mut inner: Vec<(String, Json)> = Vec::new();
            inner.push(member("_id", Json::Text(doc.id.clone())));
            let inner_json = Json::Object(inner);
            let mut outer: Vec<(String, Json)> = Vec::new();
            outer.push(member("index", inner_json));
            let action = Json::Object(outer);
            proof {
                lemma_object_view(inner_json);
                lemma_object_view(action);
                assert(member_trees(inner@) =~= seq![("_id"@, JsonTree::Text(doc@.id))]);
                assert(member_trees(outer@) =~= seq![("index"@, inner_json@)]);
                assert(action@ == index_action(doc@.id));
            }
            out.push(action);
            out.push(doc.to_json());
            i += 1;
        }
        assert(trees(out@) =~= bulk_lines(docs));
        out
    }

    /// The `id` of the first document of a chunk, for the caller's log.
    pub fn first_id(&self, range: ChunkRange) -> (r: String)
        requires
            range.start < range.end <= self.documents().len(),
        ensures
            r@ == self.documents()[range.start as int].id,
    {
        self.buffer[range.start].id.clone()
    }
}

impl SearchEngine for ElasticsearchOutput {
    open spec fn buffered(&self) -> Seq<Seq<(Seq<char>, JsonTree)>> {
        Seq::new(self.documents().len(), |i: int| document_members(self.documents()[i]))
    }

    open spec fn prepared(&self, doc: DocumentView) -> Seq<(Seq<char>, JsonTree)> {
        document_members(doc)
    }

    closed spec fn capacity(&self) -> nat {
        self.config.buffer_size as nat
    }

    closed spec fn phase(&self) -> Phase {
        self.phase
    }

    open spec fn wf(&self) -> bool {
        self.capacity() > 0
    }

    open spec fn bulk_outcome(&self, reply: ReplyView) -> Result<Seq<OutcomeView>, BackendError> {
        bulk_reply_outcome(reply, |tree: JsonTree| es_outcomes(tree))
    }

    fn add_document(&mut self, document: Document)
        ensures
            final(self).documents() == old(self).documents().push(document@),
            final(self).index() == old(self).index(),
            final(self).address() == old(self).address(),
    {
        self.buffer.push(document);
        assert(self.buffered() =~= old(self).buffered().push(old(self).prepared(document@)));
        assert(self.documents() =~= old(self).documents().push(document@));
    }

    fn exist_index(&self, reply: &HttpReply) -> (r: Result<bool, BackendError>) {
        probe_result(reply)
    }

    fn initialize(&mut self, reply: &HttpReply) -> (r: Result<InitAction, BackendError>)
        ensures
            final(self).documents() == old(self).documents(),
            final(self).index() == old(self).index(),
            final(self).address() == old(self).address(),
    {
        let plan = plan_initialization(reply);
        match plan {
            Ok(InitAction::Skip) => {
                self.phase = Phase::Ready;
            },
            _ => {},
        }
        plan
    }

    fn index_created(&mut self, reply: &HttpReply) -> (r: Result<(), BackendError>)
        ensures
            final(self).documents() == old(self).documents(),
            final(self).index() == old(self).index(),
            final(self).address() == old(self).address(),
    {
        let outcome = creation_result(reply);
        if outcome.is_ok() {
            self.phase = Phase::Ready;
        }
        outcome
    }

    fn chunks(&self) -> (r: Vec<ChunkRange>) {
        proof {
            lemma_chunk_bounds(self.buffer.len() as nat, self.config.buffer_size as nat);
        }
        plan_chunks(self.buffer.len(), self.config.buffer_size)
    }

    fn proceed_chunk(&self, reply: &HttpReply) -> (r: Result<Vec<UploadOutcome>, BackendError>) {
        match successful_body(reply) {
            Err(e) => Err(e),
            Ok(body) => match read_es_outcomes(&body) {
                Some(outcomes) => Ok(outcomes),
                None => Err(BackendError::MalformedResponse),
            },
        }
    }

    fn close(&mut self)
        ensures
            final(self).documents() == Seq::<DocumentView>::empty(),
            final(self).index() == old(self).index(),
            final(self).address() == old(self).address(),
    {
        self.buffer.clear();
        self.phase = Phase::Closed;
        assert(self.buffered() =~= Seq::<Seq<(Seq<char>, JsonTree)>>::empty());
        assert(self.documents() =~= Seq::<DocumentView>::empty());
    }
}

} // verus!
