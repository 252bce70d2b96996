//! What the two search back ends share: the replies they take, the outcomes
//! they report, the decisions on index existence and creation, and the
//! interface of a back end.

use crate::json::{json_of_text, read_json, Json, JsonTree};
use crate::loader::document::{tree_of, Document, DocumentView};
use crate::output::batch::{chunk_count, chunk_end, chunk_start, ChunkRange};
use vstd::prelude::*;
use vstd::string::StrSliceExecFns;

verus! {

/// What came back for one request: nothing, or a status with a body.
#[derive(Debug, PartialEq, Eq)]
pub enum HttpReply {
    NoResponse,
    Response { status: u16, body: String },
}

/// The mathematical value of an [`HttpReply`].
pub ghost enum ReplyView {
    NoResponse,
    Response { status: u16, body: Seq<char> },
}

impl View for HttpReply {
    type V = ReplyView;

    open spec fn view(&self) -> ReplyView {
        match self {
            HttpReply::NoResponse => ReplyView::NoResponse,
            HttpReply::Response { status, body } => ReplyView::Response {
                status: *status,
                body: body@,
            },
        }
    }
}

/// Why a back end gives up.
#[derive(Clone, Copy, Debug, PartialEq, Eq)]
pub enum BackendError {
    /// The configuration or the schema cannot be used.
    Config,
    /// No response came, or one with the status held here.
    Transport { status: Option<u16> },
    /// The response was a success but its body is not what the back end
    /// promises.
    MalformedResponse,
}

/// What became of one document of a bulk upload.
#[derive(Debug, PartialEq, Eq)]
pub struct UploadOutcome {
    pub key: String,
    pub status: bool,
    pub status_code: u16,
    pub error_message: Option<String>,
}

/// The mathematical value of an [`UploadOutcome`].
pub ghost struct OutcomeView {
    pub key: Seq<char>,
    pub status: bool,
    pub status_code: u16,
    pub error_message: Option<Seq<char>>,
}

impl View for UploadOutcome {
    type V = OutcomeView;

    open spec fn view(&self) -> OutcomeView {
        OutcomeView {
            key: self.key@,
            status: self.status,
            status_code: self.status_code,
            error_message: match self.error_message {
                Some(message) => Some(message@),
                None => None,
            },
        }
    }
}

/// The views of a run of outcomes, in order.
pub open spec fn outcome_views(items: Seq<UploadOutcome>) -> Seq<OutcomeView> {
    Seq::new(items.len(), |i: int| items[i]@)
}

/// The stage of a back end's life.
#[derive(Clone, Copy, Debug, PartialEq, Eq)]
pub enum Phase {
    /// Made, the index not looked at yet.
    Created,
    /// The index is there; uploads may go out.
    Ready,
    /// The last flush is over; nothing may follow.
    Closed,
}

/// What `initialize` asks for once the index has been probed.
#[derive(Clone, Copy, Debug, PartialEq, Eq)]
pub enum InitAction {
    /// The index is there: nothing to do.
    Skip,
    /// The index is missing: it has to be created.
    CreateIndex,
}

/// Whether a status is a success: 200 to 299.
pub open spec fn is_success(status: u16) -> bool {
    200 <= status <= 299
}

/// Whether a status is a success.
pub fn status_is_success(status: u16) -> (r: bool)
    ensures
        r == is_success(status),
{
    200 <= status && status <= 299
}

/// What an existence probe says: 404 is "not there", 200 is "there", and
/// anything else, no response included, is a transport failure.
pub open spec fn probe_outcome(reply: ReplyView) -> Result<bool, BackendError> {
    match reply {
        ReplyView::NoResponse => Err(BackendError::Transport { status: None }),
        ReplyView::Response { status, body } => if status == 404 {
            Ok(false)
        } else if status == 200 {
            Ok(true)
        } else {
            Err(BackendError::Transport { status: Some(status) })
        },
    }
}

/// What a creation request says: a success status is success, and anything
/// else, no response included, is a transport failure.
pub open spec fn creation_outcome(reply: ReplyView) -> Result<(), BackendError> {
    match reply {
        ReplyView::NoResponse => Err(BackendError::Transport { status: None }),
        ReplyView::Response { status, body } => if is_success(status) {
            Ok(())
        } else {
            Err(BackendError::Transport { status: Some(status) })
        },
    }
}

/// What `initialize` does after the probe: nothing where the index is there,
/// a creation where it is missing.
pub open spec fn init_plan(reply: ReplyView) -> Result<InitAction, BackendError> {
    match probe_outcome(reply) {
        Ok(true) => Ok(InitAction::Skip),
        Ok(false) => Ok(InitAction::CreateIndex),
        Err(e) => Err(e),
    }
}

/// Reads the reply to an existence probe.
pub fn probe_result(reply: &HttpReply) -> (r: Result<bool, BackendError>)
    ensures
        r == probe_outcome(reply@),
{
    match reply {
        HttpReply::NoResponse => Err(BackendError::Transport { status: None }),
        HttpReply::Response { status, body } => if *status == 404 {
            Ok(false)
        } else if *status == 200 {
            Ok(true)
        } else {
            Err(BackendError::Transport { status: Some(*status) })
        },
    }
}

/// Reads the reply to a creation request.
pub fn creation_result(reply: &HttpReply) -> (r: Result<(), BackendError>)
    ensures
        r == creation_outcome(reply@),
{
    match reply {
        HttpReply::NoResponse => Err(BackendError::Transport { status: None }),
        HttpReply::Response { status, body } => if status_is_success(*status) {
            Ok(())
        } else {
            Err(BackendError::Transport { status: Some(*status) })
        },
    }
}

/// Decides what `initialize` does from the reply to the existence probe.
pub fn plan_initialization(reply: &HttpReply) -> (r: Result<InitAction, BackendError>)
    ensures
        r == init_plan(reply@),
{
    match probe_result(reply) {
        Ok(true) => Ok(InitAction::Skip),
        Ok(false) => Ok(InitAction::CreateIndex),
        Err(e) => Err(e),
    }
}

/// Initialization is idempotent: a creation is asked for only where the
/// probe answered 404, so never where the index is there.
pub proof fn lemma_initialize_idempotent(reply: ReplyView)
    ensures
        probe_outcome(reply) == Ok::<bool, BackendError>(true) ==> init_plan(reply) == Ok::<
            InitAction,
            BackendError,
        >(InitAction::Skip),
        init_plan(reply) == Ok::<InitAction, BackendError>(InitAction::CreateIndex) ==> (reply
            matches ReplyView::Response { status, .. } && status == 404),
{
}

/// The probe is a function of the status alone: two replies with the same
/// status read alike, whatever their bodies.
pub proof fn lemma_probe_repeats(first: ReplyView, second: ReplyView)
    requires
        first is Response,
        second is Response,
        first->status == second->status,
    ensures
        probe_outcome(first) == probe_outcome(second),
{
}

/// The schema of an index: the JSON value that a schema text stands for.
pub fn load_schema(schema_text: &str) -> (r: Result<Json, BackendError>)
    ensures
        match json_of_text(schema_text@) {
            Some(tree) => r matches Ok(json) && json@ == tree,
            None => r == Err::<Json, BackendError>(BackendError::Config),
        },
{
    match read_json(schema_text) {
        Some(json) => Ok(json),
        None => Err(BackendError::Config),
    }
}

/// The value of a decimal digit.
pub open spec fn digit_value(c: char) -> int {
    c as int - '0' as int
}

/// Whether `c` is a decimal digit.
pub open spec fn is_digit(c: char) -> bool {
    '0' <= c <= '9'
}

/// The number that a run of decimal digits writes.
pub open spec fn decimal_value(s: Seq<char>) -> int
    decreases s.len(),
{
    if s.len() == 0 {
        0
    } else {
        decimal_value(s.drop_last()) * 10 + digit_value(s.last())
    }
}

/// The `u16` that a text writes in decimal digits, or `None` where the text
/// is empty, holds anything but digits, or writes a number above 65535.
pub open spec fn decimal_u16(s: Seq<char>) -> Option<u16> {
    if s.len() > 0 && (forall|i: int| 0 <= i < s.len() ==> is_digit(#[trigger] s[i]))
        && decimal_value(s) <= 65535 {
        Some(decimal_value(s) as u16)
    } else {
        None
    }
}

/// A longer run of digits writes no smaller number than its beginning.
pub proof fn lemma_decimal_grows(s: Seq<char>, i: int)
    requires
        0 <= i <= s.len(),
        forall|j: int| 0 <= j < s.len() ==> is_digit(#[trigger] s[j]),
    ensures
        0 <= decimal_value(s.take(i)) <= decimal_value(s),
    decreases s.len() - i,
{
    if i == s.len() {
        assert(s.take(i) =~= s);
        lemma_decimal_nonnegative(s);
    } else {
        lemma_decimal_grows(s, i + 1);
        let next = s.take(i + 1);
        assert(next.drop_last() =~= s.take(i));
        assert(next.last() == s[i]);
        lemma_decimal_nonnegative(s.take(i));
    }
}

/// A run of digits writes no negative number.
pub proof fn lemma_decimal_nonnegative(s: Seq<char>)
    requires
        forall|j: int| 0 <= j < s.len() ==> is_digit(#[trigger] s[j]),
    ensures
        0 <= decimal_value(s),
    decreases s.len(),
{
    if s.len() > 0 {
        assert forall|j: int| 0 <= j < s.drop_last().len() implies is_digit(
            #[trigger] s.drop_last()[j],
        ) by {
            assert(s.drop_last()[j] == s[j]);
        }
        lemma_decimal_nonnegative(s.drop_last());
        assert(is_digit(s[s.len() - 1]));
    }
}

/// Reads a `u16` written in decimal digits.
pub fn read_u16(text: &str) -> (r: Option<u16>)
    ensures
        r == decimal_u16(text@),
{
    let n = text.unicode_len();
    if n == 0 {
        return None;
    }
    let mut value: u32 = 0;
    let mut i: usize = 0;
    assert(text@.take(0) =~= Seq::<char>::empty());
    while i < n
        invariant
            n == text@.len(),
            0 <= i <= n,
            forall|j: int| 0 <= j < i ==> is_digit(#[trigger] text@[j]),
            value == decimal_value(text@.take(i as int)),
            value <= 65535,
        decreases n - i,
    {
        let c = text.get_char(i);
        if !('0' <= c && c <= '9') {
            assert(!is_digit(text@[i as int]));
            return None;
        }
        let digit: u32 = c as u32 - '0' as u32;
        let next: u32 = value * 10 + digit;
        proof {
            let head = text@.take(i + 1);
            assert(head.drop_last() =~= text@.take(i as int));
            assert(head.last() == text@[i as int]);
            assert(next == decimal_value(head));
        }
        if next > 65535 {
            proof {
                if forall|j: int| 0 <= j < text@.len() ==> is_digit(#[trigger] text@[j]) {
                    lemma_decimal_grows(text@, i + 1);
                }
            }
            return None;
        }
        value = next;
        i += 1;
    }
    assert(text@.take(n as int) =~= text@);
    Some(value as u16)
}

/// A search back end, without its network side: it gathers documents, says
/// what to ask of the service, and reads what the service answers.
pub trait SearchEngine {
    /// The records that wait for upload, in the order in which they came.
    spec fn buffered(&self) -> Seq<Seq<(Seq<char>, JsonTree)>>;

    /// The record that this back end makes of a document.
    spec fn prepared(&self, doc: DocumentView) -> Seq<(Seq<char>, JsonTree)>;

    /// The largest number of documents in one bulk request.
    spec fn capacity(&self) -> nat;

    /// The stage of this back end's life.
    spec fn phase(&self) -> Phase;

    /// Whether the configuration is usable.
    spec fn wf(&self) -> bool;

    /// What the reply to a bulk request says.
    spec fn bulk_outcome(&self, reply: ReplyView) -> Result<Seq<OutcomeView>, BackendError>;

    /// Appends a document to the buffer. Nothing is sent and nothing leaves
    /// the buffer.
    fn add_document(&mut self, document: Document)
        requires
            old(self).wf(),
            old(self).phase() != Phase::Closed,
            document@.wf(),
        ensures
            final(self).wf(),
            final(self).buffered() == old(self).buffered().push(old(self).prepared(document@)),
            final(self).capacity() == old(self).capacity(),
            final(self).phase() == old(self).phase(),
            forall|d: DocumentView| #[trigger] final(self).prepared(d) == old(self).prepared(d),
    ;

    /// Reads the reply to the existence probe: 404 is `false`, 200 is
    /// `true`, anything else is a transport failure.
    fn exist_index(&self, reply: &HttpReply) -> (r: Result<bool, BackendError>)
        requires
            self.phase() != Phase::Closed,
        ensures
            r == probe_outcome(reply@),
    ;

    /// Decides, from the reply to the existence probe, whether the index has
    /// to be created. Where it is there the back end is ready at once.
    fn initialize(&mut self, reply: &HttpReply) -> (r: Result<InitAction, BackendError>)
        requires
            old(self).wf(),
            old(self).phase() == Phase::Created,
        ensures
            r == init_plan(reply@),
            final(self).wf(),
            final(self).buffered() == old(self).buffered(),
            final(self).capacity() == old(self).capacity(),
            final(self).phase() == if r == Ok::<InitAction, BackendError>(InitAction::Skip) {
                Phase::Ready
            } else {
                Phase::Created
            },
            forall|d: DocumentView| #[trigger] final(self).prepared(d) == old(self).prepared(d),
    ;

    /// Reads the reply to the creation request. On success the back end is
    /// ready.
    fn index_created(&mut self, reply: &HttpReply) -> (r: Result<(), BackendError>)
        requires
            old(self).wf(),
            old(self).phase() == Phase::Created,
        ensures
            r == creation_outcome(reply@),
            final(self).wf(),
            final(self).buffered() == old(self).buffered(),
            final(self).capacity() == old(self).capacity(),
            final(self).phase() == if r is Ok {
                Phase::Ready
            } else {
                Phase::Created
            },
            forall|d: DocumentView| #[trigger] final(self).prepared(d) == old(self).prepared(d),
    ;

    /// Cuts the buffer into the chunks of a flush, in buffer order.
    fn chunks(&self) -> (r: Vec<ChunkRange>)
        requires
            self.wf(),
            self.phase() != Phase::Closed,
        ensures
            r.len() == chunk_count(self.buffered().len(), self.capacity()),
            forall|k: int|
                0 <= k < r.len() ==> (#[trigger] r[k]).start == chunk_start(k, self.capacity())
                    && r[k].end == chunk_end(k, self.buffered().len(), self.capacity()),
            forall|k: int|
                0 <= k < r.len() ==> (#[trigger] r[k]).start < r[k].end <= self.buffered().len(),
    ;

    /// Reads the reply to the bulk request of one chunk. A failure of the
    /// transport is an error; documents that the service rejected inside a
    /// successful response are reported among the outcomes.
    fn proceed_chunk(&self, reply: &HttpReply) -> (r: Result<Vec<UploadOutcome>, BackendError>)
        requires
            self.phase() != Phase::Closed,
        ensures
            match self.bulk_outcome(reply@) {
                Ok(outcomes) => r matches Ok(got) && outcome_views(got@) == outcomes,
                Err(e) => r == Err::<Vec<UploadOutcome>, BackendError>(e),
            },
    ;

    /// Ends the flush: empties the buffer and closes the back end.
    fn close(&mut self)
        requires
            old(self).wf(),
            old(self).phase() != Phase::Closed,
        ensures
            final(self).wf(),
            final(self).buffered() == Seq::<Seq<(Seq<char>, JsonTree)>>::empty(),
            final(self).capacity() == old(self).capacity(),
            final(self).phase() == Phase::Closed,
    ;
}

/// The status code that an item reports: its number where that writes a
/// `u16`, zero otherwise.
pub open spec fn status_code_of(tree: Option<JsonTree>) -> u16 {
    match tree {
        Some(JsonTree::Number(text)) => match decimal_u16(text) {
            Some(code) => code,
            None => 0,
        },
        _ => 0,
    }
}

/// Reads the status code that an item reports.
pub fn read_status_code(json: Option<&Json>) -> (r: u16)
    ensures
        r == status_code_of(tree_of(json)),
{
    match json {
        Some(Json::Number(text)) => match read_u16(text.as_str()) {
            Some(code) => code,
            None => 0,
        },
        _ => 0,
    }
}

/// What the reply to a bulk request says, given how the body of a
/// successful response reads.
pub open spec fn bulk_reply_outcome(
    reply: ReplyView,
    read_body: spec_fn(JsonTree) -> Option<Seq<OutcomeView>>,
) -> Result<Seq<OutcomeView>, BackendError> {
    match reply {
        ReplyView::NoResponse => Err(BackendError::Transport { status: None }),
        ReplyView::Response { status, body } => if !is_success(status) {
            Err(BackendError::Transport { status: Some(status) })
        } else {
            match json_of_text(body) {
                None => Err(BackendError::MalformedResponse),
                Some(tree) => match read_body(tree) {
                    Some(outcomes) => Ok(outcomes),
                    None => Err(BackendError::MalformedResponse),
                },
            }
        },
    }
}

/// The body of a reply that is a success, as a JSON value.
pub fn successful_body(reply: &HttpReply) -> (r: Result<Json, BackendError>)
    ensures
        match reply@ {
            ReplyView::NoResponse => r == Err::<Json, BackendError>(
                BackendError::Transport { status: None },
            ),
            ReplyView::Response { status, body } => if !is_success(status) {
                r == Err::<Json, BackendError>(BackendError::Transport { status: Some(status) })
            } else {
                match json_of_text(body) {
                    None => r == Err::<Json, BackendError>(BackendError::MalformedResponse),
                    Some(tree) => r matches Ok(json) && json@ == tree,
                }
            },
        },
{
    match reply {
        HttpReply::NoResponse => Err(BackendError::Transport { status: None }),
        HttpReply::Response { status, body } => if !status_is_success(*status) {
            Err(BackendError::Transport { status: Some(*status) })
        } else {
            match read_json(body.as_str()) {
                None => Err(BackendError::MalformedResponse),
                Some(json) => Ok(json),
            }
        },
    }
}

} // verus!
