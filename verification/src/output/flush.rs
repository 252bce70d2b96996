//! The course of one flush: which chunk goes out next, and what a reply
//! means for the rest of the run.

use crate::json::JsonTree;
use crate::output::batch::{chunk_count, chunk_end, chunk_start, ChunkRange};
use crate::output::search_engine::{
    outcome_views, BackendError, HttpReply, OutcomeView, Phase, ReplyView, SearchEngine,
    UploadOutcome,
};
use vstd::prelude::*;

verus! {

/// Where a flush stands.
#[derive(Clone, Copy, Debug, PartialEq, Eq)]
pub enum FlushStage {
    /// A chunk is out and its reply is awaited.
    Sending,
    /// Every chunk has been answered.
    Finished,
    /// The transport failed; nothing more goes out.
    Failed,
}

/// What the caller does next.
#[derive(Clone, Copy, Debug, PartialEq, Eq)]
pub enum FlushAction {
    /// Send the bulk request of this chunk and hand back its reply.
    Send(ChunkRange),
    /// Nothing is left to send: close the back end.
    Finished,
    /// Give the run up with this error.
    Failed(BackendError),
}

/// One flush of a back end's buffer.
#[derive(Debug)]
pub struct Flush {
    plan: Vec<ChunkRange>,
    answered: usize,
    outcomes: Vec<UploadOutcome>,
    stage: FlushStage,
}

impl Flush {
    /// The chunks of this flush, in the order in which they go out.
    pub closed spec fn plan(&self) -> Seq<ChunkRange> {
        self.plan@
    }

    /// The number of chunks that have been answered.
    pub closed spec fn answered(&self) -> nat {
        self.answered as nat
    }

    /// The outcomes reported so far, in the order of the replies.
    pub closed spec fn reported(&self) -> Seq<OutcomeView> {
        outcome_views(self.outcomes@)
    }

    /// Where this flush stands.
    pub closed spec fn stage(&self) -> FlushStage {
        self.stage
    }

    /// While a chunk is out it is the first one not answered; a finished
    /// flush has every chunk answered.
    pub open spec fn wf(&self) -> bool {
        &&& self.answered() <= self.plan().len()
        &&& self.stage() == FlushStage::Sending ==> self.answered() < self.plan().len()
        &&& self.stage() == FlushStage::Finished ==> self.answered() == self.plan().len()
    }

    /// The action that a flush with this plan takes once `answered` chunks
    /// have been answered.
    pub open spec fn next_action(plan: Seq<ChunkRange>, answered: nat) -> FlushAction {
        if answered < plan.len() {
            FlushAction::Send(plan[answered as int])
        } else {
            FlushAction::Finished
        }
    }

    /// The stage that goes with an action.
    pub open spec fn stage_of(action: FlushAction) -> FlushStage {
        match action {
            FlushAction::Send(_) => FlushStage::Sending,
            FlushAction::Finished => FlushStage::Finished,
            FlushAction::Failed(_) => FlushStage::Failed,
        }
    }

    /// Starts a flush: cuts the buffer into chunks and asks for the first
    /// of them, or finishes at once where the buffer is empty.
    pub fn begin<E: SearchEngine>(engine: &E) -> (r: (Flush, FlushAction))
        requires
            engine.wf(),
            engine.phase() != Phase::Closed,
        ensures
            r.0.wf(),
            r.0.plan().len() == chunk_count(engine.buffered().len(), engine.capacity()),
            forall|k: int|
                0 <= k < r.0.plan().len() ==> (#[trigger] r.0.plan()[k]).start == chunk_start(
                    k,
                    engine.capacity(),
                ) && r.0.plan()[k].end == chunk_end(
                    k,
                    engine.buffered().len(),
                    engine.capacity(),
                ),
            forall|k: int|
                0 <= k < r.0.plan().len() ==> (#[trigger] r.0.plan()[k]).start < r.0.plan()[k].end
                    <= engine.buffered().len(),
            r.0.answered() == 0,
            r.0.reported() == Seq::<OutcomeView>::empty(),
            r.1 == Flush::next_action(r.0.plan(), 0),
            r.0.stage() == Flush::stage_of(r.1),
    {
        let plan = engine.chunks();
        let (action, stage) = if plan.len() > 0 {
            (FlushAction::Send(plan[0]), FlushStage::Sending)
        } else {
            (FlushAction::Finished, FlushStage::Finished)
        };
        let flush = Flush { plan, answered: 0, outcomes: Vec::new(), stage };
        assert(flush.reported() =~= Seq::<OutcomeView>::empty());
        (flush, action)
    }

    /// Takes the reply to the chunk that is out. A failure of the transport
    /// ends the flush. Otherwise the outcomes of the chunk are added to the
    /// report, rejected documents among them, and the next chunk goes out,
    /// in buffer order, until none is left.
    pub fn on_reply<E: SearchEngine>(&mut self, engine: &E, reply: &HttpReply) -> (action:
        FlushAction)
        requires
            old(self).wf(),
            old(self).stage() == FlushStage::Sending,
            engine.phase() != Phase::Closed,
        ensures
            final(self).wf(),
            final(self).plan() == old(self).plan(),
            final(self).stage() == Flush::stage_of(action),
            match engine.bulk_outcome(reply@) {
                Err(e) => {
                    &&& action == FlushAction::Failed(e)
                    &&& final(self).answered() == old(self).answered()
                    &&& final(self).reported() == old(self).reported()
                },
                Ok(outcomes) => {
                    &&& action == Flush::next_action(old(self).plan(), old(self).answered() + 1)
                    &&& final(self).answered() == old(self).answered() + 1
                    &&& final(self).reported() == old(self).reported() + outcomes
                },
            },
    {
        assert(self.answered < self.plan.len());
        match engine.proceed_chunk(reply) {
            Err(e) => {
                self.stage = FlushStage::Failed;
                FlushAction::Failed(e)
            },
            Ok(mut got) => {
                let ghost before = self.outcomes@;
                let ghost added = got@;
                self.outcomes.append(&mut got);
                assert(outcome_views(self.outcomes@) =~= outcome_views(before) + outcome_views(
                    added,
                ));
                self.answered = self.answered + 1;
                if self.answered < self.plan.len() {
                    self.stage = FlushStage::Sending;
                    FlushAction::Send(self.plan[self.answered])
                } else {
                    self.stage = FlushStage::Finished;
                    FlushAction::Finished
                }
            },
        }
    }

    /// Ends a flush that has no chunk out: the buffer is emptied and the back
    /// end closed, whether the flush finished or failed, and the outcomes
    /// that were reported are handed over.
    pub fn finish<E: SearchEngine>(self, engine: &mut E) -> (r: Vec<UploadOutcome>)
        requires
            self.wf(),
            self.stage() != FlushStage::Sending,
            old(engine).wf(),
            old(engine).phase() != Phase::Closed,
        ensures
            outcome_views(r@) == self.reported(),
            final(engine).wf(),
            final(engine).buffered() == Seq::<Seq<(Seq<char>, JsonTree)>>::empty(),
            final(engine).capacity() == old(engine).capacity(),
            final(engine).phase() == Phase::Closed,
    {
        engine.close();
        self.outcomes
    }

    /// Where this flush stands.
    pub fn current_stage(&self) -> (r: FlushStage)
        ensures
            r == self.stage(),
    {
        self.stage
    }

    /// The outcomes reported so far.
    pub fn outcomes(&self) -> (r: &Vec<UploadOutcome>)
        ensures
            outcome_views(r@) == self.reported(),
    {
        &self.outcomes
    }

    /// The number of documents that the service rejected so far.
    pub fn rejected(&self) -> (r: usize)
        ensures
            r == rejections(self.reported()),
    {
        let mut count: usize = 0;
        let mut i: usize = 0;
        let ghost all = outcome_views(self.outcomes@);
        assert(all.take(0) =~= Seq::<OutcomeView>::empty());
        while i < self.outcomes.len()
            invariant
                0 <= i <= self.outcomes.len(),
                all == outcome_views(self.outcomes@),
                count == rejections(all.take(i as int)),
                count <= i,
            decreases self.outcomes.len() - i,
        {
            proof {
                let next = all.take(i + 1);
                assert(next.drop_last() =~= all.take(i as int));
                assert(next.last() == self.outcomes[i as int]@);
            }
            if !self.outcomes[i].status {
                count = count + 1;
            }
            i += 1;
        }
        assert(all.take(i as int) =~= all);
        count
    }
}

/// The number of outcomes that report a rejected document.
pub open spec fn rejections(outcomes: Seq<OutcomeView>) -> nat
    decreases outcomes.len(),
{
    if outcomes.len() == 0 {
        0
    } else {
        rejections(outcomes.drop_last()) + if outcomes.last().status {
            0nat
        } else {
            1nat
        }
    }
}

/// The chunks of a flush go out in buffer order, each once: after `k`
/// replies the chunk asked for is chunk `k` of the plan, and the flush
/// finishes exactly when every chunk has been answered.
pub proof fn lemma_flush_order(plan: Seq<ChunkRange>, k: nat)
    ensures
        k < plan.len() ==> Flush::next_action(plan, k) == FlushAction::Send(plan[k as int]),
        k >= plan.len() <==> Flush::next_action(plan, k) == FlushAction::Finished,
{
}

} // verus!
