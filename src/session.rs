//! The deletion of a tag as one transaction, driven step by step: the
//! session decides, its driver talks to the store and reports back.
use vstd::prelude::*;

use crate::cascade::{is_plan, plan_cascade};
use crate::error::TagError;
use crate::filter::all_decode;
use crate::ident::{hyphenated, id_text};
use crate::models::Bookmark;

verus! {

/// How many times a cascade is tried before a conflict is surfaced.
pub const MAX_CASCADE_ATTEMPTS: usize = 3;

/// What the driver must do next.
#[derive(Debug)]
pub enum CascadeAction {
    /// Open a transaction.
    BeginTransaction,
    /// Inside it, load every bookmark whose tag-set text contains `needle`.
    LoadCandidates { needle: String },
    /// Inside it, replace the stored bookmark of the same identifier.
    SaveBookmark(Bookmark),
    /// Inside it, delete the tag record `id`.
    DeleteTag { id: String },
    /// Commit the transaction.
    Commit,
    /// Roll the transaction back.
    Rollback,
    /// Report this outcome; the session is over.
    Finish(Result<(), TagError>),
}

/// What the driver reports about the last action.
#[derive(Debug)]
pub enum StoreEvent {
    /// It succeeded.
    Done,
    /// The candidates were loaded.
    Loaded(Vec<Bookmark>),
    /// The store refused it because of a concurrent modification.
    Conflict,
    /// The store failed.
    Fault,
}

/// Where a session stands.
#[derive(Debug, Clone, Copy, PartialEq, Eq, Structural)]
pub enum CascadePhase {
    Opening,
    Scanning,
    Writing,
    Deleting,
    Committing,
    RollingBack,
    Retrying,
    Closed,
}

/// A tag deletion in progress.
#[derive(Debug)]
pub struct DeleteTagCascade {
    /// The tag being deleted.
    pub tag: u128,
    pub phase: CascadePhase,
    /// The rewrites of this attempt.
    pub plan: Vec<Bookmark>,
    /// How many rewrites the store has acknowledged.
    pub written: usize,
    /// Attempts abandoned for a conflict so far.
    pub attempts: usize,
    /// The outcome to report once the transaction is closed.
    pub outcome: Result<(), TagError>,
}

/// The transaction holds writes that are not yet committed or discarded.
pub open spec fn in_transaction(p: CascadePhase) -> bool {
    p == CascadePhase::Scanning || p == CascadePhase::Writing || p == CascadePhase::Deleting
}

/// Nothing changes but the phase, the outcome and the action.
pub open spec fn keeps(s: DeleteTagCascade, n: DeleteTagCascade) -> bool {
    &&& n.tag == s.tag
    &&& n.plan@ == s.plan@
    &&& n.written == s.written
    &&& n.attempts == s.attempts
}

/// The session closes and reports `o`.
pub open spec fn closes(
    s: DeleteTagCascade,
    n: DeleteTagCascade,
    a: CascadeAction,
    o: Result<(), TagError>,
) -> bool {
    &&& keeps(s, n)
    &&& n.phase == CascadePhase::Closed
    &&& n.outcome == o
    &&& a == CascadeAction::Finish(o)
}

/// The transaction is rolled back; `e` is reported afterwards.
pub open spec fn aborts(s: DeleteTagCascade, n: DeleteTagCascade, a: CascadeAction, e: TagError) -> bool {
    &&& keeps(s, n)
    &&& n.phase == CascadePhase::RollingBack
    &&& n.outcome == Err::<(), TagError>(e)
    &&& a == CascadeAction::Rollback
}

/// The transaction is rolled back to be tried afresh.
pub open spec fn retries(s: DeleteTagCascade, n: DeleteTagCascade, a: CascadeAction) -> bool {
    &&& keeps(s, n)
    &&& n.phase == CascadePhase::Retrying
    &&& n.outcome == s.outcome
    &&& a == CascadeAction::Rollback
}

/// Every rewrite is acknowledged: go on to delete the tag record.
pub open spec fn deletes_tag(s: DeleteTagCascade, n: DeleteTagCascade, a: CascadeAction) -> bool {
    &&& n.phase == CascadePhase::Deleting
    &&& n.outcome == s.outcome
    &&& a is DeleteTag
    &&& a->DeleteTag_id@ == hyphenated(s.tag)
}

/// Save rewrite `k` of the plan.
pub open spec fn saves(n: DeleteTagCascade, a: CascadeAction, k: int) -> bool {
    &&& n.phase == CascadePhase::Writing
    &&& a == CascadeAction::SaveBookmark(n.plan@[k])
}

/// The candidates are in: plan the rewrites, or roll back when one does not
/// decode.
pub open spec fn scans(s: DeleteTagCascade, bs: Seq<Bookmark>, n: DeleteTagCascade, a: CascadeAction) -> bool {
    if all_decode(bs) {
        &&& n.tag == s.tag
        &&& n.attempts == s.attempts
        &&& is_plan(n.plan@, bs, s.tag)
        &&& n.written == 0
        &&& n.plan@.len() > 0 ==> saves(n, a, 0) && n.outcome == s.outcome
        &&& n.plan@.len() == 0 ==> deletes_tag(s, n, a)
    } else {
        aborts(s, n, a, TagError::MalformedTagSet)
    }
}

/// One rewrite is acknowledged: save the next, or delete the tag record.
pub open spec fn writes(s: DeleteTagCascade, n: DeleteTagCascade, a: CascadeAction) -> bool {
    &&& n.tag == s.tag
    &&& n.attempts == s.attempts
    &&& n.plan@ == s.plan@
    &&& n.written == s.written + 1
    &&& n.written < n.plan@.len() ==> saves(n, a, n.written as int) && n.outcome == s.outcome
    &&& n.written >= n.plan@.len() ==> deletes_tag(s, n, a)
}

/// A fresh attempt after a conflict.
pub open spec fn restarts(s: DeleteTagCascade, n: DeleteTagCascade, a: CascadeAction) -> bool {
    &&& n.tag == s.tag
    &&& n.attempts == s.attempts + 1
    &&& n.phase == CascadePhase::Opening
    &&& n.plan@.len() == 0
    &&& n.written == 0
    &&& n.outcome == Ok::<(), TagError>(())
    &&& a == CascadeAction::BeginTransaction
}

/// One step of a session: from state `s` on event `e` to state `n`,
/// asking the driver for action `a`.
pub open spec fn step(s: DeleteTagCascade, e: StoreEvent, n: DeleteTagCascade, a: CascadeAction) -> bool {
    match s.phase {
        CascadePhase::Opening => match e {
            StoreEvent::Done => {
                &&& keeps(s, n)
                &&& n.phase == CascadePhase::Scanning
                &&& n.outcome == s.outcome
                &&& a is LoadCandidates
                &&& a->LoadCandidates_needle@ == hyphenated(s.tag)
            },
            _ => closes(s, n, a, Err(TagError::StoreUnavailable)),
        },
        CascadePhase::Scanning => match e {
            StoreEvent::Loaded(bs) => scans(s, bs@, n, a),
            StoreEvent::Conflict => retries(s, n, a),
            _ => aborts(s, n, a, TagError::StoreUnavailable),
        },
        CascadePhase::Writing => match e {
            StoreEvent::Done => writes(s, n, a),
            StoreEvent::Conflict => retries(s, n, a),
            _ => aborts(s, n, a, TagError::StoreUnavailable),
        },
        CascadePhase::Deleting => match e {
            StoreEvent::Done => {
                &&& keeps(s, n)
                &&& n.phase == CascadePhase::Committing
                &&& n.outcome == s.outcome
                &&& a == CascadeAction::Commit
            },
            StoreEvent::Conflict => retries(s, n, a),
            _ => aborts(s, n, a, TagError::StoreUnavailable),
        },
        CascadePhase::Committing => match e {
            StoreEvent::Done => closes(s, n, a, Ok(())),
            StoreEvent::Conflict => retries(s, n, a),
            _ => closes(s, n, a, Err(TagError::StoreUnavailable)),
        },
        CascadePhase::Retrying => if s.attempts + 1 < MAX_CASCADE_ATTEMPTS {
            restarts(s, n, a)
        } else {
            closes(s, n, a, Err(TagError::CascadeConflict))
        },
        _ => closes(s, n, a, s.outcome),
    }
}

impl DeleteTagCascade {
    /// A rewrite is pending while writing, and all are acknowledged once
    /// the tag record is being deleted or the transaction committed.
    pub open spec fn wf(&self) -> bool {
        &&& self.attempts < MAX_CASCADE_ATTEMPTS
        &&& self.phase == CascadePhase::Writing ==> self.written < self.plan@.len()
        &&& (self.phase == CascadePhase::Deleting || self.phase == CascadePhase::Committing)
            ==> self.written == self.plan@.len()
    }

    /// Starts deleting `tag`: the first action opens the transaction.
    pub fn begin(tag: u128) -> (r: (DeleteTagCascade, CascadeAction))
        ensures
            r.0.wf(),
            r.0.tag == tag,
            r.0.phase == CascadePhase::Opening,
            r.0.plan@.len() == 0,
            r.0.written == 0,
            r.0.attempts == 0,
            r.0.outcome == Ok::<(), TagError>(()),
            r.1 == CascadeAction::BeginTransaction,
    {
        (
            DeleteTagCascade {
                tag,
                phase: CascadePhase::Opening,
                plan: Vec::new(),
                written: 0,
                attempts: 0,
                outcome: Ok(()),
            },
            CascadeAction::BeginTransaction,
        )
    }

    fn close(&mut self, o: Result<(), TagError>) -> (a: CascadeAction)
        ensures
            closes(*old(self), *final(self), a, o),
    {
        self.phase = CascadePhase::Closed;
        self.outcome = o;
        CascadeAction::Finish(o)
    }

    fn abort(&mut self, e: TagError) -> (a: CascadeAction)
        ensures
            aborts(*old(self), *final(self), a, e),
    {
        self.phase = CascadePhase::RollingBack;
        self.outcome = Err(e);
        CascadeAction::Rollback
    }

    fn retry(&mut self) -> (a: CascadeAction)
        ensures
            retries(*old(self), *final(self), a),
    {
        self.phase = CascadePhase::Retrying;
        CascadeAction::Rollback
    }

    fn delete_tag(&mut self) -> (a: CascadeAction)
        ensures
            deletes_tag(*old(self), *final(self), a),
            keeps(*old(self), *final(self)),
    {
        self.phase = CascadePhase::Deleting;
        CascadeAction::DeleteTag { id: id_text(self.tag) }
    }

    /// Takes the driver's report on the last action and decides the next.
    pub fn advance(&mut self, event: StoreEvent) -> (a: CascadeAction)
        requires
            old(self).wf(),
        ensures
            final(self).wf(),
            step(*old(self), event, *final(self), a),
    {
        match self.phase {
            CascadePhase::Opening => match event {
                StoreEvent::Done => {
                    self.phase = CascadePhase::Scanning;
                    CascadeAction::LoadCandidates { needle: id_text(self.tag) }
                },
                _ => self.close(Err(TagError::StoreUnavailable)),
            },
            CascadePhase::Scanning => match event {
                StoreEvent::Loaded(bs) => match plan_cascade(self.tag, &bs) {
                    Err(e) => self.abort(e),
                    Ok(plan) => {
                        self.plan = plan;
                        self.written = 0;
                        if self.plan.len() > 0 {
                            self.phase = CascadePhase::Writing;
                            CascadeAction::SaveBookmark(self.plan[0].duplicate())
                        } else {
                            self.delete_tag()
                        }
                    },
                },
                StoreEvent::Conflict => self.retry(),
                _ => self.abort(TagError::StoreUnavailable),
            },
            CascadePhase::Writing => match event {
                StoreEvent::Done => {
                    let planned = self.plan.len();
                    assert(self.written < planned);
                    self.written = self.written + 1;
                    if self.written < self.plan.len() {
                        CascadeAction::SaveBookmark(self.plan[self.written].duplicate())
                    } else {
                        self.delete_tag()
                    }
                },
                StoreEvent::Conflict => self.retry(),
                _ => self.abort(TagError::StoreUnavailable),
            },
            CascadePhase::Deleting => match event {
                StoreEvent::Done => {
                    self.phase = CascadePhase::Committing;
                    CascadeAction::Commit
                },
                StoreEvent::Conflict => self.retry(),
                _ => self.abort(TagError::StoreUnavailable),
            },
            CascadePhase::Committing => match event {
                StoreEvent::Done => self.close(Ok(())),
                StoreEvent::Conflict => self.retry(),
                _ => self.close(Err(TagError::StoreUnavailable)),
            },
            CascadePhase::Retrying => {
                if self.attempts + 1 < MAX_CASCADE_ATTEMPTS {
                    self.attempts = self.attempts + 1;
                    self.phase = CascadePhase::Opening;
                    self.plan = Vec::new();
                    self.written = 0;
                    self.outcome = Ok(());
                    CascadeAction::BeginTransaction
                } else {
                    self.close(Err(TagError::CascadeConflict))
                }
            },
            _ => {
                let o = self.outcome;
                self.close(o)
            },
        }
    }
}

/// `states`, `events` and `actions` form a run of a session: every state
/// is well formed and steps on its event to the next, asking for the action.
pub open spec fn is_run(
    states: Seq<DeleteTagCascade>,
    events: Seq<StoreEvent>,
    actions: Seq<CascadeAction>,
) -> bool {
    &&& states.len() == events.len() + 1
    &&& actions.len() == events.len()
    &&& forall|i: int| 0 <= i < states.len() ==> (#[trigger] states[i]).wf()
    &&& forall|i: int|
        0 <= i < events.len() ==> step(states[i], #[trigger] events[i], states[i + 1], actions[i])
}

/// The transaction is rolled back or closed, with an error to report.
pub open spec fn settled_on_error(s: DeleteTagCascade) -> bool {
    &&& s.phase == CascadePhase::RollingBack || s.phase == CascadePhase::Closed
    &&& s.outcome is Err
}

proof fn lemma_settled_stays(
    states: Seq<DeleteTagCascade>,
    events: Seq<StoreEvent>,
    actions: Seq<CascadeAction>,
    start: int,
    j: int,
)
    requires
        is_run(states, events, actions),
        0 <= start <= j <= events.len(),
        settled_on_error(states[start]),
    ensures
        settled_on_error(states[j]),
        j < events.len() ==> actions[j] is Finish,
    decreases j - start,
{
    if j > start {
        lemma_settled_stays(states, events, actions, start, j - 1);
        assert(step(states[j - 1], events[j - 1], states[j], actions[j - 1]));
    }
    if j < events.len() {
        assert(step(states[j], events[j], states[j + 1], actions[j]));
    }
}

/// Atomicity: a store fault while the transaction holds uncommitted writes
/// rolls it back, and no later action of the run commits, so neither the
/// rewrites saved so far nor the tag deletion are kept; the run ends on an
/// error.
pub proof fn lemma_fault_rolls_back(
    states: Seq<DeleteTagCascade>,
    events: Seq<StoreEvent>,
    actions: Seq<CascadeAction>,
    k: int,
)
    requires
        is_run(states, events, actions),
        0 <= k < events.len(),
        in_transaction(states[k].phase),
        events[k] is Fault,
    ensures
        actions[k] == CascadeAction::Rollback,
        forall|j: int| k <= j < actions.len() ==> !(#[trigger] actions[j] is Commit),
        settled_on_error(states.last()),
{
    assert(step(states[k], events[k], states[k + 1], actions[k]));
    assert forall|j: int| k <= j < actions.len() implies !(#[trigger] actions[j] is Commit) by {
        if j > k {
            lemma_settled_stays(states, events, actions, k + 1, j);
        }
    }
    lemma_settled_stays(states, events, actions, k + 1, events.len() as int);
}

/// A commit is asked for only once the tag record's deletion was
/// acknowledged, after every planned rewrite was.
pub proof fn lemma_commit_after_all_writes(
    states: Seq<DeleteTagCascade>,
    events: Seq<StoreEvent>,
    actions: Seq<CascadeAction>,
    j: int,
)
    requires
        is_run(states, events, actions),
        0 <= j < events.len(),
        actions[j] is Commit,
    ensures
        states[j].phase == CascadePhase::Deleting,
        events[j] is Done,
        states[j].written == states[j].plan@.len(),
{
    assert(step(states[j], events[j], states[j + 1], actions[j]));
    assert(states[j].wf());
}

} // verus!
