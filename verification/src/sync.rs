//! The sync check: before a collection asks the index service for cells, it
//! makes sure that the index service has caught up with the node and stands
//! on the same chain.
//!
//! The check polls the tip of the index service a bounded number of times and
//! waits between polls. It performs neither the polls nor the waits itself:
//! [`SyncCheck::next_action`] and [`SyncCheck::tip_polled`] say what the
//! caller has to do, and [`sync_outcome`] says what the whole run comes to.

use vstd::prelude::*;
use crate::collector::DefaultCellCollector;
use crate::error::{
    index_inconsistent,
    index_inconsistent_text,
    index_not_synced,
    index_not_synced_text,
    CellCollectorError,
    CellCollectorErrorView,
};
use crate::types::{byte32_eq, Tip};

verus! {

/// The index service is polled at most this many times.
pub const SYNC_ATTEMPTS: u32 = 10;

/// The wait after a poll that found the index service behind.
pub const SYNC_INTERVAL_MILLIS: u64 = 50;

/// How the tip of the index service stands to the tip of the node.
#[derive(Clone, Copy, Debug, PartialEq, Eq, Structural)]
pub enum TipComparison {
    /// The index service has not reached the node's tip yet.
    Behind,
    /// Both report the same block.
    Same,
    /// The index service reports another block at the node's height, or a
    /// block above it.
    Diverged,
}

pub open spec fn compare_tips(node: Tip, index: Tip) -> TipComparison {
    if node.block_number > index.block_number {
        TipComparison::Behind
    } else if node.block_hash == index.block_hash && node.block_number == index.block_number {
        TipComparison::Same
    } else {
        TipComparison::Diverged
    }
}

/// Whether the poll found a tip that is behind the node's.
pub open spec fn is_behind(node: Tip, polled: Option<Tip>) -> bool {
    polled matches Some(index) && compare_tips(node, index) == TipComparison::Behind
}

/// Whether the poll found the node's own tip.
pub open spec fn is_same(node: Tip, polled: Option<Tip>) -> bool {
    polled matches Some(index) && compare_tips(node, index) == TipComparison::Same
}

/// What a run of polls comes to.
pub enum SyncOutcome {
    /// Nothing is decided: another poll is due.
    Pending,
    /// The index service stands at the node's tip.
    Synced,
    /// The index service has no tip.
    NotSynced,
    /// The index service contradicts the node, or stayed behind for all
    /// attempts.
    Inconsistent,
}

/// The outcome after the polls `tips`, in their order, when `attempts` polls
/// are allowed. A poll that finds the index service behind leaves the
/// outcome open unless it was the last one allowed; any other poll decides,
/// and polls after a decision count for nothing.
pub open spec fn sync_outcome(node: Tip, attempts: nat, tips: Seq<Option<Tip>>) -> SyncOutcome
    decreases tips.len(),
{
    if tips.len() == 0 {
        if attempts == 0 {
            SyncOutcome::Inconsistent
        } else {
            SyncOutcome::Pending
        }
    } else {
        match sync_outcome(node, attempts, tips.drop_last()) {
            SyncOutcome::Pending => match tips.last() {
                None => SyncOutcome::NotSynced,
                Some(index) => match compare_tips(node, index) {
                    TipComparison::Behind => if tips.len() >= attempts {
                        SyncOutcome::Inconsistent
                    } else {
                        SyncOutcome::Pending
                    },
                    TipComparison::Same => SyncOutcome::Synced,
                    TipComparison::Diverged => SyncOutcome::Inconsistent,
                },
            },
            decided => decided,
        }
    }
}

/// What the caller of a sync check has to do next.
#[derive(Debug)]
pub enum SyncAction {
    /// Ask the index service for its tip and report with `tip_polled`.
    Poll,
    /// The attempts are used up: the check has failed with this error.
    Fail(CellCollectorError),
}

/// What a poll led to.
pub enum SyncStep {
    /// The check is over.
    Done(Result<(), CellCollectorError>),
    /// Wait this many milliseconds, then go on with `next`.
    Wait { millis: u64, next: SyncCheck },
}

/// A sync check under way.
pub struct SyncCheck {
    tip: Tip,
    retry: u32,
    polled: Ghost<Seq<Option<Tip>>>,
}

impl SyncCheck {
    /// The tip of the node that the index service is held against.
    pub closed spec fn tip(&self) -> Tip {
        self.tip
    }

    /// The polls reported so far.
    pub closed spec fn polled(&self) -> Seq<Option<Tip>> {
        self.polled@
    }

    /// Every poll so far found the index service behind, and the polls
    /// reported and the polls left add up to the attempts allowed.
    pub closed spec fn wf(&self) -> bool {
        &&& self.retry + self.polled@.len() == SYNC_ATTEMPTS
        &&& forall|i: int| 0 <= i < self.polled@.len() ==> is_behind(self.tip, self.polled@[i])
    }

    /// The outcome once this poll is reported too.
    pub open spec fn outcome_with(&self, polled: Option<Tip>) -> SyncOutcome {
        sync_outcome(self.tip(), SYNC_ATTEMPTS as nat, self.polled().push(polled))
    }

    /// The outcome of the polls reported so far.
    pub open spec fn outcome(&self) -> SyncOutcome {
        sync_outcome(self.tip(), SYNC_ATTEMPTS as nat, self.polled())
    }

    /// The number of polls left.
    pub fn attempts_left(&self) -> (r: u32)
        requires
            self.wf(),
        ensures
            r + self.polled().len() == SYNC_ATTEMPTS,
    {
        self.retry
    }

    /// A check against the node's tip with no poll made yet.
    pub fn new(tip: Tip) -> (r: SyncCheck)
        ensures
            r.wf(),
            r.tip() == tip,
            r.polled() == Seq::<Option<Tip>>::empty(),
    {
        SyncCheck { tip, retry: SYNC_ATTEMPTS, polled: Ghost(Seq::empty()) }
    }

    /// What to do next: poll while attempts are left, else fail.
    pub fn next_action(&self) -> (r: SyncAction)
        requires
            self.wf(),
        ensures
            match r {
                SyncAction::Poll => self.outcome() == SyncOutcome::Pending && self.polled().len()
                    < SYNC_ATTEMPTS,
                SyncAction::Fail(e) => self.outcome() == SyncOutcome::Inconsistent
                    && self.polled().len() == SYNC_ATTEMPTS && e@ == CellCollectorErrorView::Other(
                    index_inconsistent_text(),
                ),
            },
    {
        proof {
            lemma_all_behind(self.tip, SYNC_ATTEMPTS as nat, self.polled@);
        }
        if self.retry > 0 {
            SyncAction::Poll
        } else {
            SyncAction::Fail(index_inconsistent())
        }
    }

    /// Reports the answer of the index service to a poll.
    ///
    /// A failure of the service ends the check with an internal error that
    /// holds the failure's text. A service without a tip is not synced. A
    /// tip below the node's uses up one attempt and asks for a wait. The
    /// node's own tip ends the check well. Any other tip contradicts the
    /// node and ends the check at once. Where no attempt is left the answer
    /// is not looked at and the check has failed.
    pub fn tip_polled(self, index_tip: Result<Option<Tip>, String>) -> (r: SyncStep)
        requires
            self.wf(),
        ensures
            match index_tip {
                _ if self.polled().len() >= SYNC_ATTEMPTS => r matches SyncStep::Done(Err(e)) && e@
                    == CellCollectorErrorView::Other(index_inconsistent_text()),
                Err(text) => r matches SyncStep::Done(Err(e)) && e@
                    == CellCollectorErrorView::Internal(text@),
                Ok(None) => {
                    &&& r matches SyncStep::Done(Err(e))
                    &&& e@ == CellCollectorErrorView::Other(index_not_synced_text())
                    &&& self.outcome_with(None) == SyncOutcome::NotSynced
                },
                Ok(Some(index)) => match compare_tips(self.tip(), index) {
                    TipComparison::Behind => {
                        &&& r matches SyncStep::Wait { millis, next }
                        &&& millis == SYNC_INTERVAL_MILLIS
                        &&& next.follows(self, Some(index))
                    },
                    TipComparison::Same => {
                        &&& r matches SyncStep::Done(Ok(_))
                        &&& self.outcome_with(Some(index)) == SyncOutcome::Synced
                    },
                    TipComparison::Diverged => {
                        &&& r matches SyncStep::Done(Err(e))
                        &&& e@ == CellCollectorErrorView::Other(index_inconsistent_text())
                        &&& self.outcome_with(Some(index)) == SyncOutcome::Inconsistent
                    },
                },
            },
    {
        proof {
            lemma_all_behind(self.tip, SYNC_ATTEMPTS as nat, self.polled@);
        }
        if self.retry == 0 {
            return SyncStep::Done(Err(index_inconsistent()));
        }
        let polled = match index_tip {
            Ok(polled) => polled,
            Err(text) => {
                return SyncStep::Done(Err(CellCollectorError::Internal(text)));
            },
        };
        assert(self.polled@.push(polled).drop_last() =~= self.polled@);
        match polled {
            Some(index) => {
                if self.tip.block_number > index.block_number {
                    SyncStep::Wait {
                        millis: SYNC_INTERVAL_MILLIS,
                        next: SyncCheck {
                            tip: self.tip,
                            retry: self.retry - 1,
                            polled: Ghost(self.polled@.push(polled)),
                        },
                    }
                } else if byte32_eq(&self.tip.block_hash, &index.block_hash)
                    && self.tip.block_number == index.block_number {
                    SyncStep::Done(Ok(()))
                } else {
                    SyncStep::Done(Err(index_inconsistent()))
                }
            },
            None => SyncStep::Done(Err(index_not_synced())),
        }
    }

    /// This check is `before` with one more poll, which found the index
    /// service behind.
    pub open spec fn follows(&self, before: SyncCheck, polled: Option<Tip>) -> bool {
        &&& self.wf()
        &&& self.tip() == before.tip()
        &&& self.polled() == before.polled().push(polled)
    }
}

impl DefaultCellCollector {
    /// Begins the check that the index service is in step with the node,
    /// given the answer of the node to the request for its tip. A failure of
    /// the node ends the check with an internal error that holds the
    /// failure's text.
    pub fn check_ckb_chain(tip_header: Result<Tip, String>) -> (r: Result<
        SyncCheck,
        CellCollectorError,
    >)
        ensures
            match tip_header {
                Ok(tip) => r matches Ok(check) && check.wf() && check.tip() == tip
                    && check.polled() == Seq::<Option<Tip>>::empty(),
                Err(text) => r matches Err(e) && e@ == CellCollectorErrorView::Internal(text@),
            },
    {
        match tip_header {
            Ok(tip) => Ok(SyncCheck::new(tip)),
            Err(text) => Err(CellCollectorError::Internal(text)),
        }
    }
}

/// While every poll finds the index service behind, the outcome stays open
/// up to the last attempt, and is a failure from then on.
pub proof fn lemma_all_behind(node: Tip, attempts: nat, tips: Seq<Option<Tip>>)
    requires
        forall|i: int| 0 <= i < tips.len() ==> is_behind(node, tips[i]),
    ensures
        tips.len() < attempts ==> sync_outcome(node, attempts, tips) == SyncOutcome::Pending,
        tips.len() >= attempts ==> sync_outcome(node, attempts, tips) == SyncOutcome::Inconsistent,
    decreases tips.len(),
{
    if tips.len() > 0 {
        lemma_all_behind(node, attempts, tips.drop_last());
    }
}

/// An outcome that is decided after the first `upto` polls stays what it is.
pub proof fn lemma_outcome_stays(node: Tip, attempts: nat, tips: Seq<Option<Tip>>, upto: int)
    requires
        0 <= upto <= tips.len(),
        sync_outcome(node, attempts, tips.take(upto)) != SyncOutcome::Pending,
    ensures
        sync_outcome(node, attempts, tips) == sync_outcome(node, attempts, tips.take(upto)),
    decreases tips.len(),
{
    if upto == tips.len() {
        assert(tips.take(upto) =~= tips);
    } else {
        assert(tips.drop_last().take(upto) =~= tips.take(upto));
        lemma_outcome_stays(node, attempts, tips.drop_last(), upto);
    }
}

/// An open outcome means that every poll so far found the index service
/// behind and that attempts are left.
pub proof fn lemma_pending_means_behind(node: Tip, attempts: nat, tips: Seq<Option<Tip>>)
    requires
        sync_outcome(node, attempts, tips) == SyncOutcome::Pending,
    ensures
        tips.len() < attempts,
        forall|i: int| 0 <= i < tips.len() ==> is_behind(node, tips[i]),
    decreases tips.len(),
{
    if tips.len() > 0 {
        lemma_pending_means_behind(node, attempts, tips.drop_last());
        assert forall|i: int| 0 <= i < tips.len() implies is_behind(node, tips[i]) by {
            if i < tips.len() - 1 {
                assert(tips.drop_last()[i] == tips[i]);
            }
        }
    }
}

/// The poll number `at` is within the attempts allowed, finds the node's own
/// tip (its number and its hash), and every poll before it found the index
/// service behind.
pub open spec fn synced_at(node: Tip, attempts: nat, tips: Seq<Option<Tip>>, at: int) -> bool {
    &&& 0 <= at < tips.len()
    &&& at < attempts
    &&& is_same(node, tips[at])
    &&& forall|j: int| 0 <= j < at ==> is_behind(node, tips[j])
}

/// The check succeeds if and only if some poll is one at which the index
/// service is synced.
pub proof fn lemma_synced_iff(node: Tip, attempts: nat, tips: Seq<Option<Tip>>)
    ensures
        sync_outcome(node, attempts, tips) == SyncOutcome::Synced <==> exists|at: int|
            synced_at(node, attempts, tips, at),
    decreases tips.len(),
{
    if tips.len() > 0 {
        let shorter = tips.drop_last();
        let last = tips.len() - 1;
        lemma_synced_iff(node, attempts, shorter);
        if sync_outcome(node, attempts, tips) == SyncOutcome::Synced {
            if sync_outcome(node, attempts, shorter) == SyncOutcome::Synced {
                let at = choose|at: int| synced_at(node, attempts, shorter, at);
                assert(tips[at] == shorter[at]);
                assert forall|j: int| 0 <= j < at implies is_behind(node, tips[j]) by {
                    assert(tips[j] == shorter[j]);
                }
                assert(synced_at(node, attempts, tips, at));
            } else {
                lemma_pending_means_behind(node, attempts, shorter);
                assert forall|j: int| 0 <= j < last implies is_behind(node, tips[j]) by {
                    assert(tips[j] == shorter[j]);
                }
                assert(synced_at(node, attempts, tips, last));
            }
        }
        if exists|at: int| synced_at(node, attempts, tips, at) {
            let at = choose|at: int| synced_at(node, attempts, tips, at);
            if at < last {
                assert(shorter[at] == tips[at]);
                assert forall|j: int| 0 <= j < at implies is_behind(node, shorter[j]) by {
                    assert(tips[j] == shorter[j]);
                }
                assert(synced_at(node, attempts, shorter, at));
            } else {
                assert forall|j: int| 0 <= j < shorter.len() implies is_behind(
                    node,
                    shorter[j],
                ) by {
                    assert(tips[j] == shorter[j]);
                }
                lemma_all_behind(node, attempts, shorter);
            }
        }
    }
}

/// The check fails at once, with no further poll, when a poll within the
/// attempts allowed finds no tip, another block at the node's height or a
/// block above it: the outcome is open before that poll and a failure from
/// it on.
pub proof fn lemma_fails_at_once(node: Tip, attempts: nat, tips: Seq<Option<Tip>>, at: int)
    requires
        0 <= at < tips.len(),
        at < attempts,
        forall|j: int| 0 <= j < at ==> is_behind(node, tips[j]),
        !is_behind(node, tips[at]),
        !is_same(node, tips[at]),
    ensures
        sync_outcome(node, attempts, tips.take(at)) == SyncOutcome::Pending,
        sync_outcome(node, attempts, tips) == if tips[at] is None {
            SyncOutcome::NotSynced
        } else {
            SyncOutcome::Inconsistent
        },
{
    lemma_all_behind(node, attempts, tips.take(at));
    assert(tips.take(at + 1).drop_last() =~= tips.take(at));
    assert(tips.take(at + 1).last() == tips[at]);
    lemma_outcome_stays(node, attempts, tips, at + 1);
}

/// The check fails after exactly as many polls as are allowed when the index
/// service stays behind throughout: the outcome is open after fewer polls
/// and a failure after the last.
pub proof fn lemma_gives_up(node: Tip, attempts: nat, tips: Seq<Option<Tip>>)
    requires
        attempts <= tips.len(),
        forall|j: int| 0 <= j < attempts ==> is_behind(node, tips[j]),
    ensures
        forall|made: int|
            0 <= made < attempts ==> sync_outcome(node, attempts, #[trigger] tips.take(made))
                == SyncOutcome::Pending,
        sync_outcome(node, attempts, tips.take(attempts as int)) == SyncOutcome::Inconsistent,
        sync_outcome(node, attempts, tips) == SyncOutcome::Inconsistent,
{
    assert forall|made: int| 0 <= made < attempts implies sync_outcome(
        node,
        attempts,
        #[trigger] tips.take(made),
    ) == SyncOutcome::Pending by {
        lemma_all_behind(node, attempts, tips.take(made));
    }
    lemma_all_behind(node, attempts, tips.take(attempts as int));
    lemma_outcome_stays(node, attempts, tips, attempts as int);
}

} // verus!
