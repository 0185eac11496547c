//! What happens to the legs that are still under way when a rename is answered
//! early: waiting for them, cleaning up behind them, and counting how renames end.

use vstd::prelude::*;

use crate::disk::{DiskError, Uuid};
use crate::rename::{BarrierStep, LegEvent, RenameVerdict};

verus! {

/// After how many renames the running totals are reported.
pub const RENAME_BARRIER_POC_LOG_EVERY: u64 = 4096;

/// How a rename that may end early ended.
#[derive(Clone, Copy, Debug, PartialEq, Eq, Structural)]
pub enum RenameBarrierPocOutcome {
    /// A quorum was enough.
    EarlyOk,
    /// All legs were joined before the answer.
    FullOk,
    /// All legs were joined and the quorum was missed.
    ErrAfterDrain,
}

/// How many renames ended in which way.
#[derive(Clone, Copy, Debug, PartialEq, Eq, Structural)]
pub struct RenameBarrierPocTotals {
    pub early_ok: u64,
    pub full_ok: u64,
    pub err_after_drain: u64,
    pub all: u64,
}

impl RenameBarrierPocTotals {
    /// Every rename is counted once under its outcome and once in the total.
    pub open spec fn wf(self) -> bool {
        self.early_ok + self.full_ok + self.err_after_drain == self.all
    }

    /// No rename has ended yet.
    pub fn new() -> (r: RenameBarrierPocTotals)
        ensures
            r.wf(),
            r.all == 0,
    {
        RenameBarrierPocTotals { early_ok: 0, full_ok: 0, err_after_drain: 0, all: 0 }
    }
}

/// Counts one outcome. Gives the totals to report after every
/// `RENAME_BARRIER_POC_LOG_EVERY` renames.
pub fn rename_data_barrier_poc_record(
    totals: &mut RenameBarrierPocTotals,
    outcome: RenameBarrierPocOutcome,
) -> (r: Option<RenameBarrierPocTotals>)
    requires
        old(totals).wf(),
        old(totals).all < u64::MAX,
    ensures
        final(totals).wf(),
        final(totals).all == old(totals).all + 1,
        final(totals).early_ok == old(totals).early_ok + if outcome
            == RenameBarrierPocOutcome::EarlyOk {
            1int
        } else {
            0int
        },
        final(totals).full_ok == old(totals).full_ok + if outcome
            == RenameBarrierPocOutcome::FullOk {
            1int
        } else {
            0int
        },
        final(totals).err_after_drain == old(totals).err_after_drain + if outcome
            == RenameBarrierPocOutcome::ErrAfterDrain {
            1int
        } else {
            0int
        },
        r == if final(totals).all % RENAME_BARRIER_POC_LOG_EVERY == 0 {
            Some(*final(totals))
        } else {
            None
        },
        r is Some <==> final(totals).all % 4096 == 0,
{
    match outcome {
        RenameBarrierPocOutcome::EarlyOk => {
            totals.early_ok = totals.early_ok + 1;
        },
        RenameBarrierPocOutcome::FullOk => {
            totals.full_ok = totals.full_ok + 1;
        },
        RenameBarrierPocOutcome::ErrAfterDrain => {
            totals.err_after_drain = totals.err_after_drain + 1;
        },
    }
    totals.all = totals.all + 1;
    if totals.all % RENAME_BARRIER_POC_LOG_EVERY == 0 {
        Some(*totals)
    } else {
        None
    }
}

impl<D> BarrierStep<D> {
    /// The outcome that this step is counted as, if it ends the rename.
    pub fn poc_outcome(&self) -> (r: Option<RenameBarrierPocOutcome>)
        ensures
            r == if self is EarlyOk {
                Some(RenameBarrierPocOutcome::EarlyOk)
            } else {
                None
            },
    {
        match self {
            BarrierStep::EarlyOk(_) => Some(RenameBarrierPocOutcome::EarlyOk),
            _ => None,
        }
    }
}

impl<D> RenameVerdict<D> {
    /// The outcome that this verdict is counted as.
    pub fn poc_outcome(&self) -> (r: RenameBarrierPocOutcome)
        ensures
            r == if self is Committed {
                RenameBarrierPocOutcome::FullOk
            } else {
                RenameBarrierPocOutcome::ErrAfterDrain
            },
    {
        match self {
            RenameVerdict::Committed(_) => RenameBarrierPocOutcome::FullOk,
            RenameVerdict::Undo { .. } => RenameBarrierPocOutcome::ErrAfterDrain,
        }
    }
}

/// What the cleanup after an early answer needs to know.
#[derive(Debug)]
pub struct CleanupCtx {
    /// The path in the temporary area to delete once all legs are done.
    pub tmp_prefix: String,
    /// The journal entry that was written before the answer.
    pub journal_id: Uuid,
    /// The name of the set, to ask for a heal.
    pub set_disk_id: String,
}

/// What to do when a barrier is dropped.
#[derive(Debug)]
pub enum DropAction {
    /// No leg is pending, and no cleanup was left to the background.
    Nothing,
    /// Clean up in the background.
    SpawnCleanup(CleanupCtx),
    /// Legs are pending and nobody told how to clean up; report it.
    ReportOrphaned { pending: usize },
}

/// The legs that a rename left pending.
#[derive(Debug)]
pub struct TmpRenameBarrier {
    /// How many legs have not been joined.
    pub pending: usize,
    /// How to clean up behind them, where that is left to the background.
    pub ctx: Option<CleanupCtx>,
}

impl TmpRenameBarrier {
    /// What dropping the barrier leads to: the cleanup, where it was left to the
    /// background. Without that, legs that are still pending are reported.
    pub open spec fn drop_action(self) -> DropAction {
        match self.ctx {
            Some(ctx) => DropAction::SpawnCleanup(ctx),
            None => if self.pending == 0 {
                DropAction::Nothing
            } else {
                DropAction::ReportOrphaned { pending: self.pending }
            },
        }
    }

    /// The barrier once it was dropped: a cleanup context is handed out with
    /// the action.
    pub open spec fn after_drop(self) -> TmpRenameBarrier {
        TmpRenameBarrier { ctx: None, ..self }
    }

    /// The barrier once its legs are waited for in the foreground: the wait has
    /// taken them over, and no background cleanup follows any more.
    pub open spec fn after_wait(self) -> TmpRenameBarrier {
        TmpRenameBarrier { pending: 0, ctx: None }
    }

    /// A barrier for `pending` legs that nobody cleans up behind.
    pub fn new(pending: usize) -> (r: TmpRenameBarrier)
        ensures
            r.pending == pending,
            r.ctx is None,
    {
        TmpRenameBarrier { pending, ctx: None }
    }

    /// Leaves the cleanup to the background. To be called at most once.
    pub fn install_cleanup_ctx(&mut self, ctx: CleanupCtx)
        requires
            old(self).ctx is None,
        ensures
            final(self).ctx == Some(ctx),
            final(self).pending == old(self).pending,
    {
        self.ctx = Some(ctx);
    }

    /// Starts to wait for all pending legs in the foreground. The wait takes them
    /// over, so that dropping the barrier leads to nothing any more.
    pub fn wait_all(&mut self) -> (r: StragglerWait)
        ensures
            *final(self) == old(self).after_wait(),
            r.first_err is None,
            r.error_count == 0,
            r.has_seen(Seq::empty()),
    {
        self.ctx = None;
        self.pending = 0;
        StragglerWait { first_err: None, error_count: 0 }
    }

    /// What dropping the barrier leads to. The cleanup context is handed out at
    /// most once.
    pub fn on_drop(&mut self) -> (r: DropAction)
        ensures
            r == old(self).drop_action(),
            *final(self) == old(self).after_drop(),
    {
        match self.ctx.take() {
            Some(ctx) => DropAction::SpawnCleanup(ctx),
            None => {
                if self.pending == 0 {
                    DropAction::Nothing
                } else {
                    DropAction::ReportOrphaned { pending: self.pending }
                }
            },
        }
    }
}

/// A barrier with a cleanup context starts that cleanup when it is dropped,
/// pending legs or not, and never twice. One that nobody gave a context, or that
/// was waited for in the foreground, starts none.
pub proof fn law_cleanup_starts_at_most_once(barrier: TmpRenameBarrier)
    ensures
        !(barrier.after_drop().drop_action() is SpawnCleanup),
        barrier.ctx is None ==> !(barrier.drop_action() is SpawnCleanup),
        barrier.drop_action() is SpawnCleanup <==> barrier.ctx is Some,
{
}

/// Once the legs of a barrier were waited for in the foreground, dropping it
/// leads to nothing, however many legs it had and whatever it was told to do
/// behind them.
pub proof fn law_drop_after_wait_is_nothing(barrier: TmpRenameBarrier)
    ensures
        barrier.after_wait().drop_action() is Nothing,
        barrier.after_wait().after_drop() == barrier.after_wait(),
{
}

impl LegEvent {
    /// The failure that the event stands for, if it stands for one.
    pub fn failed_with(&self) -> (r: Option<DiskError>)
        ensures
            r == self.failure(),
            r is None <==> (*self matches LegEvent::Done(_, Ok(_))),
            *self matches LegEvent::Done(_, Err(e)) ==> r == Some(e),
            *self matches LegEvent::TaskFailed(e) ==> r == Some(e),
    {
        match self {
            LegEvent::Done(_, Ok(_)) => None,
            LegEvent::Done(_, Err(e)) => Some(*e),
            LegEvent::TaskFailed(e) => Some(*e),
            LegEvent::JoinFailed => Some(DiskError::Unexpected),
        }
    }
}

/// The first failure in a sequence of completions.
pub open spec fn first_failure(events: Seq<LegEvent>) -> Option<DiskError>
    decreases events.len(),
{
    if events.len() == 0 {
        None
    } else {
        match events[0].failure() {
            Some(e) => Some(e),
            None => first_failure(events.skip(1)),
        }
    }
}

/// How many completions are failures.
pub open spec fn failure_count(events: Seq<LegEvent>) -> nat
    decreases events.len(),
{
    if events.len() == 0 {
        0
    } else {
        failure_count(events.drop_last()) + if events.last().failure() is Some {
            1nat
        } else {
            0nat
        }
    }
}

/// What a foreground wait for pending legs has seen so far.
#[derive(Clone, Copy, Debug, PartialEq, Eq, Structural)]
pub struct StragglerWait {
    pub first_err: Option<DiskError>,
    pub error_count: u64,
}

impl StragglerWait {
    /// Whether this is what a wait has seen after exactly these completions.
    pub open spec fn has_seen(self, events: Seq<LegEvent>) -> bool {
        &&& self.first_err == first_failure(events)
        &&& self.error_count == failure_count(events)
    }

    /// Takes note of one completion. Gives the failure to report, if it is one.
    pub fn note(&mut self, event: &LegEvent) -> (r: Option<DiskError>)
        requires
            old(self).error_count < u64::MAX,
        ensures
            r == event.failure(),
            match event.failure() {
                Some(e) => {
                    &&& final(self).error_count == old(self).error_count + 1
                    &&& final(self).first_err == if old(self).first_err is None {
                        Some(e)
                    } else {
                        old(self).first_err
                    }
                },
                None => *final(self) == *old(self),
            },
            forall|seen: Seq<LegEvent>| #[trigger]
                old(self).has_seen(seen) ==> final(self).has_seen(seen.push(*event)),
    {
        let failed: Option<DiskError> = event.failed_with();
        match failed {
            Some(e) => {
                self.error_count = self.error_count + 1;
                if self.first_err.is_none() {
                    self.first_err = Some(e);
                }
            },
            None => {},
        }
        proof {
            assert forall|seen: Seq<LegEvent>| #[trigger]
                old(self).has_seen(seen) implies self.has_seen(seen.push(*event)) by {
                lemma_first_failure_push(seen, *event);
                assert(seen.push(*event).drop_last() =~= seen);
            }
        }
        failed
    }

    /// The result of the wait: the first failure that was seen.
    pub fn finish(&self) -> (r: Result<(), DiskError>)
        ensures
            match self.first_err {
                Some(e) => r == Err::<(), DiskError>(e),
                None => r is Ok,
            },
            forall|seen: Seq<LegEvent>| #[trigger]
                self.has_seen(seen) ==> (r is Ok <==> forall|i: int|
                    0 <= i < seen.len() ==> (#[trigger] seen[i] matches LegEvent::Done(_, Ok(_)))),
    {
        proof {
            assert forall|seen: Seq<LegEvent>| #[trigger] self.has_seen(seen) implies (
            self.first_err is None <==> forall|i: int|
                0 <= i < seen.len() ==> (#[trigger] seen[i] matches LegEvent::Done(
                    _,
                    Ok(_),
                ))) by {
                law_wait_succeeds_only_on_successes(*self, seen);
            }
        }
        match self.first_err {
            Some(e) => Err(e),
            None => Ok(()),
        }
    }
}

proof fn lemma_first_failure_push(events: Seq<LegEvent>, event: LegEvent)
    ensures
        first_failure(events.push(event)) == match first_failure(events) {
            Some(e) => Some(e),
            None => event.failure(),
        },
    decreases events.len(),
{
    let all = events.push(event);
    if events.len() == 0 {
        assert(all.skip(1) =~= Seq::empty());
        assert(first_failure(all.skip(1)) is None);
    } else {
        assert(all[0] == events[0]);
        assert(all.skip(1) =~= events.skip(1).push(event));
        lemma_first_failure_push(events.skip(1), event);
    }
}

/// A wait that starts with nothing seen reports the first failure among the
/// completions, in the order in which they came, and success where there is none.
pub proof fn law_wait_reports_first_failure(wait: StragglerWait, events: Seq<LegEvent>)
    requires
        wait.has_seen(events),
    ensures
        wait.first_err is None <==> (forall|i: int|
            0 <= i < events.len() ==> (#[trigger] events[i]).failure() is None),
        wait.first_err is Some ==> exists|i: int|
            #![trigger events[i]]
            0 <= i < events.len() && events[i].failure() == wait.first_err && forall|j: int|
                0 <= j < i ==> (#[trigger] events[j]).failure() is None,
{
    lemma_first_failure_is_first(events);
}

proof fn lemma_first_failure_is_first(events: Seq<LegEvent>)
    ensures
        first_failure(events) is None <==> (forall|i: int|
            0 <= i < events.len() ==> (#[trigger] events[i]).failure() is None),
        first_failure(events) is Some ==> exists|i: int|
            #![trigger events[i]]
            0 <= i < events.len() && events[i].failure() == first_failure(events) && forall|j: int|
                0 <= j < i ==> (#[trigger] events[j]).failure() is None,
    decreases events.len(),
{
    if events.len() > 0 {
        let rest = events.skip(1);
        lemma_first_failure_is_first(rest);
        if events[0].failure() is None {
            assert forall|i: int| 0 <= i < rest.len() implies rest[i] == #[trigger] events[i
                + 1] by {}
            if first_failure(events) is Some {
                let i = choose|i: int|
                    #![trigger rest[i]]
                    0 <= i < rest.len() && rest[i].failure() == first_failure(rest) && forall|
                        j: int,
                    |
                        0 <= j < i ==> (#[trigger] rest[j]).failure() is None;
                assert(events[i + 1] == rest[i]);
                assert forall|j: int| 0 <= j < i + 1 implies (#[trigger] events[j]).failure()
                    is None by {
                    if j > 0 {
                        assert(events[j] == rest[j - 1]);
                    }
                }
            } else {
                assert forall|i: int| 0 <= i < events.len() implies (#[trigger] events[i]).failure()
                    is None by {
                    if i > 0 {
                        assert(events[i] == rest[i - 1]);
                    }
                }
            }
        } else {
            assert(events[0].failure() is Some);
        }
    }
}

/// A wait ends without an error exactly where every leg that it saw answered a
/// success. Else it reports the error of the first leg that did not, and it
/// counts all of those.
pub proof fn law_wait_succeeds_only_on_successes(wait: StragglerWait, events: Seq<LegEvent>)
    requires
        wait.has_seen(events),
    ensures
        wait.first_err is None <==> forall|i: int|
            0 <= i < events.len() ==> (#[trigger] events[i] matches LegEvent::Done(_, Ok(_))),
        wait.first_err matches Some(e) ==> exists|i: int|
            #![trigger events[i]]
            {
                &&& 0 <= i < events.len()
                &&& match events[i] {
                    LegEvent::Done(_, Ok(_)) => false,
                    LegEvent::Done(_, Err(x)) => x == e,
                    LegEvent::TaskFailed(x) => x == e,
                    LegEvent::JoinFailed => e == DiskError::Unexpected,
                }
                &&& forall|j: int|
                    0 <= j < i ==> (#[trigger] events[j] matches LegEvent::Done(_, Ok(_)))
            },
        wait.error_count == Set::new(
            |i: int|
                0 <= i < events.len() && !(events[i] matches LegEvent::Done(_, Ok(_))),
        ).len(),
{
    lemma_first_failure_is_first(events);
    lemma_failures_counted(events);
    if wait.first_err is None {
        assert forall|i: int| 0 <= i < events.len() implies (
        #[trigger] events[i] matches LegEvent::Done(_, Ok(_))) by {
            assert(events[i].failure() is None);
        }
    } else {
        let i = choose|i: int|
            #![trigger events[i]]
            0 <= i < events.len() && events[i].failure() == wait.first_err && forall|j: int|
                0 <= j < i ==> (#[trigger] events[j]).failure() is None;
        assert forall|j: int| 0 <= j < i implies (
        #[trigger] events[j] matches LegEvent::Done(_, Ok(_))) by {
            assert(events[j].failure() is None);
        }
        assert(events[i].failure() is Some);
    }
}

proof fn lemma_failures_counted(events: Seq<LegEvent>)
    ensures
        failure_count(events) == Set::new(
            |i: int|
                0 <= i < events.len() && !(events[i] matches LegEvent::Done(_, Ok(_))),
        ).len(),
    decreases events.len(),
{
    let n = events.len() as int;
    let bad = |i: int| !(events[i] matches LegEvent::Done(_, Ok(_)));
    assert(Set::new(
        |i: int| 0 <= i < n && !(events[i] matches LegEvent::Done(_, Ok(_))),
    ) =~= crate::counting::below(bad, n));
    if n == 0 {
        crate::counting::lemma_below_step(bad, 0);
    } else {
        let init = events.drop_last();
        lemma_failures_counted(init);
        crate::counting::lemma_below_step(bad, n - 1);
        assert(Set::new(
            |i: int|
                0 <= i < init.len() && !(init[i] matches LegEvent::Done(_, Ok(_))),
        ) =~= crate::counting::below(bad, n - 1));
    }
}

/// What dropping a barrier leads to: the cleanup that it was given, pending legs
/// or not; without one a report of the pending legs, where there are any. The
/// context goes with it, and nothing else changes.
pub proof fn law_drop_follows_the_context(barrier: TmpRenameBarrier, ctx: CleanupCtx)
    ensures
        barrier.drop_action() == DropAction::SpawnCleanup(ctx) <==> barrier.ctx == Some(ctx),
        barrier.drop_action() is Nothing <==> barrier.ctx is None && barrier.pending == 0,
        barrier.drop_action() is ReportOrphaned <==> barrier.ctx is None && barrier.pending > 0,
        barrier.drop_action() matches DropAction::ReportOrphaned { pending } ==> pending
            == barrier.pending,
        barrier.after_drop().ctx is None,
        barrier.after_drop().pending == barrier.pending,
        barrier.after_wait().ctx is None,
        barrier.after_wait().pending == 0,
{
}

/// Every rename is counted under one outcome.
pub proof fn law_outcomes_add_up(totals: RenameBarrierPocTotals)
    ensures
        totals.wf() <==> totals.early_ok + totals.full_ok + totals.err_after_drain == totals.all,
{
}

/// Counting an outcome adds one to that outcome and to the total, leaves the
/// other outcomes as they are, and gives the totals to report after every 4096
/// renames. A count starts from nothing.
pub proof fn law_outcome_is_counted_once(
    totals: &mut RenameBarrierPocTotals,
    outcome: RenameBarrierPocOutcome,
    r: Option<RenameBarrierPocTotals>,
    fresh: RenameBarrierPocTotals,
)
    requires
        call_ensures(rename_data_barrier_poc_record, (totals, outcome), r),
        call_ensures(RenameBarrierPocTotals::new, (), fresh),
        old(totals).wf(),
        old(totals).all < u64::MAX,
    ensures
        final(totals).all == old(totals).all + 1,
        outcome is EarlyOk <==> final(totals).early_ok == old(totals).early_ok + 1,
        outcome is FullOk <==> final(totals).full_ok == old(totals).full_ok + 1,
        outcome is ErrAfterDrain <==> final(totals).err_after_drain == old(totals).err_after_drain
            + 1,
        !(outcome is EarlyOk) ==> final(totals).early_ok == old(totals).early_ok,
        !(outcome is FullOk) ==> final(totals).full_ok == old(totals).full_ok,
        !(outcome is ErrAfterDrain) ==> final(totals).err_after_drain == old(
            totals,
        ).err_after_drain,
        r is Some <==> final(totals).all % 4096 == 0,
        r matches Some(t) ==> t == *final(totals),
        fresh.early_ok == 0 && fresh.full_ok == 0 && fresh.err_after_drain == 0 && fresh.all == 0,
{
}

/// An early answer is counted as such and no other step is counted; a settled
/// rename is counted by whether it was committed.
pub proof fn law_end_is_counted_as_what_it_is<D>(
    step: BarrierStep<D>,
    verdict: RenameVerdict<D>,
    early: Option<RenameBarrierPocOutcome>,
    settled: RenameBarrierPocOutcome,
)
    requires
        call_ensures(BarrierStep::<D>::poc_outcome, (&step,), early),
        call_ensures(RenameVerdict::<D>::poc_outcome, (&verdict,), settled),
    ensures
        early is Some <==> step is EarlyOk,
        early matches Some(o) ==> o is EarlyOk,
        settled is FullOk <==> verdict is Committed,
        settled is ErrAfterDrain <==> verdict is Undo,
{
}

/// A barrier that was told how to clean up hands that out when it is dropped,
/// once. One that was waited for leads to nothing.
pub proof fn law_barrier_cleans_up_or_was_waited_for(
    installed: &mut TmpRenameBarrier,
    dropped: &mut TmpRenameBarrier,
    waited: &mut TmpRenameBarrier,
    ctx: CleanupCtx,
    action: DropAction,
    wait: StragglerWait,
)
    requires
        call_ensures(TmpRenameBarrier::install_cleanup_ctx, (installed, ctx), ()),
        *old(dropped) == *final(installed),
        call_ensures(TmpRenameBarrier::on_drop, (dropped,), action),
        *old(waited) == *final(installed),
        call_ensures(TmpRenameBarrier::wait_all, (waited,), wait),
    ensures
        final(installed).pending == old(installed).pending,
        action == DropAction::SpawnCleanup(ctx),
        final(dropped).ctx is None,
        final(dropped).pending == old(dropped).pending,
        final(waited).ctx is None,
        final(waited).pending == 0,
        wait.first_err is None,
        wait.error_count == 0,
{
}

/// Dropping a barrier that nobody told how to clean up reports the legs that are
/// pending, where there are any.
pub proof fn law_pending_legs_without_cleanup_are_reported(
    pending: usize,
    fresh: TmpRenameBarrier,
    barrier: &mut TmpRenameBarrier,
    action: DropAction,
)
    requires
        call_ensures(TmpRenameBarrier::new, (pending,), fresh),
        *old(barrier) == fresh,
        call_ensures(TmpRenameBarrier::on_drop, (barrier,), action),
    ensures
        pending == 0 ==> action is Nothing,
        pending > 0 ==> (action matches DropAction::ReportOrphaned { pending: p } && p == pending),
{
}

/// A wait notes a leg as a failure unless its disk answered a success, keeps the
/// first failure, counts all of them, and ends with that first failure.
pub proof fn law_wait_keeps_the_first_failure(
    wait: &mut StragglerWait,
    event: LegEvent,
    noted: Option<DiskError>,
    r: Result<(), DiskError>,
)
    requires
        call_ensures(StragglerWait::note, (wait, &event), noted),
        call_ensures(StragglerWait::finish, (final(wait),), r),
        old(wait).error_count < u64::MAX,
    ensures
        noted is None <==> (event matches LegEvent::Done(_, Ok(_))),
        event matches LegEvent::Done(_, Err(e)) ==> noted == Some(e),
        event matches LegEvent::TaskFailed(e) ==> noted == Some(e),
        event is JoinFailed ==> noted == Some(DiskError::Unexpected),
        noted is Some ==> final(wait).error_count == old(wait).error_count + 1,
        noted is None ==> *final(wait) == *old(wait),
        old(wait).first_err is Some ==> final(wait).first_err == old(wait).first_err,
        old(wait).first_err is None ==> final(wait).first_err == noted,
        r is Ok <==> old(wait).first_err is None && (event matches LegEvent::Done(_, Ok(_))),
        r matches Err(e) ==> final(wait).first_err == Some(e),
{
}

}
