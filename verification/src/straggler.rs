//! The background cleanup after a rename that was answered early: wait for the
//! pending legs, ask for a heal where one failed, delete what is left in the
//! temporary area and then the journal entry.

use vstd::prelude::*;

use crate::barrier::CleanupCtx;
use crate::disk::{DiskError, Uuid};
use crate::rename::LegEvent;

verus! {

/// How far a cleanup has come.
#[derive(Clone, Copy, Debug, PartialEq, Eq, Structural)]
pub enum CleanupStage {
    /// Legs are still pending.
    Draining,
    /// All legs are done; the temporary path is being deleted.
    Deleting,
    /// Nothing is left to do but what the last action asked for.
    Finished,
}

/// What a cleanup learns.
#[derive(Debug)]
pub enum CleanupEvent {
    /// One more leg came back.
    Leg(LegEvent),
    /// No leg is left.
    Drained,
    /// Deleting the temporary path ended like this.
    TmpDeleted(Result<(), DiskError>),
}

/// What a cleanup does next.
#[derive(Debug)]
pub enum CleanupAction {
    /// Wait for the next leg. Where this one failed, report its failure.
    Wait { failed: Option<DiskError> },
    /// Report the failure, ask for a heal of this set, then wait for the next
    /// leg.
    TriggerHeal { set_disk_id: String, failed: DiskError },
    /// Delete this path in the temporary area.
    DeleteTmp { tmp_prefix: String },
    /// Remove this journal entry; the cleanup is complete.
    DeleteJournal { journal_id: Uuid },
    /// Leave the journal entry, so that a later pass tries again.
    Stop,
}

/// How urgent a heal is.
#[derive(Clone, Copy, Debug, PartialEq, Eq, Structural)]
pub enum HealPriority {
    Low,
    Normal,
    High,
}

/// One cleanup in the background.
#[derive(Debug)]
pub struct StragglerCleanup {
    pub ctx: CleanupCtx,
    pub heal_triggered: bool,
    pub stage: CleanupStage,
}

/// Whether an event can come at a stage.
pub open spec fn expected_at(stage: CleanupStage, event: CleanupEvent) -> bool {
    match event {
        CleanupEvent::Leg(_) | CleanupEvent::Drained => stage == CleanupStage::Draining,
        CleanupEvent::TmpDeleted(_) => stage == CleanupStage::Deleting,
    }
}

impl StragglerCleanup {
    /// Whether the event can come now.
    pub open spec fn expects(self, event: CleanupEvent) -> bool {
        expected_at(self.stage, event)
    }

    /// A cleanup that has yet to wait for the legs.
    pub fn new(ctx: CleanupCtx) -> (r: StragglerCleanup)
        ensures
            r.ctx == ctx,
            !r.heal_triggered,
            r.stage == CleanupStage::Draining,
    {
        StragglerCleanup { ctx, heal_triggered: false, stage: CleanupStage::Draining }
    }

    /// How urgent the heal is that a cleanup asks for.
    pub fn heal_priority() -> (r: HealPriority)
        ensures
            r == HealPriority::Normal,
    {
        HealPriority::Normal
    }

    /// Takes in one event and says what to do. Every failed leg is reported, but
    /// a heal is asked for at the first of them only. The temporary path is
    /// deleted only once no leg is left, and the journal entry goes only after the path is gone.
    pub fn run_straggler_cleanup(&mut self, event: CleanupEvent) -> (r: CleanupAction)
        requires
            old(self).expects(event),
        ensures
            final(self).ctx == old(self).ctx,
            final(self).stage == stage_after(event),
            match event {
                CleanupEvent::Leg(leg) => {
                    &&& final(self).heal_triggered == (old(self).heal_triggered || leg.failure()
                        is Some)
                    &&& if leg.failure() is Some && !old(self).heal_triggered {
                        r matches CleanupAction::TriggerHeal { set_disk_id, failed } && set_disk_id@
                            == old(self).ctx.set_disk_id@ && leg.failure() == Some(failed)
                    } else {
                        r == (CleanupAction::Wait { failed: leg.failure() })
                    }
                },
                CleanupEvent::Drained => {
                    &&& final(self).heal_triggered == old(self).heal_triggered
                    &&& r matches CleanupAction::DeleteTmp { tmp_prefix }
                    &&& tmp_prefix@ == old(self).ctx.tmp_prefix@
                },
                CleanupEvent::TmpDeleted(result) => {
                    &&& final(self).heal_triggered == old(self).heal_triggered
                    &&& if result is Ok {
                        r == (CleanupAction::DeleteJournal {
                            journal_id: old(self).ctx.journal_id,
                        })
                    } else {
                        r is Stop
                    }
                },
            },
    {
        match event {
            CleanupEvent::Leg(leg) => {
                match leg.failed_with() {
                    Some(failed) => {
                        if self.heal_triggered {
                            return CleanupAction::Wait { failed: Some(failed) };
                        }
                        self.heal_triggered = true;
                        CleanupAction::TriggerHeal {
                            set_disk_id: self.ctx.set_disk_id.clone(),
                            failed,
                        }
                    },
                    None => CleanupAction::Wait { failed: None },
                }
            },
            CleanupEvent::Drained => {
                self.stage = CleanupStage::Deleting;
                CleanupAction::DeleteTmp { tmp_prefix: self.ctx.tmp_prefix.clone() }
            },
            CleanupEvent::TmpDeleted(result) => {
                self.stage = CleanupStage::Finished;
                match result {
                    Ok(_) => CleanupAction::DeleteJournal { journal_id: self.ctx.journal_id },
                    Err(_) => CleanupAction::Stop,
                }
            },
        }
    }
}

/// How many heals a cleanup asks for while these legs come back, given whether
/// it has asked for one before.
pub open spec fn heals_asked(heal_triggered: bool, legs: Seq<LegEvent>) -> nat
    decreases legs.len(),
{
    if legs.len() == 0 {
        0
    } else {
        (if legs[0].failure() is Some && !heal_triggered {
            1nat
        } else {
            0nat
        }) + heals_asked(heal_triggered || legs[0].failure() is Some, legs.skip(1))
    }
}

/// However many legs fail, one cleanup asks for a heal once; where no leg
/// fails, it asks for none.
pub proof fn law_heal_asked_once(legs: Seq<LegEvent>)
    ensures
        heals_asked(false, legs) == if exists|i: int|
            0 <= i < legs.len() && (#[trigger] legs[i]).failure() is Some {
            1nat
        } else {
            0nat
        },
    decreases legs.len(),
{
    if legs.len() > 0 {
        let rest = legs.skip(1);
        if legs[0].failure() is Some {
            lemma_no_second_heal(rest);
        } else {
            law_heal_asked_once(rest);
            if exists|i: int| 0 <= i < legs.len() && (#[trigger] legs[i]).failure() is Some {
                let i = choose|i: int|
                    0 <= i < legs.len() && (#[trigger] legs[i]).failure() is Some;
                assert(rest[i - 1] == legs[i]);
            }
            if exists|i: int| 0 <= i < rest.len() && (#[trigger] rest[i]).failure() is Some {
                let i = choose|i: int|
                    0 <= i < rest.len() && (#[trigger] rest[i]).failure() is Some;
                assert(legs[i + 1] == rest[i]);
            }
        }
    }
}

proof fn lemma_no_second_heal(legs: Seq<LegEvent>)
    ensures
        heals_asked(true, legs) == 0,
    decreases legs.len(),
{
    if legs.len() > 0 {
        lemma_no_second_heal(legs.skip(1));
    }
}

/// The stage that an event leads to.
pub open spec fn stage_after(event: CleanupEvent) -> CleanupStage {
    match event {
        CleanupEvent::Leg(_) => CleanupStage::Draining,
        CleanupEvent::Drained => CleanupStage::Deleting,
        CleanupEvent::TmpDeleted(_) => CleanupStage::Finished,
    }
}

/// Whether these events can come one after the other, from this stage on.
pub open spec fn can_follow(stage: CleanupStage, events: Seq<CleanupEvent>) -> bool
    decreases events.len(),
{
    events.len() == 0 || expected_at(stage, events[0]) && can_follow(
        stage_after(events[0]),
        events.skip(1),
    )
}

/// In every run of a cleanup all legs come first, then the word that none is
/// left, upon which the temporary path is deleted, and last of all what came of
/// that delete, which decides over the journal entry.
pub proof fn law_cleanup_order(events: Seq<CleanupEvent>, i: int)
    requires
        can_follow(CleanupStage::Draining, events),
        0 <= i < events.len(),
    ensures
        events[i] is Drained ==> forall|j: int|
            0 <= j < events.len() && j != i ==> ((#[trigger] events[j]) is Leg <==> j < i),
        events[i] is TmpDeleted ==> i == events.len() - 1 && i > 0 && events[i - 1] is Drained,
    decreases events.len(),
{
    reveal_with_fuel(can_follow, 3);
    let rest = events.skip(1);
    if events[0] is Leg {
        if i > 0 {
            law_cleanup_order(rest, i - 1);
            assert(rest[i - 1] == events[i]);
            assert forall|j: int| 0 < j < events.len() implies #[trigger] events[j] == rest[j
                - 1] by {}
        }
    } else {
        assert(events[0] is Drained);
        if rest.len() > 0 {
            assert(rest[0] == events[1]);
            assert(rest[0] is TmpDeleted);
            if rest.len() > 1 {
                assert(rest.skip(1)[0] == events[2]);
            }
        }
    }
}

/// A cleanup asks for one heal where a leg came back that did not succeed, and
/// for none where all of them succeeded.
pub proof fn law_heal_follows_a_leg_that_failed(legs: Seq<LegEvent>)
    ensures
        heals_asked(false, legs) == 0 <==> forall|i: int|
            0 <= i < legs.len() ==> (#[trigger] legs[i] matches LegEvent::Done(_, Ok(_))),
        heals_asked(false, legs) <= 1,
        heals_asked(true, legs) == 0,
{
    law_heal_asked_once(legs);
    lemma_no_second_heal(legs);
    assert forall|i: int| 0 <= i < legs.len() implies ((#[trigger] legs[i]).failure() is None
        <==> (legs[i] matches LegEvent::Done(_, Ok(_)))) by {}
    if heals_asked(false, legs) == 0 {
        assert forall|i: int| 0 <= i < legs.len() implies (
        #[trigger] legs[i] matches LegEvent::Done(_, Ok(_))) by {
            assert(!(legs[i].failure() is Some));
        }
    }
}

/// Legs, and the word that none is left, come while legs are waited for; what
/// came of the delete comes while it is under way. Each event leads to its own
/// stage.
pub proof fn law_cleanup_stages(
    cleanup: StragglerCleanup,
    leg: LegEvent,
    result: Result<(), DiskError>,
)
    ensures
        cleanup.expects(CleanupEvent::Leg(leg)) <==> cleanup.stage == CleanupStage::Draining,
        cleanup.expects(CleanupEvent::Drained) <==> cleanup.stage == CleanupStage::Draining,
        cleanup.expects(CleanupEvent::TmpDeleted(result)) <==> cleanup.stage
            == CleanupStage::Deleting,
        stage_after(CleanupEvent::Leg(leg)) == CleanupStage::Draining,
        stage_after(CleanupEvent::Drained) == CleanupStage::Deleting,
        stage_after(CleanupEvent::TmpDeleted(result)) == CleanupStage::Finished,
{
}

/// What a cleanup does upon an event. It asks for a heal exactly at the first
/// leg that did not succeed, deletes the temporary path exactly when no leg is
/// left, and removes its journal entry exactly when that delete succeeded; each
/// for the set, the path and the entry that it was started with.
pub proof fn law_cleanup_acts_upon_events(
    cleanup: &mut StragglerCleanup,
    event: CleanupEvent,
    r: CleanupAction,
)
    requires
        call_ensures(StragglerCleanup::run_straggler_cleanup, (cleanup, event), r),
        old(cleanup).expects(event),
    ensures
        r is TriggerHeal <==> !old(cleanup).heal_triggered && event is Leg && !(
        event matches CleanupEvent::Leg(LegEvent::Done(_, Ok(_)))),
        r is DeleteTmp <==> event is Drained,
        r is DeleteJournal <==> (event matches CleanupEvent::TmpDeleted(Ok(_))),
        r is Stop <==> (event matches CleanupEvent::TmpDeleted(Err(_))),
        r is Wait <==> event is Leg && !(r is TriggerHeal),
        r matches CleanupAction::TriggerHeal { set_disk_id, failed } ==> set_disk_id@ == old(
            cleanup,
        ).ctx.set_disk_id@,
        r matches CleanupAction::DeleteTmp { tmp_prefix } ==> tmp_prefix@ == old(
            cleanup,
        ).ctx.tmp_prefix@,
        r matches CleanupAction::DeleteJournal { journal_id } ==> journal_id == old(
            cleanup,
        ).ctx.journal_id,
        event matches CleanupEvent::Leg(LegEvent::Done(_, Err(e))) ==> (
        r matches CleanupAction::TriggerHeal { set_disk_id, failed } ==> failed == e) && (
        r matches CleanupAction::Wait { failed } ==> failed == Some(e)),
        event matches CleanupEvent::Leg(LegEvent::TaskFailed(e)) ==> (
        r matches CleanupAction::TriggerHeal { set_disk_id, failed } ==> failed == e) && (
        r matches CleanupAction::Wait { failed } ==> failed == Some(e)),
        event matches CleanupEvent::Leg(LegEvent::Done(_, Ok(_))) ==> (
        r matches CleanupAction::Wait { failed } ==> failed is None),
        final(cleanup).ctx == old(cleanup).ctx,
        final(cleanup).heal_triggered <==> old(cleanup).heal_triggered || r is TriggerHeal,
        event is Leg ==> final(cleanup).stage is Draining,
        event is Drained ==> final(cleanup).stage is Deleting,
        event is TmpDeleted ==> final(cleanup).stage is Finished,
{
}

/// A cleanup begins by waiting for legs, has asked for no heal yet, and asks for
/// one of normal priority.
pub proof fn law_cleanup_begins_by_waiting(
    ctx: CleanupCtx,
    r: StragglerCleanup,
    priority: HealPriority,
)
    requires
        call_ensures(StragglerCleanup::new, (ctx,), r),
        call_ensures(StragglerCleanup::heal_priority, (), priority),
    ensures
        r.ctx == ctx,
        !r.heal_triggered,
        r.stage is Draining,
        priority is Normal,
{
}

}
