use rustfs_core::barrier::{
    rename_data_barrier_poc_record, CleanupCtx, DropAction, RenameBarrierPocOutcome, RenameBarrierPocTotals,
    TmpRenameBarrier, RENAME_BARRIER_POC_LOG_EVERY,
};
use rustfs_core::disk::{DiskError, RenameDataResp, Uuid};
use rustfs_core::rename::{BarrierStep, LegEvent, RenameVerdict};
use rustfs_core::straggler::{CleanupAction, CleanupEvent, CleanupStage, HealPriority, StragglerCleanup};

fn ctx() -> CleanupCtx {
    CleanupCtx {
        tmp_prefix: "tmp/object".to_string(),
        journal_id: Uuid { bits: 77 },
        set_disk_id: "pool_0_set_1".to_string(),
    }
}

fn done(i: usize) -> LegEvent {
    LegEvent::Done(i, Ok(RenameDataResp::default()))
}

fn failed(i: usize, e: DiskError) -> LegEvent {
    LegEvent::Done(i, Err(e))
}

#[test]
fn outcomes_are_counted_and_reported_now_and_again() {
    let mut totals = RenameBarrierPocTotals::new();
    for i in 1..RENAME_BARRIER_POC_LOG_EVERY {
        let outcome = if i % 2 == 0 { RenameBarrierPocOutcome::EarlyOk } else { RenameBarrierPocOutcome::FullOk };
        assert_eq!(rename_data_barrier_poc_record(&mut totals, outcome), None);
    }
    let report = rename_data_barrier_poc_record(&mut totals, RenameBarrierPocOutcome::ErrAfterDrain);
    assert_eq!(
        report,
        Some(RenameBarrierPocTotals { early_ok: 2047, full_ok: 2048, err_after_drain: 1, all: 4096 })
    );
    assert_eq!(rename_data_barrier_poc_record(&mut totals, RenameBarrierPocOutcome::EarlyOk), None);
}

#[test]
fn ends_of_a_rename_have_their_outcome() {
    assert_eq!(BarrierStep::<u8>::Wait.poc_outcome(), None);
    assert_eq!(BarrierStep::<u8>::Drained.poc_outcome(), None);
    assert_eq!(BarrierStep::<u8>::Failed(DiskError::Unexpected).poc_outcome(), None);
    let undo: RenameVerdict<u8> = RenameVerdict::Undo { targets: vec![], err: DiskError::ErasureWriteQuorum };
    assert_eq!(undo.poc_outcome(), RenameBarrierPocOutcome::ErrAfterDrain);
}

#[test]
fn dropping_a_barrier_cleans_up_once() {
    let mut idle = TmpRenameBarrier::new(0);
    assert!(matches!(idle.on_drop(), DropAction::Nothing));

    let mut orphaned = TmpRenameBarrier::new(2);
    assert!(matches!(orphaned.on_drop(), DropAction::ReportOrphaned { pending: 2 }));

    let mut deferred = TmpRenameBarrier::new(2);
    deferred.install_cleanup_ctx(ctx());
    match deferred.on_drop() {
        DropAction::SpawnCleanup(c) => assert_eq!(c.journal_id, Uuid { bits: 77 }),
        _ => panic!("legs are pending and the context is there"),
    }
    assert!(matches!(deferred.on_drop(), DropAction::ReportOrphaned { pending: 2 }));
}

#[test]
fn dropping_a_barrier_without_pending_legs_still_cleans_up() {
    let mut done = TmpRenameBarrier::new(0);
    done.install_cleanup_ctx(ctx());
    match done.on_drop() {
        DropAction::SpawnCleanup(c) => {
            assert_eq!(c.tmp_prefix, "tmp/object");
            assert_eq!(c.journal_id, Uuid { bits: 77 });
        }
        _ => panic!("the context is there"),
    }
    assert!(matches!(done.on_drop(), DropAction::Nothing));

    let mut waited = TmpRenameBarrier::new(0);
    waited.install_cleanup_ctx(ctx());
    assert_eq!(waited.wait_all().finish(), Ok(()));
    assert!(matches!(waited.on_drop(), DropAction::Nothing));
}

#[test]
fn waiting_reports_the_first_failure() {
    let mut barrier = TmpRenameBarrier::new(4);
    barrier.install_cleanup_ctx(ctx());
    let mut wait = barrier.wait_all();
    assert!(barrier.ctx.is_none());
    assert_eq!(wait.note(&done(0)), None);
    assert_eq!(wait.finish(), Ok(()));
    assert_eq!(wait.note(&LegEvent::TaskFailed(DiskError::FaultyDisk)), Some(DiskError::FaultyDisk));
    assert_eq!(wait.note(&LegEvent::JoinFailed), Some(DiskError::Unexpected));
    assert_eq!(wait.note(&failed(2, DiskError::DiskNotFound)), Some(DiskError::DiskNotFound));
    assert_eq!(wait.error_count, 3);
    assert_eq!(wait.finish(), Err(DiskError::FaultyDisk));
}

#[test]
fn dropping_a_barrier_after_waiting_leads_to_nothing() {
    for install in [false, true] {
        let mut barrier = TmpRenameBarrier::new(2);
        if install {
            barrier.install_cleanup_ctx(ctx());
        }
        let mut wait = barrier.wait_all();
        assert_eq!(wait.note(&done(0)), None);
        assert_eq!(wait.note(&failed(1, DiskError::FaultyDisk)), Some(DiskError::FaultyDisk));
        assert_eq!(wait.finish(), Err(DiskError::FaultyDisk));
        assert_eq!(barrier.pending, 0);
        assert!(matches!(barrier.on_drop(), DropAction::Nothing));
    }
}

#[test]
fn cleanup_deletes_after_the_last_leg() {
    let mut cleanup = StragglerCleanup::new(ctx());
    let action = cleanup.run_straggler_cleanup(CleanupEvent::Leg(done(0)));
    assert!(matches!(action, CleanupAction::Wait { failed: None }));
    assert_eq!(cleanup.stage, CleanupStage::Draining);
    match cleanup.run_straggler_cleanup(CleanupEvent::Drained) {
        CleanupAction::DeleteTmp { tmp_prefix } => assert_eq!(tmp_prefix, "tmp/object"),
        _ => panic!("no leg is left"),
    }
    match cleanup.run_straggler_cleanup(CleanupEvent::TmpDeleted(Ok(()))) {
        CleanupAction::DeleteJournal { journal_id } => assert_eq!(journal_id, Uuid { bits: 77 }),
        _ => panic!("the path is gone"),
    }
    assert_eq!(cleanup.stage, CleanupStage::Finished);
}

#[test]
fn cleanup_asks_for_one_heal() {
    assert_eq!(StragglerCleanup::heal_priority(), HealPriority::Normal);
    let mut cleanup = StragglerCleanup::new(ctx());
    match cleanup.run_straggler_cleanup(CleanupEvent::Leg(failed(1, DiskError::FaultyDisk))) {
        CleanupAction::TriggerHeal { set_disk_id, failed } => {
            assert_eq!(set_disk_id, "pool_0_set_1");
            assert_eq!(failed, DiskError::FaultyDisk);
        }
        _ => panic!("the first leg failed"),
    }
    // Later failures are reported, but ask for no second heal.
    for (event, expected) in [
        (LegEvent::JoinFailed, Some(DiskError::Unexpected)),
        (failed(2, DiskError::DiskNotFound), Some(DiskError::DiskNotFound)),
        (done(3), None),
    ] {
        match cleanup.run_straggler_cleanup(CleanupEvent::Leg(event)) {
            CleanupAction::Wait { failed } => assert_eq!(failed, expected),
            _ => panic!("a heal was asked for already"),
        }
    }
}

#[test]
fn cleanup_leaves_the_journal_where_the_delete_fails() {
    let mut cleanup = StragglerCleanup::new(ctx());
    cleanup.run_straggler_cleanup(CleanupEvent::Drained);
    let action = cleanup.run_straggler_cleanup(CleanupEvent::TmpDeleted(Err(DiskError::FaultyDisk)));
    assert!(matches!(action, CleanupAction::Stop));
}
