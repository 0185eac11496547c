use rand::seq::SliceRandom;
use rustfs_core::disk::{DiskError, RenameDataResp, Uuid};
use rustfs_core::rename::{
    errs_for_partial_eval, final_errs, quorum_old_data_dir_among_successes, rename_data_early_ready, BarrierStep,
    FullRename, FullRenameStep, LegEvent, RenameRun, RenameVerdict, UndoTarget,
};
use rustfs_core::set_disks::SetDisks;

type DiskRenameResult = Result<RenameDataResp, DiskError>;
type Slots = (Vec<Option<DiskError>>, Vec<Option<Uuid>>, Vec<Option<Vec<u8>>>);

fn merge_events_in_application_order(events: &[DiskRenameResult], application_perm: &[usize]) -> Slots {
    let n = events.len();
    let mut data_dirs = vec![None; n];
    let mut disk_versions = vec![None; n];
    let mut slot_errs: Vec<Option<Option<DiskError>>> = vec![None; n];

    for &disk_idx in application_perm {
        SetDisks::rename_data_record_disk_outcome(
            disk_idx,
            events[disk_idx].clone(),
            &mut data_dirs,
            &mut disk_versions,
            &mut slot_errs,
        );
    }

    let errs = slot_errs
        .into_iter()
        .map(|s| s.expect("each disk slot must be recorded exactly once"))
        .collect::<Vec<_>>();

    (errs, data_dirs, disk_versions)
}

fn next_permutation(p: &mut [usize]) -> bool {
    let n = p.len();
    if n < 2 {
        return false;
    }
    let mut i = n - 1;
    while i > 0 && p[i - 1] >= p[i] {
        i -= 1;
    }
    if i == 0 {
        return false;
    }
    let mut j = n - 1;
    while p[j] <= p[i - 1] {
        j -= 1;
    }
    p.swap(i - 1, j);
    p[i..].reverse();
    true
}

fn for_each_permutation(n: usize, mut f: impl FnMut(Vec<usize>)) {
    let mut p: Vec<usize> = (0..n).collect();
    loop {
        f(p.clone());
        if !next_permutation(&mut p) {
            break;
        }
    }
}

fn quorum_summary(
    errs: &[Option<DiskError>],
    data_dirs: &[Option<Uuid>],
    write_quorum: usize,
) -> (bool, Option<Option<Uuid>>) {
    let slots: Vec<Option<Option<DiskError>>> = errs.iter().map(|e| Some(*e)).collect();
    let ready = rename_data_early_ready(&slots, data_dirs, write_quorum, errs.len());
    let data_dir = quorum_old_data_dir_among_successes(data_dirs, &slots, write_quorum);
    (ready, data_dir)
}

fn ok(dir: Option<u128>) -> DiskRenameResult {
    Ok(RenameDataResp { old_data_dir: dir.map(|bits| Uuid { bits }), sign: None })
}

#[test]
fn rename_data_merge_order_independent_small_n() {
    let u = Uuid::nil();
    let cases: Vec<Vec<DiskRenameResult>> = vec![
        vec![
            Ok(RenameDataResp { old_data_dir: Some(u), sign: None }),
            Err(DiskError::DiskNotFound),
            Ok(RenameDataResp { old_data_dir: Some(u), sign: Some(vec![1]) }),
            Err(DiskError::FileCorrupt),
        ],
        vec![
            Ok(RenameDataResp::default()),
            Ok(RenameDataResp::default()),
            Err(DiskError::FaultyDisk),
            Err(DiskError::FaultyDisk),
            Ok(RenameDataResp { old_data_dir: Some(u), sign: None }),
        ],
    ];

    for events in cases {
        let n = events.len();
        let expected = merge_events_in_application_order(&events, &(0..n).collect::<Vec<_>>());

        for_each_permutation(n, |perm| {
            let got = merge_events_in_application_order(&events, &perm);
            assert_eq!(got.0, expected.0, "errs mismatch for perm={perm:?}");
            assert_eq!(got.1, expected.1, "data_dirs mismatch for perm={perm:?}");
            assert_eq!(got.2, expected.2, "disk_versions mismatch for perm={perm:?}");
        });
    }
}

#[test]
fn rename_data_quorum_summary_order_independent() {
    let u = Uuid::nil();
    let events: Vec<DiskRenameResult> = vec![
        Ok(RenameDataResp { old_data_dir: Some(u), sign: None }),
        Ok(RenameDataResp { old_data_dir: Some(u), sign: None }),
        Err(DiskError::DiskNotFound),
        Ok(RenameDataResp { old_data_dir: Some(u), sign: None }),
        Err(DiskError::FileCorrupt),
        Ok(RenameDataResp { old_data_dir: Some(u), sign: None }),
        Ok(RenameDataResp { old_data_dir: Some(u), sign: None }),
        Err(DiskError::DiskNotFound),
        Err(DiskError::DiskNotFound),
    ];
    let write_quorum = 4usize;
    let n = events.len();

    let baseline = merge_events_in_application_order(&events, &(0..n).collect::<Vec<_>>());
    let expected_summary = quorum_summary(&baseline.0, &baseline.1, write_quorum);
    assert_eq!(expected_summary, (true, Some(Some(u))));

    let mut rng = rand::rng();
    for _ in 0..300 {
        let mut perm: Vec<usize> = (0..n).collect();
        perm.shuffle(&mut rng);
        let got = merge_events_in_application_order(&events, &perm);
        assert_eq!(quorum_summary(&got.0, &got.1, write_quorum), expected_summary, "perm={perm:?}");
    }
}

#[test]
fn agreed_data_dir_is_the_only_one_that_reaches_the_quorum() {
    let a = Some(Uuid { bits: 1 });
    let b = Some(Uuid { bits: 2 });
    let good = Some(None);
    let dirs = vec![a, a, b, None];
    // Two for the first, one for the second; the failed slot does not count.
    let slots = vec![good, good, good, Some(Some(DiskError::FaultyDisk))];
    assert_eq!(quorum_old_data_dir_among_successes(&dirs, &slots, 2), Some(a));
    assert_eq!(quorum_old_data_dir_among_successes(&dirs, &slots, 3), None);
    // A tie gives none, and so do two of which both reach the quorum.
    let tied = vec![good, None, good, None];
    assert_eq!(quorum_old_data_dir_among_successes(&dirs, &tied, 1), None);
    assert_eq!(quorum_old_data_dir_among_successes(&dirs, &slots, 1), None);
    // No success gives none, even without a quorum to reach.
    assert_eq!(quorum_old_data_dir_among_successes(&dirs, &[None, None, None, None], 0), None);
    assert_eq!(quorum_old_data_dir_among_successes(&dirs, &[good, good, None, None], 0), Some(a));
    // An object that was not there before is agreed on too.
    let fresh = vec![None, None, None];
    assert_eq!(quorum_old_data_dir_among_successes(&fresh, &[good, good, None], 2), Some(None));
}

#[test]
fn two_data_dirs_that_reach_the_quorum_are_no_agreement() {
    let u = Uuid::nil();
    let dirs = vec![Some(u), Some(u), Some(u), None, None];
    let slots = vec![Some(None); 5];
    assert_eq!(quorum_old_data_dir_among_successes(&dirs, &slots, 2), None);
    assert!(!rename_data_early_ready(&slots, &dirs, 2, 5));
    assert_eq!(quorum_old_data_dir_among_successes(&dirs, &slots, 3), Some(Some(u)));
    assert!(rename_data_early_ready(&slots, &dirs, 3, 5));
}

#[test]
fn early_answer_needs_more_successes_than_pending_legs() {
    let dirs = vec![None; 4];
    let good = Some(None);
    assert!(!rename_data_early_ready(&[good, good, None, None], &dirs, 2, 4));
    assert!(rename_data_early_ready(&[good, good, good, None], &dirs, 3, 4));
    assert!(!rename_data_early_ready(&[good, good, Some(Some(DiskError::FaultyDisk)), None], &dirs, 3, 4));
    assert!(rename_data_early_ready(&[good, good, Some(Some(DiskError::FaultyDisk)), None], &dirs, 2, 4));
}

#[test]
fn pending_slots_count_as_offline() {
    let slots = vec![None, Some(None), Some(Some(DiskError::FaultyDisk))];
    assert_eq!(
        errs_for_partial_eval(&slots),
        Ok(vec![Some(DiskError::DiskNotFound), None, Some(DiskError::FaultyDisk)])
    );
    assert_eq!(final_errs(&slots), Err(DiskError::Unexpected));
    assert_eq!(final_errs(&slots[1..]), Ok(vec![None, Some(DiskError::FaultyDisk)]));
}

#[test]
fn legs_are_checked_before_the_disk_is_asked() {
    assert_eq!(SetDisks::rename_data_leg_check(true, true), Ok(()));
    assert_eq!(SetDisks::rename_data_leg_check(false, true), Err(DiskError::FileCorrupt));
    assert_eq!(SetDisks::rename_data_leg_check(false, false), Err(DiskError::FileCorrupt));
    assert_eq!(SetDisks::rename_data_leg_check(true, false), Err(DiskError::DiskNotFound));
    assert_eq!(SetDisks::rename_data_leg_index(3, 0), 4);
    assert_eq!(SetDisks::rename_data_leg_index(3, 9), 9);
    assert_eq!(SetDisks::rename_data_leg_count(4, 6), 4);
    assert_eq!(SetDisks::rename_data_leg_count(6, 4), 4);
}

#[test]
fn full_rename_collects_every_leg() {
    let mut full = FullRename::new(3, 2);
    for (i, answer) in [(2usize, ok(Some(7))), (0, Err(DiskError::FaultyDisk)), (1, ok(None))] {
        assert!(matches!(full.next_step(), FullRenameStep::Wait));
        assert_eq!(SetDisks::rename_data(&mut full, Some(LegEvent::Done(i, answer))), Ok(()));
    }
    match full.next_step() {
        FullRenameStep::Settle(errs) => assert_eq!(errs, vec![Some(DiskError::FaultyDisk), None, None]),
        _ => panic!("all legs have answered"),
    }
    assert_eq!(full.run.data_dirs, vec![None, None, Some(Uuid { bits: 7 })]);
}

#[test]
fn full_rename_waits_for_all_legs_after_a_lost_one() {
    for lost_at in 0..3usize {
        for joined in [true, false] {
            let mut full = FullRename::new(3, 2);
            for i in 0..3usize {
                assert!(matches!(full.next_step(), FullRenameStep::Wait));
                let event = match (i == lost_at, joined) {
                    (false, _) => LegEvent::Done(i, ok(None)),
                    (true, true) => LegEvent::TaskFailed(DiskError::Other(9)),
                    (true, false) => LegEvent::JoinFailed,
                };
                assert_eq!(SetDisks::rename_data(&mut full, Some(event)), Ok(()));
                assert_eq!(full.taken, i + 1);
            }
            assert!(full.lost_leg);
            assert!(matches!(full.next_step(), FullRenameStep::Failed(DiskError::Unexpected)));
        }
    }
}

#[test]
fn full_rename_fails_where_no_leg_is_left() {
    let mut full = FullRename::new(3, 2);
    assert_eq!(SetDisks::rename_data(&mut full, None), Err(DiskError::Unexpected));
    assert_eq!(full.run.slot_errs, vec![None, None, None]);
    assert_eq!(full.taken, 0);
    assert!(!full.lost_leg);
}

#[test]
fn slot_that_never_answered_fails_the_rename() {
    let mut full = FullRename::new(2, 2);
    for _ in 0..2 {
        assert_eq!(SetDisks::rename_data(&mut full, Some(LegEvent::Done(0, ok(None)))), Ok(()));
    }
    assert!(matches!(full.next_step(), FullRenameStep::Failed(DiskError::Unexpected)));
    // Without disks there is nothing to wait for.
    match FullRename::new(0, 1).next_step() {
        FullRenameStep::Settle(errs) => assert!(errs.is_empty()),
        _ => panic!("no leg is missing"),
    }
}

#[test]
fn barrier_rename_ends_early() {
    let disks = vec![Some("a"), Some("b"), Some("c"), Some("d")];
    let mut run = RenameRun::new(4, 3);
    for i in [3usize, 1] {
        let step = SetDisks::rename_data_with_barrier(&mut run, &disks, Some(LegEvent::Done(i, ok(Some(5)))));
        assert!(matches!(step, BarrierStep::Wait));
    }
    let step = SetDisks::rename_data_with_barrier(&mut run, &disks, Some(LegEvent::Done(0, ok(Some(5)))));
    match step {
        BarrierStep::EarlyOk(out) => {
            assert_eq!(out.disks, vec![Some("a"), Some("b"), None, Some("d")]);
            assert_eq!(out.data_dir, Some(Uuid { bits: 5 }));
            assert!(out.versions.is_none());
        }
        _ => panic!("three of four disks agree"),
    }
}

#[test]
fn barrier_rename_waits_for_agreement() {
    let disks = vec![Some(0), Some(1), Some(2), Some(3)];
    let mut run = RenameRun::new(4, 3);
    for (i, dir) in [(0usize, 1u128), (1, 2), (2, 1), (3, 2)] {
        let step = SetDisks::rename_data_with_barrier(&mut run, &disks, Some(LegEvent::Done(i, ok(Some(dir)))));
        assert!(matches!(step, BarrierStep::Wait));
    }
    assert!(matches!(SetDisks::rename_data_with_barrier(&mut run, &disks, None), BarrierStep::Drained));
    let lost = SetDisks::rename_data_with_barrier(&mut run, &disks, Some(LegEvent::JoinFailed));
    assert!(matches!(lost, BarrierStep::Failed(DiskError::Unexpected)));
    let failed =
        SetDisks::rename_data_with_barrier(&mut run, &disks, Some(LegEvent::TaskFailed(DiskError::FaultyDisk)));
    assert!(matches!(failed, BarrierStep::Failed(DiskError::FaultyDisk)));
}

#[test]
fn missed_quorum_is_taken_back_where_it_was_written() {
    let dir = Some(Uuid { bits: 3 });
    let disks = vec![Some(0), None, Some(2), Some(3)];
    let errs = vec![None, None, Some(DiskError::FaultyDisk), None];
    let dirs = vec![dir, dir, None, None];
    match SetDisks::rename_data_settle(&disks, &errs, &dirs, Some(DiskError::ErasureWriteQuorum), None) {
        RenameVerdict::Undo { targets, err } => {
            assert_eq!(err, DiskError::ErasureWriteQuorum);
            let how = targets[0].undo_delete();
            assert!(how.opts.undo_write);
            assert_eq!(how.opts.old_data_dir, dir);
            assert!(!how.opts.recursive && !how.opts.immediate && !how.force);
            assert_eq!(targets[1].undo_delete().opts.old_data_dir, None);
            assert_eq!(
                targets,
                vec![UndoTarget { index: 0, old_data_dir: dir }, UndoTarget { index: 3, old_data_dir: None }]
            );
        }
        RenameVerdict::Committed(_) => panic!("the quorum was missed"),
    }
    match SetDisks::rename_data_settle(&disks, &errs, &dirs, None, dir) {
        RenameVerdict::Committed(out) => {
            assert_eq!(out.disks, vec![Some(0), None, None, Some(3)]);
            assert_eq!(out.data_dir, dir);
            assert!(out.versions.is_none());
        }
        RenameVerdict::Undo { .. } => panic!("the quorum was reached"),
    }
}
