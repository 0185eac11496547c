use rustfs_core::disk::{DeleteOptions, DiskError, LegReply};
use rustfs_core::set_disks::SetDisks;
use rustfs_core::set_write::{leg_errs, quorum_result, RenamePartVerdict, WriteInfoVerdict};

fn set(drives: usize, parity: usize) -> SetDisks {
    SetDisks { set_index: 0, pool_index: 0, set_drive_count: drives, default_parity_count: parity }
}

fn replies() -> Vec<LegReply> {
    vec![
        LegReply::NoDisk,
        LegReply::Succeeded,
        LegReply::Failed(DiskError::FaultyDisk),
        LegReply::Lost(DiskError::Other(4)),
    ]
}

#[test]
fn quorums_follow_the_erasure_layout() {
    assert_eq!(set(16, 4).default_read_quorum(), 12);
    assert_eq!(set(16, 4).default_write_quorum(), 12);
    assert_eq!(set(4, 2).default_read_quorum(), 2);
    assert_eq!(set(4, 2).default_write_quorum(), 3);
    for drives in 1..20usize {
        for parity in 0..=drives / 2 {
            let s = set(drives, parity);
            assert!(s.default_write_quorum() + s.default_read_quorum() > drives);
            assert!(2 * s.default_write_quorum() > drives);
        }
    }
}

#[test]
fn disks_without_an_error_stay_online() {
    let disks = vec![Some('a'), Some('b'), None];
    assert_eq!(
        SetDisks::eval_disks(&disks, &[None, Some(DiskError::FaultyDisk), None]),
        vec![Some('a'), None, None]
    );
    assert_eq!(SetDisks::eval_disks(&disks, &[None, None]), Vec::<Option<char>>::new());
}

#[test]
fn every_leg_has_its_outcome() {
    assert_eq!(
        leg_errs(&replies()),
        vec![Some(DiskError::DiskNotFound), None, Some(DiskError::FaultyDisk), Some(DiskError::Other(4))]
    );
    assert_eq!(
        SetDisks::commit_rename_data_dir(&replies()),
        vec![Some(DiskError::DiskNotFound), None, Some(DiskError::FaultyDisk), Some(DiskError::Unexpected)]
    );
    assert_eq!(
        SetDisks::delete_prefix(&replies()),
        vec![None, None, Some(DiskError::FaultyDisk), Some(DiskError::Other(4))]
    );
    assert_eq!(quorum_result(None), Ok(()));
    assert_eq!(quorum_result(Some(DiskError::ErasureWriteQuorum)), Err(DiskError::ErasureWriteQuorum));
}

#[test]
fn multipart_cleanup_warns_of_a_failure() {
    let (errs, warn) = SetDisks::cleanup_multipart_path(&replies());
    assert_eq!(errs.len(), 4);
    assert!(warn);
    let (errs, warn) = SetDisks::cleanup_multipart_path(&[LegReply::Succeeded, LegReply::Succeeded]);
    assert_eq!(errs, vec![None, None]);
    assert!(!warn);
}

#[test]
fn lost_part_rename_ends_the_operation() {
    assert_eq!(SetDisks::rename_part_errs(&replies()), Err(DiskError::Other(4)));
    assert_eq!(
        SetDisks::rename_part_errs(&replies()[..3]),
        Ok(vec![Some(DiskError::DiskNotFound), None, Some(DiskError::FaultyDisk)])
    );
}

#[test]
fn missed_part_quorum_deletes_part_and_metadata() {
    let disks = vec![Some(1), Some(2)];
    let errs = vec![None, Some(DiskError::FaultyDisk)];
    match SetDisks::rename_part(&disks, &errs, "up/part.1", Some(DiskError::ErasureWriteQuorum)) {
        RenamePartVerdict::CleanUp { paths, err } => {
            assert_eq!(paths, vec!["up/part.1".to_string(), "up/part.1.meta".to_string()]);
            assert_eq!(err, DiskError::ErasureWriteQuorum);
        }
        RenamePartVerdict::Renamed(_) => panic!("the quorum was missed"),
    }
    match SetDisks::rename_part(&disks, &errs, "up/part.1", None) {
        RenamePartVerdict::Renamed(left) => assert_eq!(left, vec![Some(1), None]),
        RenamePartVerdict::CleanUp { .. } => panic!("the quorum was reached"),
    }
}

#[test]
fn missed_metadata_quorum_is_reverted_where_it_was_written() {
    let disks = vec![Some(1), None, Some(3), Some(4)];
    let errs = vec![None, None, Some(DiskError::FaultyDisk), None];
    match SetDisks::write_unique_file_info(&disks, &errs, Some(DiskError::ErasureWriteQuorum)) {
        WriteInfoVerdict::Revert { slots, err } => {
            assert_eq!(slots, vec![0, 3]);
            assert_eq!(err, DiskError::ErasureWriteQuorum);
        }
        WriteInfoVerdict::Written => panic!("the quorum was missed"),
    }
    assert!(matches!(SetDisks::write_unique_file_info(&disks, &errs, None), WriteInfoVerdict::Written));
    assert_eq!(SetDisks::write_unique_file_info_index(0), 1);
}

#[test]
fn empty_metadata_update_does_nothing() {
    assert!(!SetDisks::update_object_meta(true));
    assert!(SetDisks::update_object_meta(false));
    assert!(SetDisks::update_object_meta_with_opts(true, true));
    assert!(!SetDisks::update_object_meta_with_opts(true, false));
}

#[test]
fn deletes_take_everything_below_along() {
    let plain = DeleteOptions::default();
    assert!(!plain.recursive && !plain.immediate && !plain.undo_write && plain.old_data_dir.is_none());
    let recursive = DeleteOptions { recursive: true, ..plain };
    assert_eq!(SetDisks::commit_rename_data_dir_options(), recursive);
    assert_eq!(SetDisks::write_unique_file_info_revert_options(), recursive);
    assert_eq!(SetDisks::delete_prefix_options(), DeleteOptions { immediate: true, ..recursive });
}

#[test]
fn paths_and_prefix_quorum() {
    assert_eq!(SetDisks::commit_rename_data_dir_path("obj", "dir"), "obj/dir");
    assert_eq!(SetDisks::delete_prefix_quorum(4), 3);
    assert_eq!(SetDisks::delete_prefix_quorum(5), 3);
    assert_eq!(SetDisks::delete_prefix_quorum(0), 1);
    for n in 0..20usize {
        assert!(2 * SetDisks::delete_prefix_quorum(n) > n);
    }
}
