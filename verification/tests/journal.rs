use rustfs_core::disk::{DeleteOptions, DiskError, Uuid};
use rustfs_core::journal::{
    delete_journal_entries, journal_files, journal_path, journal_write_result, local_disk_slots,
    read_journal_entries_from_disk, replay_and_gc, replay_result, write_journal_entries, DeferredCleanupEntry,
    JournalRead, ReplayAction, DEFERRED_CLEANUP_SUBDIR, GC_INTERVAL_SECS,
};

const ID: Uuid = Uuid { bits: 0x0123_4567_89ab_cdef_0123_4567_89ab_cdef };
const PATH: &str = ".deferred-cleanup/01234567-89ab-cdef-0123-456789abcdef";

fn entry(bits: u128, prefix: &str) -> DeferredCleanupEntry {
    DeferredCleanupEntry { id: Uuid { bits }, tmp_prefix: prefix.to_string() }
}

fn found(entries: &[DeferredCleanupEntry]) -> Vec<(u128, &str)> {
    entries.iter().map(|e| (e.id.bits, e.tmp_prefix.as_str())).collect()
}

#[test]
fn entries_have_their_own_path() {
    assert_eq!(DEFERRED_CLEANUP_SUBDIR, ".deferred-cleanup");
    assert_eq!(GC_INTERVAL_SECS, 300);
    assert_eq!(journal_path(ID), PATH);
    assert_ne!(journal_path(Uuid { bits: 1 }), journal_path(Uuid { bits: 2 }));
}

#[test]
fn entry_is_written_to_its_path() {
    let e = DeferredCleanupEntry { id: ID, tmp_prefix: "tmp".to_string() };
    assert_eq!(write_journal_entries(0, &e, Some(vec![1])).unwrap_err(), DiskError::DiskNotFound);
    assert_eq!(write_journal_entries(0, &e, None).unwrap_err(), DiskError::DiskNotFound);
    assert_eq!(write_journal_entries(2, &e, None).unwrap_err(), DiskError::Unexpected);
    let write = write_journal_entries(2, &e, Some(vec![1, 2])).unwrap();
    assert_eq!(write.path, PATH);
    assert_eq!(write.data, vec![1, 2]);
    let delete = delete_journal_entries(ID);
    assert_eq!(delete.path, PATH);
    assert!(!delete.recursive);
    assert_eq!(delete.options(), DeleteOptions::default());
}

#[test]
fn one_disk_is_enough_for_the_journal() {
    let bad = Err(DiskError::FaultyDisk);
    assert_eq!(journal_write_result(&[bad, Ok(()), bad]), Ok(()));
    assert_eq!(journal_write_result(&[bad, bad]), Err(DiskError::DiskNotFound));
    assert_eq!(journal_write_result(&[]), Err(DiskError::DiskNotFound));
}

#[test]
fn listing_names_the_files() {
    let files = journal_files(Ok(vec!["a".to_string(), "b/".to_string(), "c//".to_string()]));
    assert_eq!(files.paths, vec![".deferred-cleanup/a", ".deferred-cleanup/b", ".deferred-cleanup/c"]);
    assert!(!files.warn);
    for e in [DiskError::FileNotFound, DiskError::VolumeNotFound] {
        let none = journal_files(Err(e));
        assert!(none.paths.is_empty());
        assert!(!none.warn);
    }
    let broken = journal_files(Err(DiskError::FaultyDisk));
    assert!(broken.paths.is_empty());
    assert!(broken.warn);
}

#[test]
fn listed_name_leads_back_to_the_entry() {
    let files = journal_files(Ok(vec![format!("{}/", ID.to_text())]));
    assert_eq!(files.paths, vec![journal_path(ID)]);
}

#[test]
fn bad_files_are_passed_over() {
    let reads = vec![
        JournalRead::Corrupt,
        JournalRead::Entry(entry(1, "a")),
        JournalRead::Unreadable(DiskError::FileNotFound),
        JournalRead::Entry(entry(2, "b")),
    ];
    assert_eq!(found(&read_journal_entries_from_disk(&reads)), vec![(1, "a"), (2, "b")]);
}

#[test]
fn only_disks_of_this_node_are_scanned() {
    assert_eq!(local_disk_slots(&[Some(true), None, Some(false), Some(true)]), vec![0, 3]);
    assert_eq!(local_disk_slots(&[]), Vec::<usize>::new());
}

#[test]
fn each_identifier_is_replayed_once() {
    let disks = vec![
        vec![entry(1, "a"), entry(2, "b")],
        vec![],
        vec![entry(2, "other"), entry(3, "c"), entry(1, "a")],
    ];
    assert_eq!(found(&replay_and_gc(&disks)), vec![(1, "a"), (2, "b"), (3, "c")]);
    assert!(replay_and_gc(&vec![]).is_empty());
}

#[test]
fn entry_on_any_surviving_disk_is_replayed() {
    for survivor in 0..3usize {
        let mut disks: Vec<Vec<DeferredCleanupEntry>> = vec![vec![], vec![entry(9, "z")], vec![]];
        disks[survivor].push(entry(7, "left"));
        assert!(found(&replay_and_gc(&disks)).contains(&(7, "left")));
    }
}

#[test]
fn second_scan_finds_the_same() {
    let once = vec![vec![entry(1, "a"), entry(2, "b")]];
    let twice = vec![once[0].clone(), once[0].clone()];
    assert_eq!(found(&replay_and_gc(&once)), found(&replay_and_gc(&twice)));
}

#[test]
fn failed_replay_keeps_the_entry() {
    let e = DeferredCleanupEntry { id: ID, tmp_prefix: "tmp".to_string() };
    match replay_result(&e, &Ok(())) {
        ReplayAction::RemoveEntry(delete) => assert_eq!(delete.path, PATH),
        ReplayAction::KeepEntry => panic!("the path is gone"),
    }
    assert!(matches!(replay_result(&e, &Err(DiskError::FaultyDisk)), ReplayAction::KeepEntry));
}
