//! The crash-safe journal of deferred cleanups.
//!
//! Before a rename is answered early, an entry that names the temporary path is
//! written to every local disk. The entry goes away once the path is deleted.
//! What a crash leaves behind is found again by scanning the local disks, and
//! the delete is replayed.

use std::collections::HashSet;
use vstd::prelude::*;

use crate::disk::{DeleteOptions, DiskError, Uuid};
use crate::text::{joined, trimmed_end};

verus! {

/// The directory in the temporary area that holds the journal.
pub const DEFERRED_CLEANUP_SUBDIR: &'static str = ".deferred-cleanup";

/// How many seconds pass between two scans for entries that were left behind.
pub const GC_INTERVAL_SECS: u64 = 300;

/// One journal record.
#[derive(Debug)]
pub struct DeferredCleanupEntry {
    /// The entry's own name in the journal.
    pub id: Uuid,
    /// The path in the temporary area that has to be deleted.
    pub tmp_prefix: String,
}

impl Clone for DeferredCleanupEntry {
    fn clone(&self) -> (r: DeferredCleanupEntry)
        ensures
            r == *self,
    {
        DeferredCleanupEntry { id: self.id, tmp_prefix: self.tmp_prefix.clone() }
    }
}

/// A file to write on every local disk.
#[derive(Debug)]
pub struct JournalWrite {
    pub path: String,
    pub data: Vec<u8>,
}

/// A file to delete on every local disk.
#[derive(Debug)]
pub struct JournalDelete {
    pub path: String,
    pub recursive: bool,
}

impl JournalDelete {
    /// How each disk deletes the file.
    pub fn options(&self) -> (r: DeleteOptions)
        ensures
            r == (DeleteOptions {
                recursive: self.recursive,
                immediate: false,
                undo_write: false,
                old_data_dir: None,
            }),
    {
        DeleteOptions {
            recursive: self.recursive,
            immediate: false,
            undo_write: false,
            old_data_dir: None,
        }
    }
}

/// The journal files of one disk, and whether the listing failed in a way that
/// is worth a warning.
#[derive(Debug)]
pub struct JournalListing {
    pub paths: Vec<String>,
    pub warn: bool,
}

/// What came of reading one journal file.
#[derive(Debug)]
pub enum JournalRead {
    /// The file holds this entry.
    Entry(DeferredCleanupEntry),
    /// The file does not hold an entry.
    Corrupt,
    /// The file could not be read.
    Unreadable(DiskError),
}

/// What follows after one replayed delete.
#[derive(Debug)]
pub enum ReplayAction {
    /// The path is gone: remove the entry from every local disk.
    RemoveEntry(JournalDelete),
    /// The delete failed: leave the entry for the next scan.
    KeepEntry,
}

/// The path of a journal entry.
pub open spec fn journal_path_of(id: Uuid) -> Seq<char> {
    DEFERRED_CLEANUP_SUBDIR@.push('/') + crate::uuids::hyphenated(id.bits)
}

/// The path of a journal file that a listing names.
pub open spec fn listed_path(name: Seq<char>) -> Seq<char> {
    DEFERRED_CLEANUP_SUBDIR@.push('/') + crate::text::trim_end(name, '/')
}

/// The entries that a disk's files hold, in the order of the files.
pub open spec fn valid_entries(reads: Seq<JournalRead>) -> Seq<DeferredCleanupEntry>
    decreases reads.len(),
{
    if reads.len() == 0 {
        Seq::empty()
    } else {
        match reads.last() {
            JournalRead::Entry(e) => valid_entries(reads.drop_last()).push(e),
            _ => valid_entries(reads.drop_last()),
        }
    }
}

/// The entries of all disks, one disk after the other.
pub open spec fn all_entries(per_disk: Seq<Vec<DeferredCleanupEntry>>) -> Seq<
    DeferredCleanupEntry,
>
    decreases per_disk.len(),
{
    if per_disk.len() == 0 {
        Seq::empty()
    } else {
        all_entries(per_disk.drop_last()) + per_disk.last()@
    }
}

/// Whether an entry with this identifier is among `entries`.
pub open spec fn has_id(entries: Seq<DeferredCleanupEntry>, id: Uuid) -> bool {
    exists|i: int| 0 <= i < entries.len() && (#[trigger] entries[i]).id == id
}

/// `entries` without those whose identifier occurred before.
pub open spec fn first_of_each_id(entries: Seq<DeferredCleanupEntry>) -> Seq<DeferredCleanupEntry>
    decreases entries.len(),
{
    if entries.len() == 0 {
        Seq::empty()
    } else {
        let before = entries.drop_last();
        if has_id(before, entries.last().id) {
            first_of_each_id(before)
        } else {
            first_of_each_id(before).push(entries.last())
        }
    }
}

/// The path of a journal entry.
pub fn journal_path(id: Uuid) -> (r: String)
    ensures
        r@ == journal_path_of(id),
{
    joined(DEFERRED_CLEANUP_SUBDIR, '/', id.to_text().as_str())
}

/// What to write to every local disk before an early answer. `serialized` is
/// the entry in its stored form, where that could be made.
pub fn write_journal_entries(
    local_disks: usize,
    entry: &DeferredCleanupEntry,
    serialized: Option<Vec<u8>>,
) -> (r: Result<JournalWrite, DiskError>)
    ensures
        if local_disks == 0 {
            r == Err::<JournalWrite, DiskError>(DiskError::DiskNotFound)
        } else {
            match serialized {
                None => r == Err::<JournalWrite, DiskError>(DiskError::Unexpected),
                Some(data) => r matches Ok(write) && write.path@ == journal_path_of(entry.id)
                    && write.data == data,
            }
        },
{
    if local_disks == 0 {
        return Err(DiskError::DiskNotFound);
    }
    match serialized {
        Some(data) => Ok(JournalWrite { path: journal_path(entry.id), data }),
        None => Err(DiskError::Unexpected),
    }
}

/// Whether the journal covers a crash: at least one disk took the entry.
pub fn journal_write_result(results: &[Result<(), DiskError>]) -> (r: Result<(), DiskError>)
    ensures
        r is Ok <==> exists|i: int| 0 <= i < results@.len() && #[trigger] results@[i] is Ok,
        r is Err ==> r == Err::<(), DiskError>(DiskError::DiskNotFound),
{
    let mut i: usize = 0;
    while i < results.len()
        invariant
            i <= results@.len(),
            forall|j: int| 0 <= j < i ==> #[trigger] results@[j] is Err,
        decreases results@.len() - i,
    {
        if results[i].is_ok() {
            assert(results@[i as int] is Ok);
            return Ok(());
        }
        i = i + 1;
    }
    Err(DiskError::DiskNotFound)
}

/// What to delete on every local disk once a cleanup is complete.
pub fn delete_journal_entries(id: Uuid) -> (r: JournalDelete)
    ensures
        r.path@ == journal_path_of(id),
        !r.recursive,
{
    JournalDelete { path: journal_path(id), recursive: false }
}

/// The journal files to read on one disk. A disk without a journal has none,
/// and neither has one whose listing fails.
pub fn journal_files(listing: Result<Vec<String>, DiskError>) -> (r: JournalListing)
    ensures
        match listing {
            Ok(names) => {
                &&& !r.warn
                &&& r.paths@.len() == names@.len()
                &&& forall|i: int|
                    0 <= i < names@.len() ==> (#[trigger] r.paths@[i])@ == listed_path(names@[i]@)
            },
            Err(e) => {
                &&& r.paths@.len() == 0
                &&& r.warn == (e != DiskError::FileNotFound && e != DiskError::VolumeNotFound)
            },
        },
{
    let mut paths: Vec<String> = Vec::new();
    match listing {
        Ok(names) => {
            let mut i: usize = 0;
            while i < names.len()
                invariant
                    i <= names@.len(),
                    paths@.len() == i,
                    forall|j: int|
                        0 <= j < i ==> (#[trigger] paths@[j])@ == listed_path(names@[j]@),
                decreases names@.len() - i,
            {
                let name: String = trimmed_end(names[i].as_str(), '/');
                paths.push(joined(DEFERRED_CLEANUP_SUBDIR, '/', name.as_str()));
                i = i + 1;
            }
            JournalListing { paths, warn: false }
        },
        Err(e) => JournalListing {
            paths,
            warn: e != DiskError::FileNotFound && e != DiskError::VolumeNotFound,
        },
    }
}

/// The entries of one disk. Files that hold no entry or cannot be read are
/// passed over.
pub fn read_journal_entries_from_disk(reads: &Vec<JournalRead>) -> (r: Vec<DeferredCleanupEntry>)
    ensures
        r@ == valid_entries(reads@),
        forall|e: DeferredCleanupEntry| #[trigger]
            r@.contains(e) <==> exists|i: int|
                0 <= i < reads@.len() && #[trigger] reads@[i] == JournalRead::Entry(e),
        r@.len() == Set::new(|i: int| 0 <= i < reads@.len() && reads@[i] is Entry).len(),
{
    proof {
        law_every_valid_file_is_handed_on(reads@, 0);
    }
    let mut entries: Vec<DeferredCleanupEntry> = Vec::new();
    let mut i: usize = 0;
    assert(reads@.take(0) =~= Seq::empty());
    while i < reads.len()
        invariant
            i <= reads@.len(),
            entries@ == valid_entries(reads@.take(i as int)),
        decreases reads@.len() - i,
    {
        assert(reads@.take(i + 1).drop_last() =~= reads@.take(i as int));
        match &reads[i] {
            JournalRead::Entry(entry) => {
                entries.push(entry.clone());
            },
            _ => {},
        }
        i = i + 1;
    }
    assert(reads@.take(reads@.len() as int) =~= reads@);
    entries
}

/// The slots that hold a disk of this node. A slot is `None` where it is empty,
/// and else says whether its disk is local.
pub fn local_disk_slots(slots: &[Option<bool>]) -> (r: Vec<usize>)
    ensures
        forall|i: int, j: int| 0 <= i < j < r@.len() ==> r@[i] < r@[j],
        forall|s: usize|
            #[trigger] r@.contains(s) <==> s < slots@.len() && slots@[s as int] == Some(true),
{
    let mut local: Vec<usize> = Vec::new();
    let mut i: usize = 0;
    while i < slots.len()
        invariant
            i <= slots@.len(),
            forall|a: int, b: int| 0 <= a < b < local@.len() ==> local@[a] < local@[b],
            forall|a: int| 0 <= a < local@.len() ==> #[trigger] local@[a] < i,
            forall|s: usize|
                #[trigger] local@.contains(s) <==> s < i && slots@[s as int] == Some(true),
        decreases slots@.len() - i,
    {
        let ghost before = local@;
        match slots[i] {
            Some(true) => {
                local.push(i);
                assert(local@[local@.len() - 1] == i);
                assert forall|s: usize|
                    #[trigger] local@.contains(s) <==> s < i + 1 && slots@[s as int] == Some(
                        true,
                    ) by {
                    if before.contains(s) {
                        let k = choose|k: int| 0 <= k < before.len() && before[k] == s;
                        assert(local@[k] == s);
                    }
                    if local@.contains(s) && s != i {
                        let k = choose|k: int| 0 <= k < local@.len() && local@[k] == s;
                        assert(before[k] == s);
                    }
                }
            },
            _ => {},
        }
        i = i + 1;
    }
    local
}

/// The deletes to replay: every entry that any local disk holds, each
/// identifier once.
pub fn replay_and_gc(per_disk: &Vec<Vec<DeferredCleanupEntry>>) -> (r: Vec<DeferredCleanupEntry>)
    ensures
        r@ == first_of_each_id(all_entries(per_disk@)),
{
    broadcast use vstd::std_specs::hash::group_hash_axioms;

    let mut seen: HashSet<u128> = HashSet::new();
    let mut to_clean: Vec<DeferredCleanupEntry> = Vec::new();
    let ghost mut done: Seq<DeferredCleanupEntry> = Seq::empty();
    let mut d: usize = 0;
    assert(per_disk@.take(0) =~= Seq::empty());
    while d < per_disk.len()
        invariant
            d <= per_disk@.len(),
            done == all_entries(per_disk@.take(d as int)),
            to_clean@ == first_of_each_id(done),
            forall|bits: u128| #[trigger]
                seen@.contains(bits) <==> has_id(done, (Uuid { bits })),
        decreases per_disk@.len() - d,
    {
        let entries: &Vec<DeferredCleanupEntry> = &per_disk[d];
        let ghost before = done;
        let mut i: usize = 0;
        assert(entries@.take(0) =~= Seq::empty());
        assert(before + entries@.take(0) =~= before);
        while i < entries.len()
            invariant
                i <= entries@.len(),
                done == before + entries@.take(i as int),
                to_clean@ == first_of_each_id(done),
                forall|bits: u128| #[trigger]
                    seen@.contains(bits) <==> has_id(done, (Uuid { bits })),
            decreases entries@.len() - i,
        {
            let entry: &DeferredCleanupEntry = &entries[i];
            let ghost next = done.push(*entry);
            assert(next.drop_last() =~= done);
            assert(next =~= before + entries@.take(i + 1));
            let fresh: bool = seen.insert(entry.id.bits);
            if fresh {
                to_clean.push(entry.clone());
            }
            proof {
                assert(Uuid { bits: entry.id.bits } == entry.id);
                assert forall|bits: u128| #[trigger]
                    seen@.contains(bits) <==> has_id(next, (Uuid { bits })) by {
                    if has_id(done, (Uuid { bits })) {
                        let k = choose|k: int|
                            0 <= k < done.len() && (#[trigger] done[k]).id == (Uuid { bits });
                        assert(next[k] == done[k]);
                    }
                    if has_id(next, (Uuid { bits })) && bits != entry.id.bits {
                        let k = choose|k: int|
                            0 <= k < next.len() && (#[trigger] next[k]).id == (Uuid { bits });
                        assert(done[k] == next[k]);
                    }
                    assert(next[next.len() - 1] == *entry);
                }
                done = next;
            }
            i = i + 1;
        }
        assert(entries@.take(entries@.len() as int) =~= entries@);
        assert(per_disk@.take(d + 1).drop_last() =~= per_disk@.take(d as int));
        d = d + 1;
    }
    assert(per_disk@.take(per_disk@.len() as int) =~= per_disk@);
    to_clean
}

/// What follows after the delete of one entry was replayed.
pub fn replay_result(entry: &DeferredCleanupEntry, deleted: &Result<(), DiskError>) -> (r:
    ReplayAction)
    ensures
        match deleted {
            Ok(_) => r matches ReplayAction::RemoveEntry(delete) && delete.path@
                == journal_path_of(entry.id) && !delete.recursive,
            Err(_) => r is KeepEntry,
        },
{
    match deleted {
        Ok(_) => ReplayAction::RemoveEntry(delete_journal_entries(entry.id)),
        Err(_) => ReplayAction::KeepEntry,
    }
}

/// A replay names no identifier twice, names every identifier that a disk
/// holds, and deletes nothing that no entry asks for.
pub proof fn law_each_id_replayed_once(entries: Seq<DeferredCleanupEntry>)
    ensures
        forall|i: int, j: int|
            0 <= i < j < first_of_each_id(entries).len() ==> (#[trigger] first_of_each_id(
                entries,
            )[i]).id != (#[trigger] first_of_each_id(entries)[j]).id,
        forall|id: Uuid| #[trigger]
            has_id(first_of_each_id(entries), id) <==> has_id(entries, id),
        forall|i: int|
            0 <= i < first_of_each_id(entries).len() ==> entries.contains(
                #[trigger] first_of_each_id(entries)[i],
            ),
    decreases entries.len(),
{
    if entries.len() > 0 {
        let before = entries.drop_last();
        let last = entries.last();
        let kept = first_of_each_id(before);
        let all = first_of_each_id(entries);
        law_each_id_replayed_once(before);
        assert(forall|e: DeferredCleanupEntry| before.contains(e) ==> entries.contains(e));
        assert(entries[entries.len() - 1] == last);
        assert forall|id: Uuid| has_id(before, id) implies has_id(entries, id) by {
            let k = choose|k: int| 0 <= k < before.len() && (#[trigger] before[k]).id == id;
            assert(entries[k] == before[k]);
        }
        assert forall|id: Uuid| has_id(entries, id) implies has_id(before, id) || id == last.id by {
            let k = choose|k: int| 0 <= k < entries.len() && (#[trigger] entries[k]).id == id;
            if k < before.len() {
                assert(before[k] == entries[k]);
            }
        }
        if !has_id(before, last.id) {
            assert(all == kept.push(last));
            assert forall|i: int| 0 <= i < kept.len() implies (#[trigger] kept[i]).id
                != last.id by {
                if kept[i].id == last.id {
                    assert(has_id(kept, last.id));
                }
            }
            assert forall|i: int, j: int| 0 <= i < j < all.len() implies (#[trigger] all[i]).id
                != (#[trigger] all[j]).id by {
                assert(all[i] == kept[i]);
                if j < kept.len() {
                    assert(all[j] == kept[j]);
                }
            }
            assert forall|id: Uuid| has_id(kept, id) implies has_id(all, id) by {
                let k = choose|k: int| 0 <= k < kept.len() && (#[trigger] kept[k]).id == id;
                assert(all[k] == kept[k]);
            }
            assert(all[kept.len() as int] == last);
            assert forall|id: Uuid| has_id(all, id) implies has_id(entries, id) by {
                let k = choose|k: int| 0 <= k < all.len() && (#[trigger] all[k]).id == id;
                if k < kept.len() {
                    assert(kept[k] == all[k]);
                    assert(has_id(kept, id));
                }
            }
        }
    }
}

/// Crash safety: an entry that is left on any one local disk is replayed, and
/// so is its delete where the copies of the entry agree.
pub proof fn law_surviving_entry_is_replayed(
    per_disk: Seq<Vec<DeferredCleanupEntry>>,
    disk: int,
    entry: DeferredCleanupEntry,
)
    requires
        0 <= disk < per_disk.len(),
        per_disk[disk]@.contains(entry),
    ensures
        has_id(first_of_each_id(all_entries(per_disk)), entry.id),
        (forall|d: int, e: DeferredCleanupEntry|
            0 <= d < per_disk.len() && #[trigger] per_disk[d]@.contains(e) && e.id == entry.id
                ==> e == entry) ==> first_of_each_id(all_entries(per_disk)).contains(entry),
{
    let all = all_entries(per_disk);
    let kept = first_of_each_id(all);
    lemma_all_entries(per_disk);
    law_each_id_replayed_once(all);
    assert(all.contains(entry));
    let k = choose|k: int| 0 <= k < all.len() && all[k] == entry;
    assert(all[k].id == entry.id);
    assert(has_id(kept, entry.id));
    let w = choose|w: int| 0 <= w < kept.len() && (#[trigger] kept[w]).id == entry.id;
    assert(all.contains(kept[w]));
    let d = choose|d: int| 0 <= d < per_disk.len() && (#[trigger] per_disk[d])@.contains(kept[w]);
    assert(per_disk[d]@.contains(kept[w]));
}

/// Copies of entries that were already found change nothing: disks that hold
/// the same journal are replayed once, and so is a journal that is scanned
/// again.
pub proof fn law_copies_change_nothing(
    entries: Seq<DeferredCleanupEntry>,
    copies: Seq<DeferredCleanupEntry>,
)
    requires
        forall|i: int| 0 <= i < copies.len() ==> has_id(entries, (#[trigger] copies[i]).id),
    ensures
        first_of_each_id(entries + copies) == first_of_each_id(entries),
    decreases copies.len(),
{
    if copies.len() == 0 {
        assert(entries + copies =~= entries);
    } else {
        let fewer = copies.drop_last();
        let last = copies.last();
        assert(forall|i: int| 0 <= i < fewer.len() ==> fewer[i] == copies[i]);
        law_copies_change_nothing(entries, fewer);
        assert((entries + copies).drop_last() =~= entries + fewer);
        assert(has_id(entries, copies[copies.len() - 1].id));
        let k = choose|k: int| 0 <= k < entries.len() && (#[trigger] entries[k]).id == last.id;
        assert((entries + fewer)[k] == entries[k]);
    }
}

/// The file that a listing names for an entry is the file that the entry was
/// written to, and no other entry is written there.
pub proof fn law_journal_path_finds_entry(a: Uuid, b: Uuid)
    ensures
        listed_path(crate::uuids::hyphenated(a.bits)) == journal_path_of(a),
        journal_path_of(a) == journal_path_of(b) ==> a == b,
{
    let text = crate::uuids::hyphenated(a.bits);
    assert(text.last() != '/');
    if journal_path_of(a) == journal_path_of(b) {
        let prefix = DEFERRED_CLEANUP_SUBDIR@.push('/');
        let other = crate::uuids::hyphenated(b.bits);
        assert(text =~= (prefix + text).skip(prefix.len() as int));
        assert(other =~= (prefix + other).skip(prefix.len() as int));
        crate::uuids::law_uuid_text_identifies(a.bits, b.bits);
    }
}

proof fn lemma_all_entries(per_disk: Seq<Vec<DeferredCleanupEntry>>)
    ensures
        forall|e: DeferredCleanupEntry| #[trigger]
            all_entries(per_disk).contains(e) <==> exists|d: int|
                0 <= d < per_disk.len() && (#[trigger] per_disk[d])@.contains(e),
    decreases per_disk.len(),
{
    if per_disk.len() > 0 {
        let fewer = per_disk.drop_last();
        let last = per_disk.last()@;
        let all = all_entries(per_disk);
        lemma_all_entries(fewer);
        assert forall|e: DeferredCleanupEntry| #[trigger] all.contains(e) <==> exists|d: int|
            0 <= d < per_disk.len() && (#[trigger] per_disk[d])@.contains(e) by {
            if all.contains(e) {
                let k = choose|k: int| 0 <= k < all.len() && all[k] == e;
                if k < all_entries(fewer).len() {
                    assert(all_entries(fewer)[k] == e);
                    assert(all_entries(fewer).contains(e));
                    let d = choose|d: int|
                        0 <= d < fewer.len() && (#[trigger] fewer[d])@.contains(e);
                    assert(per_disk[d] == fewer[d]);
                } else {
                    assert(last[k - all_entries(fewer).len()] == e);
                    assert(per_disk[per_disk.len() - 1]@.contains(e));
                }
            }
            if exists|d: int| 0 <= d < per_disk.len() && (#[trigger] per_disk[d])@.contains(e) {
                let d = choose|d: int|
                    0 <= d < per_disk.len() && (#[trigger] per_disk[d])@.contains(e);
                if d < fewer.len() {
                    assert(fewer[d] == per_disk[d]);
                    assert(all_entries(fewer).contains(e));
                    let k = choose|k: int|
                        0 <= k < all_entries(fewer).len() && all_entries(fewer)[k] == e;
                    assert(all[k] == e);
                } else {
                    let k = choose|k: int| 0 <= k < last.len() && last[k] == e;
                    assert(all[all_entries(fewer).len() + k] == e);
                }
            }
        }
    }
}

/// Every file that holds an entry is handed on, and nothing else: as many
/// entries come out as files hold one, in the order of the files.
pub proof fn law_every_valid_file_is_handed_on(reads: Seq<JournalRead>, i: int)
    ensures
        valid_entries(reads).len() == Set::new(
            |j: int| 0 <= j < reads.len() && reads[j] is Entry,
        ).len(),
        forall|e: DeferredCleanupEntry| #[trigger]
            valid_entries(reads).contains(e) <==> exists|j: int|
                0 <= j < reads.len() && #[trigger] reads[j] == JournalRead::Entry(e),
        0 <= i < reads.len() ==> (reads[i] matches JournalRead::Entry(e) ==> {
            let before = Set::new(|j: int| 0 <= j < i && reads[j] is Entry).len() as int;
            before < valid_entries(reads).len() && valid_entries(reads)[before] == e
        }),
    decreases reads.len(),
{
    let n = reads.len() as int;
    let holds = |j: int| reads[j] is Entry;
    assert(Set::new(|j: int| 0 <= j < n && reads[j] is Entry) =~= crate::counting::below(
        holds,
        n,
    ));
    if n == 0 {
        crate::counting::lemma_below_step(holds, 0);
    } else {
        let init = reads.drop_last();
        let all = valid_entries(reads);
        law_every_valid_file_is_handed_on(init, i);
        crate::counting::lemma_below_step(holds, n - 1);
        assert(Set::new(|j: int| 0 <= j < init.len() && init[j] is Entry)
            =~= crate::counting::below(holds, n - 1));
        if 0 <= i < n {
            assert(Set::new(|j: int| 0 <= j < i && reads[j] is Entry) =~= crate::counting::below(
                holds,
                i,
            ));
            if i < n - 1 {
                assert(Set::new(|j: int| 0 <= j < i && init[j] is Entry)
                    =~= crate::counting::below(holds, i));
                assert(init[i] == reads[i]);
            }
        }
        assert forall|e: DeferredCleanupEntry| #[trigger] all.contains(e) <==> exists|j: int|
            0 <= j < reads.len() && #[trigger] reads[j] == JournalRead::Entry(e) by {
            if valid_entries(init).contains(e) {
                let k = choose|k: int|
                    0 <= k < valid_entries(init).len() && valid_entries(init)[k] == e;
                assert(all[k] == e);
                let j = choose|j: int|
                    0 <= j < init.len() && #[trigger] init[j] == JournalRead::Entry(e);
                assert(reads[j] == JournalRead::Entry(e));
            }
            if all.contains(e) && !valid_entries(init).contains(e) {
                let k = choose|k: int| 0 <= k < all.len() && all[k] == e;
                assert(k == all.len() - 1);
                assert(reads[n - 1] == JournalRead::Entry(e));
            }
            if exists|j: int| 0 <= j < reads.len() && #[trigger] reads[j] == JournalRead::Entry(
                e,
            ) {
                let j = choose|j: int|
                    0 <= j < reads.len() && #[trigger] reads[j] == JournalRead::Entry(e);
                if j < n - 1 {
                    assert(init[j] == JournalRead::Entry(e));
                } else {
                    assert(all[all.len() - 1] == e);
                }
            }
        }
    }
}

/// The entries of all disks are those of each disk, one disk after the other.
pub proof fn law_all_disks_are_scanned(
    first: Seq<Vec<DeferredCleanupEntry>>,
    disk: Vec<DeferredCleanupEntry>,
    d: int,
)
    ensures
        all_entries(Seq::empty()) == Seq::<DeferredCleanupEntry>::empty(),
        all_entries(first.push(disk)) == all_entries(first) + disk@,
        forall|e: DeferredCleanupEntry|
            0 <= d < first.len() && #[trigger] first[d]@.contains(e) ==> all_entries(
                first,
            ).contains(e),
{
    assert(first.push(disk).drop_last() =~= first);
    lemma_all_entries(first);
}

/// Of the entries with the same identifier the first is kept, and only that, and
/// those that are kept stay in their order.
pub proof fn law_first_entry_of_each_id_is_kept(entries: Seq<DeferredCleanupEntry>, i: int)
    ensures
        first_of_each_id(entries).len() == Set::new(
            |j: int|
                0 <= j < entries.len() && forall|k: int|
                    0 <= k < j ==> (#[trigger] entries[k]).id != entries[j].id,
        ).len(),
        0 <= i < entries.len() && (forall|k: int|
            0 <= k < i ==> (#[trigger] entries[k]).id != entries[i].id) ==> {
            let before = Set::new(
                |j: int|
                    0 <= j < i && forall|k: int|
                        0 <= k < j ==> (#[trigger] entries[k]).id != entries[j].id,
            ).len() as int;
            before < first_of_each_id(entries).len() && first_of_each_id(entries)[before]
                == entries[i]
        },
    decreases entries.len(),
{
    let n = entries.len() as int;
    let first = |j: int|
        forall|k: int| 0 <= k < j ==> (#[trigger] entries[k]).id != entries[j].id;
    assert(Set::new(
        |j: int|
            0 <= j < n && forall|k: int|
                0 <= k < j ==> (#[trigger] entries[k]).id != entries[j].id,
    ) =~= crate::counting::below(first, n));
    if n == 0 {
        crate::counting::lemma_below_step(first, 0);
    } else {
        let init = entries.drop_last();
        law_first_entry_of_each_id_is_kept(init, i);
        crate::counting::lemma_below_step(first, n - 1);
        assert forall|j: int| 0 <= j < n - 1 implies (forall|k: int|
            0 <= k < j ==> (#[trigger] init[k]).id != init[j].id) == #[trigger] first(j) by {
            assert forall|k: int| 0 <= k < j implies #[trigger] init[k] == entries[k] by {}
            if forall|k: int| 0 <= k < j ==> (#[trigger] init[k]).id != init[j].id {
                assert forall|k: int| 0 <= k < j implies (#[trigger] entries[k]).id
                    != entries[j].id by {
                    assert(init[k] == entries[k]);
                }
            }
        }
        assert(Set::new(
            |j: int|
                0 <= j < init.len() && forall|k: int|
                    0 <= k < j ==> (#[trigger] init[k]).id != init[j].id,
        ) =~= crate::counting::below(first, n - 1));
        assert(first(n - 1) <==> !has_id(init, entries.last().id)) by {
            if has_id(init, entries.last().id) {
                let k = choose|k: int|
                    0 <= k < init.len() && (#[trigger] init[k]).id == entries.last().id;
                assert(entries[k].id == entries[n - 1].id);
            }
            if !first(n - 1) {
                let k = choose|k: int|
                    0 <= k < n - 1 && (#[trigger] entries[k]).id == entries[n - 1].id;
                assert(init[k].id == entries.last().id);
            }
        }
        if 0 <= i < n && first(i) {
            assert(Set::new(
                |j: int|
                    0 <= j < i && forall|k: int|
                        0 <= k < j ==> (#[trigger] entries[k]).id != entries[j].id,
            ) =~= crate::counting::below(first, i));
            if i < n - 1 {
                assert(Set::new(
                    |j: int|
                        0 <= j < i && forall|k: int|
                            0 <= k < j ==> (#[trigger] init[k]).id != init[j].id,
                ) =~= crate::counting::below(first, i));
                assert(init[i] == entries[i]);
                assert forall|k: int| 0 <= k < i implies (#[trigger] init[k]).id
                    != init[i].id by {
                    assert(init[k] == entries[k]);
                }
            }
        }
    }
}

/// Crash safety, from the files on: where any local disk still has a file that
/// holds an entry, the replay deletes for that identifier; and it deletes for no
/// identifier that no file names.
pub proof fn law_surviving_file_is_replayed(
    reads: Seq<Seq<JournalRead>>,
    per_disk: Seq<Vec<DeferredCleanupEntry>>,
    id: Uuid,
)
    requires
        per_disk.len() == reads.len(),
        forall|d: int| 0 <= d < reads.len() ==> (#[trigger] per_disk[d])@ == valid_entries(reads[d]),
    ensures
        (exists|k: int|
            0 <= k < first_of_each_id(all_entries(per_disk)).len() && (
            #[trigger] first_of_each_id(all_entries(per_disk))[k]).id == id) <==> (exists|
            d: int,
            i: int,
        |
            #![trigger reads[d][i]]
            0 <= d < reads.len() && 0 <= i < reads[d].len() && (
            reads[d][i] matches JournalRead::Entry(e) && e.id == id)),
{
    let all = all_entries(per_disk);
    let kept = first_of_each_id(all);
    lemma_all_entries(per_disk);
    law_each_id_replayed_once(all);
    if exists|d: int, i: int|
        #![trigger reads[d][i]]
        0 <= d < reads.len() && 0 <= i < reads[d].len() && (
        reads[d][i] matches JournalRead::Entry(e) && e.id == id) {
        let (d, i) = choose|d: int, i: int|
            #![trigger reads[d][i]]
            0 <= d < reads.len() && 0 <= i < reads[d].len() && (
            reads[d][i] matches JournalRead::Entry(e) && e.id == id);
        let e = reads[d][i]->Entry_0;
        law_every_valid_file_is_handed_on(reads[d], i);
        assert(reads[d][i] == JournalRead::Entry(e));
        assert(valid_entries(reads[d]).contains(e));
        assert(per_disk[d]@.contains(e));
        assert(all.contains(e));
        let w = choose|w: int| 0 <= w < all.len() && all[w] == e;
        assert(all[w].id == id);
        assert(has_id(all, id));
        assert(has_id(kept, id));
    }
    if exists|k: int| 0 <= k < kept.len() && (#[trigger] kept[k]).id == id {
        let k = choose|k: int| 0 <= k < kept.len() && (#[trigger] kept[k]).id == id;
        assert(all.contains(kept[k]));
        let d = choose|d: int|
            0 <= d < per_disk.len() && (#[trigger] per_disk[d])@.contains(kept[k]);
        law_every_valid_file_is_handed_on(reads[d], 0);
        assert(valid_entries(reads[d]).contains(kept[k]));
        let i = choose|i: int|
            0 <= i < reads[d].len() && #[trigger] reads[d][i] == JournalRead::Entry(kept[k]);
        assert(reads[d][i] == JournalRead::Entry(kept[k]));
    }
}

/// Whether an identifier is among entries is whether one of them has it.
pub proof fn law_id_is_among_entries(entries: Seq<DeferredCleanupEntry>, id: Uuid)
    ensures
        has_id(entries, id) <==> exists|i: int|
            0 <= i < entries.len() && (#[trigger] entries[i]).id == id,
{
}

/// An entry lies in the journal's directory under the text of its identifier, and
/// a listed file lies there under its name without the slashes at the end.
pub proof fn law_journal_files_lie_in_the_journal(id: Uuid, name: Seq<char>, slashes: nat)
    requires
        name.len() == 0 || name.last() != '/',
    ensures
        journal_path_of(id) == ".deferred-cleanup/"@ + crate::uuids::hyphenated(id.bits),
        listed_path(name + Seq::new(slashes, |i: int| '/')) == ".deferred-cleanup/"@ + name,
    decreases slashes,
{
    reveal_strlit(".deferred-cleanup");
    reveal_strlit(".deferred-cleanup/");
    assert(DEFERRED_CLEANUP_SUBDIR@.push('/') =~= ".deferred-cleanup/"@);
    let text = name + Seq::new(slashes, |i: int| '/');
    if slashes == 0 {
        assert(text =~= name);
    } else {
        let fewer = (slashes - 1) as nat;
        law_journal_files_lie_in_the_journal(id, name, fewer);
        assert(text.drop_last() =~= name + Seq::new(fewer, |i: int| '/'));
    }
}

/// The journal lies in this directory and is scanned every five minutes.
pub proof fn law_journal_is_scanned_every_five_minutes()
    ensures
        DEFERRED_CLEANUP_SUBDIR@ == ".deferred-cleanup"@,
        GC_INTERVAL_SECS == 5 * 60,
{
}

/// Crash safety, from the files to the deletes: whatever entries are read from
/// the files of each local disk and then replayed, an identifier is replayed
/// exactly where some file on some disk holds an entry with it, and once.
pub proof fn law_scan_replays_every_file(
    reads: Seq<Vec<JournalRead>>,
    per_disk: Vec<Vec<DeferredCleanupEntry>>,
    replayed: Vec<DeferredCleanupEntry>,
    id: Uuid,
)
    requires
        per_disk@.len() == reads.len(),
        forall|d: int|
            0 <= d < reads.len() ==> call_ensures(
                read_journal_entries_from_disk,
                (&reads[d],),
                #[trigger] per_disk@[d],
            ),
        call_ensures(replay_and_gc, (&per_disk,), replayed),
    ensures
        (exists|k: int| 0 <= k < replayed@.len() && (#[trigger] replayed@[k]).id == id) <==> (
        exists|d: int, i: int|
            #![trigger reads[d]@[i]]
            0 <= d < reads.len() && 0 <= i < reads[d]@.len() && (
            reads[d]@[i] matches JournalRead::Entry(e) && e.id == id)),
        forall|i: int, j: int|
            0 <= i < j < replayed@.len() ==> (#[trigger] replayed@[i]).id != (
            #[trigger] replayed@[j]).id,
{
    let files = Seq::new(reads.len(), |d: int| reads[d]@);
    assert forall|d: int| 0 <= d < files.len() implies (#[trigger] per_disk@[d])@ == valid_entries(
        files[d],
    ) by {}
    law_surviving_file_is_replayed(files, per_disk@, id);
    law_each_id_replayed_once(all_entries(per_disk@));
    if exists|d: int, i: int|
        #![trigger reads[d]@[i]]
        0 <= d < reads.len() && 0 <= i < reads[d]@.len() && (
        reads[d]@[i] matches JournalRead::Entry(e) && e.id == id) {
        let (d, i) = choose|d: int, i: int|
            #![trigger reads[d]@[i]]
            0 <= d < reads.len() && 0 <= i < reads[d]@.len() && (
            reads[d]@[i] matches JournalRead::Entry(e) && e.id == id);
        assert(files[d][i] == reads[d]@[i]);
    }
    if exists|d: int, i: int|
        #![trigger files[d][i]]
        0 <= d < files.len() && 0 <= i < files[d].len() && (
        files[d][i] matches JournalRead::Entry(e) && e.id == id) {
        let (d, i) = choose|d: int, i: int|
            #![trigger files[d][i]]
            0 <= d < files.len() && 0 <= i < files[d].len() && (
            files[d][i] matches JournalRead::Entry(e) && e.id == id);
        assert(reads[d]@[i] == files[d][i]);
    }
}

/// What is written for an entry is what is deleted for it: the same file. It goes
/// only where the replayed delete succeeded, and goes alone.
pub proof fn law_entry_is_removed_where_it_was_written(
    local_disks: usize,
    entry: &DeferredCleanupEntry,
    serialized: Option<Vec<u8>>,
    written: Result<JournalWrite, DiskError>,
    removed: JournalDelete,
    deleted: &Result<(), DiskError>,
    after: ReplayAction,
    opts: DeleteOptions,
)
    requires
        call_ensures(write_journal_entries, (local_disks, entry, serialized), written),
        call_ensures(delete_journal_entries, (entry.id,), removed),
        call_ensures(replay_result, (entry, deleted), after),
        call_ensures(JournalDelete::options, (&removed,), opts),
    ensures
        written is Ok <==> local_disks > 0 && serialized is Some,
        written matches Ok(w) ==> serialized == Some(w.data) && w.path@ == removed.path@,
        local_disks == 0 ==> written == Err::<JournalWrite, DiskError>(DiskError::DiskNotFound),
        local_disks > 0 && serialized is None ==> written == Err::<JournalWrite, DiskError>(
            DiskError::Unexpected,
        ),
        after is RemoveEntry <==> *deleted is Ok,
        after matches ReplayAction::RemoveEntry(d) ==> d.path@ == removed.path@ && !d.recursive,
        !opts.recursive && !opts.immediate && !opts.undo_write && opts.old_data_dir is None,
{
}

/// The journal covers a crash exactly where a disk took the entry.
pub proof fn law_one_disk_is_enough(results: &[Result<(), DiskError>], r: Result<(), DiskError>, i: int)
    requires
        call_ensures(journal_write_result, (results,), r),
        0 <= i < results@.len(),
    ensures
        results@[i] is Ok ==> r is Ok,
        r is Ok ==> exists|k: int| 0 <= k < results@.len() && #[trigger] results@[k] is Ok,
        r matches Err(e) ==> e == DiskError::DiskNotFound,
{
}

/// A listing gives one path for each name, in its order. A failed one gives
/// none, and is worth a warning unless there just is no journal.
pub proof fn law_listing_gives_every_file(
    listing: Result<Vec<String>, DiskError>,
    r: JournalListing,
    i: int,
)
    requires
        call_ensures(journal_files, (listing,), r),
    ensures
        listing matches Ok(names) ==> !r.warn && r.paths@.len() == names@.len() && (0 <= i
            < names@.len() ==> r.paths@[i]@ == listed_path(names@[i]@)),
        listing matches Err(e) ==> r.paths@.len() == 0 && (!r.warn <==> e
            == DiskError::FileNotFound || e == DiskError::VolumeNotFound),
{
}

/// The local disks are the slots that hold a disk of this node, each once and in
/// order.
pub proof fn law_local_slots_hold_local_disks(slots: &[Option<bool>], r: Vec<usize>, i: int, s: usize)
    requires
        call_ensures(local_disk_slots, (slots,), r),
    ensures
        r@.contains(s) <==> s < slots@.len() && slots@[s as int] == Some(true),
        0 <= i < r@.len() - 1 ==> r@[i] < r@[i + 1],
{
}

}
