//! Operations that ask every disk of a set and then hold the answers against a
//! write quorum: renaming a part, writing and updating metadata, deleting.
//!
//! Each operation turns the disks' answers into one outcome per disk. Where the
//! outcomes miss the quorum, the error that they reduce to is handed in as
//! `quorum_err`, and the operation says what has to be taken back.

use vstd::prelude::*;

use crate::disk::{DeleteOptions, DiskError, LegReply};
use crate::set_disks::SetDisks;
use crate::text::joined;

verus! {

/// The outcome of one leg; an empty slot counts as an offline disk.
pub open spec fn leg_err(reply: LegReply) -> Option<DiskError> {
    match reply {
        LegReply::NoDisk => Some(DiskError::DiskNotFound),
        LegReply::Succeeded => None,
        LegReply::Failed(e) => Some(e),
        LegReply::Lost(e) => Some(e),
    }
}

/// The outcome of one leg of a data directory delete: a lost task is unexpected.
pub open spec fn commit_leg_err(reply: LegReply) -> Option<DiskError> {
    match reply {
        LegReply::Lost(_) => Some(DiskError::Unexpected),
        _ => leg_err(reply),
    }
}

/// The outcome of one leg of a prefix delete: an empty slot has nothing to delete.
pub open spec fn prefix_leg_err(reply: LegReply) -> Option<DiskError> {
    match reply {
        LegReply::NoDisk => None,
        _ => leg_err(reply),
    }
}

/// The slots among the first `n` that hold a disk which did not fail.
pub open spec fn reached_slots<D>(
    disks: Seq<Option<D>>,
    errs: Seq<Option<DiskError>>,
    n: nat,
) -> Seq<usize>
    decreases n,
{
    if n == 0 {
        Seq::empty()
    } else {
        let before = reached_slots(disks, errs, (n - 1) as nat);
        if errs[n - 1] is None && disks[n - 1] is Some {
            before.push((n - 1) as usize)
        } else {
            before
        }
    }
}

/// What follows once every disk has answered a part rename.
pub enum RenamePartVerdict<D> {
    /// The quorum was missed: delete these paths in the multipart area, then report the error.
    CleanUp { paths: Vec<String>, err: DiskError },
    /// The part is in place on these disks.
    Renamed(Vec<Option<D>>),
}

/// What follows once every disk has answered a metadata write.
pub enum WriteInfoVerdict {
    /// The quorum was missed: delete the metadata again in these slots, then report the error.
    Revert { slots: Vec<usize>, err: DiskError },
    /// The metadata is written.
    Written,
}

/// Deletes that take everything below a path along.
pub open spec fn recursive_delete(immediate: bool) -> DeleteOptions {
    DeleteOptions { recursive: true, immediate, undo_write: false, old_data_dir: None }
}

/// The result of an operation whose outcomes reduce to `quorum_err`.
pub fn quorum_result(quorum_err: Option<DiskError>) -> (r: Result<(), DiskError>)
    ensures
        match quorum_err {
            Some(e) => r == Err::<(), DiskError>(e),
            None => r is Ok,
        },
{
    match quorum_err {
        Some(e) => Err(e),
        None => Ok(()),
    }
}

/// The outcome of every leg.
pub fn leg_errs(replies: &[LegReply]) -> (r: Vec<Option<DiskError>>)
    ensures
        r@ == replies@.map_values(|reply: LegReply| leg_err(reply)),
        r@.len() == replies@.len(),
        forall|i: int|
            0 <= i < replies@.len() ==> (#[trigger] r@[i] is None <==> replies@[i]
                == LegReply::Succeeded),
        forall|i: int|
            #![trigger r@[i]]
            0 <= i < replies@.len() ==> (replies@[i] matches LegReply::Failed(e) ==> r@[i] == Some(
                e,
            )),
        forall|i: int|
            #![trigger r@[i]]
            0 <= i < replies@.len() ==> (replies@[i] matches LegReply::Lost(e) ==> r@[i] == Some(
                e,
            )),
{
    let mut errs: Vec<Option<DiskError>> = Vec::new();
    let mut i: usize = 0;
    while i < replies.len()
        invariant
            i <= replies@.len(),
            errs@.len() == i,
            forall|j: int| 0 <= j < i ==> #[trigger] errs@[j] == leg_err(replies@[j]),
        decreases replies@.len() - i,
    {
        match replies[i] {
            LegReply::NoDisk => {
                errs.push(Some(DiskError::DiskNotFound));
            },
            LegReply::Succeeded => {
                errs.push(None);
            },
            LegReply::Failed(e) => {
                errs.push(Some(e));
            },
            LegReply::Lost(e) => {
                errs.push(Some(e));
            },
        }
        i = i + 1;
    }
    assert(errs@ =~= replies@.map_values(|reply: LegReply| leg_err(reply)));
    errs
}

impl SetDisks {
    /// The path of a data directory of an object.
    pub fn commit_rename_data_dir_path(object: &str, data_dir: &str) -> (r: String)
        ensures
            r@ == object@.push('/') + data_dir@,
    {
        joined(object, '/', data_dir)
    }

    /// How each disk deletes a data directory: with everything in it.
    pub fn commit_rename_data_dir_options() -> (r: DeleteOptions)
        ensures
            r == recursive_delete(false),
    {
        DeleteOptions { recursive: true, immediate: false, undo_write: false, old_data_dir: None }
    }

    /// The outcome per disk of deleting a data directory that is no longer needed.
    pub fn commit_rename_data_dir(replies: &[LegReply]) -> (r: Vec<Option<DiskError>>)
        ensures
            r@ == replies@.map_values(|reply: LegReply| commit_leg_err(reply)),
            forall|i: int|
                0 <= i < replies@.len() ==> (#[trigger] r@[i] is None <==> replies@[i]
                    == LegReply::Succeeded),
    {
        let mut errs: Vec<Option<DiskError>> = Vec::new();
        let mut i: usize = 0;
        while i < replies.len()
            invariant
                i <= replies@.len(),
                errs@.len() == i,
                forall|j: int| 0 <= j < i ==> #[trigger] errs@[j] == commit_leg_err(replies@[j]),
            decreases replies@.len() - i,
        {
            match replies[i] {
                LegReply::NoDisk => {
                    errs.push(Some(DiskError::DiskNotFound));
                },
                LegReply::Succeeded => {
                    errs.push(None);
                },
                LegReply::Failed(e) => {
                    errs.push(Some(e));
                },
                LegReply::Lost(_) => {
                    errs.push(Some(DiskError::Unexpected));
                },
            }
            i = i + 1;
        }
        assert(errs@ =~= replies@.map_values(|reply: LegReply| commit_leg_err(reply)));
        errs
    }

    /// The outcome per disk of deleting multipart leftovers, and whether any
    /// disk failed and a warning is due.
    pub fn cleanup_multipart_path(replies: &[LegReply]) -> (r: (Vec<Option<DiskError>>, bool))
        ensures
            r.0@ == replies@.map_values(|reply: LegReply| leg_err(reply)),
            r.1 <==> exists|i: int|
                0 <= i < replies@.len() && leg_err(#[trigger] replies@[i]) is Some,
            r.1 <==> exists|i: int|
                0 <= i < replies@.len() && #[trigger] replies@[i] != LegReply::Succeeded,
    {
        let errs: Vec<Option<DiskError>> = leg_errs(replies);
        let mut i: usize = 0;
        while i < errs.len()
            invariant
                errs@ == replies@.map_values(|reply: LegReply| leg_err(reply)),
                i <= errs@.len(),
                forall|j: int| 0 <= j < i ==> leg_err(#[trigger] replies@[j]) is None,
            decreases errs@.len() - i,
        {
            if errs[i].is_some() {
                assert(leg_err(replies@[i as int]) is Some);
                return (errs, true);
            }
            i = i + 1;
        }
        (errs, false)
    }

    /// The outcome per disk of renaming a part. A lost task ends the operation
    /// with its error, whatever the other disks answered.
    pub fn rename_part_errs(replies: &[LegReply]) -> (r: Result<Vec<Option<DiskError>>, DiskError>)
        ensures
            match r {
                Ok(errs) => {
                    &&& forall|i: int|
                        0 <= i < replies@.len() ==> !((#[trigger] replies@[i]) is Lost)
                    &&& errs@ == replies@.map_values(|reply: LegReply| leg_err(reply))
                },
                Err(e) => exists|i: int|
                    #![trigger replies@[i]]
                    0 <= i < replies@.len() && replies@[i] == LegReply::Lost(e) && forall|j: int|
                        0 <= j < i ==> !((#[trigger] replies@[j]) is Lost),
            },
    {
        let mut i: usize = 0;
        while i < replies.len()
            invariant
                i <= replies@.len(),
                forall|j: int| 0 <= j < i ==> !((#[trigger] replies@[j]) is Lost),
            decreases replies@.len() - i,
        {
            match replies[i] {
                LegReply::Lost(e) => {
                    assert(replies@[i as int] == LegReply::Lost(e));
                    return Err(e);
                },
                _ => {},
            }
            i = i + 1;
        }
        Ok(leg_errs(replies))
    }

    /// What follows once every disk has answered a part rename. Where the quorum
    /// is missed, the part and its metadata file are deleted again.
    pub fn rename_part<D: Clone>(
        disks: &[Option<D>],
        errs: &[Option<DiskError>],
        dst_object: &str,
        quorum_err: Option<DiskError>,
    ) -> (r: RenamePartVerdict<D>)
        ensures
            match quorum_err {
                Some(e) => {
                    &&& r matches RenamePartVerdict::CleanUp { paths, err }
                    &&& err == e
                    &&& paths@.len() == 2
                    &&& paths@[0]@ == dst_object@
                    &&& paths@[1]@ == dst_object@ + seq!['.', 'm', 'e', 't', 'a']
                },
                None => r matches RenamePartVerdict::Renamed(left) && crate::set_disks::online_after(
                    disks@,
                    errs@,
                    left@,
                ),
            },
    {
        match quorum_err {
            Some(err) => {
                let mut meta: String = String::new();
                meta.append(dst_object);
                meta.append(".meta");
                proof {
                    reveal_strlit(".meta");
                    assert(meta@ =~= dst_object@ + seq!['.', 'm', 'e', 't', 'a']);
                }
                let mut paths: Vec<String> = Vec::new();
                paths.push(dst_object.to_owned());
                paths.push(meta);
                RenamePartVerdict::CleanUp { paths, err }
            },
            None => RenamePartVerdict::Renamed(SetDisks::eval_disks(disks, errs)),
        }
    }

    /// The erasure index that slot `i` writes into its metadata.
    pub fn write_unique_file_info_index(i: usize) -> (r: usize)
        requires
            i < usize::MAX,
        ensures
            r == i + 1,
    {
        i + 1
    }

    /// How a disk deletes metadata again that it wrote: with everything below it.
    pub fn write_unique_file_info_revert_options() -> (r: DeleteOptions)
        ensures
            r == recursive_delete(false),
    {
        DeleteOptions { recursive: true, immediate: false, undo_write: false, old_data_dir: None }
    }

    /// What follows once every disk has answered a metadata write. Where the
    /// quorum is missed, every disk that wrote it deletes it again.
    pub fn write_unique_file_info<D>(
        disks: &[Option<D>],
        errs: &[Option<DiskError>],
        quorum_err: Option<DiskError>,
    ) -> (r: WriteInfoVerdict)
        requires
            disks@.len() == errs@.len(),
        ensures
            match quorum_err {
                Some(e) => {
                    &&& r matches WriteInfoVerdict::Revert { slots, err }
                    &&& err == e
                    &&& slots@ == reached_slots(disks@, errs@, errs@.len())
                },
                None => r is Written,
            },
    {
        match quorum_err {
            Some(err) => {
                let mut slots: Vec<usize> = Vec::new();
                let mut i: usize = 0;
                while i < errs.len()
                    invariant
                        disks@.len() == errs@.len(),
                        i <= errs@.len(),
                        slots@ == reached_slots(disks@, errs@, i as nat),
                    decreases errs@.len() - i,
                {
                    if errs[i].is_none() && disks[i].is_some() {
                        slots.push(i);
                    }
                    i = i + 1;
                }
                WriteInfoVerdict::Revert { slots, err }
            },
            None => WriteInfoVerdict::Written,
        }
    }

    /// Whether a metadata update has anything to do.
    pub fn update_object_meta_with_opts(
        metadata_is_empty: bool,
        replace_user_metadata: bool,
    ) -> (r: bool)
        ensures
            r == (!metadata_is_empty || replace_user_metadata),
    {
        !metadata_is_empty || replace_user_metadata
    }

    /// Whether a metadata update with default options has anything to do.
    pub fn update_object_meta(metadata_is_empty: bool) -> (r: bool)
        ensures
            r == !metadata_is_empty,
    {
        SetDisks::update_object_meta_with_opts(metadata_is_empty, false)
    }

    /// How many of `n` disks have to agree to a prefix delete: more than half.
    pub fn delete_prefix_quorum(n: usize) -> (r: usize)
        ensures
            r == n / 2 + 1,
            2 * r > n,
            2 * (r - 1) <= n,
    {
        n / 2 + 1
    }

    /// How each disk deletes everything under a prefix: all of it, and at once.
    pub fn delete_prefix_options() -> (r: DeleteOptions)
        ensures
            r == recursive_delete(true),
    {
        DeleteOptions { recursive: true, immediate: true, undo_write: false, old_data_dir: None }
    }

    /// The outcome per disk of deleting everything under a prefix.
    pub fn delete_prefix(replies: &[LegReply]) -> (r: Vec<Option<DiskError>>)
        ensures
            r@ == replies@.map_values(|reply: LegReply| prefix_leg_err(reply)),
            forall|i: int|
                0 <= i < replies@.len() ==> (#[trigger] r@[i] is None <==> replies@[i]
                    == LegReply::Succeeded || replies@[i] == LegReply::NoDisk),
    {
        let mut errs: Vec<Option<DiskError>> = Vec::new();
        let mut i: usize = 0;
        while i < replies.len()
            invariant
                i <= replies@.len(),
                errs@.len() == i,
                forall|j: int| 0 <= j < i ==> #[trigger] errs@[j] == prefix_leg_err(replies@[j]),
            decreases replies@.len() - i,
        {
            match replies[i] {
                LegReply::NoDisk => {
                    errs.push(None);
                },
                LegReply::Succeeded => {
                    errs.push(None);
                },
                LegReply::Failed(e) => {
                    errs.push(Some(e));
                },
                LegReply::Lost(e) => {
                    errs.push(Some(e));
                },
            }
            i = i + 1;
        }
        assert(errs@ =~= replies@.map_values(|reply: LegReply| prefix_leg_err(reply)));
        errs
    }
}

/// Any two quorums of a prefix delete share a disk.
pub proof fn law_prefix_quorums_overlap(n: usize)
    ensures
        2 * (n / 2 + 1) > n,
{
}

/// A missed metadata quorum is reverted on exactly the disks that wrote the
/// metadata, once on each.
pub proof fn law_revert_covers_written<D>(
    disks: Seq<Option<D>>,
    errs: Seq<Option<DiskError>>,
    n: nat,
    slot: usize,
)
    requires
        n <= usize::MAX,
    ensures
        reached_slots(disks, errs, n).contains(slot) <==> slot < n && errs[slot as int] is None
            && disks[slot as int] is Some,
        forall|i: int, j: int|
            0 <= i < j < reached_slots(disks, errs, n).len() ==> #[trigger] reached_slots(
                disks,
                errs,
                n,
            )[i] < #[trigger] reached_slots(disks, errs, n)[j],
    decreases n,
{
    let whole = reached_slots(disks, errs, n);
    if n > 0 {
        let before = reached_slots(disks, errs, (n - 1) as nat);
        law_revert_covers_written(disks, errs, (n - 1) as nat, slot);
        if errs[n - 1] is None && disks[n - 1] is Some {
            assert(whole[whole.len() - 1] == (n - 1) as usize);
            assert forall|i: int| 0 <= i < before.len() implies #[trigger] before[i] < n - 1 by {
                assert(before.contains(before[i]));
                law_revert_covers_written(disks, errs, (n - 1) as nat, before[i]);
            }
            assert forall|i: int, j: int| 0 <= i < j < whole.len() implies #[trigger] whole[i]
                < #[trigger] whole[j] by {
                assert(whole[i] == before[i]);
                if j < before.len() {
                    assert(whole[j] == before[j]);
                }
            }
            if before.contains(slot) {
                let k = choose|k: int| 0 <= k < before.len() && before[k] == slot;
                assert(whole[k] == slot);
            }
            if whole.contains(slot) && slot != n - 1 {
                let k = choose|k: int| 0 <= k < whole.len() && whole[k] == slot;
                assert(before[k] == slot);
            }
        }
    } else {
        assert(!whole.contains(slot));
    }
}

/// An outcome is free of an error exactly where the disk did what was asked, and
/// an error comes out as it went in. An empty slot counts as an offline disk,
/// except for a prefix delete, which has nothing to do there; a lost task counts
/// as unexpected in a data directory delete.
pub proof fn law_outcome_is_free_only_on_success(reply: LegReply, e: DiskError)
    ensures
        leg_err(reply) is None <==> reply == LegReply::Succeeded,
        leg_err(LegReply::Failed(e)) == Some(e),
        leg_err(LegReply::Lost(e)) == Some(e),
        leg_err(LegReply::NoDisk) == Some(DiskError::DiskNotFound),
        commit_leg_err(reply) is None <==> reply == LegReply::Succeeded,
        commit_leg_err(LegReply::Failed(e)) == Some(e),
        commit_leg_err(LegReply::Lost(e)) == Some(DiskError::Unexpected),
        commit_leg_err(LegReply::NoDisk) == Some(DiskError::DiskNotFound),
        prefix_leg_err(reply) is None <==> reply == LegReply::Succeeded || reply
            == LegReply::NoDisk,
        prefix_leg_err(LegReply::Failed(e)) == Some(e),
        prefix_leg_err(LegReply::Lost(e)) == Some(e),
{
}

/// A part is reported as in place only on disks that renamed it, and metadata is
/// deleted again only on disks that wrote it: both are exactly the disks that
/// are there and did what was asked.
pub proof fn law_only_disks_that_did_it_count<D: Clone>(
    disks: Seq<Option<D>>,
    replies: Seq<LegReply>,
    left: Seq<Option<D>>,
    i: int,
)
    requires
        disks.len() == replies.len(),
        replies.len() <= usize::MAX,
        crate::set_disks::online_after(
            disks,
            replies.map_values(|reply: LegReply| leg_err(reply)),
            left,
        ),
        0 <= i < replies.len(),
    ensures
        left[i] is Some <==> disks[i] is Some && replies[i] == LegReply::Succeeded,
        reached_slots(
            disks,
            replies.map_values(|reply: LegReply| leg_err(reply)),
            replies.len(),
        ).contains(i as usize) <==> disks[i] is Some && replies[i] == LegReply::Succeeded,
{
    let errs = replies.map_values(|reply: LegReply| leg_err(reply));
    assert(errs[i] == leg_err(replies[i]));
    crate::set_disks::law_online_disks_did_not_fail(disks, errs, left, i);
    law_revert_covers_written(disks, errs, replies.len(), i as usize);
}

/// A recursive delete is that and, where asked for, immediate; it takes no write
/// back.
pub proof fn law_recursive_delete_is_no_more(immediate: bool)
    ensures
        recursive_delete(immediate).recursive,
        recursive_delete(immediate).immediate == immediate,
        !recursive_delete(immediate).undo_write,
        recursive_delete(immediate).old_data_dir is None,
{
}

/// From the answers of the disks to a part rename to its end: the part is in
/// place on exactly the disks that are there and renamed it. Where the quorum is
/// missed, the part and its metadata file go again and the error is reported.
pub proof fn law_part_rename_follows_the_answers<D: Clone>(
    replies: &[LegReply],
    outcomes: Vec<Option<DiskError>>,
    disks: &[Option<D>],
    errs: &[Option<DiskError>],
    dst_object: &str,
    quorum_err: Option<DiskError>,
    r: RenamePartVerdict<D>,
    i: int,
)
    requires
        call_ensures(
            SetDisks::rename_part_errs,
            (replies,),
            Ok::<Vec<Option<DiskError>>, DiskError>(outcomes),
        ),
        call_ensures(SetDisks::rename_part::<D>, (disks, errs, dst_object, quorum_err), r),
        errs@ == outcomes@,
        disks@.len() == replies@.len(),
        0 <= i < replies@.len(),
    ensures
        r is Renamed <==> quorum_err is None,
        r matches RenamePartVerdict::Renamed(left) ==> left@.len() == disks@.len() && (
        left@[i] is Some <==> disks@[i] is Some && replies@[i] == LegReply::Succeeded),
        r matches RenamePartVerdict::CleanUp { paths, err } ==> quorum_err == Some(err)
            && paths@.len() == 2 && paths@[0]@ == dst_object@ && paths@[1]@ == dst_object@
            + ".meta"@,
{
    assert(outcomes@[i] == leg_err(replies@[i]));
    reveal_strlit(".meta");
    assert(".meta"@ =~= seq!['.', 'm', 'e', 't', 'a']);
    if let RenamePartVerdict::Renamed(left) = r {
        crate::set_disks::law_online_disks_did_not_fail(disks@, errs@, left@, i);
    }
}

/// A part rename is given up exactly where a task was lost, with the error of
/// the first one.
pub proof fn law_lost_task_ends_a_part_rename(
    replies: &[LegReply],
    r: Result<Vec<Option<DiskError>>, DiskError>,
)
    requires
        call_ensures(SetDisks::rename_part_errs, (replies,), r),
    ensures
        r is Err <==> exists|i: int| 0 <= i < replies@.len() && (#[trigger] replies@[i]) is Lost,
        r matches Err(e) ==> exists|i: int|
            0 <= i < replies@.len() && #[trigger] replies@[i] == LegReply::Lost(e),
{
    if let Err(e) = r {
        let i = choose|i: int|
            #![trigger replies@[i]]
            0 <= i < replies@.len() && replies@[i] == LegReply::Lost(e) && forall|j: int|
                0 <= j < i ==> !((#[trigger] replies@[j]) is Lost);
        assert(replies@[i] is Lost);
    }
}

/// From the answers of the disks to a metadata write to its end: where the quorum
/// is missed, the metadata is deleted again in exactly the slots whose disk is
/// there and wrote it, and the error is reported.
pub proof fn law_metadata_write_follows_the_answers<D>(
    replies: &[LegReply],
    outcomes: Vec<Option<DiskError>>,
    disks: &[Option<D>],
    errs: &[Option<DiskError>],
    quorum_err: Option<DiskError>,
    r: WriteInfoVerdict,
    slot: usize,
)
    requires
        call_ensures(leg_errs, (replies,), outcomes),
        call_ensures(SetDisks::write_unique_file_info::<D>, (disks, errs, quorum_err), r),
        errs@ == outcomes@,
        disks@.len() == replies@.len(),
        replies@.len() <= usize::MAX,
    ensures
        r is Written <==> quorum_err is None,
        r matches WriteInfoVerdict::Revert { slots, err } ==> quorum_err == Some(err) && (
        slots@.contains(slot) <==> slot < replies@.len() && disks@[slot as int] is Some
            && replies@[slot as int] == LegReply::Succeeded),
{
    if slot < replies@.len() {
        assert(outcomes@[slot as int] == leg_err(replies@[slot as int]));
    }
    law_revert_covers_written(disks@, errs@, errs@.len(), slot);
}

/// What a disk says to a delete comes out as it was said: of a data directory,
/// of multipart leftovers, and of everything under a prefix. A warning about
/// leftovers is due exactly where not every disk deleted them.
pub proof fn law_delete_outcomes_follow_the_answers(
    replies: &[LegReply],
    commit: Vec<Option<DiskError>>,
    cleanup: (Vec<Option<DiskError>>, bool),
    prefix: Vec<Option<DiskError>>,
    i: int,
)
    requires
        call_ensures(SetDisks::commit_rename_data_dir, (replies,), commit),
        call_ensures(SetDisks::cleanup_multipart_path, (replies,), cleanup),
        call_ensures(SetDisks::delete_prefix, (replies,), prefix),
        0 <= i < replies@.len(),
    ensures
        commit@.len() == replies@.len(),
        cleanup.0@.len() == replies@.len(),
        prefix@.len() == replies@.len(),
        match replies@[i] {
            LegReply::NoDisk => commit@[i] == Some(DiskError::DiskNotFound) && cleanup.0@[i]
                == Some(DiskError::DiskNotFound) && prefix@[i] is None,
            LegReply::Succeeded => commit@[i] is None && cleanup.0@[i] is None && prefix@[i]
                is None,
            LegReply::Failed(e) => commit@[i] == Some(e) && cleanup.0@[i] == Some(e) && prefix@[i]
                == Some(e),
            LegReply::Lost(e) => commit@[i] == Some(DiskError::Unexpected) && cleanup.0@[i] == Some(
                e,
            ) && prefix@[i] == Some(e),
        },
        replies@[i] != LegReply::Succeeded ==> cleanup.1,
        cleanup.1 ==> exists|k: int|
            0 <= k < replies@.len() && #[trigger] replies@[k] != LegReply::Succeeded,
{
}

/// Two prefix deletes that each reach their quorum share a disk, and no smaller
/// number of disks would do.
pub proof fn law_given_prefix_quorum_is_a_majority(n: usize, quorum: usize)
    requires
        call_ensures(SetDisks::delete_prefix_quorum, (n,), quorum),
    ensures
        2 * quorum > n,
        2 * (quorum - 1) <= n,
{
}

/// A data directory and metadata are deleted with all that is in them, a prefix
/// at once too; none of these takes a write back. A data directory lies under
/// its object.
pub proof fn law_deletes_are_asked_for_in_full(
    commit: DeleteOptions,
    revert: DeleteOptions,
    prefix: DeleteOptions,
    object: &str,
    data_dir: &str,
    path: String,
)
    requires
        call_ensures(SetDisks::commit_rename_data_dir_options, (), commit),
        call_ensures(SetDisks::write_unique_file_info_revert_options, (), revert),
        call_ensures(SetDisks::delete_prefix_options, (), prefix),
        call_ensures(SetDisks::commit_rename_data_dir_path, (object, data_dir), path),
    ensures
        commit.recursive && revert.recursive && prefix.recursive,
        !commit.immediate && !revert.immediate && prefix.immediate,
        !commit.undo_write && !revert.undo_write && !prefix.undo_write,
        commit.old_data_dir is None && revert.old_data_dir is None && prefix.old_data_dir is None,
        path@ == object@ + "/"@ + data_dir@,
{
    reveal_strlit("/");
    assert(object@.push('/') =~= object@ + "/"@);
}

/// The outcome of an operation is the error that its answers reduce to, if any;
/// a metadata update has something to do unless it neither adds nor replaces
/// anything.
pub proof fn law_quorum_error_is_the_result(
    quorum_err: Option<DiskError>,
    r: Result<(), DiskError>,
    empty: bool,
    replace: bool,
    with_opts: bool,
    plain: bool,
    slot: usize,
    index: usize,
)
    requires
        call_ensures(quorum_result, (quorum_err,), r),
        call_ensures(SetDisks::update_object_meta_with_opts, (empty, replace), with_opts),
        call_ensures(SetDisks::update_object_meta, (empty,), plain),
        call_ensures(SetDisks::write_unique_file_info_index, (slot,), index),
        slot < usize::MAX,
    ensures
        r is Ok <==> quorum_err is None,
        r matches Err(e) ==> quorum_err == Some(e),
        !with_opts <==> empty && !replace,
        !plain <==> empty,
        index > 0 && index - 1 == slot,
{
}

}
