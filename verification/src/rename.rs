//! Committing an object on all disks of an erasure set.
//!
//! Every disk renames the object's data out of the temporary area in its own
//! task, a *leg*. The legs finish in any order. This module records their
//! answers, decides when a write quorum is reached, which disks count as online
//! afterwards, and which disks have to undo the write when the quorum is missed.

use vstd::prelude::*;

use crate::disk::{DeleteOptions, DiskError, RenameDataResp, Uuid, VersionDelete};
use crate::set_disks::SetDisks;

verus! {

/// What is known of every disk slot while the legs are under way. A slot error
/// is `None` while the leg is pending, `Some(None)` after a success and
/// `Some(Some(e))` after a failure.
#[verifier::ext_equal]
pub struct Slots {
    pub data_dirs: Seq<Option<Uuid>>,
    pub versions: Seq<Option<Vec<u8>>>,
    pub slot_errs: Seq<Option<Option<DiskError>>>,
}

impl Slots {
    /// `n` slots, all of them pending.
    pub open spec fn pending(n: nat) -> Slots {
        Slots {
            data_dirs: Seq::new(n, |i: int| None),
            versions: Seq::new(n, |i: int| None),
            slot_errs: Seq::new(n, |i: int| None),
        }
    }

    /// The slots once leg `i` has answered `result`.
    pub open spec fn record(self, i: int, result: Result<RenameDataResp, DiskError>) -> Slots {
        match result {
            Ok(res) => Slots {
                data_dirs: self.data_dirs.update(i, res.old_data_dir),
                versions: self.versions.update(i, res.sign),
                slot_errs: self.slot_errs.update(i, Some(None)),
            },
            Err(e) => Slots { slot_errs: self.slot_errs.update(i, Some(Some(e))), ..self },
        }
    }

    /// The slots once the legs named in `order` have answered, each leg `i` with `answers[i]`.
    pub open spec fn merged(
        answers: Seq<Result<RenameDataResp, DiskError>>,
        order: Seq<int>,
    ) -> Slots
        decreases order.len(),
    {
        if order.len() == 0 {
            Slots::pending(answers.len())
        } else {
            Slots::merged(answers, order.drop_last()).record(order.last(), answers[order.last()])
        }
    }
}

/// How many slots have an answer.
pub open spec fn completed(slot_errs: Seq<Option<Option<DiskError>>>) -> nat
    decreases slot_errs.len(),
{
    if slot_errs.len() == 0 {
        0
    } else {
        completed(slot_errs.drop_last()) + if slot_errs.last() is Some {
            1nat
        } else {
            0nat
        }
    }
}

/// How many slots have a success.
pub open spec fn successes(slot_errs: Seq<Option<Option<DiskError>>>) -> nat
    decreases slot_errs.len(),
{
    if slot_errs.len() == 0 {
        0
    } else {
        successes(slot_errs.drop_last()) + if slot_errs.last() == Some(None::<DiskError>) {
            1nat
        } else {
            0nat
        }
    }
}

/// How many successful slots report `key` as the object's former data directory.
pub open spec fn dir_count(
    data_dirs: Seq<Option<Uuid>>,
    slot_errs: Seq<Option<Option<DiskError>>>,
    key: Option<Uuid>,
) -> nat
    decreases slot_errs.len(),
{
    if slot_errs.len() == 0 {
        0
    } else {
        dir_count(data_dirs, slot_errs.drop_last(), key) + if slot_errs.last() == Some(
            None::<DiskError>,
        ) && data_dirs[slot_errs.len() - 1] == key {
            1nat
        } else {
            0nat
        }
    }
}

/// Whether a former data directory reaches the write quorum: at least one
/// success and at least a write quorum of them report it.
pub open spec fn dir_reaches(
    data_dirs: Seq<Option<Uuid>>,
    slot_errs: Seq<Option<Option<DiskError>>>,
    write_quorum: nat,
    key: Option<Uuid>,
) -> bool {
    &&& dir_count(data_dirs, slot_errs, key) > 0
    &&& dir_count(data_dirs, slot_errs, key) >= write_quorum
}

/// Whether `key` is the agreed former data directory: the only one that reaches
/// the write quorum.
pub open spec fn dir_agreed(
    data_dirs: Seq<Option<Uuid>>,
    slot_errs: Seq<Option<Option<DiskError>>>,
    write_quorum: nat,
    key: Option<Uuid>,
) -> bool {
    &&& dir_reaches(data_dirs, slot_errs, write_quorum, key)
    &&& forall|other: Option<Uuid>|
        other != key ==> !#[trigger] dir_reaches(data_dirs, slot_errs, write_quorum, other)
}

/// Whether any former data directory is agreed on.
pub open spec fn some_dir_agreed(
    data_dirs: Seq<Option<Uuid>>,
    slot_errs: Seq<Option<Option<DiskError>>>,
    write_quorum: nat,
) -> bool {
    exists|key: Option<Uuid>| dir_agreed(data_dirs, slot_errs, write_quorum, key)
}

/// Every successful slot has a place in `data_dirs`.
pub open spec fn dirs_cover(
    data_dirs: Seq<Option<Uuid>>,
    slot_errs: Seq<Option<Option<DiskError>>>,
) -> bool {
    forall|i: int|
        0 <= i < slot_errs.len() && #[trigger] slot_errs[i] == Some(None::<DiskError>) ==> i
            < data_dirs.len()
}

/// How many of `n` legs have no answer yet.
pub open spec fn pending_legs(slot_errs: Seq<Option<Option<DiskError>>>, n: nat) -> nat {
    if n > completed(slot_errs) {
        (n - completed(slot_errs)) as nat
    } else {
        0
    }
}

/// Whether a quorum rename may be answered before all `n` legs are done.
pub open spec fn early_ready(
    slot_errs: Seq<Option<Option<DiskError>>>,
    data_dirs: Seq<Option<Uuid>>,
    write_quorum: nat,
    n: nat,
) -> bool {
    &&& successes(slot_errs) >= write_quorum
    &&& successes(slot_errs) > pending_legs(slot_errs, n)
    &&& exists|key: Option<Uuid>| dir_agreed(data_dirs, slot_errs, write_quorum, key)
}

proof fn lemma_dir_count_zero_iff(
    data_dirs: Seq<Option<Uuid>>,
    slot_errs: Seq<Option<Option<DiskError>>>,
    key: Option<Uuid>,
)
    ensures
        dir_count(data_dirs, slot_errs, key) > 0 <==> exists|i: int|
            0 <= i < slot_errs.len() && #[trigger] slot_errs[i] == Some(None::<DiskError>)
                && data_dirs[i] == key,
    decreases slot_errs.len(),
{
    if slot_errs.len() > 0 {
        let init = slot_errs.drop_last();
        let last = slot_errs.len() - 1;
        lemma_dir_count_zero_iff(data_dirs, init, key);
        if dir_count(data_dirs, slot_errs, key) > 0 {
            if dir_count(data_dirs, init, key) > 0 {
                let i = choose|i: int|
                    0 <= i < init.len() && #[trigger] init[i] == Some(None::<DiskError>)
                        && data_dirs[i] == key;
                assert(slot_errs[i] == Some(None::<DiskError>));
            } else {
                assert(slot_errs[last] == Some(None::<DiskError>));
            }
        }
        if exists|i: int|
            0 <= i < slot_errs.len() && #[trigger] slot_errs[i] == Some(None::<DiskError>)
                && data_dirs[i] == key {
            let i = choose|i: int|
                0 <= i < slot_errs.len() && #[trigger] slot_errs[i] == Some(None::<DiskError>)
                    && data_dirs[i] == key;
            if i < last {
                assert(init[i] == Some(None::<DiskError>));
            }
        }
    }
}

/// Whether two optional identifiers are the same.
fn same_dir(a: Option<Uuid>, b: Option<Uuid>) -> (r: bool)
    ensures
        r == (a == b),
{
    match (a, b) {
        (Some(x), Some(y)) => x == y,
        (None, None) => true,
        _ => false,
    }
}

fn is_success(slot: &Option<Option<DiskError>>) -> (r: bool)
    ensures
        r == (*slot == Some(None::<DiskError>)),
{
    match slot {
        Some(None) => true,
        _ => false,
    }
}

fn count_completed(slot_errs: &[Option<Option<DiskError>>]) -> (r: usize)
    ensures
        r == completed(slot_errs@),
        r <= slot_errs@.len(),
{
    let mut r: usize = 0;
    let mut i: usize = 0;
    assert(slot_errs@.take(0) =~= Seq::empty());
    while i < slot_errs.len()
        invariant
            i <= slot_errs@.len(),
            r <= i,
            r == completed(slot_errs@.take(i as int)),
        decreases slot_errs@.len() - i,
    {
        assert(slot_errs@.take(i + 1).drop_last() =~= slot_errs@.take(i as int));
        if slot_errs[i].is_some() {
            r = r + 1;
        }
        i = i + 1;
    }
    assert(slot_errs@.take(slot_errs@.len() as int) =~= slot_errs@);
    r
}

fn count_successes(slot_errs: &[Option<Option<DiskError>>]) -> (r: usize)
    ensures
        r == successes(slot_errs@),
        r <= slot_errs@.len(),
{
    let mut r: usize = 0;
    let mut i: usize = 0;
    assert(slot_errs@.take(0) =~= Seq::empty());
    while i < slot_errs.len()
        invariant
            i <= slot_errs@.len(),
            r <= i,
            r == successes(slot_errs@.take(i as int)),
        decreases slot_errs@.len() - i,
    {
        assert(slot_errs@.take(i + 1).drop_last() =~= slot_errs@.take(i as int));
        if is_success(&slot_errs[i]) {
            r = r + 1;
        }
        i = i + 1;
    }
    assert(slot_errs@.take(slot_errs@.len() as int) =~= slot_errs@);
    r
}

fn dir_votes(
    data_dirs: &[Option<Uuid>],
    slot_errs: &[Option<Option<DiskError>>],
    key: Option<Uuid>,
) -> (r: usize)
    requires
        dirs_cover(data_dirs@, slot_errs@),
    ensures
        r == dir_count(data_dirs@, slot_errs@, key),
{
    let mut r: usize = 0;
    let mut i: usize = 0;
    assert(slot_errs@.take(0) =~= Seq::empty());
    while i < slot_errs.len()
        invariant
            dirs_cover(data_dirs@, slot_errs@),
            i <= slot_errs@.len(),
            r <= i,
            r == dir_count(data_dirs@, slot_errs@.take(i as int), key),
        decreases slot_errs@.len() - i,
    {
        assert(slot_errs@.take(i + 1).drop_last() =~= slot_errs@.take(i as int));
        if is_success(&slot_errs[i]) {
            if same_dir(data_dirs[i], key) {
                r = r + 1;
            }
        }
        i = i + 1;
    }
    assert(slot_errs@.take(slot_errs@.len() as int) =~= slot_errs@);
    r
}

/// Among the disks whose rename succeeded, the former data directory that they
/// agree on: the one that `write_quorum` successes report, where no second one
/// is reported by as many.
pub fn quorum_old_data_dir_among_successes(
    data_dirs: &[Option<Uuid>],
    slot_errs: &[Option<Option<DiskError>>],
    write_quorum: usize,
) -> (r: Option<Option<Uuid>>)
    requires
        dirs_cover(data_dirs@, slot_errs@),
    ensures
        match r {
            Some(key) => dir_agreed(data_dirs@, slot_errs@, write_quorum as nat, key),
            None => forall|key: Option<Uuid>|
                #![trigger dir_agreed(data_dirs@, slot_errs@, write_quorum as nat, key)]
                !dir_agreed(data_dirs@, slot_errs@, write_quorum as nat, key),
        },
        r is Some <==> some_dir_agreed(data_dirs@, slot_errs@, write_quorum as nat),
{
    let ghost quorum = write_quorum as nat;
    let mut winner: Option<Option<Uuid>> = None;
    let mut i: usize = 0;
    while i < slot_errs.len()
        invariant
            dirs_cover(data_dirs@, slot_errs@),
            quorum == write_quorum,
            i <= slot_errs@.len(),
            winner matches Some(key) ==> dir_reaches(data_dirs@, slot_errs@, quorum, key),
            forall|j: int|
                0 <= j < i && #[trigger] slot_errs@[j] == Some(None::<DiskError>) && dir_reaches(
                    data_dirs@,
                    slot_errs@,
                    quorum,
                    data_dirs@[j],
                ) ==> winner == Some(data_dirs@[j]),
        decreases slot_errs@.len() - i,
    {
        if is_success(&slot_errs[i]) {
            let dir: Option<Uuid> = data_dirs[i];
            proof {
                assert(slot_errs@[i as int] == Some(None::<DiskError>));
                lemma_dir_count_zero_iff(data_dirs@, slot_errs@, dir);
            }
            if dir_votes(data_dirs, slot_errs, dir) >= write_quorum {
                assert(dir_reaches(data_dirs@, slot_errs@, quorum, dir));
                match winner {
                    None => {
                        winner = Some(dir);
                    },
                    Some(key) => {
                        if !same_dir(key, dir) {
                            assert(dir_reaches(data_dirs@, slot_errs@, quorum, key));
                            assert forall|other: Option<Uuid>|
                                !#[trigger] dir_agreed(data_dirs@, slot_errs@, quorum, other) by {
                                if other == key {
                                    assert(dir_reaches(data_dirs@, slot_errs@, quorum, dir));
                                }
                            }
                            return None;
                        }
                    },
                }
            }
        }
        i = i + 1;
    }
    assert forall|key: Option<Uuid>| #[trigger]
        dir_reaches(data_dirs@, slot_errs@, quorum, key) implies winner == Some(key) by {
        lemma_dir_count_zero_iff(data_dirs@, slot_errs@, key);
        let j = choose|j: int|
            0 <= j < slot_errs@.len() && #[trigger] slot_errs@[j] == Some(None::<DiskError>)
                && data_dirs@[j] == key;
        assert(slot_errs@[j] == Some(None::<DiskError>));
    }
    winner
}

/// Whether a quorum rename may be answered before all `n` legs are done: the
/// successes reach the quorum, they outnumber the legs still pending, and they
/// agree on the former data directory.
pub fn rename_data_early_ready(
    slot_errs: &[Option<Option<DiskError>>],
    data_dirs: &[Option<Uuid>],
    write_quorum: usize,
    n: usize,
) -> (r: bool)
    requires
        dirs_cover(data_dirs@, slot_errs@),
    ensures
        r == early_ready(slot_errs@, data_dirs@, write_quorum as nat, n as nat),
        r ==> Set::new(
            |i: int| 0 <= i < slot_errs@.len() && slot_errs@[i] == Some(None::<DiskError>),
        ).len() >= write_quorum,
{
    proof {
        law_counts_are_slots(data_dirs@, slot_errs@, None);
    }
    let done: usize = count_completed(slot_errs);
    let pending: usize = if n > done {
        n - done
    } else {
        0
    };
    let ok: usize = count_successes(slot_errs);
    if ok >= write_quorum && ok > pending {
        match quorum_old_data_dir_among_successes(data_dirs, slot_errs, write_quorum) {
            Some(key) => {
                assert(dir_agreed(data_dirs@, slot_errs@, write_quorum as nat, key));
                true
            },
            None => false,
        }
    } else {
        false
    }
}

/// The outcome per disk that a rename would have if every pending leg stayed
/// away: a pending slot counts as an offline disk.
pub open spec fn partial_errs(slot_errs: Seq<Option<Option<DiskError>>>) -> Seq<
    Option<DiskError>,
> {
    Seq::new(
        slot_errs.len(),
        |i: int|
            match slot_errs[i] {
                None => Some(DiskError::DiskNotFound),
                Some(e) => e,
            },
    )
}

/// The provisional outcome per disk before all legs are done.
pub fn errs_for_partial_eval(slot_errs: &[Option<Option<DiskError>>]) -> (r: Result<
    Vec<Option<DiskError>>,
    DiskError,
>)
    ensures
        r matches Ok(errs) && errs@ == partial_errs(slot_errs@),
{
    let mut errs: Vec<Option<DiskError>> = Vec::new();
    let mut i: usize = 0;
    while i < slot_errs.len()
        invariant
            i <= slot_errs@.len(),
            errs@ == partial_errs(slot_errs@).take(i as int),
        decreases slot_errs@.len() - i,
    {
        match slot_errs[i] {
            None => {
                errs.push(Some(DiskError::DiskNotFound));
            },
            Some(e) => {
                errs.push(e);
            },
        }
        assert(partial_errs(slot_errs@).take(i + 1) =~= partial_errs(slot_errs@).take(
            i as int,
        ).push(partial_errs(slot_errs@)[i as int]));
        i = i + 1;
    }
    assert(partial_errs(slot_errs@).take(slot_errs@.len() as int) =~= partial_errs(slot_errs@));
    Ok(errs)
}

/// The final outcome per disk. A slot that never got an answer makes the whole
/// outcome unusable.
pub fn final_errs(slot_errs: &[Option<Option<DiskError>>]) -> (r: Result<
    Vec<Option<DiskError>>,
    DiskError,
>)
    ensures
        match r {
            Ok(errs) => {
                &&& errs@.len() == slot_errs@.len()
                &&& forall|i: int|
                    0 <= i < slot_errs@.len() ==> slot_errs@[i] == Some(#[trigger] errs@[i])
            },
            Err(e) => {
                &&& e == DiskError::Unexpected
                &&& exists|i: int| 0 <= i < slot_errs@.len() && #[trigger] slot_errs@[i] is None
            },
        },
{
    let mut errs: Vec<Option<DiskError>> = Vec::new();
    let mut i: usize = 0;
    while i < slot_errs.len()
        invariant
            i <= slot_errs@.len(),
            errs@.len() == i,
            forall|j: int| 0 <= j < i ==> slot_errs@[j] == Some(#[trigger] errs@[j]),
        decreases slot_errs@.len() - i,
    {
        match slot_errs[i] {
            None => {
                assert(slot_errs@[i as int] is None);
                return Err(DiskError::Unexpected);
            },
            Some(e) => {
                errs.push(e);
            },
        }
        i = i + 1;
    }
    Ok(errs)
}

/// How one leg of a rename came back.
#[derive(Debug)]
pub enum LegEvent {
    /// The disk in this slot answered.
    Done(usize, Result<RenameDataResp, DiskError>),
    /// The task that asked the disk gave up with this error.
    TaskFailed(DiskError),
    /// The task that asked the disk could not be joined.
    JoinFailed,
}

impl LegEvent {
    /// The failure that the event stands for, if it stands for one.
    pub open spec fn failure(self) -> Option<DiskError> {
        match self {
            LegEvent::Done(_, Ok(_)) => None,
            LegEvent::Done(_, Err(e)) => Some(e),
            LegEvent::TaskFailed(e) => Some(e),
            LegEvent::JoinFailed => Some(DiskError::Unexpected),
        }
    }
}

/// One disk that has to take a write back, and the data directory that it had before.
#[derive(Clone, Copy, Debug, PartialEq, Eq, Structural)]
pub struct UndoTarget {
    pub index: usize,
    pub old_data_dir: Option<Uuid>,
}

impl UndoTarget {
    /// How the disk takes the write back: the version that it wrote goes, and the
    /// data directory that it had before comes back.
    pub fn undo_delete(&self) -> (r: VersionDelete)
        ensures
            r == (VersionDelete {
                force: false,
                opts: DeleteOptions {
                    recursive: false,
                    immediate: false,
                    undo_write: true,
                    old_data_dir: self.old_data_dir,
                },
            }),
    {
        VersionDelete {
            force: false,
            opts: DeleteOptions {
                recursive: false,
                immediate: false,
                undo_write: true,
                old_data_dir: self.old_data_dir,
            },
        }
    }
}

/// The disks among the first `n` slots that have to take the write back: those
/// that are there and did not fail.
pub open spec fn undo_list<D>(
    disks: Seq<Option<D>>,
    errs: Seq<Option<DiskError>>,
    data_dirs: Seq<Option<Uuid>>,
    n: nat,
) -> Seq<UndoTarget>
    decreases n,
{
    if n == 0 {
        Seq::empty()
    } else {
        let before = undo_list(disks, errs, data_dirs, (n - 1) as nat);
        if errs[n - 1] is None && disks[n - 1] is Some {
            before.push(UndoTarget { index: (n - 1) as usize, old_data_dir: data_dirs[n - 1] })
        } else {
            before
        }
    }
}

/// What a rename that reached its quorum hands back.
pub struct RenameOutcome<D> {
    /// The disks that hold the object now.
    pub disks: Vec<Option<D>>,
    /// The common version signature; none is computed.
    pub versions: Option<Vec<u8>>,
    /// The data directory that the object had before.
    pub data_dir: Option<Uuid>,
}

/// What to do once every leg has answered.
pub enum RenameVerdict<D> {
    /// The quorum was missed: take the write back on these disks, then report the error.
    Undo { targets: Vec<UndoTarget>, err: DiskError },
    /// The object is committed.
    Committed(RenameOutcome<D>),
}

/// What to do after one leg of a rename that may end early.
pub enum BarrierStep<D> {
    /// Wait for the next leg.
    Wait,
    /// No leg is left: settle the rename.
    Drained,
    /// The object is committed although legs may still be pending.
    EarlyOk(RenameOutcome<D>),
    /// Wait for the legs that are still pending, then give up with this error.
    Failed(DiskError),
}

/// The answers collected so far by one rename over all disks.
pub struct RenameRun {
    pub data_dirs: Vec<Option<Uuid>>,
    pub disk_versions: Vec<Option<Vec<u8>>>,
    pub slot_errs: Vec<Option<Option<DiskError>>>,
    pub write_quorum: usize,
}

impl View for RenameRun {
    type V = Slots;

    open spec fn view(&self) -> Slots {
        Slots {
            data_dirs: self.data_dirs@,
            versions: self.disk_versions@,
            slot_errs: self.slot_errs@,
        }
    }
}

impl RenameRun {
    /// Every slot has its place in all three lists.
    pub open spec fn wf(self) -> bool {
        &&& self.data_dirs@.len() == self.slot_errs@.len()
        &&& self.disk_versions@.len() == self.slot_errs@.len()
    }

    /// The number of disk slots.
    pub open spec fn n(self) -> nat {
        self.slot_errs@.len()
    }

    /// Whether the rename may be answered now.
    pub open spec fn ready(self) -> bool {
        early_ready(self.slot_errs@, self.data_dirs@, self.write_quorum as nat, self.n())
    }

    /// A rename over `n` disks of which none has answered.
    pub fn new(n: usize, write_quorum: usize) -> (r: RenameRun)
        ensures
            r.wf(),
            r@ == Slots::pending(n as nat),
            r.write_quorum == write_quorum,
    {
        let mut data_dirs: Vec<Option<Uuid>> = Vec::new();
        let mut disk_versions: Vec<Option<Vec<u8>>> = Vec::new();
        let mut slot_errs: Vec<Option<Option<DiskError>>> = Vec::new();
        let mut i: usize = 0;
        while i < n
            invariant
                i <= n,
                data_dirs@ =~= Seq::new(i as nat, |j: int| None),
                disk_versions@ =~= Seq::new(i as nat, |j: int| None),
                slot_errs@ =~= Seq::new(i as nat, |j: int| None),
            decreases n - i,
        {
            data_dirs.push(None);
            disk_versions.push(None);
            slot_errs.push(None);
            i = i + 1;
        }
        let r = RenameRun { data_dirs, disk_versions, slot_errs, write_quorum };
        assert(r@ =~= Slots::pending(n as nat));
        r
    }

    /// Takes one leg's event into the collected answers. A leg that brought no
    /// answer ends the rename with its error.
    pub fn record_leg(&mut self, event: LegEvent) -> (r: Result<(), DiskError>)
        requires
            old(self).wf(),
            event matches LegEvent::Done(i, _) ==> i < old(self).n(),
        ensures
            final(self).wf(),
            final(self).n() == old(self).n(),
            final(self).write_quorum == old(self).write_quorum,
            match event {
                LegEvent::Done(i, result) => r is Ok && final(self)@ == old(self)@.record(
                    i as int,
                    result,
                ),
                LegEvent::TaskFailed(e) => r == Err::<(), DiskError>(e) && final(self)@ == old(
                    self,
                )@,
                LegEvent::JoinFailed => r == Err::<(), DiskError>(DiskError::Unexpected)
                    && final(self)@ == old(self)@,
            },
    {
        match event {
            LegEvent::Done(idx, result) => {
                SetDisks::rename_data_record_disk_outcome(
                    idx,
                    result,
                    self.data_dirs.as_mut_slice(),
                    self.disk_versions.as_mut_slice(),
                    self.slot_errs.as_mut_slice(),
                );
                Ok(())
            },
            LegEvent::TaskFailed(e) => Err(e),
            LegEvent::JoinFailed => Err(DiskError::Unexpected),
        }
    }
}

/// A rename that waits for all legs.
pub struct FullRename {
    pub run: RenameRun,
    /// How many legs came back, with an answer or without.
    pub taken: usize,
    /// Whether a leg came back without an answer.
    pub lost_leg: bool,
}

/// What a rename that waits for all legs does next.
pub enum FullRenameStep {
    /// Wait for the next leg.
    Wait,
    /// All legs have answered, each disk like this: settle the rename.
    Settle(Vec<Option<DiskError>>),
    /// Give up with this error.
    Failed(DiskError),
}

/// What a rename that waits for all legs knows.
#[verifier::ext_equal]
pub struct FullSlots {
    pub slots: Slots,
    pub taken: nat,
    pub lost_leg: bool,
}

impl FullSlots {
    /// A rename over `n` disks of which none came back.
    pub open spec fn pending(n: nat) -> FullSlots {
        FullSlots { slots: Slots::pending(n), taken: 0, lost_leg: false }
    }

    /// What is known once leg `i` came back: with an answer, or lost.
    pub open spec fn take_in(
        self,
        i: int,
        leg: Option<Result<RenameDataResp, DiskError>>,
    ) -> FullSlots {
        match leg {
            Some(result) => FullSlots {
                slots: self.slots.record(i, result),
                taken: self.taken + 1,
                ..self
            },
            None => FullSlots { taken: self.taken + 1, lost_leg: true, ..self },
        }
    }

    /// What is known once the legs named in `order` came back, each leg `i`
    /// with `legs[i]`.
    pub open spec fn merged(
        legs: Seq<Option<Result<RenameDataResp, DiskError>>>,
        order: Seq<int>,
    ) -> FullSlots
        decreases order.len(),
    {
        if order.len() == 0 {
            FullSlots::pending(legs.len())
        } else {
            FullSlots::merged(legs, order.drop_last()).take_in(order.last(), legs[order.last()])
        }
    }

    /// Whether a leg is waited for: not as many came back as there are disks.
    pub open spec fn waits(self) -> bool {
        self.taken < self.slots.slot_errs.len()
    }

    /// Whether the rename fails: all legs came back, and some without an answer.
    pub open spec fn fails(self) -> bool {
        !self.waits() && (self.lost_leg || exists|i: int|
            0 <= i < self.slots.slot_errs.len() && #[trigger] self.slots.slot_errs[i] is None)
    }

    /// Whether the rename can be settled: all legs came back with an answer.
    pub open spec fn settles(self) -> bool {
        !self.waits() && !self.fails()
    }
}

impl View for FullRename {
    type V = FullSlots;

    open spec fn view(&self) -> FullSlots {
        FullSlots { slots: self.run@, taken: self.taken as nat, lost_leg: self.lost_leg }
    }
}

impl FullRename {
    /// No more legs came back than there are disks.
    pub open spec fn wf(self) -> bool {
        self.run.wf() && self.taken <= self.run.n()
    }

    /// A rename over `n` disks of which none has answered.
    pub fn new(n: usize, write_quorum: usize) -> (r: FullRename)
        ensures
            r.wf(),
            r@ == FullSlots::pending(n as nat),
            r.run.write_quorum == write_quorum,
    {
        FullRename { run: RenameRun::new(n, write_quorum), taken: 0, lost_leg: false }
    }

    /// What to do next. As many legs are waited for as there are disks, whatever
    /// they bring; then the rename is settled, or fails where a leg was lost.
    pub fn next_step(&self) -> (r: FullRenameStep)
        requires
            self.wf(),
        ensures
            r is Wait <==> self@.waits(),
            r is Failed <==> self@.fails(),
            r is Settle <==> self@.settles(),
            r matches FullRenameStep::Failed(e) ==> e == DiskError::Unexpected,
            r matches FullRenameStep::Settle(errs) ==> {
                &&& errs@.len() == self.run.n()
                &&& forall|i: int|
                    0 <= i < self.run.n() ==> self.run.slot_errs@[i] == Some(#[trigger] errs@[i])
            },
    {
        if self.taken < self.run.slot_errs.len() {
            return FullRenameStep::Wait;
        }
        if self.lost_leg {
            return FullRenameStep::Failed(DiskError::Unexpected);
        }
        match final_errs(self.run.slot_errs.as_slice()) {
            Ok(errs) => {
                assert forall|i: int| 0 <= i < self.run.n() implies #[trigger] self.run.slot_errs@[i]
                    is Some by {
                    assert(self.run.slot_errs@[i] == Some(errs@[i]));
                }
                FullRenameStep::Settle(errs)
            },
            Err(e) => FullRenameStep::Failed(e),
        }
    }
}

impl SetDisks {
    /// Records one disk's answer in its slot. Every other slot stays as it is.
    pub fn rename_data_record_disk_outcome(
        idx: usize,
        disk_result: Result<RenameDataResp, DiskError>,
        data_dirs: &mut [Option<Uuid>],
        disk_versions: &mut [Option<Vec<u8>>],
        slot_errs: &mut [Option<Option<DiskError>>],
    )
        requires
            idx < old(slot_errs)@.len(),
            disk_result is Ok ==> idx < old(data_dirs)@.len() && idx < old(disk_versions)@.len(),
        ensures
            (Slots {
                data_dirs: final(data_dirs)@,
                versions: final(disk_versions)@,
                slot_errs: final(slot_errs)@,
            }) == (Slots {
                data_dirs: old(data_dirs)@,
                versions: old(disk_versions)@,
                slot_errs: old(slot_errs)@,
            }).record(idx as int, disk_result),
    {
        match disk_result {
            Ok(res) => {
                data_dirs[idx] = res.old_data_dir;
                disk_versions[idx] = res.sign;
                slot_errs[idx] = Some(None);
            },
            Err(e) => {
                slot_errs[idx] = Some(Some(e));
            },
        }
    }

    /// How many legs a rename starts: one for each disk slot that has metadata.
    pub fn rename_data_leg_count(disks: usize, file_infos: usize) -> (r: usize)
        ensures
            r == if disks <= file_infos {
                disks
            } else {
                file_infos
            },
    {
        if disks <= file_infos {
            disks
        } else {
            file_infos
        }
    }

    /// The erasure index that slot `i` writes: the one its metadata has, or the
    /// slot's own place where the metadata has none.
    pub fn rename_data_leg_index(i: usize, erasure_index: usize) -> (r: usize)
        requires
            i < usize::MAX,
        ensures
            r == if erasure_index == 0 {
                i + 1
            } else {
                erasure_index as int
            },
    {
        if erasure_index == 0 {
            i + 1
        } else {
            erasure_index
        }
    }

    /// Whether a leg may ask its disk: the metadata has to be valid and the
    /// disk has to be there.
    pub fn rename_data_leg_check(file_info_valid: bool, online: bool) -> (r: Result<(), DiskError>)
        ensures
            r is Ok <==> file_info_valid && online,
            !file_info_valid ==> r == Err::<(), DiskError>(DiskError::FileCorrupt),
            file_info_valid && !online ==> r == Err::<(), DiskError>(DiskError::DiskNotFound),
    {
        if !file_info_valid {
            return Err(DiskError::FileCorrupt);
        }
        if online {
            Ok(())
        } else {
            Err(DiskError::DiskNotFound)
        }
    }

    /// One completion of a rename that waits for all legs. A leg that was lost
    /// is taken in like one that answered: the others are still waited for. An
    /// error comes only where no leg is left although one is missing.
    pub fn rename_data(full: &mut FullRename, completion: Option<LegEvent>) -> (r: Result<
        (),
        DiskError,
    >)
        requires
            old(full).wf(),
            old(full)@.waits(),
            completion matches Some(LegEvent::Done(i, _)) ==> i < old(full).run.n(),
        ensures
            final(full).wf(),
            final(full).run.n() == old(full).run.n(),
            final(full).run.write_quorum == old(full).run.write_quorum,
            match completion {
                Some(LegEvent::Done(i, result)) => r is Ok && final(full)@ == old(full)@.take_in(
                    i as int,
                    Some(result),
                ),
                Some(LegEvent::TaskFailed(_)) | Some(LegEvent::JoinFailed) => r is Ok
                    && forall|i: int|
                    #![trigger old(full)@.take_in(i, None)]
                    final(full)@ == old(full)@.take_in(i, None),
                None => r == Err::<(), DiskError>(DiskError::Unexpected) && final(full)@ == old(
                    full,
                )@,
            },
    {
        let n: usize = full.run.slot_errs.len();
        assert(full.taken < n);
        match completion {
            Some(event) => {
                match full.run.record_leg(event) {
                    Ok(()) => {},
                    Err(_) => {
                        full.lost_leg = true;
                    },
                }
                full.taken = full.taken + 1;
                Ok(())
            },
            None => Err(DiskError::Unexpected),
        }
    }

    /// One completion of a rename that may end early. After every answer the
    /// rename is committed as soon as the answers so far allow it; a pending
    /// disk then counts as offline. `None` says that no leg is left.
    pub fn rename_data_with_barrier<D: Clone>(
        run: &mut RenameRun,
        disks: &[Option<D>],
        completion: Option<LegEvent>,
    ) -> (r: BarrierStep<D>)
        requires
            old(run).wf(),
            disks@.len() == old(run).n(),
            completion matches Some(LegEvent::Done(i, _)) ==> i < old(run).n(),
        ensures
            final(run).wf(),
            final(run).n() == old(run).n(),
            final(run).write_quorum == old(run).write_quorum,
            match completion {
                None => r is Drained && final(run)@ == old(run)@,
                Some(LegEvent::TaskFailed(e)) => r == BarrierStep::<D>::Failed(e) && final(run)@
                    == old(run)@,
                Some(LegEvent::JoinFailed) => r == BarrierStep::<D>::Failed(DiskError::Unexpected)
                    && final(run)@ == old(run)@,
                Some(LegEvent::Done(i, result)) => {
                    &&& final(run)@ == old(run)@.record(i as int, result)
                    &&& if final(run).ready() {
                        &&& r matches BarrierStep::EarlyOk(out)
                        &&& crate::set_disks::online_after(disks@, partial_errs(final(run).slot_errs@), out.disks@)
                        &&& out.versions is None
                        &&& dir_agreed(
                            final(run).data_dirs@,
                            final(run).slot_errs@,
                            final(run).write_quorum as nat,
                            out.data_dir,
                        )
                        &&& Set::new(
                            |k: int|
                                0 <= k < final(run).slot_errs@.len() && final(run).slot_errs@[k]
                                    == Some(None::<DiskError>),
                        ).len() >= final(run).write_quorum
                        &&& Set::new(
                            |k: int|
                                0 <= k < final(run).slot_errs@.len() && final(run).slot_errs@[k]
                                    == Some(None::<DiskError>) && final(run).data_dirs@[k]
                                    == out.data_dir,
                        ).len() >= final(run).write_quorum
                    } else {
                        r is Wait
                    }
                },
            },
    {
        let event: LegEvent = match completion {
            Some(event) => event,
            None => {
                return BarrierStep::Drained;
            },
        };
        match run.record_leg(event) {
            Ok(()) => {},
            Err(e) => {
                return BarrierStep::Failed(e);
            },
        }
        let n: usize = run.slot_errs.len();
        if !rename_data_early_ready(
            run.slot_errs.as_slice(),
            run.data_dirs.as_slice(),
            run.write_quorum,
            n,
        ) {
            return BarrierStep::Wait;
        }
        let errs: Vec<Option<DiskError>> = match errs_for_partial_eval(run.slot_errs.as_slice()) {
            Ok(errs) => errs,
            Err(e) => {
                return BarrierStep::Failed(e);
            },
        };
        match quorum_old_data_dir_among_successes(
            run.data_dirs.as_slice(),
            run.slot_errs.as_slice(),
            run.write_quorum,
        ) {
            Some(data_dir) => {
                proof {
                    law_counts_are_slots(run.data_dirs@, run.slot_errs@, data_dir);
                }
                BarrierStep::EarlyOk(
                    RenameOutcome {
                        disks: SetDisks::eval_disks(disks, errs.as_slice()),
                        versions: None,
                        data_dir,
                    },
                )
            },
            None => BarrierStep::Wait,
        }
    }

    /// What follows once every leg has answered. `quorum_err` is the error that
    /// the outcomes reduce to where they miss the write quorum, `common_dir`
    /// the data directory that the answers have in common.
    pub fn rename_data_settle<D: Clone>(
        disks: &[Option<D>],
        errs: &[Option<DiskError>],
        data_dirs: &[Option<Uuid>],
        quorum_err: Option<DiskError>,
        common_dir: Option<Uuid>,
    ) -> (r: RenameVerdict<D>)
        requires
            disks@.len() == errs@.len(),
            data_dirs@.len() == errs@.len(),
        ensures
            match quorum_err {
                Some(e) => {
                    &&& r matches RenameVerdict::Undo { targets, err }
                    &&& err == e
                    &&& targets@ == undo_list(disks@, errs@, data_dirs@, errs@.len())
                },
                None => {
                    &&& r matches RenameVerdict::Committed(out)
                    &&& crate::set_disks::online_after(disks@, errs@, out.disks@)
                    &&& out.versions is None
                    &&& out.data_dir == common_dir
                },
            },
    {
        match quorum_err {
            Some(err) => {
                let mut targets: Vec<UndoTarget> = Vec::new();
                let mut i: usize = 0;
                while i < errs.len()
                    invariant
                        disks@.len() == errs@.len(),
                        data_dirs@.len() == errs@.len(),
                        i <= errs@.len(),
                        targets@ == undo_list(disks@, errs@, data_dirs@, i as nat),
                    decreases errs@.len() - i,
                {
                    if errs[i].is_none() && disks[i].is_some() {
                        targets.push(UndoTarget { index: i, old_data_dir: data_dirs[i] });
                    }
                    i = i + 1;
                }
                RenameVerdict::Undo { targets, err }
            },
            None => RenameVerdict::Committed(
                RenameOutcome {
                    disks: SetDisks::eval_disks(disks, errs),
                    versions: None,
                    data_dir: common_dir,
                },
            ),
        }
    }
}

/// What a slot holds after some legs have answered: what the leg of that slot
/// answered, or nothing where it has not.
proof fn lemma_merged_slot(
    answers: Seq<Result<RenameDataResp, DiskError>>,
    order: Seq<int>,
    i: int,
)
    requires
        forall|k: int| 0 <= k < order.len() ==> 0 <= #[trigger] order[k] < answers.len(),
        0 <= i < answers.len(),
    ensures
        ({
            let s = Slots::merged(answers, order);
            &&& s.data_dirs.len() == answers.len()
            &&& s.versions.len() == answers.len()
            &&& s.slot_errs.len() == answers.len()
            &&& s.slot_errs[i] == if order.contains(i) {
                Some(answers[i].err())
            } else {
                None
            }
            &&& s.data_dirs[i] == if order.contains(i) && answers[i] is Ok {
                answers[i]->Ok_0.old_data_dir
            } else {
                None
            }
            &&& s.versions[i] == if order.contains(i) && answers[i] is Ok {
                answers[i]->Ok_0.sign
            } else {
                None
            }
        }),
    decreases order.len(),
{
    if order.len() > 0 {
        let init = order.drop_last();
        assert forall|k: int| 0 <= k < init.len() implies 0 <= #[trigger] init[k]
            < answers.len() by {
            assert(init[k] == order[k]);
        }
        lemma_merged_slot(answers, init, i);
        assert(order =~= init.push(order.last()));
        assert(order.contains(i) <==> init.contains(i) || order.last() == i) by {
            if order.contains(i) {
                let k = choose|k: int| 0 <= k < order.len() && order[k] == i;
                if k < init.len() {
                    assert(init[k] == i);
                }
            }
            if init.contains(i) {
                let k = choose|k: int| 0 <= k < init.len() && init[k] == i;
                assert(order[k] == i);
            }
            assert(order[order.len() - 1] == order.last());
        }
    } else {
        assert(!order.contains(i));
    }
}

/// The order in which the legs answer does not matter: two orders of the same
/// legs leave the same outcome, data directory and version in every slot, and
/// so any summary of the slots is the same too.
pub proof fn law_merge_order_independent(
    answers: Seq<Result<RenameDataResp, DiskError>>,
    first: Seq<int>,
    second: Seq<int>,
)
    requires
        forall|k: int| 0 <= k < first.len() ==> 0 <= #[trigger] first[k] < answers.len(),
        forall|k: int| 0 <= k < second.len() ==> 0 <= #[trigger] second[k] < answers.len(),
        forall|i: int| first.contains(i) <==> second.contains(i),
    ensures
        Slots::merged(answers, first) == Slots::merged(answers, second),
{
    let a = Slots::merged(answers, first);
    let b = Slots::merged(answers, second);
    assert forall|i: int| 0 <= i < answers.len() implies a.slot_errs[i] == b.slot_errs[i]
        && a.data_dirs[i] == b.data_dirs[i] && a.versions[i] == b.versions[i] by {
        lemma_merged_slot(answers, first, i);
        lemma_merged_slot(answers, second, i);
    }
    if answers.len() > 0 {
        lemma_merged_slot(answers, first, 0);
        lemma_merged_slot(answers, second, 0);
    } else {
        assert(first.len() == 0) by {
            if first.len() > 0 {
                assert(0 <= first[0] < answers.len());
            }
        }
        assert(second.len() == 0) by {
            if second.len() > 0 {
                assert(0 <= second[0] < answers.len());
            }
        }
    }
    assert(a.data_dirs =~= b.data_dirs);
    assert(a.versions =~= b.versions);
    assert(a.slot_errs =~= b.slot_errs);
}

/// Once every leg has answered exactly once, in whatever order, no slot is
/// pending, and each holds what its own disk answered.
pub proof fn law_all_legs_recorded(
    answers: Seq<Result<RenameDataResp, DiskError>>,
    order: Seq<int>,
    i: int,
)
    requires
        order.len() == answers.len(),
        order.no_duplicates(),
        forall|k: int| 0 <= k < order.len() ==> 0 <= #[trigger] order[k] < answers.len(),
        0 <= i < answers.len(),
    ensures
        Slots::merged(answers, order).slot_errs[i] == Some(answers[i].err()),
        answers[i] matches Ok(res) ==> {
            &&& Slots::merged(answers, order).data_dirs[i] == res.old_data_dir
            &&& Slots::merged(answers, order).versions[i] == res.sign
        },
{
    lemma_distinct_cover(order, answers.len(), i);
    lemma_merged_slot(answers, order, i);
}

/// A rename that waits for all legs neither settles nor fails while one of the
/// legs that it started is outstanding, whatever the others brought.
pub proof fn law_no_end_while_legs_are_outstanding(full: FullSlots, started: nat)
    requires
        started <= full.slots.slot_errs.len(),
        full.taken < started,
    ensures
        full.waits(),
        !full.settles(),
        !full.fails(),
{
}

/// What a rename that waits for all legs comes to does not depend on the order
/// in which they came back: it fails where one was lost, and else settles with
/// what each disk answered.
pub proof fn law_full_rename_order_independent(
    legs: Seq<Option<Result<RenameDataResp, DiskError>>>,
    first: Seq<int>,
    second: Seq<int>,
)
    requires
        first.len() == legs.len(),
        second.len() == legs.len(),
        first.no_duplicates(),
        second.no_duplicates(),
        forall|k: int| 0 <= k < first.len() ==> 0 <= #[trigger] first[k] < legs.len(),
        forall|k: int| 0 <= k < second.len() ==> 0 <= #[trigger] second[k] < legs.len(),
    ensures
        FullSlots::merged(legs, first) == FullSlots::merged(legs, second),
        !FullSlots::merged(legs, first).waits(),
        FullSlots::merged(legs, first).fails() <==> exists|i: int|
            0 <= i < legs.len() && #[trigger] legs[i] is None,
{
    let a = FullSlots::merged(legs, first);
    let b = FullSlots::merged(legs, second);
    lemma_full_merged_shape(legs, first);
    lemma_full_merged_shape(legs, second);
    assert forall|i: int|
        #![trigger a.slots.slot_errs[i]]
        #![trigger a.slots.data_dirs[i]]
        #![trigger a.slots.versions[i]]
        0 <= i < legs.len() implies a.slots.slot_errs[i] == b.slots.slot_errs[i]
        && a.slots.data_dirs[i] == b.slots.data_dirs[i] && a.slots.versions[i]
        == b.slots.versions[i] && (legs[i] is None || a.slots.slot_errs[i] is Some) by {
        lemma_distinct_cover(first, legs.len(), i);
        lemma_distinct_cover(second, legs.len(), i);
        lemma_full_merged_slot(legs, first, i);
        lemma_full_merged_slot(legs, second, i);
    }
    assert(a.slots.slot_errs =~= b.slots.slot_errs);
    assert(a.slots.data_dirs =~= b.slots.data_dirs);
    assert(a.slots.versions =~= b.slots.versions);
    if exists|i: int| 0 <= i < legs.len() && #[trigger] legs[i] is None {
        let i = choose|i: int| 0 <= i < legs.len() && #[trigger] legs[i] is None;
        lemma_distinct_cover(first, legs.len(), i);
        lemma_distinct_cover(second, legs.len(), i);
        let k = choose|k: int| 0 <= k < first.len() && first[k] == i;
        assert(legs[first[k]] is None);
        let l = choose|l: int| 0 <= l < second.len() && second[l] == i;
        assert(legs[second[l]] is None);
    }
}

/// What is known of the number of legs and of lost ones after some came back.
proof fn lemma_full_merged_shape(
    legs: Seq<Option<Result<RenameDataResp, DiskError>>>,
    order: Seq<int>,
)
    requires
        forall|k: int| 0 <= k < order.len() ==> 0 <= #[trigger] order[k] < legs.len(),
    ensures
        ({
            let f = FullSlots::merged(legs, order);
            &&& f.slots.data_dirs.len() == legs.len()
            &&& f.slots.versions.len() == legs.len()
            &&& f.slots.slot_errs.len() == legs.len()
            &&& f.taken == order.len()
            &&& f.lost_leg <==> exists|k: int|
                0 <= k < order.len() && legs[#[trigger] order[k]] is None
        }),
    decreases order.len(),
{
    if order.len() > 0 {
        let init = order.drop_last();
        assert forall|k: int| 0 <= k < init.len() implies init[k] == #[trigger] order[k] by {}
        lemma_full_merged_shape(legs, init);
        if exists|k: int| 0 <= k < order.len() && legs[#[trigger] order[k]] is None {
            let k = choose|k: int| 0 <= k < order.len() && legs[#[trigger] order[k]] is None;
            if k < init.len() {
                assert(legs[init[k]] is None);
            }
        }
        if exists|k: int| 0 <= k < init.len() && legs[#[trigger] init[k]] is None {
            let k = choose|k: int| 0 <= k < init.len() && legs[#[trigger] init[k]] is None;
            assert(legs[order[k]] is None);
        }
        assert(order[order.len() - 1] == order.last());
    }
}

/// What a slot holds after some legs came back.
proof fn lemma_full_merged_slot(
    legs: Seq<Option<Result<RenameDataResp, DiskError>>>,
    order: Seq<int>,
    i: int,
)
    requires
        forall|k: int| 0 <= k < order.len() ==> 0 <= #[trigger] order[k] < legs.len(),
        0 <= i < legs.len(),
    ensures
        ({
            let s = FullSlots::merged(legs, order).slots;
            let leg = if order.contains(i) {
                legs[i]
            } else {
                None
            };
            match leg {
                Some(Ok(res)) => s.slot_errs[i] == Some(None::<DiskError>) && s.data_dirs[i]
                    == res.old_data_dir && s.versions[i] == res.sign,
                Some(Err(e)) => s.slot_errs[i] == Some(Some(e)) && s.data_dirs[i] is None
                    && s.versions[i] is None,
                None => s.slot_errs[i] is None && s.data_dirs[i] is None && s.versions[i] is None,
            }
        }),
    decreases order.len(),
{
    if order.len() > 0 {
        let init = order.drop_last();
        assert forall|k: int| 0 <= k < init.len() implies 0 <= #[trigger] init[k]
            < legs.len() by {
            assert(init[k] == order[k]);
        }
        lemma_full_merged_shape(legs, init);
        lemma_full_merged_slot(legs, init, i);
        assert(order.contains(i) <==> init.contains(i) || order.last() == i) by {
            if order.contains(i) {
                let k = choose|k: int| 0 <= k < order.len() && order[k] == i;
                if k < init.len() {
                    assert(init[k] == i);
                }
            }
            if init.contains(i) {
                let k = choose|k: int| 0 <= k < init.len() && init[k] == i;
                assert(order[k] == i);
            }
            assert(order[order.len() - 1] == order.last());
        }
    } else {
        assert(!order.contains(i));
    }
}

/// As many distinct places as there are name all of them.
proof fn lemma_distinct_cover(order: Seq<int>, n: nat, i: int)
    requires
        order.len() == n,
        order.no_duplicates(),
        forall|k: int| 0 <= k < order.len() ==> 0 <= #[trigger] order[k] < n,
        0 <= i < n,
    ensures
        order.contains(i),
{
    let all = vstd::set_lib::set_int_range(0, n as int);
    vstd::set_lib::lemma_int_range(0, n as int);
    order.unique_seq_to_set();
    vstd::seq_lib::seq_to_set_is_finite(order);
    assert(order.to_set().subset_of(all));
    vstd::set_lib::lemma_subset_equality(order.to_set(), all);
    assert(order.to_set().contains(i));
}

proof fn lemma_two_keys_fit(
    data_dirs: Seq<Option<Uuid>>,
    slot_errs: Seq<Option<Option<DiskError>>>,
    a: Option<Uuid>,
    b: Option<Uuid>,
)
    requires
        a != b,
    ensures
        dir_count(data_dirs, slot_errs, a) + dir_count(data_dirs, slot_errs, b) <= successes(
            slot_errs,
        ),
        successes(slot_errs) <= completed(slot_errs) <= slot_errs.len(),
    decreases slot_errs.len(),
{
    if slot_errs.len() > 0 {
        lemma_two_keys_fit(data_dirs, slot_errs.drop_last(), a, b);
    }
}

/// No two data directories are agreed on. Where a write quorum is more than half
/// of the successes, one that reaches the quorum is agreed on.
pub proof fn law_quorum_dir_is_unique(
    data_dirs: Seq<Option<Uuid>>,
    slot_errs: Seq<Option<Option<DiskError>>>,
    write_quorum: nat,
    key: Option<Uuid>,
    other: Option<Uuid>,
)
    ensures
        dir_agreed(data_dirs, slot_errs, write_quorum, key) && dir_agreed(
            data_dirs,
            slot_errs,
            write_quorum,
            other,
        ) ==> key == other,
        2 * write_quorum > successes(slot_errs) ==> (dir_agreed(
            data_dirs,
            slot_errs,
            write_quorum,
            key,
        ) <==> dir_reaches(data_dirs, slot_errs, write_quorum, key)),
{
    if 2 * write_quorum > successes(slot_errs) && dir_reaches(
        data_dirs,
        slot_errs,
        write_quorum,
        key,
    ) {
        assert forall|k: Option<Uuid>| k != key implies !#[trigger] dir_reaches(
            data_dirs,
            slot_errs,
            write_quorum,
            k,
        ) by {
            lemma_two_keys_fit(data_dirs, slot_errs, key, k);
        }
    }
}

proof fn lemma_dir_count_grows(
    before_dirs: Seq<Option<Uuid>>,
    before_errs: Seq<Option<Option<DiskError>>>,
    after_dirs: Seq<Option<Uuid>>,
    after_errs: Seq<Option<Option<DiskError>>>,
    key: Option<Uuid>,
)
    requires
        before_errs.len() == after_errs.len(),
        forall|i: int|
            0 <= i < before_errs.len() && #[trigger] before_errs[i] is Some ==> after_errs[i]
                == before_errs[i] && after_dirs[i] == before_dirs[i],
    ensures
        dir_count(before_dirs, before_errs, key) <= dir_count(after_dirs, after_errs, key),
    decreases before_errs.len(),
{
    if before_errs.len() > 0 {
        let b = before_errs.drop_last();
        let a = after_errs.drop_last();
        assert forall|i: int| 0 <= i < b.len() && #[trigger] b[i] is Some implies a[i] == b[i]
            && after_dirs[i] == before_dirs[i] by {
            assert(before_errs[i] is Some);
        }
        lemma_dir_count_grows(before_dirs, b, after_dirs, a, key);
        assert(before_errs[before_errs.len() - 1] == before_errs.last());
    }
}

/// An early answer stands: where a write quorum is more than half of the disks,
/// the data directory agreed on before all legs were done is still the agreed
/// one after any further legs have answered.
pub proof fn law_early_dir_stands(before: Slots, after: Slots, write_quorum: nat, key: Option<Uuid>)
    requires
        before.slot_errs.len() == after.slot_errs.len(),
        2 * write_quorum > after.slot_errs.len(),
        forall|i: int|
            0 <= i < before.slot_errs.len() && #[trigger] before.slot_errs[i] is Some
                ==> after.slot_errs[i] == before.slot_errs[i] && after.data_dirs[i]
                == before.data_dirs[i],
        dir_agreed(before.data_dirs, before.slot_errs, write_quorum, key),
    ensures
        dir_agreed(after.data_dirs, after.slot_errs, write_quorum, key),
{
    lemma_dir_count_grows(
        before.data_dirs,
        before.slot_errs,
        after.data_dirs,
        after.slot_errs,
        key,
    );
    assert forall|other: Option<Uuid>| other != key implies !#[trigger] dir_reaches(
        after.data_dirs,
        after.slot_errs,
        write_quorum,
        other,
    ) by {
        lemma_two_keys_fit(after.data_dirs, after.slot_errs, key, other);
    }
}

/// A rename is answered early only with a write quorum of successes, and the
/// disks it reports as online are exactly the ones that succeeded: a pending
/// disk is never reported.
pub proof fn law_early_answer_reports_successes<D: Clone>(
    disks: Seq<Option<D>>,
    slots: Slots,
    write_quorum: nat,
    left: Seq<Option<D>>,
    i: int,
)
    requires
        disks.len() == slots.slot_errs.len(),
        early_ready(slots.slot_errs, slots.data_dirs, write_quorum, slots.slot_errs.len()),
        crate::set_disks::online_after(disks, partial_errs(slots.slot_errs), left),
        0 <= i < disks.len(),
    ensures
        successes(slots.slot_errs) >= write_quorum,
        left[i] is Some <==> disks[i] is Some && slots.slot_errs[i] == Some(None::<DiskError>),
{
    let errs = partial_errs(slots.slot_errs);
    assert(errs[i] is None <==> slots.slot_errs[i] == Some(None::<DiskError>));
    assert(errs[i] is None ==> crate::set_disks::same_disk(disks[i], left[i]));
}

proof fn lemma_undo_list_covers<D>(
    disks: Seq<Option<D>>,
    errs: Seq<Option<DiskError>>,
    data_dirs: Seq<Option<Uuid>>,
    n: nat,
    target: UndoTarget,
)
    requires
        n <= usize::MAX + 1,
    ensures
        undo_list(disks, errs, data_dirs, n).contains(target) <==> target.index < n
            && errs[target.index as int] is None && disks[target.index as int] is Some
            && target.old_data_dir == data_dirs[target.index as int],
    decreases n,
{
    if n > 0 {
        let before = undo_list(disks, errs, data_dirs, (n - 1) as nat);
        let whole = undo_list(disks, errs, data_dirs, n);
        lemma_undo_list_covers(disks, errs, data_dirs, (n - 1) as nat, target);
        let last = UndoTarget { index: (n - 1) as usize, old_data_dir: data_dirs[n - 1] };
        if errs[n - 1] is None && disks[n - 1] is Some {
            assert(whole == before.push(last));
            assert(whole[whole.len() - 1] == last);
            if before.contains(target) {
                let k = choose|k: int| 0 <= k < before.len() && before[k] == target;
                assert(whole[k] == target);
            }
            if whole.contains(target) && target != last {
                let k = choose|k: int| 0 <= k < whole.len() && whole[k] == target;
                assert(before[k] == target);
            }
        }
    } else {
        assert(!undo_list(disks, errs, data_dirs, n).contains(target));
    }
}

/// When the quorum is missed, the write is taken back once on every disk that
/// had committed it, with that disk's own former data directory, and on no other.
pub proof fn law_undo_covers_committed<D>(
    disks: Seq<Option<D>>,
    errs: Seq<Option<DiskError>>,
    data_dirs: Seq<Option<Uuid>>,
    target: UndoTarget,
)
    requires
        errs.len() <= usize::MAX,
    ensures
        undo_list(disks, errs, data_dirs, errs.len()).contains(target) <==> target.index
            < errs.len() && errs[target.index as int] is None
            && disks[target.index as int] is Some && target.old_data_dir
            == data_dirs[target.index as int],
        forall|i: int, j: int|
            0 <= i < j < undo_list(disks, errs, data_dirs, errs.len()).len() ==> (
            #[trigger] undo_list(disks, errs, data_dirs, errs.len())[i]).index < (
            #[trigger] undo_list(disks, errs, data_dirs, errs.len())[j]).index,
{
    lemma_undo_list_covers(disks, errs, data_dirs, errs.len(), target);
    lemma_undo_list_ascends(disks, errs, data_dirs, errs.len());
}

proof fn lemma_undo_list_ascends<D>(
    disks: Seq<Option<D>>,
    errs: Seq<Option<DiskError>>,
    data_dirs: Seq<Option<Uuid>>,
    n: nat,
)
    requires
        n <= usize::MAX,
    ensures
        ({
            let list = undo_list(disks, errs, data_dirs, n);
            &&& forall|i: int| 0 <= i < list.len() ==> (#[trigger] list[i]).index < n
            &&& forall|i: int, j: int|
                0 <= i < j < list.len() ==> (#[trigger] list[i]).index < (#[trigger] list[j]).index
        }),
    decreases n,
{
    if n > 0 {
        lemma_undo_list_ascends(disks, errs, data_dirs, (n - 1) as nat);
    }
}

/// The counts are what they say: how many distinct slots have an answer, how
/// many hold a success, and how many hold a success that reports a given data
/// directory.
pub proof fn law_counts_are_slots(
    data_dirs: Seq<Option<Uuid>>,
    slot_errs: Seq<Option<Option<DiskError>>>,
    key: Option<Uuid>,
)
    ensures
        completed(slot_errs) == Set::new(
            |i: int| 0 <= i < slot_errs.len() && slot_errs[i] is Some,
        ).len(),
        successes(slot_errs) == Set::new(
            |i: int| 0 <= i < slot_errs.len() && slot_errs[i] == Some(None::<DiskError>),
        ).len(),
        dir_count(data_dirs, slot_errs, key) == Set::new(
            |i: int|
                0 <= i < slot_errs.len() && slot_errs[i] == Some(None::<DiskError>) && data_dirs[i]
                    == key,
        ).len(),
    decreases slot_errs.len(),
{
    let n = slot_errs.len() as int;
    let answered = |i: int| slot_errs[i] is Some;
    let good = |i: int| slot_errs[i] == Some(None::<DiskError>);
    let votes = |i: int| slot_errs[i] == Some(None::<DiskError>) && data_dirs[i] == key;
    let all_answered = Set::new(|i: int| 0 <= i < n && slot_errs[i] is Some);
    let all_good = Set::new(|i: int| 0 <= i < n && slot_errs[i] == Some(None::<DiskError>));
    let all_votes = Set::new(
        |i: int| 0 <= i < n && slot_errs[i] == Some(None::<DiskError>) && data_dirs[i] == key,
    );
    assert(all_answered =~= crate::counting::below(answered, n));
    assert(all_good =~= crate::counting::below(good, n));
    assert(all_votes =~= crate::counting::below(votes, n));
    if n == 0 {
        crate::counting::lemma_below_step(answered, 0);
        crate::counting::lemma_below_step(good, 0);
        crate::counting::lemma_below_step(votes, 0);
    } else {
        let init = slot_errs.drop_last();
        law_counts_are_slots(data_dirs, init, key);
        crate::counting::lemma_below_step(answered, n - 1);
        crate::counting::lemma_below_step(good, n - 1);
        crate::counting::lemma_below_step(votes, n - 1);
        assert(Set::new(|i: int| 0 <= i < init.len() && init[i] is Some)
            =~= crate::counting::below(answered, n - 1));
        assert(Set::new(|i: int| 0 <= i < init.len() && init[i] == Some(None::<DiskError>))
            =~= crate::counting::below(good, n - 1));
        assert(Set::new(
            |i: int|
                0 <= i < init.len() && init[i] == Some(None::<DiskError>) && data_dirs[i] == key,
        ) =~= crate::counting::below(votes, n - 1));
    }
}

/// A data directory is agreed on exactly where a write quorum of distinct slots,
/// and one at least, hold a success that reports it, and no other directory is
/// reported by as many.
pub proof fn law_agreed_dir_has_its_quorum(
    data_dirs: Seq<Option<Uuid>>,
    slot_errs: Seq<Option<Option<DiskError>>>,
    write_quorum: nat,
    key: Option<Uuid>,
    other: Option<Uuid>,
)
    ensures
        dir_agreed(data_dirs, slot_errs, write_quorum, key) <==> {
            &&& dir_count(data_dirs, slot_errs, key) >= write_quorum
            &&& dir_count(data_dirs, slot_errs, key) > 0
            &&& forall|k: Option<Uuid>|
                k != key ==> #[trigger] dir_count(data_dirs, slot_errs, k) == 0 || dir_count(
                    data_dirs,
                    slot_errs,
                    k,
                ) < write_quorum
        },
        dir_agreed(data_dirs, slot_errs, write_quorum, key) ==> Set::new(
            |i: int|
                0 <= i < slot_errs.len() && slot_errs[i] == Some(None::<DiskError>) && data_dirs[i]
                    == key,
        ).len() >= write_quorum,
        dir_agreed(data_dirs, slot_errs, write_quorum, key) ==> exists|i: int|
            0 <= i < slot_errs.len() && #[trigger] slot_errs[i] == Some(None::<DiskError>)
                && data_dirs[i] == key,
        dir_agreed(data_dirs, slot_errs, write_quorum, key) && other != key ==> {
            let theirs = Set::new(
                |i: int|
                    0 <= i < slot_errs.len() && slot_errs[i] == Some(None::<DiskError>)
                        && data_dirs[i] == other,
            ).len();
            theirs == 0 || theirs < write_quorum
        },
{
    law_counts_are_slots(data_dirs, slot_errs, key);
    law_counts_are_slots(data_dirs, slot_errs, other);
    lemma_dir_count_zero_iff(data_dirs, slot_errs, key);
    assert forall|k: Option<Uuid>| #[trigger]
        dir_count(data_dirs, slot_errs, k) == 0 || dir_count(data_dirs, slot_errs, k)
            < write_quorum <==> !dir_reaches(data_dirs, slot_errs, write_quorum, k) by {}
    if dir_agreed(data_dirs, slot_errs, write_quorum, key) {
        assert forall|k: Option<Uuid>| k != key implies #[trigger] dir_count(
            data_dirs,
            slot_errs,
            k,
        ) == 0 || dir_count(data_dirs, slot_errs, k) < write_quorum by {
            assert(!dir_reaches(data_dirs, slot_errs, write_quorum, k));
        }
        assert(!(other != key && dir_reaches(data_dirs, slot_errs, write_quorum, other)));
    }
}

/// A rename is answered early exactly where the distinct slots that hold a
/// success are a write quorum, are more than the legs that are still pending,
/// and agree on the former data directory.
pub proof fn law_early_answer_has_its_quorum(
    slot_errs: Seq<Option<Option<DiskError>>>,
    data_dirs: Seq<Option<Uuid>>,
    write_quorum: nat,
    n: nat,
)
    ensures
        early_ready(slot_errs, data_dirs, write_quorum, n) <==> {
            let good = Set::new(
                |i: int| 0 <= i < slot_errs.len() && slot_errs[i] == Some(None::<DiskError>),
            ).len();
            let answered = Set::new(
                |i: int| 0 <= i < slot_errs.len() && slot_errs[i] is Some,
            ).len();
            &&& good >= write_quorum
            &&& good > 0
            &&& good + answered > n
            &&& exists|key: Option<Uuid>| dir_agreed(data_dirs, slot_errs, write_quorum, key)
        },
{
    law_counts_are_slots(data_dirs, slot_errs, None);
}

/// What a run of a rename shows is what its fields hold, and it is ready exactly
/// where these allow an early answer.
pub proof fn law_run_shows_its_fields(run: RenameRun, full: FullRename)
    ensures
        run@.data_dirs == run.data_dirs@,
        run@.versions == run.disk_versions@,
        run@.slot_errs == run.slot_errs@,
        run.n() == run.slot_errs@.len(),
        run.wf() <==> run.data_dirs@.len() == run.slot_errs@.len() && run.disk_versions@.len()
            == run.slot_errs@.len(),
        run.ready() <==> early_ready(
            run.slot_errs@,
            run.data_dirs@,
            run.write_quorum as nat,
            run.slot_errs@.len(),
        ),
        full@.slots == full.run@,
        full@.taken == full.taken,
        full@.lost_leg == full.lost_leg,
        full.wf() <==> full.run.wf() && full.taken <= full.run.slot_errs@.len(),
        run.wf() ==> dirs_cover(run.data_dirs@, run.slot_errs@),
{
}

/// Before any leg has answered every slot is empty. An answer fills its own slot
/// with what the disk said, a failed one with its error only, and leaves every
/// other slot as it is.
pub proof fn law_answer_fills_its_slot(
    slots: Slots,
    i: int,
    result: Result<RenameDataResp, DiskError>,
    n: nat,
    j: int,
)
    requires
        slots.data_dirs.len() == slots.slot_errs.len(),
        slots.versions.len() == slots.slot_errs.len(),
        0 <= i < slots.slot_errs.len(),
    ensures
        ({
            let after = slots.record(i, result);
            &&& after.data_dirs.len() == slots.data_dirs.len()
            &&& after.versions.len() == slots.versions.len()
            &&& after.slot_errs.len() == slots.slot_errs.len()
            &&& match result {
                Ok(res) => after.slot_errs[i] == Some(None::<DiskError>) && after.data_dirs[i]
                    == res.old_data_dir && after.versions[i] == res.sign,
                Err(e) => after.slot_errs[i] == Some(Some(e)) && after.data_dirs[i]
                    == slots.data_dirs[i] && after.versions[i] == slots.versions[i],
            }
            &&& 0 <= j < slots.slot_errs.len() && j != i ==> after.slot_errs[j]
                == slots.slot_errs[j] && after.data_dirs[j] == slots.data_dirs[j]
                && after.versions[j] == slots.versions[j]
        }),
        Slots::pending(n).data_dirs.len() == n,
        Slots::pending(n).versions.len() == n,
        Slots::pending(n).slot_errs.len() == n,
        0 <= j < n ==> Slots::pending(n).data_dirs[j] is None && Slots::pending(n).versions[j]
            is None && Slots::pending(n).slot_errs[j] is None,
{
}

/// After some legs have answered, a slot holds what its own disk said where that
/// was among them, and nothing else.
pub proof fn law_slots_hold_the_answers(
    answers: Seq<Result<RenameDataResp, DiskError>>,
    order: Seq<int>,
    i: int,
)
    requires
        forall|k: int| 0 <= k < order.len() ==> 0 <= #[trigger] order[k] < answers.len(),
        0 <= i < answers.len(),
    ensures
        ({
            let s = Slots::merged(answers, order);
            if order.contains(i) {
                match answers[i] {
                    Ok(res) => s.slot_errs[i] == Some(None::<DiskError>) && s.data_dirs[i]
                        == res.old_data_dir && s.versions[i] == res.sign,
                    Err(e) => s.slot_errs[i] == Some(Some(e)) && s.data_dirs[i] is None
                        && s.versions[i] is None,
                }
            } else {
                s.slot_errs[i] is None && s.data_dirs[i] is None && s.versions[i] is None
            }
        }),
{
    lemma_merged_slot(answers, order, i);
}

/// For an early answer a slot without an answer counts as an offline disk, and
/// every other slot as what its disk said.
pub proof fn law_pending_slot_counts_as_offline(
    slot_errs: Seq<Option<Option<DiskError>>>,
    i: int,
)
    requires
        0 <= i < slot_errs.len(),
    ensures
        partial_errs(slot_errs).len() == slot_errs.len(),
        slot_errs[i] is None ==> partial_errs(slot_errs)[i] == Some(DiskError::DiskNotFound),
        slot_errs[i] == Some(None::<DiskError>) ==> partial_errs(slot_errs)[i] is None,
        forall|e: DiskError|
            slot_errs[i] == Some(Some(e)) ==> partial_errs(slot_errs)[i] == Some(e),
{
}

/// The disks that an early answer reports as online are exactly those that are
/// there and whose slot holds a success.
pub proof fn law_early_disks_have_committed<D: Clone>(
    disks: Seq<Option<D>>,
    slot_errs: Seq<Option<Option<DiskError>>>,
    left: Seq<Option<D>>,
    i: int,
)
    requires
        disks.len() == slot_errs.len(),
        crate::set_disks::online_after(disks, partial_errs(slot_errs), left),
        0 <= i < disks.len(),
    ensures
        left.len() == disks.len(),
        left[i] is Some <==> disks[i] is Some && slot_errs[i] == Some(None::<DiskError>),
        left[i] is Some ==> cloned(disks[i]->0, left[i]->0),
{
    let errs = partial_errs(slot_errs);
    assert(errs[i] is None <==> slot_errs[i] == Some(None::<DiskError>));
    assert(errs[i] is None ==> crate::set_disks::same_disk(disks[i], left[i]));
}

/// A leg is no failure exactly where its disk answered a success; a disk's error
/// and that of the task are the failure itself, and a leg that cannot be joined
/// is unexpected.
pub proof fn law_leg_fails_unless_it_succeeded(event: LegEvent, i: usize, e: DiskError)
    ensures
        event.failure() is None <==> (event matches LegEvent::Done(_, Ok(_))),
        LegEvent::Done(i, Err(e)).failure() == Some(e),
        LegEvent::TaskFailed(e).failure() == Some(e),
        LegEvent::JoinFailed.failure() == Some(DiskError::Unexpected),
{
}

/// A rename that waits for all legs waits while fewer came back than there are
/// disks. Then it settles where every slot has its answer and no leg was lost,
/// and fails else. A leg that comes back counts once, fills its slot where it
/// has an answer, and is remembered as lost where it has none.
pub proof fn law_full_rename_steps(
    full: FullSlots,
    i: int,
    answer: Result<RenameDataResp, DiskError>,
    n: nat,
)
    ensures
        full.waits() <==> full.taken < full.slots.slot_errs.len(),
        full.settles() <==> full.taken >= full.slots.slot_errs.len() && !full.lost_leg && forall|
            k: int,
        |
            0 <= k < full.slots.slot_errs.len() ==> #[trigger] full.slots.slot_errs[k] is Some,
        full.fails() <==> !full.waits() && !full.settles(),
        full.take_in(i, Some(answer)).slots == full.slots.record(i, answer),
        full.take_in(i, Some(answer)).taken == full.taken + 1,
        full.take_in(i, Some(answer)).lost_leg == full.lost_leg,
        full.take_in(i, None).slots == full.slots,
        full.take_in(i, None).taken == full.taken + 1,
        full.take_in(i, None).lost_leg,
        FullSlots::pending(n).slots == Slots::pending(n),
        FullSlots::pending(n).taken == 0,
        !FullSlots::pending(n).lost_leg,
{
}

/// What a completion does to a rename that may end early. It is answered early
/// only upon a disk's answer, with a write quorum of slots that hold a success
/// and as many of them that report the data directory it names, and it reports
/// exactly the disks whose slot holds a success. A leg that brought no answer
/// ends it with its error and leaves the slots as they are.
pub proof fn law_completion_moves_the_rename_on<D: Clone>(
    run: &mut RenameRun,
    disks: &[Option<D>],
    completion: Option<LegEvent>,
    r: BarrierStep<D>,
    k: int,
)
    requires
        call_ensures(SetDisks::rename_data_with_barrier::<D>, (run, disks, completion), r),
        old(run).wf(),
        disks@.len() == old(run).n(),
        completion matches Some(LegEvent::Done(i, _)) ==> i < old(run).n(),
        0 <= k < disks@.len(),
    ensures
        final(run).write_quorum == old(run).write_quorum,
        final(run).slot_errs@.len() == old(run).slot_errs@.len(),
        r is Drained <==> completion is None,
        r is Failed <==> (completion matches Some(event) && (event is TaskFailed
            || event is JoinFailed)),
        completion matches Some(LegEvent::TaskFailed(e)) ==> r == BarrierStep::<D>::Failed(e),
        completion matches Some(LegEvent::JoinFailed) ==> r == BarrierStep::<D>::Failed(
            DiskError::Unexpected,
        ),
        completion matches Some(LegEvent::Done(i, Ok(res))) ==> final(run).slot_errs@[i as int]
            == Some(None::<DiskError>) && final(run).data_dirs@[i as int] == res.old_data_dir
            && final(run).disk_versions@[i as int] == res.sign,
        completion matches Some(LegEvent::Done(i, Err(e))) ==> final(run).slot_errs@[i as int]
            == Some(Some(e)),
        !(completion matches Some(LegEvent::Done(i, _)) && i == k) ==> final(run).slot_errs@[k]
            == old(run).slot_errs@[k] && final(run).data_dirs@[k] == old(run).data_dirs@[k]
            && final(run).disk_versions@[k] == old(run).disk_versions@[k],
        r matches BarrierStep::EarlyOk(out) ==> {
            &&& out.versions is None
            &&& Set::new(
                |i: int|
                    0 <= i < final(run).slot_errs@.len() && final(run).slot_errs@[i] == Some(
                        None::<DiskError>,
                    ),
            ).len() >= final(run).write_quorum
            &&& Set::new(
                |i: int|
                    0 <= i < final(run).slot_errs@.len() && final(run).slot_errs@[i] == Some(
                        None::<DiskError>,
                    ) && final(run).data_dirs@[i] == out.data_dir,
            ).len() >= final(run).write_quorum
            &&& out.disks@.len() == disks@.len()
            &&& out.disks@[k] is Some <==> disks@[k] is Some && final(run).slot_errs@[k] == Some(
                None::<DiskError>,
            )
        },
{
    let before = *old(run);
    let after = *final(run);
    assert(before@.slot_errs == before.slot_errs@ && after@.slot_errs == after.slot_errs@);
    assert(before@.data_dirs == before.data_dirs@ && after@.data_dirs == after.data_dirs@);
    assert(before@.versions == before.disk_versions@ && after@.versions == after.disk_versions@);
    if let BarrierStep::EarlyOk(out) = r {
        law_counts_are_slots(after.data_dirs@, after.slot_errs@, out.data_dir);
        law_early_disks_have_committed(disks@, after.slot_errs@, out.disks@, k);
    }
}

/// What follows once all disks have answered: where the quorum is missed, its
/// error, and an undo on exactly the disks that are there and did not fail, each
/// with its own former data directory; else the object is committed on exactly
/// those disks.
pub proof fn law_settled_rename_is_undone_or_committed<D: Clone>(
    disks: &[Option<D>],
    errs: &[Option<DiskError>],
    data_dirs: &[Option<Uuid>],
    quorum_err: Option<DiskError>,
    common_dir: Option<Uuid>,
    r: RenameVerdict<D>,
    i: usize,
)
    requires
        call_ensures(
            SetDisks::rename_data_settle::<D>,
            (disks, errs, data_dirs, quorum_err, common_dir),
            r,
        ),
        disks@.len() == errs@.len(),
        data_dirs@.len() == errs@.len(),
        errs@.len() <= usize::MAX,
        i < errs@.len(),
    ensures
        r is Committed <==> quorum_err is None,
        r matches RenameVerdict::Undo { targets, err } ==> quorum_err == Some(err) && (
        targets@.contains(
            (UndoTarget { index: i, old_data_dir: data_dirs@[i as int] }),
        ) <==> disks@[i as int] is Some && errs@[i as int] is None),
        r matches RenameVerdict::Committed(out) ==> out.data_dir == common_dir && out.versions
            is None && out.disks@.len() == disks@.len() && (out.disks@[i as int] is Some
            <==> disks@[i as int] is Some && errs@[i as int] is None),
{
    law_undo_covers_committed(
        disks@,
        errs@,
        data_dirs@,
        UndoTarget { index: i, old_data_dir: data_dirs@[i as int] },
    );
    if let RenameVerdict::Committed(out) = r {
        crate::set_disks::law_online_disks_did_not_fail(disks@, errs@, out.disks@, i as int);
    }
}

/// Taking a write back deletes the version that was written and brings the
/// former data directory of that disk back; it is neither recursive nor forced.
pub proof fn law_undo_brings_the_former_directory_back(target: UndoTarget, r: VersionDelete)
    requires
        call_ensures(UndoTarget::undo_delete, (&target,), r),
    ensures
        r.opts.undo_write,
        r.opts.old_data_dir == target.old_data_dir,
        !r.force && !r.opts.recursive && !r.opts.immediate,
{
}

/// What is agreed on among the successes is reported by a write quorum of them,
/// and nothing is where no directory, or more than one, is reported by as many.
pub proof fn law_agreed_dir_is_given(
    data_dirs: &[Option<Uuid>],
    slot_errs: &[Option<Option<DiskError>>],
    write_quorum: usize,
    r: Option<Option<Uuid>>,
    key: Option<Uuid>,
)
    requires
        call_ensures(
            quorum_old_data_dir_among_successes,
            (data_dirs, slot_errs, write_quorum),
            r,
        ),
    ensures
        r matches Some(dir) ==> Set::new(
            |i: int|
                0 <= i < slot_errs@.len() && slot_errs@[i] == Some(None::<DiskError>)
                    && data_dirs@[i] == dir,
        ).len() >= write_quorum,
        r matches Some(dir) ==> exists|i: int|
            0 <= i < slot_errs@.len() && #[trigger] slot_errs@[i] == Some(None::<DiskError>)
                && data_dirs@[i] == dir,
        r is Some && r != Some(key) ==> {
            let theirs = Set::new(
                |i: int|
                    0 <= i < slot_errs@.len() && slot_errs@[i] == Some(None::<DiskError>)
                        && data_dirs@[i] == key,
            ).len();
            theirs == 0 || theirs < write_quorum
        },
        2 * write_quorum > slot_errs@.len() && Set::new(
            |i: int|
                0 <= i < slot_errs@.len() && slot_errs@[i] == Some(None::<DiskError>)
                    && data_dirs@[i] == key,
        ).len() >= write_quorum ==> r == Some(key),
{
    law_counts_are_slots(data_dirs@, slot_errs@, key);
    if let Some(dir) = r {
        law_agreed_dir_has_its_quorum(data_dirs@, slot_errs@, write_quorum as nat, dir, key);
    }
    let other: Option<Uuid> = if key is None {
        Some(Uuid { bits: 0 })
    } else {
        None
    };
    lemma_two_keys_fit(data_dirs@, slot_errs@, key, other);
    if 2 * write_quorum > slot_errs@.len() && dir_count(data_dirs@, slot_errs@, key)
        >= write_quorum {
        law_quorum_dir_is_unique(data_dirs@, slot_errs@, write_quorum as nat, key, key);
        assert(dir_agreed(data_dirs@, slot_errs@, write_quorum as nat, key));
        match r {
            Some(dir) => {
                law_quorum_dir_is_unique(data_dirs@, slot_errs@, write_quorum as nat, key, dir);
            },
            None => {
                assert(some_dir_agreed(data_dirs@, slot_errs@, write_quorum as nat));
            },
        }
    }
}

/// A leg that came back is taken in by a rename that waits for all of them, with
/// an answer or without; an error comes only where none came although one is
/// missing.
pub proof fn law_full_rename_takes_every_leg_in(
    full: &mut FullRename,
    completion: Option<LegEvent>,
    r: Result<(), DiskError>,
    k: int,
)
    requires
        call_ensures(SetDisks::rename_data, (full, completion), r),
        old(full).wf(),
        old(full).taken < old(full).run.slot_errs@.len(),
        completion matches Some(LegEvent::Done(i, _)) ==> i < old(full).run.n(),
        0 <= k < old(full).run.slot_errs@.len(),
    ensures
        r is Ok <==> completion is Some,
        r matches Err(e) ==> e == DiskError::Unexpected,
        final(full).run.slot_errs@.len() == old(full).run.slot_errs@.len(),
        final(full).run.write_quorum == old(full).run.write_quorum,
        completion is Some ==> final(full).taken == old(full).taken + 1,
        completion is None ==> final(full).taken == old(full).taken,
        final(full).lost_leg <==> old(full).lost_leg || (completion matches Some(event) && (event
            is TaskFailed || event is JoinFailed)),
        completion matches Some(LegEvent::Done(i, Ok(res))) ==> final(full).run.slot_errs@[i as int]
            == Some(None::<DiskError>) && final(full).run.data_dirs@[i as int] == res.old_data_dir,
        completion matches Some(LegEvent::Done(i, Err(e))) ==> final(full).run.slot_errs@[i as int]
            == Some(Some(e)),
        !(completion matches Some(LegEvent::Done(i, _)) && i == k)
            ==> final(full).run.slot_errs@[k] == old(full).run.slot_errs@[k]
            && final(full).run.data_dirs@[k] == old(full).run.data_dirs@[k],
{
    let before = *old(full);
    let after = *final(full);
    law_run_shows_its_fields(before.run, before);
    law_run_shows_its_fields(after.run, after);
    if completion matches Some(event) && (event is TaskFailed || event is JoinFailed) {
        assert(after@ == before@.take_in(0, None));
    }
}

/// A rename that waits for all legs goes on to its end only once as many came
/// back as there are disks. It is then settled with what each disk answered, or
/// fails as unexpected where a leg was lost or a slot has no answer.
pub proof fn law_full_rename_ends_with_all_legs(full: FullRename, r: FullRenameStep, i: int)
    requires
        call_ensures(FullRename::next_step, (&full,), r),
        full.wf(),
        0 <= i < full.run.slot_errs@.len(),
    ensures
        r is Wait <==> full.taken < full.run.slot_errs@.len(),
        !(r is Wait) && full.lost_leg ==> r is Failed,
        !(r is Wait) && full.run.slot_errs@[i] is None ==> r is Failed,
        r matches FullRenameStep::Failed(e) ==> e == DiskError::Unexpected,
        r is Failed && !full.lost_leg ==> exists|k: int|
            0 <= k < full.run.slot_errs@.len() && #[trigger] full.run.slot_errs@[k] is None,
        r matches FullRenameStep::Settle(errs) ==> errs@.len() == full.run.slot_errs@.len()
            && full.run.slot_errs@[i] == Some(errs@[i]),
{
    law_run_shows_its_fields(full.run, full);
    assert(full@.slots.slot_errs[i] == full.run.slot_errs@[i]);
}

/// What one leg of a rename is told: as many legs as there are slots with
/// metadata, the erasure index of its metadata or else its own place counted
/// from one, and to ask the disk only where the metadata is valid and the disk
/// there.
pub proof fn law_leg_asks_only_a_disk_that_is_there(
    disks: usize,
    infos: usize,
    count: usize,
    slot: usize,
    index: usize,
    written: usize,
    valid: bool,
    online: bool,
    r: Result<(), DiskError>,
)
    requires
        call_ensures(SetDisks::rename_data_leg_count, (disks, infos), count),
        call_ensures(SetDisks::rename_data_leg_index, (slot, index), written),
        call_ensures(SetDisks::rename_data_leg_check, (valid, online), r),
        slot < usize::MAX,
    ensures
        count <= disks && count <= infos && (count == disks || count == infos),
        written > 0,
        index > 0 ==> written == index,
        index == 0 ==> written - 1 == slot,
        r is Ok <==> valid && online,
        r matches Err(e) ==> e == if valid {
            DiskError::DiskNotFound
        } else {
            DiskError::FileCorrupt
        },
{
}

/// The final outcome per disk is there exactly where every slot has an answer,
/// and is those answers.
pub proof fn law_final_outcome_needs_every_answer(
    slot_errs: &[Option<Option<DiskError>>],
    r: Result<Vec<Option<DiskError>>, DiskError>,
    i: int,
)
    requires
        call_ensures(final_errs, (slot_errs,), r),
        0 <= i < slot_errs@.len(),
    ensures
        slot_errs@[i] is None ==> r == Err::<Vec<Option<DiskError>>, DiskError>(
            DiskError::Unexpected,
        ),
        r matches Ok(errs) ==> errs@.len() == slot_errs@.len() && slot_errs@[i] == Some(errs@[i]),
        r is Err ==> exists|k: int| 0 <= k < slot_errs@.len() && #[trigger] slot_errs@[k] is None,
{
    if let Ok(errs) = r {
        assert(slot_errs@[i] == Some(errs@[i]));
    }
}

}
