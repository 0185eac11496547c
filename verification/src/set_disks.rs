//! The disks of one erasure set: quorum sizes and which disks stay online.

use vstd::prelude::*;

use crate::disk::DiskError;

verus! {

/// The place and the erasure layout of one set of disks.
#[derive(Clone, Copy, Debug, PartialEq, Eq, Structural)]
pub struct SetDisks {
    /// The number of the set in its pool.
    pub set_index: usize,
    /// The number of the pool.
    pub pool_index: usize,
    /// How many drives the set has.
    pub set_drive_count: usize,
    /// How many of them hold parity by default.
    pub default_parity_count: usize,
}

/// Whether `to` is what a slot that held `from` holds after it was copied.
pub open spec fn same_disk<D: Clone>(from: Option<D>, to: Option<D>) -> bool {
    match (from, to) {
        (None, None) => true,
        (Some(a), Some(b)) => cloned(a, b),
        _ => false,
    }
}

/// The slots that are left after an operation: those without an error keep
/// their disk, the others are empty.
pub open spec fn online_after<D: Clone>(
    disks: Seq<Option<D>>,
    errs: Seq<Option<DiskError>>,
    left: Seq<Option<D>>,
) -> bool {
    if disks.len() != errs.len() {
        left.len() == 0
    } else {
        &&& left.len() == disks.len()
        &&& forall|i: int|
            0 <= i < disks.len() ==> if errs[i] is None {
                same_disk(disks[i], #[trigger] left[i])
            } else {
                left[i] is None
            }
    }
}

impl SetDisks {
    /// The drives that hold data by default.
    pub open spec fn data_drives(self) -> int {
        self.set_drive_count - self.default_parity_count
    }

    /// A set has at least as many drives as it has parity drives.
    pub open spec fn wf(self) -> bool {
        self.default_parity_count <= self.set_drive_count
    }

    /// How many drives have to agree for a read.
    pub fn default_read_quorum(&self) -> (r: usize)
        requires
            self.wf(),
        ensures
            r == self.data_drives(),
    {
        self.set_drive_count - self.default_parity_count
    }

    /// How many drives have to agree for a write: one more than for a read
    /// where data and parity drives are equally many.
    pub fn default_write_quorum(&self) -> (r: usize)
        requires
            self.wf(),
        ensures
            r == if self.data_drives() == self.default_parity_count {
                self.data_drives() + 1
            } else {
                self.data_drives()
            },
            2 * self.default_parity_count <= self.set_drive_count ==> 2 * r > self.set_drive_count,
    {
        let mut data_count: usize = self.set_drive_count - self.default_parity_count;
        if data_count == self.default_parity_count {
            data_count = data_count + 1;
        }
        data_count
    }

    /// The disks that count as online after an operation with the outcome
    /// `errs`; nothing where the two lists do not belong together.
    pub fn eval_disks<D: Clone>(disks: &[Option<D>], errs: &[Option<DiskError>]) -> (r: Vec<
        Option<D>,
    >)
        ensures
            online_after(disks@, errs@, r@),
    {
        let mut online: Vec<Option<D>> = Vec::new();
        if disks.len() != errs.len() {
            return online;
        }
        let mut i: usize = 0;
        while i < errs.len()
            invariant
                disks@.len() == errs@.len(),
                i <= errs@.len(),
                online@.len() == i,
                forall|j: int|
                    0 <= j < i ==> if errs@[j] is None {
                        same_disk(disks@[j], #[trigger] online@[j])
                    } else {
                        online@[j] is None
                    },
            decreases errs@.len() - i,
        {
            if errs[i].is_none() {
                online.push(disks[i].clone());
            } else {
                online.push(None);
            }
            i = i + 1;
        }
        online
    }
}

/// With at most half of the drives holding parity, a write quorum and a read
/// quorum always share a drive, and so do any two write quorums.
pub proof fn law_quorums_overlap(set: SetDisks, write_quorum: int)
    requires
        set.wf(),
        2 * set.default_parity_count <= set.set_drive_count,
        write_quorum == (if set.data_drives() == set.default_parity_count {
            set.data_drives() + 1
        } else {
            set.data_drives()
        }),
    ensures
        write_quorum + set.data_drives() > set.set_drive_count,
        2 * write_quorum > set.set_drive_count,
{
}

/// After an operation a slot holds a disk exactly where it held one before and
/// the disk did not fail, and it is that disk. Lists that do not belong together
/// leave nothing.
pub proof fn law_online_disks_did_not_fail<D: Clone>(
    disks: Seq<Option<D>>,
    errs: Seq<Option<DiskError>>,
    left: Seq<Option<D>>,
    i: int,
)
    requires
        online_after(disks, errs, left),
    ensures
        disks.len() != errs.len() ==> left.len() == 0,
        disks.len() == errs.len() ==> left.len() == disks.len(),
        disks.len() == errs.len() && 0 <= i < disks.len() ==> {
            &&& left[i] is Some <==> disks[i] is Some && errs[i] is None
            &&& left[i] is Some ==> cloned(disks[i]->0, left[i]->0)
        },
{
    if disks.len() == errs.len() && 0 <= i < disks.len() {
        assert(errs[i] is None ==> same_disk(disks[i], left[i]));
    }
}

/// Every drive holds data or parity.
pub proof fn law_drives_hold_data_or_parity(set: SetDisks)
    ensures
        set.data_drives() + set.default_parity_count == set.set_drive_count,
        set.wf() <==> set.data_drives() >= 0,
{
}

/// Whatever quorums a set gives for a read and for writes: with at most half of
/// the drives holding parity, they share a drive.
pub proof fn law_given_quorums_overlap(set: SetDisks, read: usize, write: usize)
    requires
        call_ensures(SetDisks::default_read_quorum, (&set,), read),
        call_ensures(SetDisks::default_write_quorum, (&set,), write),
        set.wf(),
        2 * set.default_parity_count <= set.set_drive_count,
    ensures
        read + write > set.set_drive_count,
        2 * write > set.set_drive_count,
        read + set.default_parity_count == set.set_drive_count,
        read <= write <= read + 1,
{
}

/// The disks that are reported as online are those that were there and did not
/// fail.
pub proof fn law_reported_disks_did_not_fail<D: Clone>(
    disks: &[Option<D>],
    errs: &[Option<DiskError>],
    r: Vec<Option<D>>,
    i: int,
)
    requires
        call_ensures(SetDisks::eval_disks::<D>, (disks, errs), r),
        disks@.len() == errs@.len(),
        0 <= i < disks@.len(),
    ensures
        r@.len() == disks@.len(),
        r@[i] is Some <==> disks@[i] is Some && errs@[i] is None,
        r@[i] is Some ==> cloned(disks@[i]->0, r@[i]->0),
{
    law_online_disks_did_not_fail(disks@, errs@, r@, i);
}

}
