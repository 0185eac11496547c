//! What the disks of an erasure set report: error codes, identifiers and the
//! answer of one rename.

use vstd::prelude::*;

verus! {

/// What a disk reports when an operation on it fails.
#[derive(Clone, Copy, Debug, PartialEq, Eq, Structural)]
pub enum DiskError {
    /// A task was lost, or an answer that must be there is missing.
    Unexpected,
    /// The metadata of the object on this disk is not valid.
    FileCorrupt,
    /// The file is not there.
    FileNotFound,
    /// The volume is not there.
    VolumeNotFound,
    /// The disk is offline or the slot is empty.
    DiskNotFound,
    /// The disk fails its operations.
    FaultyDisk,
    /// Too few disks agree for a read.
    ErasureReadQuorum,
    /// Too few disks agree for a write.
    ErasureWriteQuorum,
    /// Any other error of the storage layer, by its code.
    Other(u32),
}

/// A 128-bit universally unique identifier.
#[derive(Clone, Copy, Debug, PartialEq, Eq, Structural)]
pub struct Uuid {
    pub bits: u128,
}

impl Uuid {
    /// The identifier with all bits zero.
    pub fn nil() -> (r: Uuid)
        ensures
            r.bits == 0,
    {
        Uuid { bits: 0 }
    }
}

/// What a disk answers to a successful rename of an object's data.
#[derive(Clone, Debug)]
pub struct RenameDataResp {
    /// The data directory that the object had before, if any.
    pub old_data_dir: Option<Uuid>,
    /// The signature of the versions on that disk, if it gave one.
    pub sign: Option<Vec<u8>>,
}

impl Default for RenameDataResp {
    fn default() -> (r: RenameDataResp)
        ensures
            r.old_data_dir is None,
            r.sign is None,
    {
        RenameDataResp { old_data_dir: None, sign: None }
    }
}

/// How a disk deletes something.
#[derive(Clone, Copy, Debug, PartialEq, Eq, Structural)]
pub struct DeleteOptions {
    /// Whether everything below the path goes too.
    pub recursive: bool,
    /// Whether the data goes at once.
    pub immediate: bool,
    /// Whether a write is taken back.
    pub undo_write: bool,
    /// The data directory that a write which is taken back had replaced.
    pub old_data_dir: Option<Uuid>,
}

impl Default for DeleteOptions {
    fn default() -> (r: DeleteOptions)
        ensures
            r == (DeleteOptions {
                recursive: false,
                immediate: false,
                undo_write: false,
                old_data_dir: None,
            }),
    {
        DeleteOptions { recursive: false, immediate: false, undo_write: false, old_data_dir: None }
    }
}

/// How a disk deletes one version of an object.
#[derive(Clone, Copy, Debug, PartialEq, Eq, Structural)]
pub struct VersionDelete {
    /// Whether the delete is forced.
    pub force: bool,
    pub opts: DeleteOptions,
}

/// How one disk's leg of an operation over all disks ended.
#[derive(Clone, Copy, Debug, PartialEq, Eq, Structural)]
pub enum LegReply {
    /// The slot holds no disk, so nothing was asked.
    NoDisk,
    /// The disk did what was asked.
    Succeeded,
    /// The disk reported an error.
    Failed(DiskError),
    /// The task that asked the disk was lost; the error is what that loss is reported as.
    Lost(DiskError),
}

/// The nil identifier has no bit set, a rename's answer is empty by default, and
/// a delete does no more by default than delete.
pub proof fn law_defaults_ask_for_nothing(nil: Uuid, resp: RenameDataResp, opts: DeleteOptions)
    requires
        call_ensures(Uuid::nil, (), nil),
        call_ensures(RenameDataResp::default, (), resp),
        call_ensures(DeleteOptions::default, (), opts),
    ensures
        nil.bits == 0,
        resp.old_data_dir is None && resp.sign is None,
        !opts.recursive && !opts.immediate && !opts.undo_write && opts.old_data_dir is None,
{
}

}
