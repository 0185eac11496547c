//! The decisions of a distributed object store, proved: how a write over the
//! disks of an erasure set is answered and cleaned up, how peers are dialled and
//! their connections shared, and what is traced along the way.
//!
//! Nothing here touches a disk, a socket or a clock of its own accord. Where an
//! operation waits for something, it is cut into steps: a function says what to
//! do next, and the next function takes what came of it.
//!
//! - [`set_disks`], [`rename`], [`barrier`], [`straggler`] and [`set_write`]: one
//!   operation over all disks of a set, its quorum, and what is undone when the
//!   quorum is missed.
//! - [`journal`]: the record that lets a crash be cleaned up after.
//! - [`dangling`]: purging what too few disks still hold.
//! - [`precondition`]: conditional writes.
//! - [`versioning`] and [`bucket_setup`]: buckets.
//! - [`pool`], [`endpoint`], [`transport`] and [`globals`]: connections to peers.
//! - [`exact_length`]: bodies that must not end early.
//! - [`holder_trace`] and [`trace`]: diagnostics.
//! - [`disk`], [`uuids`] and [`text`]: what the others are made of.

pub mod barrier;
pub mod bucket_setup;
mod counting;
pub mod dangling;
pub mod disk;
pub mod endpoint;
pub mod exact_length;
pub mod globals;
pub mod holder_trace;
pub mod journal;
pub mod pool;
pub mod precondition;
pub mod rename;
pub mod set_disks;
pub mod set_write;
pub mod straggler;
pub mod text;
pub mod trace;
pub mod transport;
mod turns;
pub mod uuids;
pub mod versioning;
