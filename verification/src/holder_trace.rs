//! Diagnostics of lock holders and of those who wait for them: which waits are
//! sampled, which releases are worth a line, and what the lines say.

use std::collections::hash_map::DefaultHasher;
use std::hash::Hasher;
use vstd::prelude::*;

use crate::text::{leading_chars, parse_unsigned, push_decimal};

verus! {

/// The target of the lines.
pub const HOLDER_TARGET: &'static str = "rustfs_lock_holder";

/// The setting that gives how many waits there are to one that is logged.
pub const ENV_TRACE_SAMPLE: &'static str = "RUSTFS_LOCK_HOLDER_TRACE_SAMPLE";

/// The setting that gives how long a lock is held before its release is logged.
pub const ENV_MIN_HOLD_LOG_MS: &'static str = "RUSTFS_LOCK_HOLDER_MIN_HOLD_LOG_MS";

/// How many waits there are to one that is logged, where nothing is set.
pub const DEFAULT_TRACE_SAMPLE: u64 = 32;

/// How many milliseconds a lock is held before its release is logged, where
/// nothing is set.
pub const DEFAULT_MIN_HOLD_LOG_MS: u128 = 20;

/// How many bytes the list of readers may have before it is cut.
pub const MAX_READERS_LEN: usize = 512;

/// How many characters of a holder's name are logged.
pub const HOLDER_PREFIX_CHARS: usize = 120;

/// How a lock is held or asked for.
#[derive(Clone, Copy, Debug, PartialEq, Eq, Structural)]
pub enum LockMode {
    Shared,
    Exclusive,
}

/// One of the holders of a shared lock.
#[derive(Clone, Debug)]
pub struct SharedOwnerBrief {
    /// The fingerprint of the holder's name.
    pub owner_fp: u64,
    /// How long the lock is held, in milliseconds.
    pub held_ms: u128,
    /// The beginning of the holder's name.
    pub prefix: String,
    /// The trace of the request that took the lock.
    pub trace_id: Option<String>,
    /// The operation of the request that took the lock.
    pub operation_id: Option<String>,
}

/// Who holds a lock and who waits for it.
#[derive(Clone, Debug)]
pub struct WaiterContentionSnapshot {
    pub lock_mode: Option<LockMode>,
    pub exclusive_holder_fp: Option<u64>,
    pub exclusive_holder_held_ms: Option<u128>,
    /// The holders of the shared lock.
    pub shared_readers: Vec<SharedOwnerBrief>,
    pub readers: u8,
    pub readers_waiting: u16,
    pub writers_waiting: u16,
}

/// A request for a lock.
#[derive(Clone, Debug)]
pub struct ObjectLockRequest {
    /// The object, as text.
    pub key: String,
    pub mode: LockMode,
    /// The name of the one who asks.
    pub owner: String,
    pub trace_id: Option<String>,
    pub operation_id: Option<String>,
    pub lock_source: Option<String>,
    pub lock_source_detail: Option<String>,
}

/// A line about a request that waits.
#[derive(Debug)]
pub struct WaitEvent {
    pub event: &'static str,
    pub message: &'static str,
    pub resource: String,
    pub trace_id: String,
    pub operation_id: String,
    pub lock_source: String,
    pub lock_source_detail: String,
    pub mode: LockMode,
    pub retry_count: u32,
    pub waiter_owner_fp: u64,
    /// How the lock is held; none where the line does not say.
    pub lock_mode: Option<Option<LockMode>>,
    pub exclusive_holder_fp: Option<u64>,
    pub exclusive_holder_held_ms: Option<u128>,
    pub readers: u8,
    pub readers_waiting: u16,
    pub writers_waiting: u16,
    pub shared_reader_count: usize,
    pub shared_readers: String,
    pub shared_reader_operation_ids: String,
    pub shared_reader_trace_ids: String,
}

/// A line about a lock that was released.
#[derive(Debug)]
pub struct ReleaseEvent {
    pub event: &'static str,
    pub message: &'static str,
    pub resource: String,
    pub holder_owner_fp: u64,
    pub holder_prefix: String,
    pub hold_ms: u128,
}

/// How many bytes a text has.
pub open spec fn byte_len(s: Seq<char>) -> nat {
    vstd::utf8::encode_utf8(s).len()
}

/// What stands for a reader's request: its operation, else its trace, else a
/// dash.
pub open spec fn reader_op(s: SharedOwnerBrief) -> Seq<char> {
    match (s.operation_id, s.trace_id) {
        (Some(op), _) => op@,
        (None, Some(trace)) => trace@,
        (None, None) => "-"@,
    }
}

/// What the list of readers says of one reader.
pub open spec fn reader_piece(s: SharedOwnerBrief) -> Seq<char> {
    "fp="@ + crate::text::decimal(s.owner_fp as nat) + " op="@ + reader_op(s) + " held_ms="@
        + crate::text::decimal(s.held_ms as nat) + " prefix="@ + s.prefix@
}

/// `out` as it stands before the piece of the `i`-th reader.
pub open spec fn separated(out: Seq<char>, i: int, sep: char) -> Seq<char> {
    if i > 0 {
        out.push(sep)
    } else {
        out
    }
}

/// The list of readers from the `i`-th on, behind `out`. The list is cut where a
/// piece would make it too long.
pub open spec fn readers_from(readers: Seq<SharedOwnerBrief>, i: int, out: Seq<char>) -> Seq<char>
    decreases readers.len() - i,
{
    if i < 0 || i >= readers.len() {
        out
    } else {
        let so_far = separated(out, i, '|');
        let piece = reader_piece(readers[i]);
        if byte_len(so_far) + byte_len(piece) > MAX_READERS_LEN {
            so_far + "...(trunc)"@
        } else {
            readers_from(readers, i + 1, so_far + piece)
        }
    }
}

/// The first `n` identifiers with commas between them; a dash stands for one
/// that is missing.
pub open spec fn ids_csv(ids: Seq<Option<String>>, n: int) -> Seq<char>
    decreases n,
{
    if n <= 0 {
        Seq::empty()
    } else {
        separated(ids_csv(ids, n - 1), n - 1, ',') + match ids[n - 1] {
            Some(id) => id@,
            None => "-"@,
        }
    }
}

/// The operations of readers.
pub open spec fn operation_ids(readers: Seq<SharedOwnerBrief>) -> Seq<Option<String>> {
    readers.map_values(|s: SharedOwnerBrief| s.operation_id)
}

/// The traces of readers.
pub open spec fn trace_ids(readers: Seq<SharedOwnerBrief>) -> Seq<Option<String>> {
    readers.map_values(|s: SharedOwnerBrief| s.trace_id)
}

fn byte_count(s: &str) -> (r: usize)
    ensures
        r == byte_len(s@),
{
    s.as_bytes().len()
}

/// What a list says of one reader.
fn reader_text(s: &SharedOwnerBrief) -> (r: String)
    ensures
        r@ == reader_piece(*s),
{
    let mut r: String = "fp=".to_owned();
    push_decimal(&mut r, s.owner_fp as u128);
    r.append(" op=");
    match &s.operation_id {
        Some(op) => r.append(op.as_str()),
        None => match &s.trace_id {
            Some(trace) => r.append(trace.as_str()),
            None => r.append("-"),
        },
    }
    r.append(" held_ms=");
    push_decimal(&mut r, s.held_ms);
    r.append(" prefix=");
    r.append(s.prefix.as_str());
    r
}

/// The list of readers, cut where it would be too long.
pub fn format_shared_readers_compact(readers: &[SharedOwnerBrief]) -> (r: String)
    ensures
        r@ == readers_from(readers@, 0, Seq::empty()),
{
    let mut out: String = String::new();
    let mut i: usize = 0;
    while i < readers.len()
        invariant
            i <= readers@.len(),
            readers_from(readers@, i as int, out@) == readers_from(readers@, 0, Seq::empty()),
        decreases readers@.len() - i,
    {
        if i > 0 {
            out.push('|');
        }
        let piece: String = reader_text(&readers[i]);
        let used: usize = byte_count(out.as_str());
        let more: usize = byte_count(piece.as_str());
        if used > MAX_READERS_LEN || more > MAX_READERS_LEN - used {
            out.append("...(trunc)");
            return out;
        }
        out.append(piece.as_str());
        i = i + 1;
    }
    out
}

/// The identifiers, with commas between them.
pub fn format_shared_id_csv(ids: &Vec<&Option<String>>) -> (r: String)
    ensures
        r@ == ids_csv(ids@.map_values(|id: &Option<String>| *id), ids@.len() as int),
{
    let ghost plain = ids@.map_values(|id: &Option<String>| *id);
    let mut out: String = String::new();
    let mut i: usize = 0;
    while i < ids.len()
        invariant
            i <= ids@.len(),
            plain == ids@.map_values(|id: &Option<String>| *id),
            out@ == ids_csv(plain, i as int),
        decreases ids@.len() - i,
    {
        if i > 0 {
            out.push(',');
        }
        match ids[i] {
            Some(id) => out.append(id.as_str()),
            None => out.append("-"),
        }
        i = i + 1;
    }
    out
}

/// What `<str as Hash>::hash` feeds into a hasher for a text, write by write.
pub uninterp spec fn str_hash_writes(s: Seq<char>) -> Seq<Seq<u8>>;

/// Calls `<str as std::hash::Hash>::hash`. The claim is that the writes it makes
/// depend on the text alone and follow those that were made before.
#[verifier::external_body]
fn hash_str(s: &str, hasher: &mut DefaultHasher)
    ensures
        final(hasher)@ == old(hasher)@ + str_hash_writes(s@),
{
    std::hash::Hash::hash(s, hasher)
}

/// The fingerprint of a name.
pub open spec fn fingerprint(s: Seq<char>) -> u64 {
    <DefaultHasher as vstd::std_specs::hash::DefaultHasherAdditionalSpecFns>::spec_finish(
        str_hash_writes(s),
    )
}

/// The fingerprint of a name: equal names have equal fingerprints.
pub fn owner_fingerprint(s: &str) -> (r: u64)
    ensures
        r == fingerprint(s@),
{
    let mut h: DefaultHasher = DefaultHasher::new();
    hash_str(s, &mut h);
    assert(Seq::<Seq<u8>>::empty() + str_hash_writes(s@) =~= str_hash_writes(s@));
    h.finish()
}

/// What a setting gives: a positive number up to `max`, else `fallback`.
pub open spec fn positive_setting(text: Option<String>, max: int, fallback: int) -> int {
    match text {
        Some(t) => match crate::text::unsigned_text(t@) {
            Some(n) => if 0 < n <= max {
                n as int
            } else {
                fallback
            },
            None => fallback,
        },
        None => fallback,
    }
}

fn parse_positive(text: &Option<String>, max: u128, fallback: u128) -> (r: u128)
    ensures
        r == positive_setting(*text, max as int, fallback as int),
{
    match text {
        Some(t) => match parse_unsigned(t.as_str(), max) {
            Some(n) => if n > 0 {
                n
            } else {
                fallback
            },
            None => fallback,
        },
        None => fallback,
    }
}

/// How many waits there are to one that is logged. The setting is taken as the
/// text that it holds.
pub fn trace_sample_mod(setting: &Option<String>) -> (r: u64)
    ensures
        r == positive_setting(*setting, u64::MAX as int, DEFAULT_TRACE_SAMPLE as int),
        r > 0,
{
    parse_positive(setting, u64::MAX as u128, DEFAULT_TRACE_SAMPLE as u128) as u64
}

/// How many milliseconds a lock is held before its release is logged. The
/// setting is taken as the text that it holds.
pub fn min_hold_log_ms(setting: &Option<String>) -> (r: u128)
    ensures
        r == positive_setting(
            *setting,
            u128::MAX as int,
            DEFAULT_MIN_HOLD_LOG_MS as int,
        ),
{
    parse_positive(setting, u128::MAX, DEFAULT_MIN_HOLD_LOG_MS)
}

/// Which waits and releases are logged.
#[derive(Clone, Copy, Debug, PartialEq, Eq, Structural)]
pub struct HolderTrace {
    /// How many waits were seen, up to where the count wraps.
    pub wait_seq: u64,
    /// How many waits there are to one that is logged.
    pub sample_mod: u64,
    /// How many milliseconds a lock is held before its release is logged.
    pub min_hold_ms: u128,
}

/// The number of waits after one more.
pub open spec fn next_seq(n: u64) -> u64 {
    if n == u64::MAX {
        0
    } else {
        (n + 1) as u64
    }
}

impl HolderTrace {
    /// There is no sampling by zero.
    pub open spec fn wf(self) -> bool {
        self.sample_mod > 0
    }

    /// Whether the next wait is logged.
    pub open spec fn takes_next(self, enabled: bool) -> bool {
        enabled && self.wait_seq % self.sample_mod == 0
    }

    /// This state after one more wait. Without logging nothing is counted.
    pub open spec fn after_wait(self, enabled: bool) -> HolderTrace {
        if enabled {
            HolderTrace { wait_seq: next_seq(self.wait_seq), ..self }
        } else {
            self
        }
    }

    /// Nothing was seen yet. The settings are taken as the text that they hold.
    pub fn new(sample: &Option<String>, min_hold: &Option<String>) -> (r: HolderTrace)
        ensures
            r.wf(),
            r.wait_seq == 0,
            r.sample_mod == positive_setting(
                *sample,
                u64::MAX as int,
                DEFAULT_TRACE_SAMPLE as int,
            ),
            r.min_hold_ms == positive_setting(
                *min_hold,
                u128::MAX as int,
                DEFAULT_MIN_HOLD_LOG_MS as int,
            ),
    {
        HolderTrace {
            wait_seq: 0,
            sample_mod: trace_sample_mod(sample),
            min_hold_ms: min_hold_log_ms(min_hold),
        }
    }

    /// Counts a wait, and says whether it is logged. `enabled` says whether
    /// lines of this target are wanted at all.
    pub fn sample_take(&mut self, enabled: bool) -> (r: bool)
        requires
            old(self).wf(),
        ensures
            final(self).wf(),
            r == old(self).takes_next(enabled),
            *final(self) == old(self).after_wait(enabled),
    {
        if !enabled {
            return false;
        }
        let seq: u64 = self.wait_seq;
        self.wait_seq = seq.wrapping_add(1);
        seq % self.sample_mod == 0
    }
}

/// What an optional text says; nothing where there is none.
pub open spec fn or_empty(text: Option<String>) -> Seq<char> {
    match text {
        Some(t) => t@,
        None => ""@,
    }
}

fn text_or_empty(text: &Option<String>) -> (r: String)
    ensures
        r@ == or_empty(*text),
{
    match text {
        Some(t) => t.clone(),
        None => "".to_owned(),
    }
}

/// Whether `r` is the line about this request, apart from what kind of line it
/// is and from the mode of the lock.
pub open spec fn tells_of_wait(
    r: WaitEvent,
    request: ObjectLockRequest,
    snap: WaiterContentionSnapshot,
    retry_count: u32,
    fp: u64,
) -> bool {
    &&& r.resource@ == request.key@
    &&& r.trace_id@ == or_empty(request.trace_id)
    &&& r.operation_id@ == or_empty(request.operation_id)
    &&& r.lock_source@ == or_empty(request.lock_source)
    &&& r.lock_source_detail@ == or_empty(request.lock_source_detail)
    &&& r.mode == request.mode
    &&& r.retry_count == retry_count
    &&& r.waiter_owner_fp == fp
    &&& r.exclusive_holder_fp == snap.exclusive_holder_fp
    &&& r.exclusive_holder_held_ms == snap.exclusive_holder_held_ms
    &&& r.readers == snap.readers
    &&& r.readers_waiting == snap.readers_waiting
    &&& r.writers_waiting == snap.writers_waiting
    &&& r.shared_reader_count == snap.shared_readers@.len()
    &&& r.shared_readers@ == readers_from(snap.shared_readers@, 0, Seq::empty())
    &&& r.shared_reader_operation_ids@ == ids_csv(
        operation_ids(snap.shared_readers@),
        snap.shared_readers@.len() as int,
    )
    &&& r.shared_reader_trace_ids@ == ids_csv(
        trace_ids(snap.shared_readers@),
        snap.shared_readers@.len() as int,
    )
}

/// Whether `r` is the line for a wait that begins.
pub open spec fn is_wait_blocked(
    r: WaitEvent,
    request: ObjectLockRequest,
    snap: WaiterContentionSnapshot,
    retry_count: u32,
    fp: u64,
) -> bool {
    &&& r.event@ == "wait_blocked"@
    &&& r.message@ == "lock holder snapshot while waiting"@
    &&& r.lock_mode == Some(snap.lock_mode)
    &&& tells_of_wait(r, request, snap, retry_count, fp)
}

/// Whether `r` is the line for a waiter that parks.
pub open spec fn is_notify_enter(
    r: WaitEvent,
    request: ObjectLockRequest,
    snap: WaiterContentionSnapshot,
    retry_count: u32,
    fp: u64,
) -> bool {
    &&& r.event@ == "notify_enter"@
    &&& r.message@ == "entering notify wait for lock"@
    &&& r.lock_mode is None
    &&& tells_of_wait(r, request, snap, retry_count, fp)
}

/// The line about a request that waits.
pub fn wait_event(
    event: &'static str,
    message: &'static str,
    lock_mode: Option<Option<LockMode>>,
    request: &ObjectLockRequest,
    snap: &WaiterContentionSnapshot,
    retry_count: u32,
    fp: u64,
) -> (r: WaitEvent)
    ensures
        r.event@ == event@,
        r.message@ == message@,
        r.lock_mode == lock_mode,
        tells_of_wait(r, *request, *snap, retry_count, fp),
{
    let readers: &Vec<SharedOwnerBrief> = &snap.shared_readers;
    let mut ops: Vec<&Option<String>> = Vec::new();
    let mut traces: Vec<&Option<String>> = Vec::new();
    let mut i: usize = 0;
    while i < readers.len()
        invariant
            i <= readers@.len(),
            ops@.len() == i,
            traces@.len() == i,
            forall|j: int| 0 <= j < i ==> *(#[trigger] ops@[j]) == readers@[j].operation_id,
            forall|j: int| 0 <= j < i ==> *(#[trigger] traces@[j]) == readers@[j].trace_id,
        decreases readers@.len() - i,
    {
        ops.push(&readers[i].operation_id);
        traces.push(&readers[i].trace_id);
        i = i + 1;
    }
    assert(ops@.map_values(|id: &Option<String>| *id) =~= operation_ids(readers@));
    assert(traces@.map_values(|id: &Option<String>| *id) =~= trace_ids(readers@));
    WaitEvent {
        event,
        message,
        resource: request.key.clone(),
        trace_id: text_or_empty(&request.trace_id),
        operation_id: text_or_empty(&request.operation_id),
        lock_source: text_or_empty(&request.lock_source),
        lock_source_detail: text_or_empty(&request.lock_source_detail),
        mode: request.mode,
        retry_count,
        waiter_owner_fp: fp,
        lock_mode,
        exclusive_holder_fp: snap.exclusive_holder_fp,
        exclusive_holder_held_ms: snap.exclusive_holder_held_ms,
        readers: snap.readers,
        readers_waiting: snap.readers_waiting,
        writers_waiting: snap.writers_waiting,
        shared_reader_count: readers.len(),
        shared_readers: format_shared_readers_compact(readers.as_slice()),
        shared_reader_operation_ids: format_shared_id_csv(&ops),
        shared_reader_trace_ids: format_shared_id_csv(&traces),
    }
}

/// Counts a wait that begins, and gives its line where it is sampled.
pub fn emit_wait_blocked(
    trace: &mut HolderTrace,
    enabled: bool,
    request: &ObjectLockRequest,
    snap: &WaiterContentionSnapshot,
    retry_count: u32,
) -> (r: Option<WaitEvent>)
    requires
        old(trace).wf(),
    ensures
        final(trace).wf(),
        *final(trace) == old(trace).after_wait(enabled),
        r is Some <==> old(trace).takes_next(enabled),
        r matches Some(e) ==> is_wait_blocked(
            e,
            *request,
            *snap,
            retry_count,
            fingerprint(request.owner@),
        ),
{
    if !trace.sample_take(enabled) {
        return None;
    }
    let fp: u64 = owner_fingerprint(request.owner.as_str());
    Some(
        wait_event(
            "wait_blocked",
            "lock holder snapshot while waiting",
            Some(snap.lock_mode),
            request,
            snap,
            retry_count,
            fp,
        ),
    )
}

/// Counts a waiter that parks, and gives its line where it is sampled.
pub fn emit_notify_enter(
    trace: &mut HolderTrace,
    enabled: bool,
    request: &ObjectLockRequest,
    snap: &WaiterContentionSnapshot,
    retry_count: u32,
) -> (r: Option<WaitEvent>)
    requires
        old(trace).wf(),
    ensures
        final(trace).wf(),
        *final(trace) == old(trace).after_wait(enabled),
        r is Some <==> old(trace).takes_next(enabled),
        r matches Some(e) ==> is_notify_enter(
            e,
            *request,
            *snap,
            retry_count,
            fingerprint(request.owner@),
        ),
{
    if !trace.sample_take(enabled) {
        return None;
    }
    let fp: u64 = owner_fingerprint(request.owner.as_str());
    Some(
        wait_event(
            "notify_enter",
            "entering notify wait for lock",
            None,
            request,
            snap,
            retry_count,
            fp,
        ),
    )
}

/// Whether `r` is what is said of the release of a lock: nothing where lines
/// are not wanted or the lock was held for too short a time.
pub open spec fn is_release(
    r: Option<ReleaseEvent>,
    event: Seq<char>,
    message: Seq<char>,
    wanted: bool,
    key: Seq<char>,
    holder: Seq<char>,
    held_ms: u128,
    fp: u64,
) -> bool {
    &&& r is Some <==> wanted
    &&& r matches Some(e) ==> {
        &&& e.event@ == event
        &&& e.message@ == message
        &&& e.resource@ == key
        &&& e.holder_owner_fp == fp
        &&& e.holder_prefix@ == crate::text::first_chars(holder, HOLDER_PREFIX_CHARS as nat)
        &&& e.hold_ms == held_ms
    }
}

/// The line about a release of a lock, where it is wanted.
pub fn release_event(
    event: &'static str,
    message: &'static str,
    wanted: bool,
    key: &str,
    holder: &str,
    held_ms: u128,
    fp: u64,
) -> (r: Option<ReleaseEvent>)
    ensures
        is_release(r, event@, message@, wanted, key@, holder@, held_ms, fp),
{
    if !wanted {
        return None;
    }
    Some(
        ReleaseEvent {
            event,
            message,
            resource: key.to_owned(),
            holder_owner_fp: fp,
            holder_prefix: leading_chars(holder, HOLDER_PREFIX_CHARS),
            hold_ms: held_ms,
        },
    )
}

/// The line about the release of an exclusive lock. It is never sampled.
pub fn emit_exclusive_released(
    trace: &HolderTrace,
    enabled: bool,
    key: &str,
    holder: &str,
    held_ms: u128,
) -> (r: Option<ReleaseEvent>)
    ensures
        is_release(
            r,
            "exclusive_released"@,
            "exclusive lock released after hold"@,
            enabled && held_ms >= trace.min_hold_ms,
            key@,
            holder@,
            held_ms,
            fingerprint(holder@),
        ),
{
    release_event(
        "exclusive_released",
        "exclusive lock released after hold",
        enabled && held_ms >= trace.min_hold_ms,
        key,
        holder,
        held_ms,
        owner_fingerprint(holder),
    )
}

/// The line about the release of a shared lock by one of its holders. It is
/// never sampled.
pub fn emit_shared_released(
    trace: &HolderTrace,
    enabled: bool,
    key: &str,
    holder: &str,
    held_ms: u128,
) -> (r: Option<ReleaseEvent>)
    ensures
        is_release(
            r,
            "shared_released"@,
            "shared lock released after hold"@,
            enabled && held_ms >= trace.min_hold_ms,
            key@,
            holder@,
            held_ms,
            fingerprint(holder@),
        ),
{
    release_event(
        "shared_released",
        "shared lock released after hold",
        enabled && held_ms >= trace.min_hold_ms,
        key,
        holder,
        held_ms,
        owner_fingerprint(holder),
    )
}

/// The state after `k` more waits that are counted.
pub open spec fn after_waits(trace: HolderTrace, k: nat) -> HolderTrace
    decreases k,
{
    if k == 0 {
        trace
    } else {
        after_waits(trace, (k - 1) as nat).after_wait(true)
    }
}

/// One wait in N is logged: of any N waits that follow each other exactly one,
/// as long as the count does not wrap.
pub proof fn law_one_in_n_sampled(trace: HolderTrace)
    requires
        trace.wf(),
        trace.wait_seq + trace.sample_mod <= u64::MAX,
    ensures
        exists|i: nat|
            i < trace.sample_mod && #[trigger] after_waits(trace, i).takes_next(true) && forall|
                j: nat,
            |
                j < trace.sample_mod && j != i ==> !(#[trigger] after_waits(trace, j).takes_next(
                    true,
                )),
{
    let n = trace.sample_mod as int;
    let start = trace.wait_seq as int;
    let i = (-start) % n;
    assert forall|j: nat| j < n implies (#[trigger] after_waits(trace, j).takes_next(true) <==> j
        == i) by {
        lemma_after_waits(trace, j);
        crate::turns::lemma_turn(start, j as int, n, 0);
    }
    crate::turns::lemma_turn(start, 0, n, 0);
    assert(after_waits(trace, i as nat).takes_next(true));
}

proof fn lemma_after_waits(trace: HolderTrace, k: nat)
    requires
        trace.wait_seq + k <= u64::MAX,
    ensures
        after_waits(trace, k) == (HolderTrace { wait_seq: (trace.wait_seq + k) as u64, ..trace }),
    decreases k,
{
    if k > 0 {
        lemma_after_waits(trace, (k - 1) as nat);
    }
}

/// The list of readers has a bounded size, however many readers there are and
/// whatever they are called.
pub proof fn law_reader_list_is_bounded(readers: Seq<SharedOwnerBrief>)
    ensures
        byte_len(readers_from(readers, 0, Seq::empty())) <= MAX_READERS_LEN + 11,
{
    lemma_reader_list(readers, 0, Seq::empty());
}

proof fn lemma_reader_list(readers: Seq<SharedOwnerBrief>, i: int, out: Seq<char>)
    requires
        0 <= i,
        byte_len(out) <= MAX_READERS_LEN,
    ensures
        byte_len(readers_from(readers, i, out)) <= MAX_READERS_LEN + 11,
    decreases readers.len() - i,
{
    if i < readers.len() {
        let so_far = separated(out, i, '|');
        let piece = reader_piece(readers[i]);
        assert(out.push('|') =~= out + seq!['|']);
        lemma_byte_len_concat(out, seq!['|']);
        reveal_strlit("...(trunc)");
        assert(byte_len(seq!['|']) == 1) by {
            vstd::utf8::is_ascii_chars_encode_utf8(seq!['|']);
        }
        assert(byte_len("...(trunc)"@) == 10) by {
            vstd::utf8::is_ascii_chars_encode_utf8("...(trunc)"@);
        }
        if byte_len(so_far) + byte_len(piece) > MAX_READERS_LEN {
            lemma_byte_len_concat(so_far, "...(trunc)"@);
        } else {
            lemma_byte_len_concat(so_far, piece);
            lemma_reader_list(readers, i + 1, so_far + piece);
        }
    }
}

proof fn lemma_byte_len_concat(a: Seq<char>, b: Seq<char>)
    ensures
        byte_len(a + b) == byte_len(a) + byte_len(b),
    decreases a.len(),
{
    if a.len() == 0 {
        assert(a + b =~= b);
    } else {
        assert((a + b).drop_first() =~= a.drop_first() + b);
        lemma_byte_len_concat(a.drop_first(), b);
    }
}

/// The first `k` readers as a list that is not cut.
pub open spec fn whole_list(readers: Seq<SharedOwnerBrief>, k: int) -> Seq<char>
    decreases k,
{
    if k <= 0 {
        Seq::empty()
    } else {
        separated(whole_list(readers, k - 1), k - 1, '|') + reader_piece(readers[k - 1])
    }
}

/// Whether the list of the first `k` readers is short enough.
pub open spec fn list_fits(readers: Seq<SharedOwnerBrief>, k: int) -> bool {
    byte_len(whole_list(readers, k)) <= MAX_READERS_LEN
}

/// Whether `list` holds the first `k` readers, whole and in order, and no more
/// because no more fit; where that is not all of them, the mark of the cut
/// follows.
pub open spec fn holds_what_fits(readers: Seq<SharedOwnerBrief>, k: int, list: Seq<char>) -> bool {
    &&& 0 <= k <= readers.len()
    &&& forall|j: int| 0 <= j <= k ==> #[trigger] list_fits(readers, j)
    &&& k < readers.len() ==> !list_fits(readers, k + 1)
    &&& list == if k == readers.len() {
        whole_list(readers, k)
    } else {
        separated(whole_list(readers, k), k, '|') + "...(trunc)"@
    }
}

/// The list of readers holds as many of them, whole and in order, as fit. Where
/// that is not all of them, the mark of the cut follows.
pub proof fn law_reader_list_holds_what_fits(readers: Seq<SharedOwnerBrief>)
    ensures
        exists|k: int| holds_what_fits(readers, k, readers_from(readers, 0, Seq::empty())),
{
    assert(whole_list(readers, 0) == Seq::<char>::empty());
    assert(list_fits(readers, 0)) by {
        assert(byte_len(Seq::empty()) == 0);
    }
    let k = lemma_list_from(readers, 0);
    assert(holds_what_fits(readers, k, readers_from(readers, 0, Seq::empty())));
}

proof fn lemma_list_from(readers: Seq<SharedOwnerBrief>, i: int) -> (k: int)
    requires
        0 <= i <= readers.len(),
        forall|j: int| 0 <= j <= i ==> #[trigger] list_fits(readers, j),
    ensures
        holds_what_fits(readers, k, readers_from(readers, i, whole_list(readers, i))),
    decreases readers.len() - i,
{
    if i < readers.len() {
        let so_far = separated(whole_list(readers, i), i, '|');
        let piece = reader_piece(readers[i]);
        assert(whole_list(readers, i + 1) == so_far + piece);
        lemma_byte_len_concat(so_far, piece);
        if list_fits(readers, i + 1) {
            lemma_list_from(readers, i + 1)
        } else {
            i
        }
    } else {
        i
    }
}

/// What the list says of a reader: the fingerprint, what stands for the request,
/// how long the lock is held and the beginning of the name. The operation stands
/// for the request, else the trace, else a dash.
pub proof fn law_reader_is_described(s: SharedOwnerBrief)
    ensures
        ({
            let op = if s.operation_id is Some {
                s.operation_id->0@
            } else if s.trace_id is Some {
                s.trace_id->0@
            } else {
                "-"@
            };
            reader_piece(s) == "fp="@ + crate::text::decimal(s.owner_fp as nat) + " op="@ + op
                + " held_ms="@ + crate::text::decimal(s.held_ms as nat) + " prefix="@ + s.prefix@
        }),
{
}

/// How the list of readers is made up: the readers one after the other with bars
/// between them, as long as that takes at most 512 bytes; the first reader that
/// would pass them, and all behind it, give way to a mark.
pub proof fn law_reader_list_is_cut_at_its_limit(readers: Seq<SharedOwnerBrief>, k: int)
    ensures
        whole_list(readers, 0) == Seq::<char>::empty(),
        whole_list(readers, 1) == reader_piece(readers[0]),
        k >= 1 ==> whole_list(readers, k + 1) == whole_list(readers, k) + seq!['|']
            + reader_piece(readers[k]),
        (forall|j: int|
            1 <= j <= readers.len() ==> vstd::utf8::encode_utf8(
                #[trigger] whole_list(readers, j),
            ).len() <= 512) ==> readers_from(readers, 0, Seq::empty()) == whole_list(
            readers,
            readers.len() as int,
        ),
        0 <= k < readers.len() && (forall|j: int|
            1 <= j <= k ==> vstd::utf8::encode_utf8(#[trigger] whole_list(readers, j)).len() <= 512)
            && vstd::utf8::encode_utf8(whole_list(readers, k + 1)).len() > 512 ==> readers_from(
            readers,
            0,
            Seq::empty(),
        ) == if k == 0 {
            "...(trunc)"@
        } else {
            whole_list(readers, k) + seq!['|'] + "...(trunc)"@
        },
{
    let list = readers_from(readers, 0, Seq::empty());
    reveal_with_fuel(whole_list, 2);
    assert(Seq::<char>::empty() + reader_piece(readers[0]) =~= reader_piece(readers[0]));
    if k >= 1 {
        assert(whole_list(readers, k).push('|') =~= whole_list(readers, k) + seq!['|']);
    }
    assert(list_fits(readers, 0)) by {
        assert(byte_len(Seq::empty()) == 0);
    }
    law_reader_list_holds_what_fits(readers);
    let held = choose|held: int| holds_what_fits(readers, held, list);
    if forall|j: int|
        1 <= j <= readers.len() ==> vstd::utf8::encode_utf8(
            #[trigger] whole_list(readers, j),
        ).len() <= 512 {
        assert(held < readers.len() ==> list_fits(readers, held + 1));
    }
    if 0 <= k < readers.len() && (forall|j: int|
        1 <= j <= k ==> vstd::utf8::encode_utf8(#[trigger] whole_list(readers, j)).len() <= 512)
        && vstd::utf8::encode_utf8(whole_list(readers, k + 1)).len() > 512 {
        assert(!list_fits(readers, k + 1));
        if held < k {
            assert(list_fits(readers, held + 1));
        }
        if held > k {
            assert(list_fits(readers, k + 1));
        }
        assert(held == k);
        assert(Seq::<char>::empty() + "...(trunc)"@ =~= "...(trunc)"@);
    }
}

/// Identifiers are listed one after the other with commas between them, a dash
/// for each that is missing, and those of readers in the order of the readers.
pub proof fn law_ids_are_listed_in_order(
    ids: Seq<Option<String>>,
    k: int,
    readers: Seq<SharedOwnerBrief>,
    i: int,
)
    ensures
        ids_csv(ids, 0) == Seq::<char>::empty(),
        ids[0] is Some ==> ids_csv(ids, 1) == ids[0]->0@,
        ids[0] is None ==> ids_csv(ids, 1) == "-"@,
        k >= 1 && ids[k] is Some ==> ids_csv(ids, k + 1) == ids_csv(ids, k) + seq![',']
            + ids[k]->0@,
        k >= 1 && ids[k] is None ==> ids_csv(ids, k + 1) == ids_csv(ids, k) + seq![','] + "-"@,
        operation_ids(readers).len() == readers.len(),
        trace_ids(readers).len() == readers.len(),
        0 <= i < readers.len() ==> operation_ids(readers)[i] == readers[i].operation_id
            && trace_ids(readers)[i] == readers[i].trace_id,
{
    reveal_with_fuel(ids_csv, 2);
    assert(Seq::<char>::empty() + "-"@ =~= "-"@);
    if ids[0] is Some {
        assert(Seq::<char>::empty() + ids[0]->0@ =~= ids[0]->0@);
    }
    if k >= 1 {
        assert(ids_csv(ids, k).push(',') =~= ids_csv(ids, k) + seq![',']);
    }
}

/// A setting counts where it is a number above zero that does not pass the
/// limit; else there is one wait in 32, and 20 milliseconds.
pub proof fn law_positive_setting_counts(text: String, n: nat, max: int, fallback: int)
    ensures
        positive_setting(None, max, fallback) == fallback,
        crate::text::unsigned_text(text@) is None ==> positive_setting(Some(text), max, fallback)
            == fallback,
        crate::text::unsigned_text(text@) == Some(n) && 1 <= n <= max ==> positive_setting(
            Some(text),
            max,
            fallback,
        ) == n,
        crate::text::unsigned_text(text@) == Some(n) && !(1 <= n <= max) ==> positive_setting(
            Some(text),
            max,
            fallback,
        ) == fallback,
        DEFAULT_TRACE_SAMPLE == 32,
        DEFAULT_MIN_HOLD_LOG_MS == 20,
{
}

/// A wait is logged exactly where lines are wanted and the number of waits
/// before it is a multiple of the sampling. It is counted where lines are
/// wanted, and changes nothing else.
pub proof fn law_wait_is_counted_and_sampled(trace: HolderTrace, rounds: nat, extra: nat)
    requires
        extra < trace.sample_mod,
        trace.wait_seq == rounds * trace.sample_mod + extra,
    ensures
        trace.wf(),
        trace.takes_next(true) <==> extra == 0,
        !trace.takes_next(false),
        trace.after_wait(false) == trace,
        trace.after_wait(true).sample_mod == trace.sample_mod,
        trace.after_wait(true).min_hold_ms == trace.min_hold_ms,
        trace.wait_seq < u64::MAX ==> trace.after_wait(true).wait_seq == trace.wait_seq + 1,
        trace.wait_seq == u64::MAX ==> trace.after_wait(true).wait_seq == 0,
{
    vstd::arithmetic::div_mod::lemma_fundamental_div_mod_converse(
        trace.wait_seq as int,
        trace.sample_mod as int,
        rounds as int,
        extra as int,
    );
}

/// The line about a wait says what the request and the holders say, field by
/// field, and nothing where the request has no such text. It says how the lock
/// is held where the wait begins, and leaves that out where the waiter parks.
pub proof fn law_wait_line_says_what_is_known(
    r: WaitEvent,
    request: ObjectLockRequest,
    snap: WaiterContentionSnapshot,
    retry_count: u32,
    fp: u64,
)
    requires
        is_wait_blocked(r, request, snap, retry_count, fp) || is_notify_enter(
            r,
            request,
            snap,
            retry_count,
            fp,
        ),
    ensures
        is_wait_blocked(r, request, snap, retry_count, fp) ==> r.event@ == "wait_blocked"@
            && r.message@ == "lock holder snapshot while waiting"@ && r.lock_mode == Some(
            snap.lock_mode,
        ),
        is_notify_enter(r, request, snap, retry_count, fp) ==> r.event@ == "notify_enter"@
            && r.message@ == "entering notify wait for lock"@ && r.lock_mode is None,
        r.resource@ == request.key@,
        request.trace_id matches Some(t) ==> r.trace_id@ == t@,
        request.trace_id is None ==> r.trace_id@.len() == 0,
        request.operation_id matches Some(t) ==> r.operation_id@ == t@,
        request.operation_id is None ==> r.operation_id@.len() == 0,
        request.lock_source matches Some(t) ==> r.lock_source@ == t@,
        request.lock_source is None ==> r.lock_source@.len() == 0,
        request.lock_source_detail matches Some(t) ==> r.lock_source_detail@ == t@,
        request.lock_source_detail is None ==> r.lock_source_detail@.len() == 0,
        r.mode == request.mode,
        r.retry_count == retry_count,
        r.waiter_owner_fp == fp,
        r.exclusive_holder_fp == snap.exclusive_holder_fp,
        r.exclusive_holder_held_ms == snap.exclusive_holder_held_ms,
        r.readers == snap.readers,
        r.readers_waiting == snap.readers_waiting,
        r.writers_waiting == snap.writers_waiting,
        r.shared_reader_count == snap.shared_readers@.len(),
        r.shared_readers@ == readers_from(snap.shared_readers@, 0, Seq::empty()),
        r.shared_reader_operation_ids@ == ids_csv(
            Seq::new(snap.shared_readers@.len(), |i: int| snap.shared_readers@[i].operation_id),
            snap.shared_readers@.len() as int,
        ),
        r.shared_reader_trace_ids@ == ids_csv(
            Seq::new(snap.shared_readers@.len(), |i: int| snap.shared_readers@[i].trace_id),
            snap.shared_readers@.len() as int,
        ),
{
    reveal_strlit("");
    let readers = snap.shared_readers@;
    assert(Seq::new(readers.len(), |i: int| readers[i].operation_id) =~= operation_ids(readers));
    assert(Seq::new(readers.len(), |i: int| readers[i].trace_id) =~= trace_ids(readers));
}

/// The line about a release comes exactly where it is wanted, and says who held
/// which lock for how long; of a long name it says the first 120 characters.
pub proof fn law_release_line_says_who_held_it(
    r: Option<ReleaseEvent>,
    event: Seq<char>,
    message: Seq<char>,
    wanted: bool,
    key: Seq<char>,
    holder: Seq<char>,
    held_ms: u128,
    fp: u64,
)
    requires
        is_release(r, event, message, wanted, key, holder, held_ms, fp),
    ensures
        r is Some <==> wanted,
        r matches Some(e) ==> {
            &&& e.event@ == event
            &&& e.message@ == message
            &&& e.resource@ == key
            &&& e.holder_owner_fp == fp
            &&& e.hold_ms == held_ms
            &&& holder.len() <= 120 ==> e.holder_prefix@ == holder
            &&& holder.len() > 120 ==> e.holder_prefix@ == holder.subrange(0, 120)
        },
{
    if holder.len() > 120 {
        assert(holder.take(120) =~= holder.subrange(0, 120));
    }
}

/// A fingerprint is made of the whole name and of nothing else.
pub proof fn law_fingerprint_is_of_the_whole_name(name: Seq<char>)
    ensures
        fingerprint(name)
            == <DefaultHasher as vstd::std_specs::hash::DefaultHasherAdditionalSpecFns>::spec_finish(
            str_hash_writes(name),
        ),
{
}

/// The lines have this target, and the settings these names.
pub proof fn law_holder_settings_are_named()
    ensures
        HOLDER_TARGET@ == "rustfs_lock_holder"@,
        ENV_TRACE_SAMPLE@ == "RUSTFS_LOCK_HOLDER_TRACE_SAMPLE"@,
        ENV_MIN_HOLD_LOG_MS@ == "RUSTFS_LOCK_HOLDER_MIN_HOLD_LOG_MS"@,
{
}

/// A wait is counted exactly where lines are wanted, and its line comes exactly
/// where it is sampled too.
pub proof fn law_wait_lines_are_sampled(
    trace: &mut HolderTrace,
    enabled: bool,
    request: &ObjectLockRequest,
    snap: &WaiterContentionSnapshot,
    retry_count: u32,
    r: Option<WaitEvent>,
    parked: &mut HolderTrace,
    p: Option<WaitEvent>,
)
    requires
        call_ensures(emit_wait_blocked, (trace, enabled, request, snap, retry_count), r),
        call_ensures(emit_notify_enter, (parked, enabled, request, snap, retry_count), p),
        *old(parked) == *old(trace),
        old(trace).sample_mod > 0,
    ensures
        r is Some <==> enabled && old(trace).wait_seq % old(trace).sample_mod == 0,
        p is Some <==> r is Some,
        r matches Some(e) ==> e.event@ == "wait_blocked"@ && e.resource@ == request.key@
            && e.lock_mode == Some(snap.lock_mode) && e.retry_count == retry_count
            && e.waiter_owner_fp == fingerprint(request.owner@),
        p matches Some(e) ==> e.event@ == "notify_enter"@ && e.resource@ == request.key@
            && e.lock_mode is None && e.retry_count == retry_count && e.waiter_owner_fp
            == fingerprint(request.owner@),
        !enabled ==> *final(trace) == *old(trace) && *final(parked) == *old(parked),
        enabled && old(trace).wait_seq < u64::MAX ==> final(trace).wait_seq == old(trace).wait_seq
            + 1 && final(parked).wait_seq == old(parked).wait_seq + 1,
        final(trace).sample_mod == old(trace).sample_mod,
        final(trace).min_hold_ms == old(trace).min_hold_ms,
{
}

/// The line about a release comes exactly where lines are wanted and the lock was
/// held long enough; it is never sampled. It tells the two ways of holding a
/// lock apart.
pub proof fn law_release_lines_depend_on_the_hold(
    trace: HolderTrace,
    enabled: bool,
    key: &str,
    holder: &str,
    held_ms: u128,
    exclusive: Option<ReleaseEvent>,
    shared: Option<ReleaseEvent>,
)
    requires
        call_ensures(emit_exclusive_released, (&trace, enabled, key, holder, held_ms), exclusive),
        call_ensures(emit_shared_released, (&trace, enabled, key, holder, held_ms), shared),
    ensures
        exclusive is Some <==> enabled && held_ms >= trace.min_hold_ms,
        shared is Some <==> exclusive is Some,
        exclusive matches Some(e) ==> e.event@ == "exclusive_released"@ && e.message@
            == "exclusive lock released after hold"@ && e.resource@ == key@ && e.hold_ms == held_ms
            && e.holder_owner_fp == fingerprint(holder@) && (holder@.len() <= 120
            ==> e.holder_prefix@ == holder@),
        shared matches Some(e) ==> e.event@ == "shared_released"@ && e.message@
            == "shared lock released after hold"@ && e.resource@ == key@ && e.hold_ms == held_ms
            && e.holder_owner_fp == fingerprint(holder@) && (holder@.len() <= 120
            ==> e.holder_prefix@ == holder@),
{
}

/// Where nothing is set, one wait in 32 is logged and a release after 20
/// milliseconds; nothing was seen yet.
pub proof fn law_trace_starts_with_defaults(
    sample: &Option<String>,
    min_hold: &Option<String>,
    r: HolderTrace,
)
    requires
        call_ensures(HolderTrace::new, (sample, min_hold), r),
    ensures
        r.wait_seq == 0,
        r.sample_mod > 0,
        *sample is None ==> r.sample_mod == 32,
        *min_hold is None ==> r.min_hold_ms == 20,
{
}

}
