//! Pools of connections to peers: how large a pool is, which of its channels is
//! next, and which pools are kept.

use vstd::prelude::*;

use crate::text::{parse_unsigned, same_text};

verus! {

/// The environment variable that overrides the size of a pool.
pub const ENV_RPC_CHANNEL_POOL_SIZE: &'static str = "RUSTFS_RPC_CHANNEL_POOL_SIZE";

/// The environment variable that gives the number of worker threads.
pub const ENV_RUNTIME_WORKER_THREADS: &'static str = "RUSTFS_RUNTIME_WORKER_THREADS";

/// How many worker threads share one connection.
pub const RPC_POOL_THREADS_PER_CONN: usize = 4;

/// The largest pool, whatever the thread count or the override say.
pub const RPC_MAX_POOL_SIZE: usize = 16;

/// The worker threads that are taken for granted where nothing tells.
pub const FALLBACK_WORKER_THREADS: usize = 4;

/// `n`, or the nearest bound where it is out of bounds.
pub open spec fn clamped(n: int, lo: int, hi: int) -> int {
    if n < lo {
        lo
    } else if n > hi {
        hi
    } else {
        n
    }
}

/// The size of a pool: the override where there is one, else one connection for
/// every four worker threads; at least one and at most sixteen.
pub open spec fn pool_size(worker_threads: int, override_val: Option<usize>) -> int {
    clamped(
        match override_val {
            Some(n) => n as int,
            None => worker_threads / RPC_POOL_THREADS_PER_CONN as int,
        },
        1,
        RPC_MAX_POOL_SIZE as int,
    )
}

/// The number that a setting gives, where it is set and fits a machine word.
pub open spec fn setting_value(text: Option<String>) -> Option<usize> {
    match text {
        Some(t) => match crate::text::unsigned_text(t@) {
            Some(n) => if n <= usize::MAX {
                Some(n as usize)
            } else {
                None
            },
            None => None,
        },
        None => None,
    }
}

/// The number that an override gives: zero is as good as none.
pub open spec fn override_value(text: Option<String>) -> Option<usize> {
    match setting_value(text) {
        Some(n) => if n > 0 {
            Some(n)
        } else {
            None
        },
        None => None,
    }
}

/// The counter of a pool after one more channel was handed out.
pub open spec fn next_count(n: usize) -> usize {
    if n == usize::MAX {
        0
    } else {
        (n + 1) as usize
    }
}

/// The size of a pool of channels to one peer.
pub fn compute_pool_size(worker_threads: usize, override_val: Option<usize>) -> (r: usize)
    ensures
        r == pool_size(worker_threads as int, override_val),
{
    let n: usize = match override_val {
        Some(n) => n,
        None => worker_threads / RPC_POOL_THREADS_PER_CONN,
    };
    if n < 1 {
        1
    } else if n > RPC_MAX_POOL_SIZE {
        RPC_MAX_POOL_SIZE
    } else {
        n
    }
}

fn parse_setting(text: &Option<String>) -> (r: Option<usize>)
    ensures
        r == setting_value(*text),
{
    match text {
        Some(t) => match parse_unsigned(t.as_str(), usize::MAX as u128) {
            Some(n) => Some(n as usize),
            None => None,
        },
        None => None,
    }
}

/// The size of a pool from the settings and from the number of processors,
/// where that is known. The settings are taken as the text that they hold.
pub fn configured_pool_size(
    override_text: &Option<String>,
    workers_text: &Option<String>,
    processors: Option<usize>,
) -> (r: usize)
    ensures
        r == pool_size(
            match setting_value(*workers_text) {
                Some(n) => n as int,
                None => match processors {
                    Some(n) => n as int,
                    None => FALLBACK_WORKER_THREADS as int,
                },
            },
            override_value(*override_text),
        ),
        1 <= r <= 16,
        override_value(*override_text) matches Some(n) ==> (n <= 16 ==> r == n),
        override_value(*override_text) is None && setting_value(*workers_text) is None
            && processors is None ==> r == 1,
{
    let override_val: Option<usize> = match parse_setting(override_text) {
        Some(n) => if n > 0 {
            Some(n)
        } else {
            None
        },
        None => None,
    };
    let workers: usize = match parse_setting(workers_text) {
        Some(n) => n,
        None => match processors {
            Some(n) => n,
            None => FALLBACK_WORKER_THREADS,
        },
    };
    compute_pool_size(workers, override_val)
}

/// The channels to one peer, handed out in turn.
#[derive(Debug)]
pub struct ConnPoolEntry<C> {
    channels: Vec<C>,
    next: usize,
}

impl<C> ConnPoolEntry<C> {
    /// A pool holds at least one channel.
    #[verifier::type_invariant]
    spec fn nonempty(self) -> bool {
        self.channels@.len() > 0
    }

    /// The channels of the pool.
    pub closed spec fn channels(self) -> Seq<C> {
        self.channels@
    }

    /// How many channels were handed out, up to where the count wraps.
    pub closed spec fn count(self) -> usize {
        self.next
    }

    /// A pool of these channels, the first of them next.
    pub fn new(channels: Vec<C>) -> (r: ConnPoolEntry<C>)
        requires
            channels@.len() > 0,
        ensures
            r.channels() == channels@,
            r.count() == 0,
    {
        ConnPoolEntry { channels, next: 0 }
    }

    /// How many channels the pool has.
    pub fn len(&self) -> (r: usize)
        ensures
            r == self.channels().len(),
    {
        self.channels.len()
    }

    /// Whether the pool has no channel, which is never so.
    pub fn is_empty(&self) -> (r: bool)
        ensures
            !r,
            r == (self.channels().len() == 0),
    {
        proof {
            use_type_invariant(self);
        }
        self.channels.len() == 0
    }

    /// How many channels were handed out, up to where the count wraps.
    pub fn handed_out(&self) -> (r: usize)
        ensures
            r == self.count(),
    {
        self.next
    }
}

impl<C: Clone> ConnPoolEntry<C> {
    /// The next channel in turn.
    pub fn next_channel(&mut self) -> (r: C)
        ensures
            cloned(
                old(self).channels()[old(self).count() as int % old(self).channels().len() as int],
                r,
            ),
            old(self).channels().len() > 0,
            final(self).channels() == old(self).channels(),
            final(self).count() == next_count(old(self).count()),
    {
        proof {
            use_type_invariant(&*self);
        }
        let idx: usize = self.next % self.channels.len();
        self.next = self.next.wrapping_add(1);
        self.channels[idx].clone()
    }
}

/// The pool that is kept for one peer.
#[derive(Debug)]
struct KeptPool<C> {
    addr: String,
    pool: ConnPoolEntry<C>,
}

/// The pools that are kept, one for each address.
#[derive(Debug)]
pub struct ConnMap<C> {
    kept: Vec<KeptPool<C>>,
}

/// How a request for a channel goes on.
#[derive(Debug)]
pub enum ChannelStep<C> {
    /// The next channel of the pool that is kept.
    Use(C),
    /// There is no pool: make one of this many channels.
    Create(usize),
}

impl<C> ConnMap<C> {
    /// The address of the `i`-th pool.
    closed spec fn addr(self, i: int) -> Seq<char> {
        self.kept@[i].addr@
    }

    /// No address is kept twice.
    #[verifier::type_invariant]
    spec fn wf(self) -> bool {
        forall|i: int, j: int|
            0 <= i < self.kept@.len() && 0 <= j < self.kept@.len() && #[trigger] self.addr(i)
                == #[trigger] self.addr(j) ==> i == j
    }

    spec fn place(self, addr: Seq<char>) -> int {
        choose|i: int| 0 <= i < self.kept@.len() && #[trigger] self.addr(i) == addr
    }

    spec fn has(self, addr: Seq<char>) -> bool {
        exists|i: int| 0 <= i < self.kept@.len() && #[trigger] self.addr(i) == addr
    }
}

impl<C> View for ConnMap<C> {
    type V = Map<Seq<char>, ConnPoolEntry<C>>;

    /// The kept pools by address.
    closed spec fn view(&self) -> Map<Seq<char>, ConnPoolEntry<C>> {
        Map::new(
            |addr: Seq<char>| self.has(addr),
            |addr: Seq<char>| self.kept@[self.place(addr)].pool,
        )
    }
}

impl<C> ConnMap<C> {
    /// No pool at all.
    pub fn new() -> (r: ConnMap<C>)
        ensures
            r@ == Map::<Seq<char>, ConnPoolEntry<C>>::empty(),
    {
        let r: ConnMap<C> = ConnMap { kept: Vec::new() };
        assert(r@ =~= Map::<Seq<char>, ConnPoolEntry<C>>::empty());
        r
    }

    fn find(&self, addr: &str) -> (r: Option<usize>)
        ensures
            match r {
                Some(i) => i < self.kept@.len() && self.addr(i as int) == addr@,
                None => !self.has(addr@),
            },
    {
        let mut i: usize = 0;
        while i < self.kept.len()
            invariant
                i <= self.kept@.len(),
                forall|j: int| 0 <= j < i ==> #[trigger] self.addr(j) != addr@,
            decreases self.kept@.len() - i,
        {
            if same_text(self.kept[i].addr.as_str(), addr) {
                return Some(i);
            }
            assert(self.addr(i as int) != addr@);
            i = i + 1;
        }
        None
    }

    proof fn lemma_found(self, i: int)
        requires
            self.wf(),
            0 <= i < self.kept@.len(),
        ensures
            self@.contains_key(self.addr(i)),
            self@[self.addr(i)] == self.kept@[i].pool,
    {
        assert(self.has(self.addr(i)));
        let p = self.place(self.addr(i));
        assert(self.addr(p) == self.addr(i));
    }
}

/// Whether a pool is kept for the address.
pub fn has_cached_connection<C>(map: &ConnMap<C>, addr: &str) -> (r: bool)
    ensures
        r == map@.contains_key(addr@),
{
    proof {
        use_type_invariant(map);
    }
    match map.find(addr) {
        Some(i) => {
            proof {
                map.lemma_found(i as int);
            }
            true
        },
        None => false,
    }
}

/// Drops every pool, and says how many there were.
pub fn clear_all_connections<C>(map: &mut ConnMap<C>) -> (r: usize)
    ensures
        final(map)@ == Map::<Seq<char>, ConnPoolEntry<C>>::empty(),
        old(map)@.dom().finite(),
        r == old(map)@.dom().len(),
{
    proof {
        use_type_invariant(&*map);
        lemma_pool_count(*map);
    }
    let count: usize = map.kept.len();
    map.kept = Vec::new();
    assert(map@ =~= Map::<Seq<char>, ConnPoolEntry<C>>::empty());
    count
}

/// Drops the pool of an address, and says whether there was one. The next
/// request for a channel makes a fresh one.
pub fn evict_connection<C>(map: &mut ConnMap<C>, addr: &str) -> (r: bool)
    ensures
        final(map)@ == old(map)@.remove(addr@),
        r == old(map)@.contains_key(addr@),
{
    proof {
        use_type_invariant(&*map);
    }
    let ghost before = *map;
    match map.find(addr) {
        Some(i) => {
            let mut kept: Vec<KeptPool<C>> = Vec::new();
            std::mem::swap(&mut kept, &mut map.kept);
            let _dropped: KeptPool<C> = kept.remove(i);
            proof {
                before.lemma_found(i as int);
                lemma_removed(before, (ConnMap { kept }), i as int);
            }
            map.kept = kept;
            true
        },
        None => {
            assert(map@ =~= before@.remove(addr@));
            false
        },
    }
}

/// Drops the pool of an address after a call through it failed.
pub fn evict_failed_connection<C>(map: &mut ConnMap<C>, addr: &str) -> (r: bool)
    ensures
        final(map)@ == old(map)@.remove(addr@),
        r == old(map)@.contains_key(addr@),
{
    evict_connection(map, addr)
}

proof fn lemma_removed<C>(before: ConnMap<C>, after: ConnMap<C>, i: int)
    requires
        before.wf(),
        0 <= i < before.kept@.len(),
        after.kept@ == before.kept@.remove(i),
    ensures
        after.wf(),
        after@ == before@.remove(before.addr(i)),
{
    let source = |j: int|
        if j < i {
            j
        } else {
            j + 1
        };
    assert forall|j: int| 0 <= j < after.kept@.len() implies #[trigger] after.kept@[j]
        == before.kept@[source(j)] by {}
    assert forall|j: int| 0 <= j < after.kept@.len() implies #[trigger] after.addr(j)
        == before.addr(source(j)) by {
        assert(after.kept@[j] == before.kept@[source(j)]);
    }
    assert(after.wf());
    assert forall|addr: Seq<char>| after.has(addr) <==> before.has(addr) && addr != before.addr(
        i,
    ) by {
        if after.has(addr) {
            let j = after.place(addr);
            assert(before.addr(source(j)) == addr);
        }
        if before.has(addr) && addr != before.addr(i) {
            let j = before.place(addr);
            let k = if j < i {
                j
            } else {
                j - 1
            };
            assert(after.addr(k) == before.addr(source(k)));
        }
    }
    assert forall|addr: Seq<char>| after.has(addr) implies after@[addr] == before@[addr] by {
        let j = after.place(addr);
        assert(after.addr(j) == addr);
        after.lemma_found(j);
        before.lemma_found(source(j));
        assert(after.kept@[j] == before.kept@[source(j)]);
    }
    assert(after@ =~= before@.remove(before.addr(i)));
}

proof fn lemma_pool_count<C>(map: ConnMap<C>)
    requires
        map.wf(),
    ensures
        map@.dom().finite(),
        map@.dom().len() == map.kept@.len(),
{
    let addrs = Seq::new(map.kept@.len(), |i: int| map.addr(i));
    assert(addrs.no_duplicates());
    addrs.unique_seq_to_set();
    vstd::seq_lib::seq_to_set_is_finite(addrs);
    assert forall|addr: Seq<char>| addrs.to_set().contains(addr) <==> map@.dom().contains(
        addr,
    ) by {
        if map.has(addr) {
            let i = map.place(addr);
            assert(addrs[i] == addr);
        }
        if addrs.contains(addr) {
            let i = choose|i: int| 0 <= i < addrs.len() && addrs[i] == addr;
            assert(map.addr(i) == addr);
        }
    }
    assert(addrs.to_set() =~= map@.dom());
}

proof fn lemma_advanced<C>(before: ConnMap<C>, after: ConnMap<C>, i: int)
    requires
        before.wf(),
        0 <= i < before.kept@.len(),
        after.kept@.len() == before.kept@.len(),
        after.kept@[i].addr == before.kept@[i].addr,
        forall|j: int|
            0 <= j < before.kept@.len() && j != i ==> #[trigger] after.kept@[j] == before.kept@[j],
    ensures
        after.wf(),
        after@ == before@.insert(before.addr(i), after.kept@[i].pool),
{
    assert forall|j: int| 0 <= j < after.kept@.len() implies #[trigger] after.addr(j)
        == before.addr(j) by {
        if j != i {
            assert(after.kept@[j] == before.kept@[j]);
        }
    }
    assert(after.wf());
    assert forall|addr: Seq<char>| after.has(addr) <==> before.has(addr) by {
        if after.has(addr) {
            assert(before.addr(after.place(addr)) == addr);
        }
        if before.has(addr) {
            assert(after.addr(before.place(addr)) == addr);
        }
    }
    before.lemma_found(i);
    after.lemma_found(i);
    assert forall|addr: Seq<char>| after.has(addr) && addr != before.addr(i) implies after@[addr]
        == before@[addr] by {
        let j = after.place(addr);
        assert(after.addr(j) == addr);
        after.lemma_found(j);
        before.lemma_found(j);
        assert(after.kept@[j] == before.kept@[j]);
    }
    assert(after@ =~= before@.insert(before.addr(i), after.kept@[i].pool));
}

proof fn lemma_added<C>(before: ConnMap<C>, after: ConnMap<C>, added: KeptPool<C>)
    requires
        before.wf(),
        !before.has(added.addr@),
        after.kept@ == before.kept@.push(added),
    ensures
        after.wf(),
        after@ == before@.insert(added.addr@, added.pool),
{
    let n = before.kept@.len() as int;
    assert forall|j: int| 0 <= j < n implies #[trigger] after.addr(j) == before.addr(j) by {
        assert(after.kept@[j] == before.kept@[j]);
    }
    assert(after.addr(n) == added.addr@);
    assert(after.wf());
    assert forall|addr: Seq<char>| after.has(addr) <==> before.has(addr) || addr == added.addr@ by {
        if after.has(addr) {
            let j = after.place(addr);
            assert(j < n ==> before.addr(j) == addr);
        }
        if before.has(addr) {
            assert(after.addr(before.place(addr)) == addr);
        }
    }
    after.lemma_found(n);
    assert forall|addr: Seq<char>| after.has(addr) && addr != added.addr@ implies after@[addr]
        == before@[addr] by {
        let j = after.place(addr);
        assert(after.addr(j) == addr);
        after.lemma_found(j);
        before.lemma_found(j);
    }
    assert(after@ =~= before@.insert(added.addr@, added.pool));
}

/// Whether `after` is `before` with one more channel handed out.
pub open spec fn advanced<C>(before: ConnPoolEntry<C>, after: ConnPoolEntry<C>) -> bool {
    after.channels() == before.channels() && after.count() == next_count(before.count())
}

/// Whether `r` is the channel that a pool hands out next.
pub open spec fn is_next_channel<C: Clone>(pool: ConnPoolEntry<C>, r: C) -> bool {
    pool.channels().len() > 0 && cloned(
        pool.channels()[pool.count() as int % pool.channels().len() as int],
        r,
    )
}

/// Begins a request for a channel: the next channel of the pool that is kept
/// for the address, or how large a pool has to be made.
pub fn get_or_create_pool_channel<C: Clone>(map: &mut ConnMap<C>, addr: &str, pool_size: usize) -> (r:
    ChannelStep<C>)
    ensures
        if old(map)@.contains_key(addr@) {
            &&& r matches ChannelStep::Use(channel) && is_next_channel(old(map)@[addr@], channel)
            &&& final(map)@ == old(map)@.insert(addr@, final(map)@[addr@])
            &&& advanced(old(map)@[addr@], final(map)@[addr@])
        } else {
            &&& r == ChannelStep::<C>::Create(pool_size)
            &&& final(map)@ == old(map)@
        },
{
    proof {
        use_type_invariant(&*map);
    }
    let ghost before = *map;
    match map.find(addr) {
        Some(i) => {
            let mut kept: Vec<KeptPool<C>> = Vec::new();
            std::mem::swap(&mut kept, &mut map.kept);
            let channel: C = kept[i].pool.next_channel();
            proof {
                before.lemma_found(i as int);
                lemma_advanced(before, (ConnMap { kept }), i as int);
            }
            map.kept = kept;
            ChannelStep::Use(channel)
        },
        None => ChannelStep::Create(pool_size),
    }
}

/// Ends a request for a channel with the pool that was made for it. Where
/// another request made one meanwhile, the last writer wins: one set of
/// channels is kept and the other dropped.
pub fn pool_created<C: Clone>(map: &mut ConnMap<C>, addr: &str, channels: Vec<C>) -> (r: C)
    requires
        channels@.len() > 0,
    ensures
        final(map)@ == old(map)@.insert(addr@, final(map)@[addr@]),
        final(map)@[addr@].channels() == channels@,
        final(map)@[addr@].count() == 1,
        cloned(channels@[0], r),
{
    let _replaced: bool = evict_connection(map, addr);
    proof {
        use_type_invariant(&*map);
    }
    let ghost before = *map;
    let mut pool: ConnPoolEntry<C> = ConnPoolEntry::new(channels);
    proof {
        vstd::arithmetic::div_mod::lemma_small_mod(0, channels@.len());
    }
    let channel: C = pool.next_channel();
    let added: KeptPool<C> = KeptPool { addr: addr.to_owned(), pool };
    assert(!before.has(addr@)) by {
        if before.has(addr@) {
            before.lemma_found(before.place(addr@));
        }
    }
    let mut kept: Vec<KeptPool<C>> = Vec::new();
    std::mem::swap(&mut kept, &mut map.kept);
    kept.push(added);
    proof {
        lemma_added(before, (ConnMap { kept }), added);
    }
    map.kept = kept;
    channel
}

/// Begins a request for a channel, as `get_or_create_pool_channel` does.
pub fn create_new_channel<C: Clone>(map: &mut ConnMap<C>, addr: &str, pool_size: usize) -> (r:
    ChannelStep<C>)
    ensures
        if old(map)@.contains_key(addr@) {
            &&& r matches ChannelStep::Use(channel) && is_next_channel(old(map)@[addr@], channel)
            &&& final(map)@ == old(map)@.insert(addr@, final(map)@[addr@])
            &&& advanced(old(map)@[addr@], final(map)@[addr@])
        } else {
            &&& r == ChannelStep::<C>::Create(pool_size)
            &&& final(map)@ == old(map)@
        },
{
    get_or_create_pool_channel(map, addr, pool_size)
}

/// A pool never has fewer than one channel nor more than sixteen, and more
/// worker threads or a larger override never make it smaller.
pub proof fn law_pool_size_bounds(
    workers: usize,
    more_workers: usize,
    n: usize,
    larger: usize,
    override_val: Option<usize>,
)
    requires
        workers <= more_workers,
        n <= larger,
    ensures
        1 <= pool_size(workers as int, override_val) <= RPC_MAX_POOL_SIZE,
        pool_size(workers as int, None) <= pool_size(more_workers as int, None),
        pool_size(workers as int, Some(n)) <= pool_size(workers as int, Some(larger)),
        pool_size(workers as int, Some(n)) == pool_size(more_workers as int, Some(n)),
{
}

/// The counter of a pool after `k` more channels were handed out.
pub open spec fn count_after(count: usize, k: nat) -> usize
    decreases k,
{
    if k == 0 {
        count
    } else {
        next_count(count_after(count, (k - 1) as nat))
    }
}

/// How often the channel at `j` is handed out in the next `k` turns of a pool
/// of `len` channels.
pub open spec fn times_picked(count: usize, k: nat, len: int, j: int) -> nat
    decreases k,
{
    if k == 0 {
        0
    } else {
        let before = times_picked(count, (k - 1) as nat, len, j);
        if count_after(count, (k - 1) as nat) as int % len == j {
            before + 1
        } else {
            before
        }
    }
}

/// Channels are handed out in turn: in `rounds` rounds through a pool each of
/// its channels is handed out that often, as long as the counter does not wrap.
pub proof fn law_round_robin_is_even(count: usize, rounds: nat, len: nat, j: int)
    requires
        0 <= j < len,
        count + rounds * len <= usize::MAX,
    ensures
        times_picked(count, rounds * len, len as int, j) == rounds,
        count_after(count, rounds * len) == count + rounds * len,
    decreases rounds,
{
    if rounds == 0 {
        assert(rounds * len == 0) by (nonlinear_arith)
            requires
                rounds == 0,
        ;
    } else {
        let fewer = (rounds - 1) as nat;
        assert(rounds * len == fewer * len + len) by (nonlinear_arith)
            requires
                rounds == fewer + 1,
        ;
        law_round_robin_is_even(count, fewer, len, j);
        lemma_one_round(count, fewer * len, len, len, j);
    }
}

proof fn lemma_one_round(count: usize, done: nat, k: nat, len: nat, j: int)
    requires
        0 <= j < len,
        k <= len,
        count + done + k <= usize::MAX,
        count_after(count, done) == count + done,
    ensures
        count_after(count, done + k) == count + done + k,
        times_picked(count, done + k, len as int, j) == times_picked(count, done, len as int, j)
            + if k > (j - (count + done)) % (len as int) {
            1nat
        } else {
            0nat
        },
    decreases k,
{
    if k > 0 {
        let i = k - 1;
        lemma_one_round(count, done, (k - 1) as nat, len, j);
        crate::turns::lemma_turn(count + done, i, len as int, j);
        assert((done + k - 1) as nat == done + (k - 1) as nat);
    }
}

/// A pool of one channel is as good as no pool: every request gets that
/// channel.
pub proof fn law_single_channel_is_always_next(count: usize)
    ensures
        count as int % 1 == 0,
        times_picked(count, 1, 1, 0) == 1,
{
    assert(times_picked(count, 0, 1, 0) == 0);
    assert(count_after(count, 0) == count);
}

/// Evicting a peer drops its pool and no other: the next request for that peer
/// finds none, and the turns of all other peers go on.
pub proof fn law_eviction_is_local<C>(
    pools: Map<Seq<char>, ConnPoolEntry<C>>,
    addr: Seq<char>,
    other: Seq<char>,
)
    requires
        other != addr,
    ensures
        !pools.remove(addr).contains_key(addr),
        pools.remove(addr).contains_key(other) <==> pools.contains_key(other),
        pools.contains_key(other) ==> pools.remove(addr)[other] == pools[other],
{
}

/// A request for one peer leaves the turns of all others as they are, whether
/// its pool is used or made.
pub proof fn law_peers_are_independent<C>(
    before: Map<Seq<char>, ConnPoolEntry<C>>,
    after: Map<Seq<char>, ConnPoolEntry<C>>,
    addr: Seq<char>,
    other: Seq<char>,
)
    requires
        after == before.insert(addr, after[addr]),
        other != addr,
    ensures
        after.contains_key(other) <==> before.contains_key(other),
        before.contains_key(other) ==> after[other] == before[other],
{
    assert(before.insert(addr, after[addr]).contains_key(other) <==> before.contains_key(other));
}

/// The size of a pool is the override where that is between one and sixteen, and
/// else the bound that it passes. Without an override each connection stands for
/// four worker threads.
pub proof fn law_pool_size_follows_override_or_workers(workers: usize, n: usize)
    ensures
        1 <= n <= 16 ==> pool_size(workers as int, Some(n)) == n,
        n < 1 ==> pool_size(workers as int, Some(n)) == 1,
        n > 16 ==> pool_size(workers as int, Some(n)) == 16,
        workers < 4 ==> pool_size(workers as int, None) == 1,
        workers >= 64 ==> pool_size(workers as int, None) == 16,
        4 <= workers < 64 ==> 4 * pool_size(workers as int, None) <= workers < 4 * pool_size(
            workers as int,
            None,
        ) + 4,
{
}

/// A setting counts where it is a number that fits a machine word, and an
/// override only where that is not zero.
pub proof fn law_setting_counts_where_it_is_a_number(text: String, n: nat)
    ensures
        setting_value(None) is None,
        override_value(None) is None,
        crate::text::unsigned_text(text@) is None ==> setting_value(Some(text)) is None,
        crate::text::unsigned_text(text@) == Some(n) && n <= usize::MAX ==> setting_value(
            Some(text),
        ) == Some(n as usize),
        crate::text::unsigned_text(text@) == Some(n) && n > usize::MAX ==> setting_value(
            Some(text),
        ) is None,
        override_value(Some(text)) == if setting_value(Some(text)) == Some(0usize) {
            None
        } else {
            setting_value(Some(text))
        },
{
}

/// A request gets a copy of the channel that the pool's counter points at, and
/// moves the counter on by one; after the last number it starts again at zero.
pub proof fn law_request_takes_the_next_channel<C: Clone>(
    before: ConnPoolEntry<C>,
    after: ConnPoolEntry<C>,
    r: C,
)
    ensures
        is_next_channel(before, r) <==> before.channels().len() > 0 && cloned(
            before.channels()[before.count() as int % before.channels().len() as int],
            r,
        ),
        advanced(before, after) <==> after.channels() == before.channels() && (if before.count()
            < usize::MAX {
            after.count() == before.count() + 1
        } else {
            after.count() == 0
        }),
{
}

/// Where nothing tells, four worker threads are taken for granted; the settings
/// have these names.
pub proof fn law_pool_settings_are_named()
    ensures
        FALLBACK_WORKER_THREADS == 4,
        ENV_RPC_CHANNEL_POOL_SIZE@ == "RUSTFS_RPC_CHANNEL_POOL_SIZE"@,
        ENV_RUNTIME_WORKER_THREADS@ == "RUSTFS_RUNTIME_WORKER_THREADS"@,
{
}

/// Which size a pool gets from what is set: the override, where it is a number
/// above zero and up to sixteen; else a quarter of the worker threads that are
/// set, or of the processors, or of four.
pub proof fn law_configured_pool_size(
    override_text: &Option<String>,
    workers_text: &Option<String>,
    processors: Option<usize>,
    r: usize,
    n: usize,
)
    requires
        call_ensures(configured_pool_size, (override_text, workers_text, processors), r),
    ensures
        1 <= r <= 16,
        *override_text matches Some(t) ==> (crate::text::unsigned_text(t@) == Some(n as nat) && 1
            <= n <= 16 ==> r == n),
        *override_text is None && (*workers_text matches Some(t) && crate::text::unsigned_text(t@)
            == Some(n as nat)) && 4 <= n < 64 ==> 4 * r <= n < 4 * r + 4,
        *override_text is None && *workers_text is None && processors == Some(n) && 4 <= n < 64
            ==> 4 * r <= n < 4 * r + 4,
        *override_text is None && *workers_text is None && processors is None ==> r == 1,
{
}

/// A request uses the pool that is kept for its address and hands its channels
/// out in turn, or says how large a pool to make; the pools of other addresses
/// stay as they are.
pub proof fn law_request_uses_the_kept_pool<C: Clone>(
    map: &mut ConnMap<C>,
    addr: &str,
    pool_size: usize,
    r: ChannelStep<C>,
    other: Seq<char>,
)
    requires
        call_ensures(get_or_create_pool_channel::<C>, (map, addr, pool_size), r),
    ensures
        r is Use <==> old(map)@.contains_key(addr@),
        r matches ChannelStep::Create(n) ==> n == pool_size && final(map)@ == old(map)@,
        r matches ChannelStep::Use(channel) ==> {
            let pool = old(map)@[addr@];
            &&& pool.channels().len() > 0
            &&& cloned(pool.channels()[pool.count() as int % pool.channels().len() as int], channel)
            &&& final(map)@.contains_key(addr@)
            &&& final(map)@[addr@].channels() == pool.channels()
            &&& pool.count() < usize::MAX ==> final(map)@[addr@].count() == pool.count() + 1
        },
        other != addr@ ==> (final(map)@.contains_key(other) <==> old(map)@.contains_key(other)),
        other != addr@ && old(map)@.contains_key(other) ==> final(map)@[other] == old(map)@[other],
{
    if old(map)@.contains_key(addr@) {
        let made = old(map)@.insert(addr@, final(map)@[addr@]);
        assert(made.contains_key(other) <==> old(map)@.contains_key(other) || other == addr@);
    }
}

/// A pool that was made is kept for its address, whatever was kept before, and
/// its first channel is handed out; the pools of other addresses stay as they
/// are. Evicting drops the pool of one address, and clearing all of them.
pub proof fn law_pools_are_kept_until_evicted<C: Clone>(
    map: &mut ConnMap<C>,
    addr: &str,
    channels: Vec<C>,
    r: C,
    evicted: &mut ConnMap<C>,
    was_there: bool,
    cleared: &mut ConnMap<C>,
    count: usize,
    other: Seq<char>,
)
    requires
        call_ensures(pool_created::<C>, (map, addr, channels), r),
        channels@.len() > 0,
        *old(evicted) == *final(map),
        call_ensures(evict_connection::<C>, (evicted, addr), was_there),
        *old(cleared) == *final(map),
        call_ensures(clear_all_connections::<C>, (cleared,), count),
    ensures
        final(map)@.contains_key(addr@),
        final(map)@[addr@].channels() == channels@,
        final(map)@[addr@].count() == 1,
        cloned(channels@[0], r),
        was_there,
        !final(evicted)@.contains_key(addr@),
        count > 0,
        !final(cleared)@.contains_key(other),
        other != addr@ ==> (final(map)@.contains_key(other) <==> old(map)@.contains_key(other)),
        other != addr@ ==> (final(evicted)@.contains_key(other) <==> old(map)@.contains_key(other)),
        other != addr@ && old(map)@.contains_key(other) ==> final(evicted)@[other] == old(
            map,
        )@[other],
{
    let made = old(map)@.insert(addr@, final(map)@[addr@]);
    assert(made.contains_key(other) <==> old(map)@.contains_key(other) || other == addr@);
    assert(made.contains_key(addr@));
    assert(final(map)@.dom().contains(addr@));
    if final(map)@.dom().len() == 0 {
        assert(final(map)@.dom() =~= Set::empty());
    }
}

/// A new pool hands out its first channel first, and then the one behind it.
pub proof fn law_new_pool_starts_with_its_first_channel<C: Clone>(
    channels: Vec<C>,
    fresh: ConnPoolEntry<C>,
    once: &mut ConnPoolEntry<C>,
    first: C,
    twice: &mut ConnPoolEntry<C>,
    second: C,
)
    requires
        channels@.len() > 1,
        call_ensures(ConnPoolEntry::<C>::new, (channels,), fresh),
        *old(once) == fresh,
        call_ensures(ConnPoolEntry::<C>::next_channel, (once,), first),
        *old(twice) == *final(once),
        call_ensures(ConnPoolEntry::<C>::next_channel, (twice,), second),
    ensures
        fresh.channels() == channels@,
        cloned(channels@[0], first),
        cloned(channels@[1], second),
        final(twice).channels() == channels@,
        final(twice).count() == 2,
{
    vstd::arithmetic::div_mod::lemma_small_mod(0, channels@.len());
    vstd::arithmetic::div_mod::lemma_small_mod(1, channels@.len());
}

/// A pool is found exactly where one is kept, and a failed call drops the pool of
/// its address and no other.
pub proof fn law_failed_call_drops_its_pool<C>(
    map: &mut ConnMap<C>,
    addr: &str,
    dropped: bool,
    before: bool,
    after: bool,
    other: Seq<char>,
)
    requires
        call_ensures(has_cached_connection::<C>, (old(map), addr), before),
        call_ensures(evict_failed_connection::<C>, (map, addr), dropped),
        call_ensures(has_cached_connection::<C>, (final(map), addr), after),
    ensures
        before <==> old(map)@.contains_key(addr@),
        dropped == before,
        !after,
        other != addr@ ==> (final(map)@.contains_key(other) <==> old(map)@.contains_key(other)),
        other != addr@ && old(map)@.contains_key(other) ==> final(map)@[other] == old(map)@[other],
{
}

}
