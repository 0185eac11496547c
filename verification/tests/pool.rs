use rustfs_core::pool::{
    clear_all_connections, compute_pool_size, configured_pool_size, create_new_channel, evict_connection,
    evict_failed_connection, get_or_create_pool_channel, has_cached_connection, pool_created, ChannelStep, ConnMap,
    ConnPoolEntry, ENV_RPC_CHANNEL_POOL_SIZE, ENV_RUNTIME_WORKER_THREADS, RPC_MAX_POOL_SIZE,
};
use tokio::runtime::{Builder, Runtime};
use tonic::transport::{Channel, Endpoint};

fn runtime() -> Runtime {
    Builder::new_current_thread().enable_all().build().unwrap()
}

fn lazy_channel() -> Channel {
    Endpoint::from_static("http://127.0.0.1:9999").connect_lazy()
}

fn text(s: &str) -> Option<String> {
    Some(s.to_string())
}

fn used<C>(step: ChannelStep<C>) -> Option<C> {
    match step {
        ChannelStep::Use(c) => Some(c),
        ChannelStep::Create(_) => None,
    }
}

fn to_create<C>(step: ChannelStep<C>) -> Option<usize> {
    match step {
        ChannelStep::Use(_) => None,
        ChannelStep::Create(n) => Some(n),
    }
}

#[test]
fn pool_entry_len_matches_input() {
    let rt = runtime();
    let _guard = rt.enter();
    for n in [1usize, 2, 4, 8] {
        let entry = ConnPoolEntry::new((0..n).map(|_| lazy_channel()).collect());
        assert_eq!(entry.len(), n);
    }
}

#[test]
fn pool_entry_round_robin_uniform() {
    let rt = runtime();
    let _guard = rt.enter();
    let n = 4usize;
    let mut entry = ConnPoolEntry::new((0..n).map(|_| lazy_channel()).collect());
    for expected_counter in 0..(n * 3) {
        assert_eq!(entry.handed_out(), expected_counter);
        entry.next_channel();
    }
    assert_eq!(entry.handed_out() % n, 0);
}

#[test]
fn pool_entry_n1_always_zero_idx() {
    let rt = runtime();
    let _guard = rt.enter();
    let mut entry = ConnPoolEntry::new(vec![lazy_channel()]);
    for _ in 0..100 {
        entry.next_channel();
    }
    assert_eq!(entry.handed_out(), 100);
}

#[test]
fn per_address_index_independence() {
    let rt = runtime();
    let _guard = rt.enter();
    let n = 4usize;
    let mut a = ConnPoolEntry::new((0..n).map(|_| lazy_channel()).collect());
    let b = ConnPoolEntry::new((0..n).map(|_| lazy_channel()).collect());
    a.next_channel();
    a.next_channel();
    a.next_channel();
    assert_eq!(a.handed_out(), 3);
    assert_eq!(b.handed_out(), 0);
}

#[test]
fn compute_pool_size_uses_override() {
    assert_eq!(compute_pool_size(16, Some(7)), 7);
    assert_eq!(compute_pool_size(16, Some(0)), 1); // 0 clamped to 1
    assert_eq!(compute_pool_size(16, Some(100)), RPC_MAX_POOL_SIZE); // clamped to max
}

#[test]
fn compute_pool_size_derived_from_workers() {
    assert_eq!(compute_pool_size(16, None), 4); // 16/4 = 4
    assert_eq!(compute_pool_size(32, None), 8); // 32/4 = 8
    assert_eq!(compute_pool_size(1, None), 1); // min clamp: 1/4 = 0 → 1
    assert_eq!(compute_pool_size(0, None), 1); // min clamp: 0/4 = 0 → 1
    assert_eq!(compute_pool_size(64, None), 16); // max clamp: 64/4 = 16
    assert_eq!(compute_pool_size(128, None), RPC_MAX_POOL_SIZE); // capped
}

#[test]
fn pool_size_is_bounded_and_monotone() {
    let mut last = 0;
    for workers in 0..200usize {
        let n = compute_pool_size(workers, None);
        assert!((1..=RPC_MAX_POOL_SIZE).contains(&n));
        assert!(n >= last);
        last = n;
    }
}

#[test]
fn settings_decide_the_pool_size() {
    assert_eq!(ENV_RPC_CHANNEL_POOL_SIZE, "RUSTFS_RPC_CHANNEL_POOL_SIZE");
    assert_eq!(ENV_RUNTIME_WORKER_THREADS, "RUSTFS_RUNTIME_WORKER_THREADS");
    // An override wins over everything.
    assert_eq!(configured_pool_size(&text("7"), &text("64"), Some(128)), 7);
    assert_eq!(configured_pool_size(&text("+5"), &None, None), 5);
    assert_eq!(configured_pool_size(&text("99"), &None, None), 16);
    // Zero and what is no number are no override.
    assert_eq!(configured_pool_size(&text("0"), &text("16"), None), 4);
    assert_eq!(configured_pool_size(&text("many"), &text("16"), None), 4);
    assert_eq!(configured_pool_size(&text(" 7"), &text("16"), None), 4);
    assert_eq!(configured_pool_size(&text("-7"), &text("16"), None), 4);
    assert_eq!(configured_pool_size(&text(""), &text("16"), None), 4);
    // A number that does not fit a machine word is none.
    assert_eq!(configured_pool_size(&text("18446744073709551616"), &text("16"), None), 4);
    assert_eq!(configured_pool_size(&text("18446744073709551615"), &text("16"), None), 16);
    // Zero worker threads are taken at their word.
    assert_eq!(configured_pool_size(&None, &text("0"), Some(64)), 1);
    // Without a worker setting the processors count, and else four.
    assert_eq!(configured_pool_size(&None, &text("x"), Some(32)), 8);
    assert_eq!(configured_pool_size(&None, &None, None), 1);
}

#[test]
fn channels_come_in_turn() {
    let mut entry = ConnPoolEntry::new(vec![10u8, 20, 30]);
    assert!(!entry.is_empty());
    let picked: Vec<u8> = (0..7).map(|_| entry.next_channel()).collect();
    assert_eq!(picked, vec![10, 20, 30, 10, 20, 30, 10]);
    assert_eq!(entry.handed_out(), 7);
    assert_eq!(entry.len(), 3);
}

#[test]
fn first_request_asks_for_a_pool() {
    let mut map: ConnMap<u8> = ConnMap::new();
    assert!(!has_cached_connection(&map, "http://a"));
    assert_eq!(to_create(get_or_create_pool_channel(&mut map, "http://a", 4)), Some(4));
    assert!(!has_cached_connection(&map, "http://a"));
    assert_eq!(pool_created(&mut map, "http://a", vec![1, 2, 3, 4]), 1);
    assert!(has_cached_connection(&map, "http://a"));
    assert_eq!(used(get_or_create_pool_channel(&mut map, "http://a", 4)), Some(2));
    assert_eq!(used(create_new_channel(&mut map, "http://a", 4)), Some(3));
}

#[test]
fn addresses_have_their_own_turns() {
    let mut map: ConnMap<u8> = ConnMap::new();
    pool_created(&mut map, "http://a", vec![1, 2]);
    pool_created(&mut map, "http://b", vec![11, 12]);
    assert_eq!(used(get_or_create_pool_channel(&mut map, "http://a", 2)), Some(2));
    assert_eq!(used(get_or_create_pool_channel(&mut map, "http://a", 2)), Some(1));
    assert_eq!(used(get_or_create_pool_channel(&mut map, "http://b", 2)), Some(12));
}

#[test]
fn eviction_drops_one_pool() {
    let mut map: ConnMap<u8> = ConnMap::new();
    pool_created(&mut map, "http://a", vec![1]);
    pool_created(&mut map, "http://b", vec![2]);
    pool_created(&mut map, "http://c", vec![3]);
    assert!(evict_connection(&mut map, "http://b"));
    assert!(!evict_connection(&mut map, "http://b"));
    assert!(!has_cached_connection(&map, "http://b"));
    assert_eq!(used(get_or_create_pool_channel(&mut map, "http://c", 1)), Some(3));
    assert!(evict_failed_connection(&mut map, "http://a"));
    assert_eq!(to_create(create_new_channel(&mut map, "http://a", 9)), Some(9));
    assert_eq!(used(get_or_create_pool_channel(&mut map, "http://c", 1)), Some(3));
}

#[test]
fn clearing_counts_the_pools() {
    let mut map: ConnMap<u8> = ConnMap::new();
    assert_eq!(clear_all_connections(&mut map), 0);
    pool_created(&mut map, "http://a", vec![1]);
    pool_created(&mut map, "http://b", vec![2]);
    assert_eq!(clear_all_connections(&mut map), 2);
    assert!(!has_cached_connection(&map, "http://a"));
    assert!(!has_cached_connection(&map, "http://b"));
}

#[test]
fn last_writer_wins() {
    let mut map: ConnMap<u8> = ConnMap::new();
    assert_eq!(pool_created(&mut map, "http://a", vec![1, 2]), 1);
    assert_eq!(pool_created(&mut map, "http://a", vec![5, 6]), 5);
    assert_eq!(used(get_or_create_pool_channel(&mut map, "http://a", 2)), Some(6));
    assert_eq!(clear_all_connections(&mut map), 1);
}
