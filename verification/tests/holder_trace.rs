use rustfs_core::holder_trace::{
    emit_exclusive_released, emit_notify_enter, emit_shared_released, emit_wait_blocked, format_shared_id_csv,
    format_shared_readers_compact, min_hold_log_ms, owner_fingerprint, trace_sample_mod, HolderTrace, LockMode,
    ObjectLockRequest, SharedOwnerBrief, WaiterContentionSnapshot, HOLDER_TARGET,
};
use std::collections::hash_map::DefaultHasher;
use std::hash::{Hash, Hasher};

fn text(s: &str) -> Option<String> {
    Some(s.to_string())
}

fn reader(fp: u64, prefix: &str, trace_id: Option<&str>, operation_id: Option<&str>) -> SharedOwnerBrief {
    SharedOwnerBrief {
        owner_fp: fp,
        held_ms: 12,
        prefix: prefix.to_string(),
        trace_id: trace_id.map(str::to_owned),
        operation_id: operation_id.map(str::to_owned),
    }
}

fn request() -> ObjectLockRequest {
    ObjectLockRequest {
        key: "bucket/object".to_string(),
        mode: LockMode::Exclusive,
        owner: "writer-1".to_string(),
        trace_id: text("t-1"),
        operation_id: None,
        lock_source: text("put"),
        lock_source_detail: None,
    }
}

fn snapshot() -> WaiterContentionSnapshot {
    WaiterContentionSnapshot {
        lock_mode: Some(LockMode::Shared),
        exclusive_holder_fp: Some(9),
        exclusive_holder_held_ms: Some(44),
        shared_readers: vec![reader(1, "r1", None, Some("op")), reader(2, "r2", Some("tr"), None)],
        readers: 2,
        readers_waiting: 3,
        writers_waiting: 4,
    }
}

fn std_fingerprint(s: &str) -> u64 {
    let mut h = DefaultHasher::new();
    s.hash(&mut h);
    h.finish()
}

#[test]
fn fingerprints_tell_names_apart() {
    for s in ["", "a", "writer-1", "ä"] {
        assert_eq!(owner_fingerprint(s), std_fingerprint(s));
    }
    assert_eq!(owner_fingerprint("a"), owner_fingerprint("a"));
    assert_ne!(owner_fingerprint("a"), owner_fingerprint("b"));
}

#[test]
fn readers_are_listed() {
    assert_eq!(format_shared_readers_compact(&[]), "");
    assert_eq!(
        format_shared_readers_compact(&[
            reader(1, "r1", Some("tr"), Some("op")),
            reader(2, "r2", Some("tr"), None),
            reader(3, "", None, None),
        ]),
        "fp=1 op=op held_ms=12 prefix=r1|fp=2 op=tr held_ms=12 prefix=r2|fp=3 op=- held_ms=12 prefix="
    );
}

#[test]
fn long_list_of_readers_is_cut() {
    let long = "x".repeat(600);
    assert_eq!(format_shared_readers_compact(&[reader(1, &long, None, None)]), "...(trunc)");
    let first = reader(1, "r", None, None);
    let listed = format_shared_readers_compact(&[first.clone()]);
    assert_eq!(
        format_shared_readers_compact(&[first.clone(), reader(1, &long, None, None), first]),
        format!("{listed}|...(trunc)")
    );
    // A piece that just fits stays: 512 bytes in all.
    let head = "fp=1 op=- held_ms=12 prefix=".len();
    let fits = "y".repeat(512 - head);
    assert_eq!(format_shared_readers_compact(&[reader(1, &fits, None, None)]).len(), 512);
    let too_long = "y".repeat(513 - head);
    assert_eq!(format_shared_readers_compact(&[reader(1, &too_long, None, None)]), "...(trunc)");
    // Bytes count, not characters.
    let wide = "ä".repeat(300);
    assert_eq!(format_shared_readers_compact(&[reader(1, &wide, None, None)]), "...(trunc)");
}

#[test]
fn list_of_readers_is_bounded() {
    for n in [1usize, 5, 40] {
        let readers: Vec<SharedOwnerBrief> = (0..n).map(|i| reader(i as u64, "reader", None, None)).collect();
        assert!(format_shared_readers_compact(&readers).len() <= 523);
    }
}

#[test]
fn identifiers_are_listed_with_commas() {
    let (a, b) = (text("a"), text("b"));
    assert_eq!(format_shared_id_csv(&vec![]), "");
    assert_eq!(format_shared_id_csv(&vec![&a, &None, &b]), "a,-,b");
    assert_eq!(format_shared_id_csv(&vec![&None]), "-");
}

#[test]
fn settings_have_their_fallback() {
    assert_eq!(trace_sample_mod(&None), 32);
    assert_eq!(trace_sample_mod(&text("8")), 8);
    assert_eq!(trace_sample_mod(&text("0")), 32);
    assert_eq!(trace_sample_mod(&text("-8")), 32);
    assert_eq!(trace_sample_mod(&text("18446744073709551615")), u64::MAX);
    assert_eq!(trace_sample_mod(&text("18446744073709551616")), 32);
    assert_eq!(min_hold_log_ms(&None), 20);
    assert_eq!(min_hold_log_ms(&text("5")), 5);
    assert_eq!(min_hold_log_ms(&text("0")), 20);
    assert_eq!(min_hold_log_ms(&text("2147483647")), 2147483647);
    assert_eq!(min_hold_log_ms(&text("2147483648")), 2147483648);
    assert_eq!(min_hold_log_ms(&text("340282366920938463463374607431768211455")), u128::MAX);
    assert_eq!(min_hold_log_ms(&text("340282366920938463463374607431768211456")), 20);
    assert_eq!(min_hold_log_ms(&text("-5")), 20);
}

#[test]
fn one_wait_in_n_is_sampled() {
    let mut trace = HolderTrace::new(&text("4"), &None);
    let taken: Vec<bool> = (0..9).map(|_| trace.sample_take(true)).collect();
    assert_eq!(taken, vec![true, false, false, false, true, false, false, false, true]);
    // One in one is every wait.
    let mut all = HolderTrace::new(&text("1"), &None);
    assert!((0..9).all(|_| all.sample_take(true)));
}

#[test]
fn nothing_is_counted_while_lines_are_not_wanted() {
    let mut trace = HolderTrace::new(&text("4"), &None);
    for _ in 0..5 {
        assert!(!trace.sample_take(false));
    }
    assert_eq!(trace.wait_seq, 0);
    assert!(trace.sample_take(true));
}

#[test]
fn wait_lines_share_one_count() {
    assert_eq!(HOLDER_TARGET, "rustfs_lock_holder");
    let mut trace = HolderTrace::new(&text("2"), &None);
    let blocked = emit_wait_blocked(&mut trace, true, &request(), &snapshot(), 7).unwrap();
    assert!(emit_notify_enter(&mut trace, true, &request(), &snapshot(), 8).is_none());
    let entered = emit_notify_enter(&mut trace, true, &request(), &snapshot(), 9).unwrap();
    assert!(emit_wait_blocked(&mut trace, false, &request(), &snapshot(), 7).is_none());
    assert_eq!(trace.wait_seq, 3);

    assert_eq!(blocked.event, "wait_blocked");
    assert_eq!(blocked.message, "lock holder snapshot while waiting");
    assert_eq!(blocked.lock_mode, Some(Some(LockMode::Shared)));
    assert_eq!(blocked.retry_count, 7);
    assert_eq!(entered.event, "notify_enter");
    assert_eq!(entered.message, "entering notify wait for lock");
    assert_eq!(entered.lock_mode, None);
    assert_eq!(entered.retry_count, 9);
    for e in [blocked, entered] {
        assert_eq!(e.resource, "bucket/object");
        assert_eq!(e.trace_id, "t-1");
        assert_eq!(e.operation_id, "");
        assert_eq!(e.lock_source, "put");
        assert_eq!(e.lock_source_detail, "");
        assert_eq!(e.mode, LockMode::Exclusive);
        assert_eq!(e.waiter_owner_fp, std_fingerprint("writer-1"));
        assert_eq!(e.exclusive_holder_fp, Some(9));
        assert_eq!(e.exclusive_holder_held_ms, Some(44));
        assert_eq!((e.readers, e.readers_waiting, e.writers_waiting), (2, 3, 4));
        assert_eq!(e.shared_reader_count, 2);
        assert_eq!(e.shared_readers, "fp=1 op=op held_ms=12 prefix=r1|fp=2 op=tr held_ms=12 prefix=r2");
        assert_eq!(e.shared_reader_operation_ids, "op,-");
        assert_eq!(e.shared_reader_trace_ids, "-,tr");
    }
}

#[test]
fn long_holds_are_logged() {
    let trace = HolderTrace::new(&None, &text("30"));
    let holder = "h".repeat(130);
    assert!(emit_exclusive_released(&trace, true, "key", &holder, 29).is_none());
    assert!(emit_exclusive_released(&trace, false, "key", &holder, 99).is_none());
    let e = emit_exclusive_released(&trace, true, "key", &holder, 30).unwrap();
    assert_eq!((e.event, e.message), ("exclusive_released", "exclusive lock released after hold"));
    assert_eq!(e.resource, "key");
    assert_eq!(e.holder_prefix, "h".repeat(120));
    assert_eq!(e.holder_owner_fp, std_fingerprint(&holder));
    assert_eq!(e.hold_ms, 30);

    assert!(emit_shared_released(&trace, true, "key", "short", 29).is_none());
    assert!(emit_shared_released(&trace, false, "key", "short", 99).is_none());
    let s = emit_shared_released(&trace, true, "key", "short", 31).unwrap();
    assert_eq!((s.event, s.message), ("shared_released", "shared lock released after hold"));
    assert_eq!(s.holder_prefix, "short");
    assert_eq!(s.hold_ms, 31);
}
