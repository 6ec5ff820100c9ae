use qtbridge::registry::{verdict, Entries, Observation, Owner, Registration, Verdict, MIN_COLLECT_THRESHOLD};

fn obs(key: u64, strong_count: usize, javascript_owned: bool, has_live_wrapper: bool) -> Observation {
    Observation { key, strong_count, javascript_owned, has_live_wrapper }
}

#[test]
fn a_new_registry_is_empty() {
    let r: Entries<&str> = Entries::new();
    assert_eq!(r.live_count(), 0);
    assert_eq!(r.live_proxy_count(), 0);
    assert_eq!(r.collect_threshold(), 64);
    assert_eq!(MIN_COLLECT_THRESHOLD, 64);
}

#[test]
fn registering_counts_owned_objects_only() {
    let mut r: Entries<&str> = Entries::new();
    let a = r.register(1, 100, 1000, "a", Owner::RustRegistry);
    assert_eq!(a, Registration { pin_to_cpp: true, collect_now: false });
    let b = r.register(2, 200, 2000, "b", Owner::Engine);
    assert_eq!(b, Registration { pin_to_cpp: false, collect_now: false });
    assert_eq!(r.live_count(), 1);
    assert_eq!(r.live_proxy_count(), 1);
    assert_eq!(r.owned_count(), 1);
}

#[test]
fn proxy_lookup_follows_registration() {
    let mut r: Entries<&str> = Entries::new();
    assert_eq!(r.proxy_ptr(7), 0);
    r.register(7, 70, 700, "x", Owner::RustRegistry);
    assert_eq!(r.proxy_ptr(7), 70);
    let removed = r.unregister(7).unwrap();
    assert_eq!(removed.qobject, 700);
    assert_eq!(r.proxy_ptr(7), 0);
    assert_eq!(r.live_count(), 0);
    assert!(r.unregister(7).is_none());
}

#[test]
fn repin_only_for_registry_owned_entries() {
    let mut r: Entries<()> = Entries::new();
    r.register(1, 10, 100, (), Owner::RustRegistry);
    r.register(2, 20, 200, (), Owner::Engine);
    assert_eq!(r.repin(1), Some(100));
    assert_eq!(r.repin(2), None);
    assert_eq!(r.repin(3), None);
}

#[test]
fn reaching_the_threshold_asks_for_a_collection() {
    let mut r: Entries<()> = Entries::new();
    for k in 0..63u64 {
        assert!(!r.register(k, k + 1, k + 2, (), Owner::RustRegistry).collect_now);
    }
    assert!(!r.register(500, 1, 1, (), Owner::Engine).collect_now);
    assert!(r.register(63, 1, 1, (), Owner::RustRegistry).collect_now);
}

#[test]
fn verdicts_follow_the_garbage_signature() {
    assert_eq!(verdict(Owner::Engine, &obs(1, 1, false, false)), Verdict::Spare);
    assert_eq!(verdict(Owner::RustRegistry, &obs(1, 2, false, false)), Verdict::Spare);
    assert_eq!(verdict(Owner::RustRegistry, &obs(1, 1, true, false)), Verdict::Spare);
    assert_eq!(verdict(Owner::RustRegistry, &obs(1, 1, false, true)), Verdict::HandOver);
    assert_eq!(verdict(Owner::RustRegistry, &obs(1, 1, false, false)), Verdict::Collect);
}

#[test]
fn a_sweep_collects_and_hands_over() {
    let mut r: Entries<&str> = Entries::new();
    r.register(1, 10, 100, "garbage", Owner::RustRegistry);
    r.register(2, 20, 200, "wrapped", Owner::RustRegistry);
    r.register(3, 30, 300, "held", Owner::RustRegistry);
    r.register(4, 40, 400, "engine", Owner::Engine);
    let observed = [obs(1, 1, false, false), obs(2, 1, false, true), obs(3, 2, false, false), obs(4, 1, false, false)];
    let sweep = r.extract_doomed(&observed);
    assert_eq!(sweep.doomed, vec![("garbage", 100)]);
    assert_eq!(sweep.hand_over, vec![200]);
    assert_eq!(r.live_count(), 2);
    assert_eq!(r.live_proxy_count(), 2);
    assert_eq!(r.proxy_ptr(1), 0);
    assert_eq!(r.proxy_ptr(4), 40);
}

#[test]
fn engine_created_object_is_never_collected() {
    let mut r: Entries<()> = Entries::new();
    r.register(9, 90, 900, (), Owner::Engine);
    let sweep = r.extract_doomed(&[obs(9, 1, false, false)]);
    assert!(sweep.doomed.is_empty());
    assert!(sweep.hand_over.is_empty());
    assert_eq!(r.proxy_ptr(9), 90);
}

#[test]
fn owned_entries_lists_the_registry_owned_objects() {
    let mut r: Entries<()> = Entries::new();
    r.register(1, 10, 100, (), Owner::RustRegistry);
    r.register(2, 20, 200, (), Owner::Engine);
    r.register(3, 30, 300, (), Owner::RustRegistry);
    let mut owned = r.owned_entries();
    owned.sort();
    assert_eq!(owned, vec![(1, 100), (3, 300)]);
}

#[test]
fn the_threshold_doubles_the_remaining_owned_count() {
    let mut r: Entries<()> = Entries::new();
    for k in 0..40u64 {
        r.register(k, 1, 1, (), Owner::RustRegistry);
    }
    r.finish_collection();
    assert_eq!(r.collect_threshold(), 80);
    let mut small: Entries<()> = Entries::new();
    small.register(1, 1, 1, (), Owner::RustRegistry);
    small.finish_collection();
    assert_eq!(small.collect_threshold(), 64);
}

#[test]
fn teardown_deletes_only_owned_qobjects() {
    let mut r: Entries<()> = Entries::new();
    r.register(1, 10, 100, (), Owner::RustRegistry);
    r.register(2, 20, 200, (), Owner::Engine);
    let q = r.teardown();
    assert_eq!(q, vec![100]);
    assert_eq!(r.live_proxy_count(), 0);
    assert_eq!(r.live_count(), 0);
}

#[test]
fn unregistering_undoes_registering() {
    let mut r: Entries<()> = Entries::new();
    r.register(5, 50, 500, (), Owner::RustRegistry);
    r.unregister(5);
    assert_eq!(r.live_count(), 0);
    assert_eq!(r.live_proxy_count(), 0);
    assert_eq!(r.proxy_ptr(5), 0);
}

#[test]
fn a_second_sweep_changes_nothing() {
    let mut r: Entries<&str> = Entries::new();
    r.register(1, 10, 100, "garbage", Owner::RustRegistry);
    r.register(2, 20, 200, "wrapped", Owner::RustRegistry);
    r.register(3, 30, 300, "held", Owner::RustRegistry);
    let observed = [obs(1, 1, false, false), obs(2, 1, false, true), obs(3, 2, false, false)];
    r.extract_doomed(&observed);
    let again = r.extract_doomed(&observed);
    assert!(again.doomed.is_empty());
    assert_eq!(r.live_count(), 2);
    let later = [obs(1, 1, false, false), obs(2, 1, true, true), obs(3, 2, false, false)];
    let quiet = r.extract_doomed(&later);
    assert!(quiet.doomed.is_empty());
    assert!(quiet.hand_over.is_empty());
    assert_eq!(r.live_count(), 2);
}

#[test]
fn registering_leaves_other_entries_alone() {
    let mut r: Entries<()> = Entries::new();
    r.register(1, 10, 100, (), Owner::RustRegistry);
    r.register(2, 20, 200, (), Owner::Engine);
    assert_eq!(r.proxy_ptr(1), 10);
    r.unregister(2);
    r.unregister(2);
    assert_eq!(r.proxy_ptr(1), 10);
    assert_eq!(r.proxy_ptr(2), 0);
    assert_eq!(r.live_count(), 1);
}
