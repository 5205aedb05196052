use std::cell::RefCell;
use std::rc::Rc;

use bellhop::clock::{MINUTE_MS, PERIOD_MS};
use bellhop::endpoints::sheriff;
use bellhop::hooks::{Data, Error, ErrorKind, Hook, HookPoint, Hooks};
use bellhop::models::{Asset, AssetType, Lease};
use bellhop::sheriff::{
    evict, make_rounds, plan_evictions, send_eviction_notices, should_warn, Deputy, SheriffError, Wake,
};
use bellhop::store::Store;

type Log = Rc<RefCell<Vec<(String, HookPoint, i32)>>>;

struct Recorder {
    name: String,
    fail_on_evicted: bool,
    log: Log,
}

impl Recorder {
    fn new(name: &str, fail_on_evicted: bool, log: &Log) -> Recorder {
        Recorder { name: name.to_string(), fail_on_evicted, log: log.clone() }
    }

    fn record(&self, point: HookPoint, data: &Data) {
        self.log.borrow_mut().push((self.name.clone(), point, data.lease().id()));
    }
}

impl Hook for Recorder {
    fn evicted(&self, _store: &Store, data: &Data) -> Result<(), Error> {
        self.record(HookPoint::Evicted, data);
        if self.fail_on_evicted {
            Err(Error::with_msg("refused"))
        } else {
            Ok(())
        }
    }

    fn warned(&self, _store: &Store, data: &Data) -> Result<(), Error> {
        self.record(HookPoint::Warned, data);
        Ok(())
    }
}

const T: i64 = 1_600_000_000_000;

/// A store with one asset type and, for each lease, one asset held by it.
fn store_with(leases: &[Lease]) -> Store {
    let mut store = Store::new(Some(0));
    store.insert_asset_type(AssetType::new(1, "laptop".to_string())).unwrap();
    for (i, l) in leases.iter().enumerate() {
        store.insert_lease(*l).unwrap();
        store
            .insert_asset(Asset::new(100 + i as i32, 1, Some(l.id), format!("asset {}", i)))
            .unwrap();
    }
    store
}

fn hooks_of(recorders: Vec<Recorder>) -> Hooks<Recorder> {
    let mut hooks = Hooks::new();
    for r in recorders {
        hooks.push(r);
    }
    hooks
}

fn lease_ids(store: &Store) -> Vec<i32> {
    store.leases.iter().map(|l| l.id).collect()
}

#[test]
fn eviction_removes_expired_leases_and_notifies_once() {
    let log: Log = Rc::new(RefCell::new(Vec::new()));
    let hooks = hooks_of(vec![Recorder::new("a", false, &log)]);
    let mut store = store_with(&[
        Lease::new(1, 7, T, Some(T + 10 * MINUTE_MS)),
        Lease::new(2, 7, T, Some(T + 60 * MINUTE_MS)),
        Lease::new(3, 8, T, Some(T + 5 * MINUTE_MS)),
        Lease::new(4, 8, T, None),
    ]);
    let now = T + 20 * MINUTE_MS;
    let outcome = evict(&mut store, &hooks, now).unwrap();
    assert_eq!(outcome.evicted, 2);
    assert_eq!(outcome.notified, 2);
    assert_eq!(lease_ids(&store), vec![2, 4]);
    assert_eq!(
        *log.borrow(),
        vec![("a".to_string(), HookPoint::Evicted, 1), ("a".to_string(), HookPoint::Evicted, 3)]
    );
    // The assets keep pointing at the deleted leases.
    assert_eq!(store.assets[0].lease_id(), Some(1));
}

#[test]
fn lease_ending_exactly_now_is_not_evicted() {
    let hooks: Hooks<Recorder> = Hooks::new();
    let mut store = store_with(&[Lease::new(1, 7, T, Some(T + MINUTE_MS))]);
    let outcome = evict(&mut store, &hooks, T + MINUTE_MS).unwrap();
    assert_eq!(outcome.evicted, 0);
    assert_eq!(lease_ids(&store), vec![1]);
}

#[test]
fn second_eviction_pass_changes_nothing() {
    let log: Log = Rc::new(RefCell::new(Vec::new()));
    let hooks = hooks_of(vec![Recorder::new("a", false, &log)]);
    let mut store = store_with(&[
        Lease::new(1, 7, T, Some(T + 10 * MINUTE_MS)),
        Lease::new(2, 7, T, Some(T + 60 * MINUTE_MS)),
    ]);
    let now = T + 20 * MINUTE_MS;
    evict(&mut store, &hooks, now).unwrap();
    let calls = log.borrow().len();
    let outcome = evict(&mut store, &hooks, now).unwrap();
    assert_eq!(outcome.evicted, 0);
    assert_eq!(outcome.notified, 0);
    assert_eq!(log.borrow().len(), calls);
    assert_eq!(lease_ids(&store), vec![2]);
}

#[test]
fn warning_fires_once_inside_the_last_twentieth() {
    let log: Log = Rc::new(RefCell::new(Vec::new()));
    let hooks = hooks_of(vec![Recorder::new("a", false, &log)]);
    let mut store = store_with(&[Lease::new(1, 7, T, Some(T + 100 * MINUTE_MS))]);

    send_eviction_notices(&mut store, &hooks, T + 94 * MINUTE_MS).unwrap();
    assert!(log.borrow().is_empty());
    assert_eq!(store.leases[0].last_notified(), None);

    send_eviction_notices(&mut store, &hooks, T + 96 * MINUTE_MS).unwrap();
    assert_eq!(*log.borrow(), vec![("a".to_string(), HookPoint::Warned, 1)]);
    assert_eq!(store.leases[0].last_notified(), Some(T + 96 * MINUTE_MS));

    send_eviction_notices(&mut store, &hooks, T + 97 * MINUTE_MS).unwrap();
    assert_eq!(log.borrow().len(), 1);
    assert_eq!(store.leases[0].last_notified(), Some(T + 96 * MINUTE_MS));
}

#[test]
fn warning_window_edges() {
    let lease = Lease::new(1, 7, T, Some(T + 100 * MINUTE_MS));
    assert!(!should_warn(&lease, T + 94 * MINUTE_MS));
    assert!(!should_warn(&lease, T + 95 * MINUTE_MS));
    assert!(should_warn(&lease, T + 95 * MINUTE_MS + 1));
    assert!(should_warn(&lease, T + 96 * MINUTE_MS));
    assert!(should_warn(&lease, T + 200 * MINUTE_MS));
    assert!(!should_warn(&Lease::new(2, 7, T, None), T + 200 * MINUTE_MS));
    // 21 ms long: the window is 1.05 ms, so one millisecond before the end is inside it.
    let short = Lease::new(3, 7, 0, Some(21));
    assert!(should_warn(&short, 20));
    assert!(!should_warn(&short, 19));
}

#[test]
fn lease_due_for_warning_without_asset_is_an_error() {
    let hooks: Hooks<Recorder> = Hooks::new();
    let mut store = Store::new(Some(0));
    store.insert_lease(Lease::new(5, 7, T, Some(T + 100 * MINUTE_MS))).unwrap();
    match send_eviction_notices(&mut store, &hooks, T + 99 * MINUTE_MS) {
        Err(SheriffError::MissingAsset { lease_id }) => assert_eq!(lease_id, 5),
        other => panic!("unexpected outcome: {:?}", other),
    }
    assert_eq!(store.leases[0].last_notified(), None);
}

#[test]
fn run_gate_admits_one_of_two_callers() {
    let mut store = Store::new(Some(T - 2 * PERIOD_MS));
    let first = store.try_acquire_run_gate(PERIOD_MS, T);
    let second = store.try_acquire_run_gate(PERIOD_MS, T + 10);
    assert!(first);
    assert!(!second);
    assert_eq!(store.gate.last_checked, Some(T));
    // A period later the run gate opens again.
    assert!(store.try_acquire_run_gate(PERIOD_MS, T + PERIOD_MS + 1));
}

#[test]
fn failing_first_hook_stops_the_others() {
    let log: Log = Rc::new(RefCell::new(Vec::new()));
    let hooks = hooks_of(vec![
        Recorder::new("first", true, &log),
        Recorder::new("second", false, &log),
        Recorder::new("third", false, &log),
    ]);
    let mut store = store_with(&[
        Lease::new(1, 7, T, Some(T + MINUTE_MS)),
        Lease::new(2, 7, T, Some(T + MINUTE_MS)),
    ]);
    let result = evict(&mut store, &hooks, T + 2 * MINUTE_MS);
    match result {
        Err(SheriffError::Hook { point, lease_id, hook_index, error }) => {
            assert_eq!(point, HookPoint::Evicted);
            assert_eq!(lease_id, 1);
            assert_eq!(hook_index, 0);
            match error.kind {
                ErrorKind::Msg(m) => assert_eq!(m, "refused"),
            }
        }
        other => panic!("unexpected outcome: {:?}", other),
    }
    assert_eq!(*log.borrow(), vec![("first".to_string(), HookPoint::Evicted, 1)]);
    // The deletions stand.
    assert!(store.leases.is_empty());
}

#[test]
fn slow_round_does_not_shift_the_schedule() {
    let mut deputy = Deputy::new(T);
    assert_eq!(deputy.deadline, T + PERIOD_MS);
    assert_eq!(deputy.on_wake(true, T + 1000), Wake::Sleep((PERIOD_MS - 1000) as u64));
    let previous = deputy.deadline;
    assert_eq!(deputy.on_wake(true, previous), Wake::Run);
    // The round finishes well after the next deadline.
    let finished = previous + PERIOD_MS + 30_000;
    deputy.advance();
    assert_eq!(deputy.deadline, previous + PERIOD_MS);
    assert_eq!(deputy.on_wake(true, finished), Wake::Run);
    deputy.advance();
    assert_eq!(deputy.on_wake(true, finished), Wake::Sleep((previous + 2 * PERIOD_MS - finished) as u64));
}

#[test]
fn stop_request_wins_over_a_due_round() {
    let deputy = Deputy::new(T);
    assert_eq!(deputy.on_wake(false, T + 10 * PERIOD_MS), Wake::Stop);
}

#[test]
fn run_one_respects_the_gate() {
    let log: Log = Rc::new(RefCell::new(Vec::new()));
    let hooks = hooks_of(vec![Recorder::new("a", false, &log)]);
    let mut store = store_with(&[Lease::new(1, 7, T, Some(T + MINUTE_MS))]);
    store.gate.last_checked = Some(T);
    let deputy = Deputy::new(T);
    let now = T + 2 * MINUTE_MS;
    assert!(!deputy.run_one(&mut store, &hooks, now).unwrap());
    assert_eq!(lease_ids(&store), vec![1]);
    let later = T + PERIOD_MS + 1;
    assert!(deputy.run_one(&mut store, &hooks, later).unwrap());
    assert!(store.leases.is_empty());
    assert_eq!(store.gate.last_checked, Some(later));
}

#[test]
fn rounds_evict_then_warn() {
    let log: Log = Rc::new(RefCell::new(Vec::new()));
    let hooks = hooks_of(vec![Recorder::new("a", false, &log)]);
    let mut store = store_with(&[
        Lease::new(1, 7, T, Some(T + 10 * MINUTE_MS)),
        Lease::new(2, 7, T, Some(T + 100 * MINUTE_MS)),
        Lease::new(3, 7, T, Some(T + 1000 * MINUTE_MS)),
    ]);
    make_rounds(&mut store, &hooks, T + 99 * MINUTE_MS).unwrap();
    assert_eq!(
        *log.borrow(),
        vec![("a".to_string(), HookPoint::Evicted, 1), ("a".to_string(), HookPoint::Warned, 2)]
    );
    assert_eq!(lease_ids(&store), vec![2, 3]);
    assert_eq!(store.leases[0].last_notified(), Some(T + 99 * MINUTE_MS));
    assert_eq!(store.leases[1].last_notified(), None);
}

#[test]
fn manual_trigger_makes_a_round() {
    let hooks: Hooks<Recorder> = Hooks::new();
    // One lease ended in 2001, the other ends in 2286.
    let mut store = store_with(&[
        Lease::new(1, 7, 978_307_200_000, Some(978_307_300_000)),
        Lease::new(2, 7, 9_999_000_000_000, Some(9_999_999_999_999)),
    ]);
    let message = sheriff(&mut store, &hooks, 1_700_000_000_000).unwrap();
    assert_eq!(message, "The Sheriff successfully make their rounds.\n");
    assert_eq!(lease_ids(&store), vec![2]);
    assert_eq!(store.leases[0].last_notified(), None);
}

#[test]
fn passes_over_an_empty_store() {
    let hooks: Hooks<Recorder> = Hooks::new();
    let mut store = Store::new(Some(0));
    let outcome = evict(&mut store, &hooks, T).unwrap();
    assert_eq!(outcome.evicted, 0);
    assert_eq!(outcome.notified, 0);
    send_eviction_notices(&mut store, &hooks, T).unwrap();
    assert!(store.leases.is_empty());
}

#[test]
fn extreme_times_do_not_overflow() {
    let wide = Lease::new(1, 7, i64::MIN, Some(i64::MAX));
    assert!(!should_warn(&wide, 0));
    assert!(should_warn(&wide, i64::MAX));
    let mut store = Store::new(Some(i64::MIN));
    assert!(store.try_acquire_run_gate(PERIOD_MS, i64::MAX));
    assert!(!store.try_acquire_run_gate(i64::MAX, i64::MIN));
    let deputy = Deputy::new(i64::MAX - PERIOD_MS);
    assert_eq!(deputy.deadline, i64::MAX);
    assert_eq!(deputy.on_wake(true, i64::MIN), Wake::Sleep(u64::MAX));
}

#[test]
fn evicted_lease_is_reported_once_whatever_it_holds() {
    let log: Log = Rc::new(RefCell::new(Vec::new()));
    let hooks = hooks_of(vec![Recorder::new("a", false, &log), Recorder::new("b", false, &log)]);
    let mut store = store_with(&[Lease::new(1, 7, T, Some(T + MINUTE_MS))]);
    store.insert_asset(Asset::new(500, 1, Some(1), "spare".to_string())).unwrap();
    let outcome = evict(&mut store, &hooks, T + 2 * MINUTE_MS).unwrap();
    assert_eq!(outcome.evicted, 1);
    assert_eq!(outcome.notified, 1);
    assert_eq!(
        *log.borrow(),
        vec![("a".to_string(), HookPoint::Evicted, 1), ("b".to_string(), HookPoint::Evicted, 1)]
    );
}

#[test]
fn evicted_lease_without_asset_is_deleted_but_not_reported() {
    let log: Log = Rc::new(RefCell::new(Vec::new()));
    let hooks = hooks_of(vec![Recorder::new("a", false, &log)]);
    let mut store = store_with(&[Lease::new(1, 7, T, Some(T + MINUTE_MS))]);
    store.insert_lease(Lease::new(2, 7, T, Some(T + MINUTE_MS))).unwrap();
    let outcome = evict(&mut store, &hooks, T + 2 * MINUTE_MS).unwrap();
    assert_eq!(outcome.evicted, 2);
    assert_eq!(outcome.notified, 1);
    assert_eq!(*log.borrow(), vec![("a".to_string(), HookPoint::Evicted, 1)]);
    assert!(store.leases.is_empty());
}

#[test]
fn eviction_plan_lists_first_assets() {
    let mut store = store_with(&[Lease::new(1, 7, T, Some(T)), Lease::new(2, 7, T, Some(T))]);
    store.insert_asset(Asset::new(600, 1, Some(2), "second".to_string())).unwrap();
    store.insert_lease(Lease::new(3, 7, T, Some(T))).unwrap();
    let due = store.leases_due_for_eviction(T + 1);
    let plan = plan_evictions(&store, &due);
    let listed: Vec<(i32, i32)> = plan.iter().map(|n| (n.lease.id(), store.assets[n.asset].id())).collect();
    assert_eq!(listed, vec![(1, 100), (2, 101)]);
    assert!(plan.iter().all(|n| n.asset_type == 0));
}

#[test]
fn unchecked_run_gate_never_opens() {
    let mut store = Store::new(None);
    assert!(!store.try_acquire_run_gate(PERIOD_MS, T));
    assert!(!store.try_acquire_run_gate(0, i64::MAX));
    assert_eq!(store.gate.last_checked, None);
}

#[test]
fn warning_failure_keeps_later_leases_unwarned() {
    let hooks: Hooks<Recorder> = Hooks::new();
    let mut store = store_with(&[Lease::new(1, 7, T, Some(T + 100 * MINUTE_MS))]);
    store.insert_lease(Lease::new(2, 7, T, Some(T + 100 * MINUTE_MS))).unwrap();
    store.insert_lease(Lease::new(3, 7, T, Some(T + 100 * MINUTE_MS))).unwrap();
    store.insert_asset(Asset::new(300, 1, Some(3), "c".to_string())).unwrap();
    match send_eviction_notices(&mut store, &hooks, T + 99 * MINUTE_MS) {
        Err(SheriffError::MissingAsset { lease_id }) => assert_eq!(lease_id, 2),
        other => panic!("unexpected outcome: {:?}", other),
    }
    assert_eq!(store.leases[0].last_notified(), Some(T + 99 * MINUTE_MS));
    assert_eq!(store.leases[1].last_notified(), None);
    assert_eq!(store.leases[2].last_notified(), None);
}
