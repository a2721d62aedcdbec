use check_domains::dispatch::{
    ConfigError, DispatchAction, DispatchState, Dispatcher, PoolConfig, SourceEvent,
    DEFAULT_QUEUE_CAPACITY, DEFAULT_WORKERS,
};
use check_domains::record::Record;

fn record(rank: usize, domain: &str) -> Record {
    Record::new(rank, domain.to_string(), "1.5".to_string()).unwrap()
}

fn assignments(workers: usize, count: usize) -> Vec<(usize, usize)> {
    let mut d = Dispatcher::new(PoolConfig::new(workers, 1).unwrap());
    let mut out = Vec::new();
    for i in 0..count {
        match d.step(SourceEvent::Row(record(i + 1, &format!("d{}.example", i)))) {
            DispatchAction::Send { worker, record } => out.push((worker, record.rank())),
            other => panic!("unexpected action {:?}", other),
        }
    }
    out
}

#[test]
fn round_robin_assigns_position_mod_workers() {
    let got = assignments(3, 7);
    assert_eq!(got, vec![(0, 1), (1, 2), (2, 3), (0, 4), (1, 5), (2, 6), (0, 7)]);
}

#[test]
fn every_record_goes_to_exactly_one_worker() {
    let got = assignments(4, 10);
    let mut per_worker: Vec<Vec<usize>> = vec![Vec::new(); 4];
    for (w, rank) in &got {
        per_worker[*w].push(*rank);
    }
    assert_eq!(per_worker[0], vec![1, 5, 9]);
    assert_eq!(per_worker[1], vec![2, 6, 10]);
    assert_eq!(per_worker[2], vec![3, 7]);
    assert_eq!(per_worker[3], vec![4, 8]);
    let total: usize = per_worker.iter().map(|q| q.len()).sum();
    assert_eq!(total, 10);
}

#[test]
fn single_worker_takes_everything() {
    let got = assignments(1, 4);
    assert!(got.iter().all(|(w, _)| *w == 0));
    assert_eq!(got.len(), 4);
}

#[test]
fn same_input_same_assignment() {
    assert_eq!(assignments(5, 23), assignments(5, 23));
}

#[test]
fn zero_records_closes_all_queues() {
    let mut d = Dispatcher::new(PoolConfig::standard());
    assert!(matches!(d.step(SourceEvent::Exhausted), DispatchAction::CloseAll));
    assert_eq!(d.state(), DispatchState::Finished);
    assert!(matches!(d.step(SourceEvent::Exhausted), DispatchAction::Idle));
}

#[test]
fn malformed_row_aborts_and_stops_dispatch() {
    let mut d = Dispatcher::new(PoolConfig::new(2, 3).unwrap());
    assert!(matches!(d.step(SourceEvent::Row(record(1, "a.example"))), DispatchAction::Send { worker: 0, .. }));
    match d.step(SourceEvent::Malformed("invalid digit in Rank".to_string())) {
        DispatchAction::Abort(reason) => assert_eq!(reason, "invalid digit in Rank"),
        other => panic!("unexpected action {:?}", other),
    }
    assert_eq!(d.state(), DispatchState::Aborted);
    assert!(matches!(d.step(SourceEvent::Row(record(2, "b.example"))), DispatchAction::Idle));
    assert!(matches!(d.step(SourceEvent::Exhausted), DispatchAction::Idle));
    assert_eq!(d.state(), DispatchState::Aborted);
}

#[test]
fn config_rejects_zero_workers_and_zero_capacity() {
    assert_eq!(PoolConfig::new(0, 10), Err(ConfigError::NoWorkers));
    assert_eq!(PoolConfig::new(0, 0), Err(ConfigError::NoWorkers));
    assert_eq!(PoolConfig::new(3, 0), Err(ConfigError::NoCapacity));
    assert_eq!(PoolConfig::new(3, 2), Ok(PoolConfig { workers: 3, capacity: 2 }));
}

#[test]
fn standard_config_is_fifty_workers_of_ten() {
    let c = PoolConfig::standard();
    assert_eq!(c.workers, 50);
    assert_eq!(c.capacity, 10);
    assert_eq!(DEFAULT_WORKERS, 50);
    assert_eq!(DEFAULT_QUEUE_CAPACITY, 10);
    assert_eq!(Dispatcher::new(c).workers(), 50);
}

#[test]
fn standard_pool_wraps_after_fifty() {
    let got = assignments(50, 52);
    assert_eq!(got[49].0, 49);
    assert_eq!(got[50].0, 0);
    assert_eq!(got[51].0, 1);
}
