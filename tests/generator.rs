use snowflake::layout::{MAX_DATACENTER_ID, MAX_SEQUENCE, MAX_TIMESTAMP, MAX_WORKER_ID};
use snowflake::{compose, decompose, IdError, IdParts, SnowFlakeWorker, Step};

fn issued(step: Step) -> i64 {
    match step {
        Step::Issued(id) => id,
        other => panic!("expected an identifier, got {:?}", other),
    }
}

#[test]
fn it_works() {
    let mut worker = SnowFlakeWorker::new(0, 0).unwrap();
    let new_id = worker.next_id();
    println!("{:?}", new_id);
    assert!(new_id.is_ok());
}

#[test]
fn construction_accepts_every_identity_in_range() {
    for w in 0..=MAX_WORKER_ID as i64 {
        for d in 0..=MAX_DATACENTER_ID as i64 {
            assert!(SnowFlakeWorker::new(w, d).is_ok());
        }
    }
}

#[test]
fn construction_rejects_identities_out_of_range() {
    let bad = [(-1, 0), (0, -1), (32, 0), (0, 32), (32, 32), (i64::MIN, 0), (0, i64::MAX)];
    for (w, d) in bad {
        assert_eq!(SnowFlakeWorker::new(w, d).unwrap_err(), IdError::InvalidIdentity);
    }
}

#[test]
fn wall_clock_ids_strictly_increase() {
    let mut worker = SnowFlakeWorker::new(7, 2).unwrap();
    let mut prev = worker.next_id().unwrap();
    for _ in 0..20000 {
        let id = worker.next_id().unwrap();
        assert!(id > prev);
        prev = id;
    }
}

#[test]
fn wall_clock_id_carries_current_time() {
    let before = std::time::SystemTime::now()
        .duration_since(std::time::UNIX_EPOCH)
        .unwrap()
        .as_millis() as u64;
    let mut worker = SnowFlakeWorker::new(1, 1).unwrap();
    let id = worker.next_id().unwrap();
    let after = std::time::SystemTime::now()
        .duration_since(std::time::UNIX_EPOCH)
        .unwrap()
        .as_millis() as u64;
    let parts = decompose(id);
    assert!(before <= parts.timestamp && parts.timestamp <= after);
}

#[test]
fn decoding_recovers_identity() {
    let mut worker = SnowFlakeWorker::new(3, 1).unwrap();
    for _ in 0..100 {
        let parts = decompose(worker.next_id().unwrap());
        assert_eq!(parts.worker_id, 3);
        assert_eq!(parts.datacenter_id, 1);
    }
    let mut top = SnowFlakeWorker::new(31, 31).unwrap();
    let parts = decompose(issued(top.next_id_at(1000)));
    assert_eq!((parts.timestamp, parts.datacenter_id, parts.worker_id, parts.sequence), (1000, 31, 31, 0));
}

#[test]
fn exhausted_millisecond_waits_for_tick() {
    let mut worker = SnowFlakeWorker::new(4, 2).unwrap();
    let mut prev = -1;
    for k in 0..=MAX_SEQUENCE {
        let id = issued(worker.next_id_at(5));
        assert!(id > prev);
        let parts = decompose(id);
        assert_eq!((parts.timestamp, parts.sequence), (5, k));
        prev = id;
    }
    assert_eq!(worker.next_id_at(5), Step::SequenceExhausted);
    assert_eq!(worker.next_id_at(5), Step::SequenceExhausted);
    let id = issued(worker.next_id_at(6));
    assert!(id > prev);
    let parts = decompose(id);
    assert_eq!((parts.timestamp, parts.sequence), (6, 0));
}

#[test]
fn clock_regression_is_an_error() {
    let mut worker = SnowFlakeWorker::new(0, 0).unwrap();
    let first = issued(worker.next_id_at(100));
    assert_eq!(worker.next_id_at(99), Step::ClockRegression);
    assert_eq!(worker.next_id_at(0), Step::ClockRegression);
    let next = decompose(issued(worker.next_id_at(100)));
    assert_eq!((next.timestamp, next.sequence), (100, 1));
    assert!(compose(next) > first);
}

#[test]
fn timestamp_past_the_field_is_an_error() {
    let mut worker = SnowFlakeWorker::new(0, 0).unwrap();
    assert_eq!(worker.next_id_at(MAX_TIMESTAMP + 1), Step::TimestampOverflow);
    let last = decompose(issued(worker.next_id_at(MAX_TIMESTAMP)));
    assert_eq!((last.timestamp, last.sequence), (MAX_TIMESTAMP, 0));
}

#[test]
fn first_reading_at_epoch_continues_the_sentinel() {
    let mut worker = SnowFlakeWorker::new(2, 3).unwrap();
    let parts = decompose(issued(worker.next_id_at(0)));
    assert_eq!((parts.timestamp, parts.sequence), (0, 1));
}

#[test]
fn compose_exact_value() {
    let id = compose(IdParts { timestamp: 1, datacenter_id: 1, worker_id: 3, sequence: 0 });
    assert_eq!(id, 4337664);
    let id = compose(IdParts { timestamp: 2, datacenter_id: 0, worker_id: 0, sequence: 7 });
    assert_eq!(id, 8388615);
    let max = IdParts { timestamp: MAX_TIMESTAMP, datacenter_id: 31, worker_id: 31, sequence: 4095 };
    assert_eq!(compose(max), i64::MAX);
}

#[test]
fn pack_unpack_round_trip() {
    let cases = [
        IdParts { timestamp: 0, datacenter_id: 0, worker_id: 0, sequence: 0 },
        IdParts { timestamp: 1_700_000_000_000, datacenter_id: 17, worker_id: 9, sequence: 4095 },
        IdParts { timestamp: MAX_TIMESTAMP, datacenter_id: 31, worker_id: 31, sequence: 4095 },
        IdParts { timestamp: 12345, datacenter_id: 0, worker_id: 31, sequence: 1 },
    ];
    for p in cases {
        assert_eq!(decompose(compose(p)), p);
    }
}

#[test]
fn two_ids_in_one_millisecond() {
    let mut worker = SnowFlakeWorker::new(3, 1).unwrap();
    let a = issued(worker.next_id_at(1_700_000_000_000));
    let b = issued(worker.next_id_at(1_700_000_000_000));
    assert_eq!(b & 4095, (a & 4095) + 1);
    assert_eq!(b >> 12, a >> 12);
    let (pa, pb) = (decompose(a), decompose(b));
    assert_eq!((pa.timestamp, pa.datacenter_id, pa.worker_id), (pb.timestamp, pb.datacenter_id, pb.worker_id));
    assert_eq!((pb.datacenter_id, pb.worker_id), (1, 3));
}

#[test]
fn wait_decision_on_one_reading() {
    let mut worker = SnowFlakeWorker::new(1, 2).unwrap();
    issued(worker.next_id_at(50));
    assert_eq!(worker.passes_last(49), None);
    assert_eq!(worker.passes_last(50), None);
    assert_eq!(worker.passes_last(51), Some(51));
    assert_eq!(worker.passes_last(9000), Some(9000));
}

#[test]
fn next_id_from_each_outcome() {
    let mut worker = SnowFlakeWorker::new(3, 1).unwrap();
    let first = worker.next_id_from(10, None).unwrap();
    assert_eq!(first, compose(IdParts { timestamp: 10, datacenter_id: 1, worker_id: 3, sequence: 0 }));
    assert_eq!(worker.next_id_from(9, Some(11)), Err(IdError::ClockRegression));
    assert_eq!(worker.next_id_from(MAX_TIMESTAMP + 1, None), Err(IdError::TimestampOverflow));
    let second = worker.next_id_from(10, Some(99)).unwrap();
    assert_eq!(decompose(second).sequence, 1);
    assert_eq!(decompose(second).timestamp, 10);
    for _ in 2..=MAX_SEQUENCE {
        worker.next_id_from(10, None).unwrap();
    }
    assert_eq!(worker.next_id_from(10, None), Err(IdError::ClockStalled));
    assert_eq!(worker.next_id_from(10, Some(MAX_TIMESTAMP + 1)), Err(IdError::TimestampOverflow));
    let after_wait = decompose(worker.next_id_from(10, Some(12)).unwrap());
    assert_eq!((after_wait.timestamp, after_wait.sequence), (12, 0));
}

#[test]
fn next_id_from_many_calls_strictly_increase() {
    let mut worker = SnowFlakeWorker::new(5, 6).unwrap();
    let mut prev = -1;
    let mut now = 1_000u64;
    for k in 0..10_000u64 {
        if k % 7 == 0 {
            now += 1;
        }
        let id = worker.next_id_from(now, Some(now + 1)).unwrap();
        assert!(id > prev);
        prev = id;
    }
}
