use boss::data::{check_queue_size, resolve_worker_count};
use boss::{CSPStreamWorkerPool, PoolError, Rx, StreamWorker, Tx, Work, Worker};

fn fn_test(data: u32) -> u32 {
    data
}

fn square(x: u32) -> u32 {
    x * x
}

// Runs one streaming worker until it stops, the way a worker thread does;
// its result sender is dropped when it returns.
fn run(rx: Rx<Work<u32>>, tx: Tx<u32>, func: fn(u32) -> u32) {
    let mut w = StreamWorker::new(tx);
    while w.step(rx.0.recv().ok(), &func) {}
}

#[test]
fn streamer_workerpool() {
    let (mut boss, handles) =
        CSPStreamWorkerPool::new(None, None, |rx: Rx<Work<u32>>, tx: Tx<u32>| (rx, tx)).unwrap();
    boss.send_data(1).unwrap();
    boss.send_data(2).unwrap();
    boss.send_data(3).unwrap();
    boss.finish().unwrap();
    for (rx, tx) in handles {
        run(rx, tx, fn_test);
    }
    let mut count = 1;
    while let Some(r) = boss.next() {
        assert_eq!(count, r);
        count += 1;
    }
    assert_eq!(count, 4);
}

#[test]
fn streaming_squares_two_workers() {
    let (mut boss, handles) =
        CSPStreamWorkerPool::new(Some(2), None, |rx: Rx<Work<u32>>, tx: Tx<u32>| (rx, tx))
            .unwrap();
    assert_eq!(handles.len(), 2);
    for i in [1u32, 2, 3, 4] {
        boss.send_data(i).unwrap();
    }
    assert_eq!(boss.finish(), Ok(2));
    for (rx, tx) in handles {
        run(rx, tx, square);
    }
    let mut got = Vec::new();
    while let Some(r) = boss.next() {
        got.push(r);
    }
    got.sort();
    assert_eq!(got, vec![1, 4, 9, 16]);
    assert_eq!(boss.next(), None);
}

#[test]
fn finishing_twice_fails() {
    let (mut boss, _handles) =
        CSPStreamWorkerPool::new(Some(2), None, |rx: Rx<Work<u32>>, tx: Tx<u32>| (rx, tx))
            .unwrap();
    assert!(!boss.finished());
    assert_eq!(boss.finish(), Ok(2));
    assert!(boss.finished());
    assert_eq!(boss.finish(), Err(PoolError::AlreadyFinished));
    assert_eq!(boss.send_data(5), Err(PoolError::AlreadyFinished));
}

#[test]
fn duplicate_shares_the_stream() {
    let (boss, handles) =
        CSPStreamWorkerPool::new(Some(1), None, |rx: Rx<Work<u32>>, tx: Tx<u32>| (rx, tx))
            .unwrap();
    let mut producer = boss.clone();
    let mut consumer = boss.duplicate();
    drop(boss);
    assert_eq!(consumer.num_workers(), 1);
    producer.send_data(6).unwrap();
    producer.finish().unwrap();
    for (rx, tx) in handles {
        run(rx, tx, square);
    }
    assert_eq!(consumer.next(), Some(36));
    assert!(!consumer.finished());
}

#[test]
fn stream_zero_workers_is_refused() {
    let r = CSPStreamWorkerPool::new(Some(0), None, |rx: Rx<Work<u32>>, tx: Tx<u32>| (rx, tx));
    assert!(matches!(r, Err(PoolError::ZeroWorkers)));
}

#[test]
fn stream_huge_queue_is_refused() {
    let r = CSPStreamWorkerPool::new(None, Some(usize::MAX), |rx: Rx<Work<u32>>, tx: Tx<u32>| {
        (rx, tx)
    });
    assert!(matches!(r, Err(PoolError::QueueTooLarge)));
}

#[test]
fn worker_steps_follow_events() {
    let sq: fn(u32) -> u32 = square;
    let mut w: Worker<u32, u32> = Worker::new();
    assert!(w.step(Some(Work::Data(3)), &sq));
    assert!(w.step(Some(Work::Data(5)), &sq));
    assert!(!w.step(Some(Work::Quit), &sq));
    assert!(!w.running());
    assert!(!w.step(Some(Work::Data(7)), &sq));
    assert_eq!(w.into_results(), vec![9, 25]);
}

#[test]
fn worker_stops_when_queue_closes() {
    let sq: fn(u32) -> u32 = square;
    let mut w: Worker<u32, u32> = Worker::new();
    assert!(w.step(Some(Work::Data(2)), &sq));
    assert!(!w.step(None, &sq));
    assert_eq!(w.into_results(), vec![4]);
}

#[test]
fn stream_worker_forwards_each_result() {
    let (tx, rx) = crossbeam_channel::unbounded::<u32>();
    let sq: fn(u32) -> u32 = square;
    let mut w: StreamWorker<u32, u32> = StreamWorker::new(Tx::new(tx));
    assert!(w.step(Some(Work::Data(4)), &sq));
    assert!(w.running());
    assert!(!w.step(Some(Work::Quit), &sq));
    assert!(!w.step(Some(Work::Data(9)), &sq));
    drop(w);
    assert_eq!(rx.recv(), Ok(16));
    assert!(rx.recv().is_err());
}

#[test]
fn worker_count_resolution() {
    assert_eq!(resolve_worker_count(None, 8), Ok(8));
    assert_eq!(resolve_worker_count(Some(3), 8), Ok(3));
    assert_eq!(resolve_worker_count(Some(0), 8), Err(PoolError::ZeroWorkers));
}

#[test]
fn queue_size_check() {
    assert_eq!(check_queue_size(None), Ok(()));
    assert_eq!(check_queue_size(Some(0)), Ok(()));
    assert_eq!(check_queue_size(Some(usize::MAX / 4)), Ok(()));
    assert_eq!(check_queue_size(Some(usize::MAX / 4 + 1)), Err(PoolError::QueueTooLarge));
    assert_eq!(check_queue_size(Some(0x100_0001)), Ok(()));
}

#[test]
fn duplicate_made_before_finish_sees_it() {
    let (mut first, handles) =
        CSPStreamWorkerPool::new(Some(2), None, |rx: Rx<Work<u32>>, tx: Tx<u32>| (rx, tx))
            .unwrap();
    let mut second = first.duplicate();
    second.send_data(3).unwrap();
    assert_eq!(first.finish(), Ok(2));
    assert_eq!(second.send_data(4), Err(PoolError::AlreadyFinished));
    assert_eq!(second.finish(), Err(PoolError::AlreadyFinished));
    assert!(second.finished());
    for (rx, tx) in handles {
        run(rx, tx, square);
    }
    assert_eq!(second.next(), Some(9));
    assert_eq!(first.next(), None);
}
