use std::sync::atomic::{AtomicBool, Ordering};
use std::sync::Arc;
use vstd::prelude::*;

use crate::data::{
    available_cores, check_queue_size, dispatch_quits, resolve_worker_count, submission_queue,
    quits, unbounded_channel, PoolError, Rx, Tx, Work, MAX_QUEUE_CAPACITY,
};
use crate::block::{concat_all, lemma_concat_keeps_count};
use crate::worker::StreamWorker;

verus! {

/// Streaming loses and duplicates nothing: a set of streaming workers has
/// sent exactly as many results as the payloads that it consumed.
pub proof fn lemma_streaming_keeps_count<T, R>(workers: Seq<StreamWorker<T, R>>)
    requires
        forall|i: int| 0 <= i < workers.len() ==> (#[trigger] workers[i]).wf(),
    ensures
        concat_all(workers.map_values(|w: StreamWorker<T, R>| w.produced())).len()
            == concat_all(workers.map_values(|w: StreamWorker<T, R>| w.inputs())).len(),
{
    let results = workers.map_values(|w: StreamWorker<T, R>| w.produced());
    let inputs = workers.map_values(|w: StreamWorker<T, R>| w.inputs());
    assert forall|i: int| 0 <= i < results.len() implies #[trigger] results[i].len()
        == inputs[i].len() by {
        assert(workers[i].wf());
    }
    lemma_concat_keeps_count(results, inputs);
}

/// `h` is a handle that `spawn` returned for some pair of a submission
/// receiver and a result sender.
pub open spec fn stream_launched_by<T, R, H, S: Fn(Rx<Work<T>>, Tx<R>) -> H>(
    spawn: S,
    h: H,
) -> bool {
    exists|rx: Rx<Work<T>>, tx: Tx<R>| spawn.ensures((rx, tx), h)
}

/// A pool of workers that forward each result at once onto a shared result
/// channel, which the handle drains with `next`. Handles may be duplicated;
/// all duplicates share the same queue, the same result stream and the same
/// finished state.
#[verifier::reject_recursive_types(T)]
#[verifier::reject_recursive_types(R)]
pub struct CSPStreamWorkerPool<T, R> {
    tx: Tx<Work<T>>,
    rx: Rx<R>,
    num_workers: usize,
    finished: bool,
    shared_finished: Arc<AtomicBool>,
}

impl<T, R> CSPStreamWorkerPool<T, R> {
    /// The number of workers; fixed when the pool is built.
    pub closed spec fn worker_count(&self) -> nat {
        self.num_workers as nat
    }

    /// Whether this handle has been finished.
    pub closed spec fn is_finished(&self) -> bool {
        self.finished
    }

    /// Every item this handle has offered to the submission queue, in order,
    /// including any that came back because no worker was left.
    pub closed spec fn submitted(&self) -> Seq<Work<T>> {
        self.tx.offered()
    }

    /// The receiving side of the result channel.
    pub closed spec fn results(&self) -> Rx<R> {
        self.rx
    }

    /// Builds a pool with `num_threads` workers (by default one per
    /// available core), a submission queue bounded by `queue_size`
    /// (unbounded when `None`) and an unbounded result channel. `spawn`
    /// launches one worker on a receiver of the queue and a sender of the
    /// result channel, once per worker; the handles it returned come back
    /// beside the pool, in launch order.
    pub fn new<H, S: Fn(Rx<Work<T>>, Tx<R>) -> H>(
        num_threads: Option<usize>,
        queue_size: Option<usize>,
        spawn: S,
    ) -> (r: Result<(Self, Vec<H>), PoolError>)
        requires
            forall|rx: Rx<Work<T>>, tx: Tx<R>| spawn.requires((rx, tx)),
        ensures
            r is Err <==> (num_threads == Some(0usize) || (queue_size matches Some(c) && c
                > MAX_QUEUE_CAPACITY)),
            num_threads == Some(0usize) ==> r == Err::<(Self, Vec<H>), PoolError>(
                PoolError::ZeroWorkers,
            ),
            num_threads != Some(0usize) && r is Err ==> r == Err::<(Self, Vec<H>), PoolError>(
                PoolError::QueueTooLarge,
            ),
            r matches Ok((p, hs)) ==> {
                &&& p.worker_count() >= 1
                &&& !p.is_finished()
                &&& p.submitted() == Seq::<Work<T>>::empty()
                &&& hs@.len() == p.worker_count()
                &&& num_threads matches Some(n) ==> p.worker_count() == n
                &&& forall|i: int|
                    0 <= i < hs@.len() ==> stream_launched_by(spawn, #[trigger] hs@[i])
            },
    {
        let cores = if num_threads.is_none() {
            available_cores()
        } else {
            1
        };
        let num_workers = match resolve_worker_count(num_threads, cores) {
            Ok(n) => n,
            Err(e) => return Err(e),
        };
        match check_queue_size(queue_size) {
            Ok(()) => {},
            Err(e) => return Err(e),
        }
        let (tx, rx) = submission_queue(queue_size);
        let (result_sender, result_receiver) = unbounded_channel();
        let result_tx = Tx::new(result_sender);
        let mut handles: Vec<H> = Vec::new();
        let mut i: usize = 0;
        while i < num_workers
            invariant
                i <= num_workers,
                handles@.len() == i,
                forall|rx: Rx<Work<T>>, tx: Tx<R>| spawn.requires((rx, tx)),
                forall|j: int|
                    0 <= j < handles@.len() ==> stream_launched_by(spawn, #[trigger] handles@[j]),
            decreases num_workers - i,
        {
            let worker_rx = rx.share();
            let worker_tx = result_tx.share();
            let ghost given = (worker_rx, worker_tx);
            let h = spawn(worker_rx, worker_tx);
            let ghost before = handles@;
            handles.push(h);
            proof {
                assert forall|j: int| 0 <= j < handles@.len() implies stream_launched_by(
                    spawn,
                    #[trigger] handles@[j],
                ) by {
                    if j < before.len() {
                        assert(handles@[j] == before[j]);
                    } else {
                        assert(spawn.ensures((given.0, given.1), handles@[j]));
                    }
                }
            }
            i = i + 1;
        }
        let pool = CSPStreamWorkerPool {
            tx,
            rx: Rx(result_receiver),
            num_workers,
            finished: false,
            shared_finished: Arc::new(AtomicBool::new(false)),
        };
        Ok((pool, handles))
    }

    /// The number of workers.
    pub fn num_workers(&self) -> (n: usize)
        ensures
            n == self.worker_count(),
    {
        self.num_workers
    }

    /// Whether this handle has been finished.
    pub fn finished(&self) -> (b: bool)
        ensures
            b == self.is_finished(),
    {
        self.finished
    }

    /// Submits one payload: `Work::Data(d)` goes on the queue after every
    /// item this handle sent before; blocks while a bounded queue is full.
    /// Once this handle or any duplicate of it has been finished, the payload
    /// is refused with `AlreadyFinished` and nothing is sent. Otherwise it
    /// fails with `Disconnected` only when no worker is left to receive it.
    pub fn send_data(&mut self, d: T) -> (r: Result<(), PoolError>)
        ensures
            old(self).is_finished() ==> r == Err::<(), PoolError>(PoolError::AlreadyFinished),
            r == Err::<(), PoolError>(PoolError::AlreadyFinished) ==> final(self).submitted()
                == old(self).submitted(),
            r != Err::<(), PoolError>(PoolError::AlreadyFinished) ==> final(self).submitted()
                == old(self).submitted().push(Work::Data(d)),
            r is Err ==> (r == Err::<(), PoolError>(PoolError::AlreadyFinished) || r == Err::<
                (),
                PoolError,
            >(PoolError::Disconnected)),
            final(self).worker_count() == old(self).worker_count(),
            final(self).is_finished() == old(self).is_finished(),
            final(self).results() == old(self).results(),
    {
        if self.finished || self.shared_finished.load(Ordering::SeqCst) {
            return Err(PoolError::AlreadyFinished);
        }
        match self.tx.post(Work::Data(d)) {
            Ok(()) => Ok(()),
            Err(_) => Err(PoolError::Disconnected),
        }
    }

    /// Sends one `Quit` per worker, after every item this handle sent, and
    /// returns at once with how many were sent; the results keep coming
    /// through `next` until every worker has stopped. Only the first finish
    /// among a handle and its duplicates sends anything: every later one
    /// fails with `AlreadyFinished`.
    pub fn finish(&mut self) -> (r: Result<usize, PoolError>)
        ensures
            final(self).is_finished(),
            final(self).worker_count() == old(self).worker_count(),
            final(self).results() == old(self).results(),
            old(self).is_finished() ==> r == Err::<usize, PoolError>(PoolError::AlreadyFinished),
            r is Err ==> r == Err::<usize, PoolError>(PoolError::AlreadyFinished)
                && final(self).submitted() == old(self).submitted(),
            r is Ok ==> r == Ok::<usize, PoolError>(old(self).worker_count() as usize)
                && final(self).submitted() == old(self).submitted() + quits::<T>(
                old(self).worker_count(),
            ),
    {
        if self.finished {
            return Err(PoolError::AlreadyFinished);
        }
        self.finished = true;
        if self.shared_finished.swap(true, Ordering::SeqCst) {
            return Err(PoolError::AlreadyFinished);
        }
        let sent = dispatch_quits(&mut self.tx, self.num_workers);
        Ok(sent)
    }

    /// The next result: blocks until a worker forwards one, or returns
    /// `None` once every worker has stopped and all results were taken.
    pub fn next(&mut self) -> (r: Option<R>)
        ensures
            final(self).worker_count() == old(self).worker_count(),
            final(self).is_finished() == old(self).is_finished(),
            final(self).submitted() == old(self).submitted(),
            final(self).results() == old(self).results(),
    {
        self.rx.recv()
    }

    /// Another handle on the same queue, result stream and finished state;
    /// no worker and no channel is created. Its log of submitted items
    /// starts empty.
    pub fn duplicate(&self) -> (p: Self)
        ensures
            p.worker_count() == self.worker_count(),
            p.is_finished() == self.is_finished(),
            p.submitted() == Seq::<Work<T>>::empty(),
    {
        CSPStreamWorkerPool {
            tx: self.tx.share(),
            rx: self.rx.share(),
            num_workers: self.num_workers,
            finished: self.finished,
            shared_finished: Arc::clone(&self.shared_finished),
        }
    }
}

impl<T, R> Clone for CSPStreamWorkerPool<T, R> {
    fn clone(&self) -> (p: Self)
        ensures
            p.worker_count() == self.worker_count(),
            p.is_finished() == self.is_finished(),
            p.submitted() == Seq::<Work<T>>::empty(),
    {
        self.duplicate()
    }
}

} // verus!
