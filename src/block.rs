use vstd::prelude::*;

use crate::data::{
    available_cores, check_queue_size, dispatch_quits, resolve_worker_count, submission_queue,
    quits, PoolError, Rx, Tx, Work, MAX_QUEUE_CAPACITY,
};
use crate::worker::Worker;

verus! {

/// The concatenation of `parts`, first to last.
pub open spec fn concat_all<A>(parts: Seq<Seq<A>>) -> Seq<A>
    decreases parts.len(),
{
    if parts.len() == 0 {
        Seq::empty()
    } else {
        concat_all(parts.drop_last()) + parts.last()
    }
}

/// `h` is a handle that `spawn` returned for some receiver.
pub open spec fn launched_by<T, H, S: Fn(Rx<Work<T>>) -> H>(spawn: S, h: H) -> bool {
    exists|rx: Rx<Work<T>>| spawn.ensures((rx,), h)
}

/// The contents of each vector of `parts`.
pub open spec fn views<A>(parts: Seq<Vec<A>>) -> Seq<Seq<A>> {
    parts.map_values(|v: Vec<A>| v@)
}

/// Concatenation adds up lengths: when the lists of `results` are as long
/// as the lists of `inputs`, one for one, their concatenations are as long
/// as each other.
pub proof fn lemma_concat_keeps_count<T, R>(results: Seq<Seq<R>>, inputs: Seq<Seq<T>>)
    requires
        results.len() == inputs.len(),
        forall|i: int| 0 <= i < results.len() ==> #[trigger] results[i].len() == inputs[i].len(),
    ensures
        concat_all(results).len() == concat_all(inputs).len(),
    decreases results.len(),
{
    if results.len() > 0 {
        let n = results.len() - 1;
        assert(results[n].len() == inputs[n].len());
        lemma_concat_keeps_count(results.drop_last(), inputs.drop_last());
    }
}

/// Gathering loses and duplicates nothing: the results of a set of workers,
/// concatenated in launch order as `finish` does, are exactly as many as the
/// payloads that those workers consumed.
pub proof fn lemma_gathering_keeps_count<T, R>(workers: Seq<Worker<T, R>>)
    requires
        forall|i: int| 0 <= i < workers.len() ==> (#[trigger] workers[i]).wf(),
    ensures
        concat_all(workers.map_values(|w: Worker<T, R>| w.results())).len() == concat_all(
            workers.map_values(|w: Worker<T, R>| w.inputs()),
        ).len(),
{
    let results = workers.map_values(|w: Worker<T, R>| w.results());
    let inputs = workers.map_values(|w: Worker<T, R>| w.inputs());
    assert forall|i: int| 0 <= i < results.len() implies #[trigger] results[i].len()
        == inputs[i].len() by {
        assert(workers[i].wf());
    }
    lemma_concat_keeps_count(results, inputs);
}

/// A pool of workers that gathers their results and hands them all back
/// when it is finished. `H` is the handle through which a launched worker
/// is later joined.
#[verifier::reject_recursive_types(T)]
pub struct CSPWorkerPool<T, H> {
    tx: Tx<Work<T>>,
    handles: Vec<H>,
    num_workers: usize,
    queue_size: Option<usize>,
}

impl<T, H> CSPWorkerPool<T, H> {
    /// The number of workers; fixed when the pool is built.
    pub closed spec fn worker_count(&self) -> nat {
        self.num_workers as nat
    }

    /// The handles of the launched workers, in launch order.
    pub closed spec fn worker_handles(&self) -> Seq<H> {
        self.handles@
    }

    /// The capacity that was asked for the submission queue when the pool
    /// was built (`None`: unbounded); the queue was made with it.
    pub closed spec fn capacity(&self) -> Option<usize> {
        self.queue_size
    }

    /// Every item this pool has offered to the submission queue, in order,
    /// including any that came back because no worker was left.
    pub closed spec fn submitted(&self) -> Seq<Work<T>> {
        self.tx.offered()
    }

    /// One launched worker for each worker counted.
    pub open spec fn wf(&self) -> bool {
        &&& self.worker_count() >= 1
        &&& self.worker_handles().len() == self.worker_count()
    }

    /// Builds a pool with `num_threads` workers (by default one per
    /// available core) and a submission queue bounded by `queue_size`
    /// (unbounded when `None`). `spawn` launches one worker on a receiver of
    /// the shared queue and returns its handle; it is called once per worker.
    pub fn new<S: Fn(Rx<Work<T>>) -> H>(
        num_threads: Option<usize>,
        queue_size: Option<usize>,
        spawn: S,
    ) -> (r: Result<Self, PoolError>)
        requires
            forall|rx: Rx<Work<T>>| spawn.requires((rx,)),
        ensures
            r is Err <==> (num_threads == Some(0usize) || (queue_size matches Some(c) && c
                > MAX_QUEUE_CAPACITY)),
            num_threads == Some(0usize) ==> r == Err::<Self, PoolError>(PoolError::ZeroWorkers),
            num_threads != Some(0usize) && r is Err ==> r == Err::<Self, PoolError>(
                PoolError::QueueTooLarge,
            ),
            r matches Ok(p) ==> {
                &&& p.wf()
                &&& p.capacity() == queue_size
                &&& p.submitted() == Seq::<Work<T>>::empty()
                &&& num_threads matches Some(n) ==> p.worker_count() == n
                &&& forall|i: int|
                    0 <= i < p.worker_handles().len() ==> launched_by(
                        spawn,
                        #[trigger] p.worker_handles()[i],
                    )
            },
    {
        let cores = if num_threads.is_none() {
            available_cores()
        } else {
            1
        };
        let num_workers = match resolve_worker_count(num_threads, cores) {
            Ok(n) => n,
            Err(e) => return Err(e),
        };
        match check_queue_size(queue_size) {
            Ok(()) => {},
            Err(e) => return Err(e),
        }
        let (tx, rx) = submission_queue(queue_size);
        let mut handles: Vec<H> = Vec::new();
        let mut i: usize = 0;
        while i < num_workers
            invariant
                i <= num_workers,
                handles@.len() == i,
                forall|rx: Rx<Work<T>>| spawn.requires((rx,)),
                forall|j: int| 0 <= j < handles@.len() ==> launched_by(spawn, #[trigger] handles@[j]),
            decreases num_workers - i,
        {
            let worker_rx = rx.share();
            let ghost given = worker_rx;
            let h = spawn(worker_rx);
            let ghost before = handles@;
            handles.push(h);
            proof {
                assert forall|j: int| 0 <= j < handles@.len() implies launched_by(
                    spawn,
                    #[trigger] handles@[j],
                ) by {
                    if j < before.len() {
                        assert(handles@[j] == before[j]);
                    } else {
                        assert(spawn.ensures((given,), handles@[j]));
                    }
                }
            }
            i = i + 1;
        }
        Ok(CSPWorkerPool { tx, handles, num_workers, queue_size })
    }

    /// The number of workers.
    pub fn num_workers(&self) -> (n: usize)
        ensures
            n == self.worker_count(),
    {
        self.num_workers
    }

    /// The capacity of the submission queue; `None` for an unbounded one.
    pub fn queue_size(&self) -> (c: Option<usize>)
        ensures
            c == self.capacity(),
    {
        self.queue_size
    }

    /// Submits one payload: `Work::Data(d)` goes on the queue after every
    /// item sent before; blocks while a bounded queue is full. Fails with
    /// `Disconnected` only when no worker is left to receive it.
    pub fn send_data(&mut self, d: T) -> (r: Result<(), PoolError>)
        ensures
            final(self).submitted() == old(self).submitted().push(Work::Data(d)),
            final(self).worker_count() == old(self).worker_count(),
            final(self).worker_handles() == old(self).worker_handles(),
            final(self).capacity() == old(self).capacity(),
            r is Err ==> r == Err::<(), PoolError>(PoolError::Disconnected),
    {
        match self.tx.post(Work::Data(d)) {
            Ok(()) => Ok(()),
            Err(_) => Err(PoolError::Disconnected),
        }
    }

    /// Sends one `Quit` per worker, after every item submitted so far, and
    /// returns how many were sent.
    pub fn send_quits(&mut self) -> (sent: usize)
        ensures
            sent == old(self).worker_count(),
            final(self).submitted() == old(self).submitted() + quits::<T>(old(self).worker_count()),
            final(self).worker_count() == old(self).worker_count(),
            final(self).worker_handles() == old(self).worker_handles(),
            final(self).capacity() == old(self).capacity(),
    {
        dispatch_quits(&mut self.tx, self.num_workers)
    }

    /// Sends one `Quit` per worker (through `send_quits`), then joins every
    /// worker in launch order and returns the concatenation of their result
    /// lists, beside the final log of the submission queue. The pool is consumed: it cannot be finished twice nor fed
    /// afterwards.
    pub fn finish<R, J: Fn(H) -> Vec<R>>(self, join: J) -> (r: (Vec<R>, Ghost<Seq<Work<T>>>))
        requires
            self.wf(),
            forall|h: H| join.requires((h,)),
        ensures
            r.1@ == self.submitted() + quits::<T>(self.worker_count()),
            exists|parts: Seq<Vec<R>>|
                {
                    &&& parts.len() == self.worker_count()
                    &&& parts.len() == self.worker_handles().len()
                    &&& forall|i: int|
                        0 <= i < parts.len() ==> join.ensures(
                            (self.worker_handles()[i],),
                            #[trigger] parts[i],
                        )
                    &&& r.0@ == concat_all(views(parts))
                },
    {
        let mut pool = self;
        let _ = pool.send_quits();
        let ghost log = pool.submitted();
        let ghost all = pool.handles@;
        let mut handles = pool.handles;
        let mut rest: Vec<H> = Vec::new();
        // Take the handles out in reverse, so that they can be joined in launch order.
        while handles.len() > 0
            invariant
                handles@.len() + rest@.len() == all.len(),
                forall|k: int| 0 <= k < handles@.len() ==> handles@[k] == all[k],
                forall|k: int|
                    0 <= k < rest@.len() ==> #[trigger] rest@[k] == all[all.len() - 1 - k],
            decreases handles.len(),
        {
            let h = handles.pop().unwrap();
            rest.push(h);
        }
        let mut results: Vec<R> = Vec::new();
        let ghost mut parts: Seq<Vec<R>> = Seq::empty();
        while rest.len() > 0
            invariant
                forall|h: H| join.requires((h,)),
                parts.len() + rest@.len() == all.len(),
                forall|k: int|
                    0 <= k < rest@.len() ==> #[trigger] rest@[k] == all[all.len() - 1 - k],
                forall|i: int| 0 <= i < parts.len() ==> join.ensures((all[i],), #[trigger] parts[i]),
                results@ == concat_all(views(parts)),
            decreases rest.len(),
        {
            let h = rest.pop().unwrap();
            let mut part = join(h);
            let ghost old_parts = parts;
            proof {
                parts = parts.push(part);
                assert(views(parts).drop_last() =~= views(old_parts));
            }
            results.append(&mut part);
        }
        (results, Ghost(log))
    }
}

} // verus!
