use vstd::prelude::*;

verus! {

#[verifier::external_type_specification]
#[verifier::external_body]
#[verifier::reject_recursive_types(T)]
pub struct ExSender<T>(crossbeam_channel::Sender<T>);

#[verifier::external_type_specification]
#[verifier::external_body]
#[verifier::reject_recursive_types(T)]
pub struct ExReceiver<T>(crossbeam_channel::Receiver<T>);

/// A unit of work on the submission queue: a payload, or the signal that
/// tells the worker which receives it to stop.
pub enum Work<T> {
    Data(T),
    Quit,
}

/// What can go wrong when a pool is built or driven.
#[derive(Debug, PartialEq, Eq, Structural)]
pub enum PoolError {
    /// A pool was asked for with no workers: it would never process anything.
    ZeroWorkers,
    /// The requested queue capacity is above `MAX_QUEUE_CAPACITY`.
    QueueTooLarge,
    /// Every receiving side of the submission queue is gone.
    Disconnected,
    /// The pool handle was already finished.
    AlreadyFinished,
}

/// The largest capacity accepted for a bounded submission queue: above it,
/// the channel's own index arithmetic overflows.
pub const MAX_QUEUE_CAPACITY: usize = usize::MAX / 4;

/// The receiving side of a channel.
#[verifier::reject_recursive_types(T)]
pub struct Rx<T>(pub crossbeam_channel::Receiver<T>);

/// The sending side of a channel, with the log of every message offered
/// through this handle, in order.
#[verifier::reject_recursive_types(R)]
pub struct Tx<R>(crossbeam_channel::Sender<R>, Ghost<Seq<R>>);

/// Relies on crossbeam_channel::unbounded: a new channel that never blocks a sender.
#[verifier::external_body]
pub(crate) fn unbounded_channel<T>() -> (crossbeam_channel::Sender<T>, crossbeam_channel::Receiver<T>) {
    crossbeam_channel::unbounded()
}

/// Relies on crossbeam_channel::bounded: a new channel holding at most `cap`
/// pending messages. It panics when `cap + 1`, rounded up to a power of two
/// and doubled, overflows; the bound keeps below that.
#[verifier::external_body]
pub(crate) fn bounded_channel<T>(cap: usize) -> (crossbeam_channel::Sender<T>, crossbeam_channel::Receiver<T>)
    requires
        cap <= MAX_QUEUE_CAPACITY,
{
    crossbeam_channel::bounded(cap)
}

/// Relies on crossbeam_channel::Sender::clone: another sender of the same channel.
#[verifier::external_body]
fn clone_sender<T>(s: &crossbeam_channel::Sender<T>) -> crossbeam_channel::Sender<T> {
    s.clone()
}

/// Relies on num_cpus::get, which always returns at least 1.
#[verifier::external_body]
pub(crate) fn available_cores() -> (n: usize)
    ensures
        n >= 1,
{
    num_cpus::get()
}

impl<T> Rx<T> {
    /// Relies on crossbeam_channel::Receiver::recv: blocks until a message
    /// arrives (`Some`) or the channel is empty and has no sender left (`None`).
    #[verifier::external_body]
    pub(crate) fn recv(&self) -> Option<T> {
        self.0.recv().ok()
    }

    /// Relies on crossbeam_channel::Receiver::clone: another receiver of the same channel.
    #[verifier::external_body]
    pub(crate) fn share(&self) -> Rx<T> {
        Rx(self.0.clone())
    }
}

impl<R> Tx<R> {
    /// The messages offered through this handle so far, in order.
    pub closed spec fn offered(&self) -> Seq<R> {
        self.1@
    }

    /// A handle on `sender` that has offered nothing yet.
    pub fn new(sender: crossbeam_channel::Sender<R>) -> (t: Tx<R>)
        ensures
            t.offered() == Seq::<R>::empty(),
    {
        Tx(sender, Ghost(Seq::empty()))
    }

    /// Relies on crossbeam_channel::Sender::send: blocks while a bounded channel
    /// is full; when every receiver is gone, the message comes back in the error.
    #[verifier::external_body]
    fn send(&self, msg: R) -> (r: Result<(), R>)
        ensures
            r matches Err(m) ==> m == msg,
    {
        self.0.send(msg).map_err(|e| e.0)
    }

    /// Offers `msg` to the channel and logs it; blocks while a bounded
    /// channel is full. When every receiver is gone, `msg` comes back in
    /// the error.
    pub fn post(&mut self, msg: R) -> (r: Result<(), R>)
        ensures
            final(self).offered() == old(self).offered().push(msg),
            r matches Err(m) ==> m == msg,
    {
        proof {
            self.1@ = self.1@.push(msg);
        }
        self.send(msg)
    }

    /// Another sender of the same channel, with an empty log of its own.
    pub fn share(&self) -> (t: Tx<R>)
        ensures
            t.offered() == Seq::<R>::empty(),
    {
        Tx::new(clone_sender(&self.0))
    }
}

/// `n` quit signals.
pub open spec fn quits<T>(n: nat) -> Seq<Work<T>> {
    Seq::new(n, |i: int| Work::<T>::Quit)
}

/// Offers one `Quit` to the queue for each of `n` workers and returns how
/// many were offered.
pub fn dispatch_quits<T>(tx: &mut Tx<Work<T>>, n: usize) -> (sent: usize)
    ensures
        sent == n,
        final(tx).offered() == old(tx).offered() + quits::<T>(n as nat),
{
    let mut sent: usize = 0;
    while sent < n
        invariant
            sent <= n,
            tx.offered() == old(tx).offered() + quits::<T>(sent as nat),
        decreases n - sent,
    {
        let _ = tx.post(Work::Quit);
        proof {
            assert(quits::<T>(sent as nat).push(Work::Quit) =~= quits::<T>((sent + 1) as nat));
            assert(tx.offered() =~= old(tx).offered() + quits::<T>((sent + 1) as nat));
        }
        sent = sent + 1;
    }
    sent
}

/// The number of workers a pool gets: the requested count, or `cores` when
/// none was requested; zero workers is a configuration error.
pub fn resolve_worker_count(requested: Option<usize>, cores: usize) -> (r: Result<usize, PoolError>)
    ensures
        r == (match requested {
            Some(0) => Err(PoolError::ZeroWorkers),
            Some(n) => Ok(n),
            None => Ok(cores),
        }),
{
    match requested {
        Some(0) => Err(PoolError::ZeroWorkers),
        Some(n) => Ok(n),
        None => Ok(cores),
    }
}

/// Checks a requested queue capacity: `None` asks for an unbounded queue.
pub fn check_queue_size(queue_size: Option<usize>) -> (r: Result<(), PoolError>)
    ensures
        r is Err <==> (queue_size matches Some(c) && c > MAX_QUEUE_CAPACITY),
        r is Err ==> r == Err::<(), PoolError>(PoolError::QueueTooLarge),
{
    match queue_size {
        Some(c) => if c > MAX_QUEUE_CAPACITY {
            Err(PoolError::QueueTooLarge)
        } else {
            Ok(())
        },
        None => Ok(()),
    }
}

/// A new submission queue: bounded by `queue_size` when it is given, else unbounded.
pub(crate) fn submission_queue<T>(queue_size: Option<usize>) -> (r: (Tx<T>, Rx<T>))
    requires
        queue_size matches Some(c) ==> c <= MAX_QUEUE_CAPACITY,
    ensures
        r.0.offered() == Seq::<T>::empty(),
{
    let (s, r) = match queue_size {
        Some(c) => bounded_channel(c),
        None => unbounded_channel(),
    };
    (Tx::new(s), Rx(r))
}

} // verus!
