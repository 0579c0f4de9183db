use vstd::prelude::*;

use crate::data::{Tx, Work};

verus! {

/// A gathering worker: it applies the work function to each payload it
/// receives and keeps the results, in the order it received the payloads,
/// until a `Quit` arrives or the queue closes.
pub struct Worker<T, R> {
    results: Vec<R>,
    running: bool,
    inputs: Ghost<Seq<T>>,
}

impl<T, R> Worker<T, R> {
    /// The results kept so far.
    pub closed spec fn results(&self) -> Seq<R> {
        self.results@
    }

    /// The payloads processed so far, in order.
    pub closed spec fn inputs(&self) -> Seq<T> {
        self.inputs@
    }

    /// Whether the worker still takes work.
    pub closed spec fn is_running(&self) -> bool {
        self.running
    }

    /// Each result is paired with the payload it was computed from.
    pub open spec fn wf(&self) -> bool {
        self.results().len() == self.inputs().len()
    }

    pub fn new() -> (w: Self)
        ensures
            w.wf(),
            w.is_running(),
            w.results() == Seq::<R>::empty(),
            w.inputs() == Seq::<T>::empty(),
    {
        Worker { results: Vec::new(), running: true, inputs: Ghost(Seq::empty()) }
    }

    pub fn running(&self) -> (r: bool)
        ensures
            r == self.is_running(),
    {
        self.running
    }

    /// Handles one event of the queue: `Some(Data(d))` is processed,
    /// `Some(Quit)` and `None` (the queue closed) stop the worker. A stopped
    /// worker ignores every event. Returns whether the worker goes on.
    pub fn step<F: Fn(T) -> R>(&mut self, event: Option<Work<T>>, func: &F) -> (go_on: bool)
        requires
            old(self).wf(),
            forall|t: T| func.requires((t,)),
        ensures
            final(self).wf(),
            go_on == final(self).is_running(),
            match event {
                Some(Work::Data(d)) if old(self).is_running() => {
                    &&& go_on
                    &&& final(self).inputs() == old(self).inputs().push(d)
                    &&& final(self).results().drop_last() == old(self).results()
                    &&& func.ensures((d,), final(self).results().last())
                },
                _ => {
                    &&& !go_on
                    &&& final(self).inputs() == old(self).inputs()
                    &&& final(self).results() == old(self).results()
                },
            },
    {
        if !self.running {
            return false;
        }
        match event {
            Some(Work::Data(d)) => {
                proof {
                    self.inputs@ = self.inputs@.push(d);
                }
                let r = func(d);
                self.results.push(r);
                proof {
                    assert(self.results@.drop_last() == old(self).results@);
                }
                true
            },
            _ => {
                self.running = false;
                false
            },
        }
    }

    /// The results, in the order the worker produced them.
    pub fn into_results(self) -> (r: Vec<R>)
        ensures
            r@ == self.results(),
    {
        self.results
    }
}

/// A streaming worker: it applies the work function to each payload it
/// receives and sends the result at once on the result channel.
#[verifier::reject_recursive_types(R)]
pub struct StreamWorker<T, R> {
    tx: Tx<R>,
    running: bool,
    inputs: Ghost<Seq<T>>,
    prior: Ghost<nat>,
}

impl<T, R> StreamWorker<T, R> {
    /// Everything offered on the worker's result sender, including what it
    /// had offered before the worker got it.
    pub closed spec fn forwarded(&self) -> Seq<R> {
        self.tx.offered()
    }

    /// How many messages the result sender had offered when the worker got it.
    pub closed spec fn prior(&self) -> nat {
        self.prior@
    }

    /// The results this worker has sent, in order.
    pub open spec fn produced(&self) -> Seq<R> {
        self.forwarded().skip(self.prior() as int)
    }

    /// The payloads processed so far, in order.
    pub closed spec fn inputs(&self) -> Seq<T> {
        self.inputs@
    }

    /// Whether the worker still takes work.
    pub closed spec fn is_running(&self) -> bool {
        self.running
    }

    /// One result is sent for each payload processed.
    pub open spec fn wf(&self) -> bool {
        self.forwarded().len() == self.prior() + self.inputs().len()
    }

    /// A running worker that sends its results through `tx`.
    pub fn new(tx: Tx<R>) -> (w: Self)
        ensures
            w.wf(),
            w.is_running(),
            w.forwarded() == tx.offered(),
            w.prior() == tx.offered().len(),
            w.produced() == Seq::<R>::empty(),
            w.inputs() == Seq::<T>::empty(),
    {
        let ghost n = tx.offered().len();
        let w = StreamWorker { tx, running: true, inputs: Ghost(Seq::empty()), prior: Ghost(n) };
        assert(w.produced() =~= Seq::<R>::empty());
        w
    }

    pub fn running(&self) -> (r: bool)
        ensures
            r == self.is_running(),
    {
        self.running
    }

    /// Handles one event of the queue as `Worker::step` does, but sends the
    /// result of a payload on the result channel instead of keeping it.
    /// Returns whether the worker goes on.
    pub fn step<F: Fn(T) -> R>(&mut self, event: Option<Work<T>>, func: &F) -> (go_on: bool)
        requires
            old(self).wf(),
            forall|t: T| func.requires((t,)),
        ensures
            final(self).wf(),
            final(self).prior() == old(self).prior(),
            go_on == final(self).is_running(),
            match event {
                Some(Work::Data(d)) if old(self).is_running() => {
                    &&& go_on
                    &&& final(self).inputs() == old(self).inputs().push(d)
                    &&& final(self).forwarded().drop_last() == old(self).forwarded()
                    &&& final(self).forwarded().len() == old(self).forwarded().len() + 1
                    &&& func.ensures((d,), final(self).forwarded().last())
                },
                _ => {
                    &&& !go_on
                    &&& final(self).inputs() == old(self).inputs()
                    &&& final(self).forwarded() == old(self).forwarded()
                },
            },
    {
        if !self.running {
            return false;
        }
        match event {
            Some(Work::Data(d)) => {
                proof {
                    self.inputs@ = self.inputs@.push(d);
                }
                let r = func(d);
                let _ = self.tx.post(r);
                proof {
                    assert(self.tx.offered().drop_last() =~= old(self).tx.offered());
                }
                true
            },
            _ => {
                self.running = false;
                false
            },
        }
    }
}

} // verus!
