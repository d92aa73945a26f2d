//! The pool: a fixed set of workers around one dispatch channel.
//!
//! The pool decides; it starts no thread and runs no job. Whoever owns the
//! threads asks it, for each worker, what that worker does next, and tells
//! it when a worker has faulted.

use crate::multithreading::channel::{ChannelView, DispatchChannel};
use crate::multithreading::worker::{turn, Step, Worker, WorkerState, WorkerView};
use vstd::prelude::*;

verus! {

/// Why the pool refused a request.
#[derive(Clone, Copy, Debug, PartialEq, Eq, Structural)]
pub enum PoolError {
    /// A pool needs at least one worker.
    ZeroSize,
    /// The pool was shut down and takes no more jobs.
    ShutDown,
}

/// A fixed-size pool of workers that take jobs of type `J` in the order of
/// their submission.
pub struct ThreadPool<J> {
    workers: Vec<Worker>,
    channel: DispatchChannel<J>,
    submitted: Ghost<Seq<J>>,
    dispatched: Ghost<Seq<J>>,
}

/// What a pool is to its users, with the history of its jobs.
pub struct PoolView<J> {
    /// The workers, in the order of their creation.
    pub workers: Seq<WorkerView>,
    /// The jobs that wait for a worker, the one that has waited longest first.
    pub pending: Seq<J>,
    /// Whether the pool was shut down.
    pub shut_down: bool,
    /// Every job that the pool accepted, in the order of acceptance.
    pub submitted: Seq<J>,
    /// Every job that was handed to a worker, in the order of the handing.
    pub dispatched: Seq<J>,
}

impl<J> PoolView<J> {
    /// A new pool of `size` workers: all waiting, nothing submitted.
    pub open spec fn fresh(size: usize) -> PoolView<J> {
        PoolView {
            workers: Seq::new(
                size as nat,
                |i: int| WorkerView { id: i as usize, state: WorkerState::Waiting, faulted: false },
            ),
            pending: Seq::empty(),
            shut_down: false,
            submitted: Seq::empty(),
            dispatched: Seq::empty(),
        }
    }

    /// What holds of every pool: it has a worker; each worker's ordinal is
    /// its place in the order of creation; every accepted job either was
    /// handed to a worker once or waits, in the order of acceptance; and a
    /// worker has left its loop without a fault only after the pool was shut
    /// down and the last job was taken.
    pub open spec fn wf(self) -> bool {
        &&& self.workers.len() > 0
        &&& forall|i: int|
            0 <= i < self.workers.len() ==> (#[trigger] self.workers[i]).id == i
                && self.workers[i].wf()
        &&& self.submitted == self.dispatched + self.pending
        &&& forall|i: int|
            0 <= i < self.workers.len() && (#[trigger] self.workers[i]).state
                == WorkerState::Terminated && !self.workers[i].faulted ==> self.shut_down
                && self.pending.len() == 0
    }

    /// The channel between the producers and the workers.
    pub open spec fn channel(self) -> ChannelView<J> {
        ChannelView { pending: self.pending, closed: self.shut_down }
    }

    /// The pool after `job` was offered to it: queued behind the waiting
    /// jobs, unless the pool was shut down, which then stays as it is.
    pub open spec fn execute(self, job: J) -> PoolView<J> {
        if self.shut_down {
            self
        } else {
            PoolView {
                pending: self.pending.push(job),
                submitted: self.submitted.push(job),
                ..self
            }
        }
    }

    /// The pool after the worker `worker` took one turn of its loop, and
    /// what that worker's thread is to do. An ordinal that the pool has no
    /// worker for changes nothing and is told to leave.
    pub open spec fn step(self, worker: usize) -> (PoolView<J>, Step<J>) {
        if worker >= self.workers.len() {
            (self, Step::Exit)
        } else {
            let (after, channel, step) = turn(self.workers[worker as int], self.channel());
            (
                PoolView {
                    workers: self.workers.update(worker as int, after),
                    pending: channel.pending,
                    dispatched: match step {
                        Step::Run(job) => self.dispatched.push(job),
                        _ => self.dispatched,
                    },
                    ..self
                },
                step,
            )
        }
    }

    /// The pool after the worker `worker` faulted.
    pub open spec fn fault(self, worker: usize) -> PoolView<J> {
        if worker >= self.workers.len() {
            self
        } else {
            PoolView {
                workers: self.workers.update(worker as int, self.workers[worker as int].fault()),
                ..self
            }
        }
    }

    /// The pool after a shutdown: no job is accepted any more; the jobs that
    /// wait stay.
    pub open spec fn shutdown(self) -> PoolView<J> {
        PoolView { shut_down: true, ..self }
    }

    /// The workers whose threads a shutdown asks to be joined, in the order
    /// to join them: all of them, in the order of creation, the first time;
    /// none after that.
    pub open spec fn join_order(self) -> Seq<usize> {
        if self.shut_down {
            Seq::empty()
        } else {
            Seq::new(self.workers.len(), |i: int| i as usize)
        }
    }

    /// Whether the pool was shut down and every worker has left its loop.
    pub open spec fn finished(self) -> bool {
        &&& self.shut_down
        &&& forall|i: int|
            0 <= i < self.workers.len() ==> (#[trigger] self.workers[i]).state
                == WorkerState::Terminated
    }

    /// Whether every worker was ended by a fault.
    pub open spec fn all_faulted(self) -> bool {
        forall|i: int| 0 <= i < self.workers.len() ==> (#[trigger] self.workers[i]).faulted
    }
}

impl<J> View for ThreadPool<J> {
    type V = PoolView<J>;

    closed spec fn view(&self) -> PoolView<J> {
        PoolView {
            workers: Seq::new(self.workers@.len(), |i: int| self.workers@[i]@),
            pending: self.channel@.pending,
            shut_down: self.channel@.closed,
            submitted: self.submitted@,
            dispatched: self.dispatched@,
        }
    }
}

impl<J> ThreadPool<J> {
    /// Creates a pool of `size` workers with the ordinals `0` to `size - 1`.
    /// A pool without workers would accept jobs that never run, so a size of
    /// zero is refused.
    pub fn new(size: usize) -> (pool: Result<ThreadPool<J>, PoolError>)
        ensures
            size == 0 ==> pool == Err::<ThreadPool<J>, PoolError>(PoolError::ZeroSize),
            size > 0 ==> pool is Ok && pool->Ok_0@ == PoolView::<J>::fresh(size)
                && pool->Ok_0@.wf(),
    {
        if size == 0 {
            return Err(PoolError::ZeroSize);
        }
        let mut workers: Vec<Worker> = Vec::new();
        let mut id: usize = 0;
        while id < size
            invariant
                id <= size,
                workers@.len() == id,
                forall|i: int|
                    0 <= i < id ==> (#[trigger] workers@[i])@ == (WorkerView {
                        id: i as usize,
                        state: WorkerState::Waiting,
                        faulted: false,
                    }),
            decreases size - id,
        {
            workers.push(Worker::new(id));
            id += 1;
        }
        let pool = ThreadPool {
            workers,
            channel: DispatchChannel::new(),
            submitted: Ghost(Seq::empty()),
            dispatched: Ghost(Seq::empty()),
        };
        proof {
            assert(pool@.workers =~= PoolView::<J>::fresh(size).workers);
            assert(pool@.submitted =~= pool@.dispatched + pool@.pending);
        }
        Ok(pool)
    }

    /// Queues `job` for the workers and returns at once. After a shutdown
    /// the job is refused and the pool stays as it is.
    pub fn execute(&mut self, job: J) -> (accepted: Result<(), PoolError>)
        requires
            old(self)@.wf(),
        ensures
            final(self)@ == old(self)@.execute(job),
            final(self)@.wf(),
            accepted == (if old(self)@.shut_down {
                Err::<(), PoolError>(PoolError::ShutDown)
            } else {
                Ok::<(), PoolError>(())
            }),
    {
        match self.channel.send(job) {
            Ok(()) => {
                proof {
                    self.submitted@ = self.submitted@.push(job);
                }
                assert(final(self)@.workers =~= old(self)@.workers);
                assert(final(self)@.submitted =~= final(self)@.dispatched + final(self)@.pending);
                Ok(())
            },
            Err(_) => {
                assert(final(self)@.workers =~= old(self)@.workers);
                Err(PoolError::ShutDown)
            },
        }
    }

    /// Takes one turn of the loop of the worker `worker`: the worker has
    /// finished the job it took before, if any, and is handed the job that
    /// has waited longest, is told to wait, or is told to leave.
    pub fn step(&mut self, worker: usize) -> (step: Step<J>)
        requires
            old(self)@.wf(),
        ensures
            (final(self)@, step) == old(self)@.step(worker),
            final(self)@.wf(),
    {
        if worker >= self.workers.len() {
            return Step::Exit;
        }
        let mut state: Worker = self.workers[worker];
        let step = state.step(&mut self.channel);
        self.workers.set(worker, state);
        proof {
            if step is Run {
                self.dispatched@ = self.dispatched@.push(step->Run_0);
            }
            assert(final(self)@.workers =~= old(self)@.step(worker).0.workers);
            lemma_step_wf(old(self)@, worker);
        }
        step
    }

    /// Records that the worker `worker` faulted: it has left its loop and is
    /// not replaced. The other workers go on.
    pub fn fault(&mut self, worker: usize)
        requires
            old(self)@.wf(),
        ensures
            final(self)@ == old(self)@.fault(worker),
            final(self)@.wf(),
    {
        if worker < self.workers.len() {
            let mut state: Worker = self.workers[worker];
            state.fault();
            self.workers.set(worker, state);
            proof {
                assert(final(self)@.workers =~= old(self)@.fault(worker).workers);
                lemma_fault_wf(old(self)@, worker);
            }
        } else {
            assert(final(self)@.workers =~= old(self)@.workers);
        }
    }

    /// Shuts the pool down: no job is accepted any more, and the jobs that
    /// wait are still handed out. Returns the workers whose threads are now
    /// to be joined, in the order to join them. A second shutdown changes
    /// nothing and returns no worker, so that no thread is joined twice.
    pub fn shutdown(&mut self) -> (join: Vec<usize>)
        requires
            old(self)@.wf(),
        ensures
            final(self)@ == old(self)@.shutdown(),
            final(self)@.wf(),
            join@ == old(self)@.join_order(),
    {
        let mut join: Vec<usize> = Vec::new();
        if !self.channel.is_closed() {
            self.channel.close();
            let mut id: usize = 0;
            while id < self.workers.len()
                invariant
                    id <= self.workers.len(),
                    join@ == Seq::new(id as nat, |i: int| i as usize),
                decreases self.workers.len() - id,
            {
                join.push(id);
                id += 1;
                assert(join@ =~= Seq::new(id as nat, |i: int| i as usize));
            }
        }
        proof {
            assert(final(self)@.workers =~= old(self)@.workers);
            assert(join@ =~= old(self)@.join_order());
        }
        join
    }

    /// The number of workers.
    pub fn size(&self) -> (size: usize)
        ensures
            size == self@.workers.len(),
    {
        self.workers.len()
    }

    /// The number of jobs that wait for a worker.
    pub fn queued(&self) -> (queued: usize)
        ensures
            queued == self@.pending.len(),
    {
        self.channel.len()
    }

    /// Whether the pool was shut down.
    pub fn is_shut_down(&self) -> (shut_down: bool)
        ensures
            shut_down == self@.shut_down,
    {
        self.channel.is_closed()
    }

    /// The worker with the ordinal `worker`, if the pool has one.
    pub fn worker(&self, worker: usize) -> (found: Option<Worker>)
        ensures
            worker >= self@.workers.len() ==> found is None,
            worker < self@.workers.len() ==> found is Some && found->Some_0@
                == self@.workers[worker as int],
    {
        if worker < self.workers.len() {
            Some(self.workers[worker])
        } else {
            None
        }
    }

    /// Whether the shutdown is complete: the pool was shut down and every
    /// worker has left its loop.
    pub fn is_finished(&self) -> (finished: bool)
        ensures
            finished == self@.finished(),
    {
        if !self.channel.is_closed() {
            return false;
        }
        let mut id: usize = 0;
        while id < self.workers.len()
            invariant
                id <= self.workers.len(),
                forall|i: int|
                    0 <= i < id ==> (#[trigger] self@.workers[i]).state
                        == WorkerState::Terminated,
            decreases self.workers.len() - id,
        {
            match self.workers[id].state() {
                WorkerState::Terminated => {},
                _ => {
                    assert(self@.workers[id as int].state != WorkerState::Terminated);
                    return false;
                },
            }
            id += 1;
        }
        true
    }
}

/// A new pool is well formed.
pub proof fn lemma_fresh_wf<J>(size: usize)
    requires
        size > 0,
    ensures
        PoolView::<J>::fresh(size).wf(),
        PoolView::<J>::fresh(size).workers.len() == size,
{
    let pool = PoolView::<J>::fresh(size);
    assert(pool.submitted =~= pool.dispatched + pool.pending);
}

/// A pool has as many live identities as workers: the ordinals of two
/// workers differ, and each is below the number of workers.
pub proof fn lemma_worker_ids_unique<J>(pool: PoolView<J>)
    requires
        pool.wf(),
    ensures
        forall|i: int, j: int|
            0 <= i < pool.workers.len() && 0 <= j < pool.workers.len() && i != j ==> (
            #[trigger] pool.workers[i]).id != (#[trigger] pool.workers[j]).id,
        forall|i: int|
            0 <= i < pool.workers.len() ==> (#[trigger] pool.workers[i]).id < pool.workers.len(),
{
}

/// Submitting a job keeps the pool well formed and the number of its
/// workers.
pub proof fn lemma_execute_wf<J>(pool: PoolView<J>, job: J)
    requires
        pool.wf(),
    ensures
        pool.execute(job).wf(),
        pool.execute(job).workers == pool.workers,
{
    let after = pool.execute(job);
    if !pool.shut_down {
        assert(after.submitted =~= after.dispatched + after.pending);
    }
}

/// A turn of a worker keeps the pool well formed, the number of its workers
/// and their ordinals, and what was submitted.
pub proof fn lemma_step_wf<J>(pool: PoolView<J>, worker: usize)
    requires
        pool.wf(),
    ensures
        pool.step(worker).0.wf(),
        pool.step(worker).0.workers.len() == pool.workers.len(),
        pool.step(worker).0.submitted == pool.submitted,
        pool.step(worker).0.shut_down == pool.shut_down,
{
    let after = pool.step(worker).0;
    if worker < pool.workers.len() {
        assert(after.submitted =~= after.dispatched + after.pending);
        assert forall|i: int| 0 <= i < after.workers.len() implies (#[trigger] after.workers[i]).id
            == i && after.workers[i].wf() by {
            if i != worker {
                assert(after.workers[i] == pool.workers[i]);
            }
        }
        assert forall|i: int|
            0 <= i < after.workers.len() && (#[trigger] after.workers[i]).state
                == WorkerState::Terminated && !after.workers[i].faulted implies after.shut_down
            && after.pending.len() == 0 by {
            if i != worker {
                assert(after.workers[i] == pool.workers[i]);
            }
        }
    }
}

/// A fault keeps the pool well formed; it touches no job and no other
/// worker.
pub proof fn lemma_fault_wf<J>(pool: PoolView<J>, worker: usize)
    requires
        pool.wf(),
    ensures
        pool.fault(worker).wf(),
        pool.fault(worker).workers.len() == pool.workers.len(),
        pool.fault(worker).pending == pool.pending,
        forall|i: int|
            0 <= i < pool.workers.len() && i != worker ==> #[trigger] pool.fault(worker).workers[i]
                == pool.workers[i],
{
    let after = pool.fault(worker);
    if worker < pool.workers.len() {
        assert forall|i: int| 0 <= i < after.workers.len() implies (#[trigger] after.workers[i]).id
            == i && after.workers[i].wf() by {
            if i != worker {
                assert(after.workers[i] == pool.workers[i]);
            }
        }
        assert forall|i: int|
            0 <= i < after.workers.len() && (#[trigger] after.workers[i]).state
                == WorkerState::Terminated && !after.workers[i].faulted implies after.shut_down
            && after.pending.len() == 0 by {
            if i != worker {
                assert(after.workers[i] == pool.workers[i]);
            } else {
                assert(after.workers[i] == pool.workers[i].fault());
            }
        }
    }
}

/// Jobs are handed out in the order of their submission, each at most
/// once: what was handed out is always the front of what was submitted, and
/// what waits is the rest.
pub proof fn lemma_dispatch_is_fifo<J>(pool: PoolView<J>)
    requires
        pool.wf(),
    ensures
        pool.dispatched.len() + pool.pending.len() == pool.submitted.len(),
        pool.dispatched == pool.submitted.take(pool.dispatched.len() as int),
        pool.pending == pool.submitted.skip(pool.dispatched.len() as int),
{
    assert(pool.dispatched =~= pool.submitted.take(pool.dispatched.len() as int));
    assert(pool.pending =~= pool.submitted.skip(pool.dispatched.len() as int));
}

/// The job that a turn hands to a worker is the oldest one that no worker
/// has had.
pub proof fn lemma_step_takes_oldest<J>(pool: PoolView<J>, worker: usize)
    requires
        pool.wf(),
        pool.step(worker).1 is Run,
    ensures
        pool.step(worker).1 == Step::Run(pool.submitted[pool.dispatched.len() as int]),
        pool.step(worker).0.dispatched == pool.submitted.take(pool.dispatched.len() as int + 1),
{
    lemma_step_wf(pool, worker);
    lemma_dispatch_is_fifo(pool.step(worker).0);
}

/// Once a shutdown is complete, every job that was submitted has been
/// handed to a worker, exactly once and in the order of submission, none
/// waits and none is still being run. The one way to lose a job is left out:
/// a pool whose workers were all ended by faults while jobs still waited.
pub proof fn lemma_finished_pool_ran_every_job<J>(pool: PoolView<J>)
    requires
        pool.wf(),
        pool.finished(),
        pool.all_faulted() ==> pool.pending.len() == 0,
    ensures
        pool.pending.len() == 0,
        pool.dispatched == pool.submitted,
        forall|i: int|
            0 <= i < pool.workers.len() ==> (#[trigger] pool.workers[i]).state
                != WorkerState::Executing,
{
    if !pool.all_faulted() {
        let i = choose|i: int| 0 <= i < pool.workers.len() && !(#[trigger] pool.workers[i]).faulted;
        assert(pool.workers[i].state == WorkerState::Terminated);
    }
    assert(pool.dispatched + pool.pending =~= pool.dispatched);
}

/// A shutdown keeps the pool well formed, and a second one changes nothing
/// and asks for no thread to be joined.
pub proof fn lemma_shutdown_idempotent<J>(pool: PoolView<J>)
    requires
        pool.wf(),
    ensures
        pool.shutdown().wf(),
        pool.shutdown().shutdown() == pool.shutdown(),
        pool.shutdown().join_order() == Seq::<usize>::empty(),
        pool.shutdown().pending == pool.pending,
{
}

/// After a shutdown no job is accepted: the pool stays as it is.
pub proof fn lemma_execute_after_shutdown<J>(pool: PoolView<J>, job: J)
    requires
        pool.wf(),
    ensures
        pool.shutdown().execute(job) == pool.shutdown(),
{
}

} // verus!
