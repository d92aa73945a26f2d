//! A worker: one consumer of the dispatch channel, as a state machine.

use crate::multithreading::channel::{ChannelView, DispatchChannel, Received};
use vstd::prelude::*;

verus! {

/// Where a worker stands in its loop.
#[derive(Clone, Copy, Debug, PartialEq, Eq, Structural)]
pub enum WorkerState {
    /// Idle: about to ask the channel for work, or asked and found none yet.
    Waiting,
    /// Running the job it took last.
    Executing,
    /// Out of its loop for good.
    Terminated,
}

/// What a worker's thread does next.
#[derive(Debug, PartialEq, Eq)]
pub enum Step<J> {
    /// Run this job, then ask again.
    Run(J),
    /// Sleep until a job is submitted or the channel is closed, then ask again.
    Wait,
    /// Leave the loop.
    Exit,
}

/// One worker of a pool.
#[derive(Clone, Copy, Debug)]
pub struct Worker {
    id: usize,
    state: WorkerState,
    faulted: bool,
}

/// What a worker is to its users.
pub struct WorkerView {
    /// The ordinal that the worker was made with.
    pub id: usize,
    /// Where the worker stands in its loop.
    pub state: WorkerState,
    /// Whether a fault ended the worker, rather than the closed channel.
    pub faulted: bool,
}

impl WorkerView {
    /// Only a terminated worker can have faulted.
    pub open spec fn wf(self) -> bool {
        self.faulted ==> self.state == WorkerState::Terminated
    }

    /// The worker after a fault: terminated. A worker that had terminated
    /// before is left as it was.
    pub open spec fn fault(self) -> WorkerView {
        if self.state == WorkerState::Terminated {
            self
        } else {
            WorkerView { id: self.id, state: WorkerState::Terminated, faulted: true }
        }
    }
}

/// One turn of a worker's loop: the worker and the channel afterwards, and
/// what the worker's thread is to do. A worker that is not terminated has
/// finished the job it took before, if any, and takes the job that has
/// waited longest; where none waits it goes on waiting while the channel is
/// open and terminates once it is closed.
pub open spec fn turn<J>(worker: WorkerView, channel: ChannelView<J>) -> (
    WorkerView,
    ChannelView<J>,
    Step<J>,
) {
    if worker.state == WorkerState::Terminated {
        (worker, channel, Step::Exit)
    } else if channel.pending.len() > 0 {
        (
            WorkerView { id: worker.id, state: WorkerState::Executing, faulted: worker.faulted },
            ChannelView { pending: channel.pending.skip(1), closed: channel.closed },
            Step::Run(channel.pending[0]),
        )
    } else if channel.closed {
        (
            WorkerView { id: worker.id, state: WorkerState::Terminated, faulted: worker.faulted },
            channel,
            Step::Exit,
        )
    } else {
        (
            WorkerView { id: worker.id, state: WorkerState::Waiting, faulted: worker.faulted },
            channel,
            Step::Wait,
        )
    }
}

impl View for Worker {
    type V = WorkerView;

    closed spec fn view(&self) -> WorkerView {
        WorkerView { id: self.id, state: self.state, faulted: self.faulted }
    }
}

impl Worker {
    /// A worker with the ordinal `id`, waiting for its first job.
    pub fn new(id: usize) -> (worker: Worker)
        ensures
            worker@ == (WorkerView { id, state: WorkerState::Waiting, faulted: false }),
    {
        Worker { id, state: WorkerState::Waiting, faulted: false }
    }

    /// The ordinal that the worker was made with.
    pub fn id(&self) -> (id: usize)
        ensures
            id == self@.id,
    {
        self.id
    }

    /// Where the worker stands in its loop.
    pub fn state(&self) -> (state: WorkerState)
        ensures
            state == self@.state,
    {
        self.state
    }

    /// Whether a fault ended the worker.
    pub fn has_faulted(&self) -> (faulted: bool)
        ensures
            faulted == self@.faulted,
    {
        self.faulted
    }

    /// Takes one turn of the loop against `channel`.
    pub fn step<J>(&mut self, channel: &mut DispatchChannel<J>) -> (step: Step<J>)
        ensures
            (final(self)@, final(channel)@, step) == turn(old(self)@, old(channel)@),
    {
        match self.state {
            WorkerState::Terminated => Step::Exit,
            _ => {
                match channel.recv() {
                    Received::Job(job) => {
                        self.state = WorkerState::Executing;
                        Step::Run(job)
                    },
                    Received::Empty => {
                        self.state = WorkerState::Waiting;
                        Step::Wait
                    },
                    Received::Closed => {
                        self.state = WorkerState::Terminated;
                        Step::Exit
                    },
                }
            },
        }
    }

    /// Ends the worker after a fault: in the job it ran, or in what it
    /// shares with the other workers.
    pub fn fault(&mut self)
        ensures
            final(self)@ == old(self)@.fault(),
    {
        match self.state {
            WorkerState::Terminated => {},
            _ => {
                self.state = WorkerState::Terminated;
                self.faulted = true;
            },
        }
    }
}

} // verus!
