//! The dispatch channel: a first-in-first-out queue of jobs that can be
//! closed once and keeps delivering what was queued before.

use std::collections::VecDeque;
use vstd::prelude::*;

verus! {

/// What a worker gets when it asks the channel for work.
#[derive(Debug, PartialEq, Eq)]
pub enum Received<J> {
    /// The job that has waited longest.
    Job(J),
    /// No job is waiting, but more may come.
    Empty,
    /// No job is waiting and none will come.
    Closed,
}

/// A queue of jobs in the order of their submission, with a flag that says
/// whether more may be submitted.
pub struct DispatchChannel<J> {
    queue: VecDeque<J>,
    closed: bool,
}

/// What a channel is to its users.
pub struct ChannelView<J> {
    /// The jobs that wait, the one that has waited longest first.
    pub pending: Seq<J>,
    /// Whether the producing end was closed.
    pub closed: bool,
}

impl<J> View for DispatchChannel<J> {
    type V = ChannelView<J>;

    closed spec fn view(&self) -> ChannelView<J> {
        ChannelView { pending: self.queue@, closed: self.closed }
    }
}

impl<J> DispatchChannel<J> {
    /// An open channel with no job in it.
    pub fn new() -> (channel: Self)
        ensures
            channel@.pending == Seq::<J>::empty(),
            !channel@.closed,
    {
        DispatchChannel { queue: VecDeque::new(), closed: false }
    }

    /// Queues `job` behind the jobs that wait. A closed channel takes no
    /// job: it hands `job` back and stays as it is.
    pub fn send(&mut self, job: J) -> (sent: Result<(), J>)
        ensures
            old(self)@.closed ==> sent == Err::<(), J>(job) && final(self)@ == old(self)@,
            !old(self)@.closed ==> sent is Ok && final(self)@ == (ChannelView {
                pending: old(self)@.pending.push(job),
                closed: false,
            }),
    {
        if self.closed {
            Err(job)
        } else {
            self.queue.push_back(job);
            Ok(())
        }
    }

    /// Takes the job that has waited longest. Closing the channel discards
    /// nothing: `Closed` is returned only once no job waits.
    pub fn recv(&mut self) -> (received: Received<J>)
        ensures
            final(self)@.closed == old(self)@.closed,
            old(self)@.pending.len() > 0 ==> received == Received::Job(old(self)@.pending[0])
                && final(self)@.pending == old(self)@.pending.skip(1),
            old(self)@.pending.len() == 0 ==> final(self)@ == old(self)@ && received == (if old(
                self,
            )@.closed {
                Received::<J>::Closed
            } else {
                Received::<J>::Empty
            }),
    {
        match self.queue.pop_front() {
            Some(job) => Received::Job(job),
            None => {
                if self.closed {
                    Received::Closed
                } else {
                    Received::Empty
                }
            },
        }
    }

    /// Closes the producing end. The jobs that wait stay; closing a closed
    /// channel changes nothing.
    pub fn close(&mut self)
        ensures
            final(self)@ == (ChannelView { pending: old(self)@.pending, closed: true }),
    {
        self.closed = true;
    }

    /// Whether the producing end was closed.
    pub fn is_closed(&self) -> (closed: bool)
        ensures
            closed == self@.closed,
    {
        self.closed
    }

    /// The number of jobs that wait.
    pub fn len(&self) -> (n: usize)
        ensures
            n == self@.pending.len(),
    {
        self.queue.len()
    }
}

} // verus!
