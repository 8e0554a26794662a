use crate::queue::Take;
use vstd::prelude::*;

verus! {

/// Where a worker stands in its life.
#[derive(Clone, Copy, Debug, PartialEq, Eq, Structural)]
pub enum WorkerState {
    /// Waiting for its next job.
    Idle,
    /// Running a job to completion.
    Busy,
    /// Saw the queue closed and drained; it takes no more jobs.
    Stopped,
}

/// What the thread behind a worker does next.
pub enum Action<J> {
    /// Run this job, then report back.
    Run(J),
    /// Block until the queue changes, then ask again.
    Wait,
    /// Leave the loop: the thread ends.
    Exit,
}

/// One worker of a pool: its ordinal and its state. It runs at most one job
/// at a time.
#[derive(Clone, Copy, Debug)]
pub struct Worker {
    id: usize,
    state: WorkerState,
}

impl Worker {
    pub closed spec fn spec_id(&self) -> nat {
        self.id as nat
    }

    pub closed spec fn spec_state(&self) -> WorkerState {
        self.state
    }

    /// A new idle worker with ordinal `id`.
    pub fn new(id: usize) -> (w: Worker)
        ensures
            w.spec_id() == id,
            w.spec_state() == WorkerState::Idle,
    {
        Worker { id, state: WorkerState::Idle }
    }

    pub fn id(&self) -> (r: usize)
        ensures
            r == self.spec_id(),
    {
        self.id
    }

    pub fn state(&self) -> (r: WorkerState)
        ensures
            r == self.spec_state(),
    {
        self.state
    }

    /// Decides what an idle worker does with what the queue gave it: a job
    /// is run, an open empty queue is waited on, a closed drained queue ends
    /// the worker.
    pub fn on_take<J>(&mut self, t: Take<J>) -> (a: Action<J>)
        requires
            old(self).spec_state() == WorkerState::Idle,
        ensures
            final(self).spec_id() == old(self).spec_id(),
            match t {
                Take::Job(j) => a == Action::Run(j) && final(self).spec_state() == WorkerState::Busy,
                Take::Empty => a is Wait && final(self).spec_state() == WorkerState::Idle,
                Take::Closed => a is Exit && final(self).spec_state() == WorkerState::Stopped,
            },
    {
        match t {
            Take::Job(j) => {
                self.state = WorkerState::Busy;
                Action::Run(j)
            },
            Take::Empty => Action::Wait,
            Take::Closed => {
                self.state = WorkerState::Stopped;
                Action::Exit
            },
        }
    }

    /// The worker's job has returned: it is idle again.
    pub fn on_done(&mut self)
        requires
            old(self).spec_state() == WorkerState::Busy,
        ensures
            final(self).spec_id() == old(self).spec_id(),
            final(self).spec_state() == WorkerState::Idle,
    {
        self.state = WorkerState::Idle;
    }
}

} // verus!
