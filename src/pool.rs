use crate::queue::JobQueue;
use crate::worker::{Action, Worker, WorkerState};
use vstd::prelude::*;

verus! {

/// Why a pool could not be built.
#[derive(Clone, Copy, Debug, PartialEq, Eq, Structural)]
pub enum PoolError {
    /// A pool needs at least one worker.
    ZeroSize,
}

/// What is left to do for one worker before it stops: an idle worker still
/// has to see the queue closed, a busy one first has to finish its job.
pub open spec fn weight(s: WorkerState) -> nat {
    match s {
        WorkerState::Idle => 1,
        WorkerState::Busy => 2,
        WorkerState::Stopped => 0,
    }
}

/// The sum of `weight` over a sequence of worker states.
pub open spec fn work_of(s: Seq<WorkerState>) -> nat
    decreases s.len(),
{
    if s.len() == 0 {
        0
    } else {
        work_of(s.drop_last()) + weight(s.last())
    }
}

proof fn lemma_work_of_update(s: Seq<WorkerState>, i: int, v: WorkerState)
    requires
        0 <= i < s.len(),
    ensures
        work_of(s.update(i, v)) + weight(s[i]) == work_of(s) + weight(v),
    decreases s.len(),
{
    if i == s.len() - 1 {
        assert(s.update(i, v).drop_last() =~= s.drop_last());
    } else {
        lemma_work_of_update(s.drop_last(), i, v);
        assert(s.update(i, v).drop_last() =~= s.drop_last().update(i, v));
    }
}

proof fn lemma_work_of_zero(s: Seq<WorkerState>)
    ensures
        work_of(s) == 0 <==> forall|i: int| 0 <= i < s.len() ==> s[i] == WorkerState::Stopped,
    decreases s.len(),
{
    if s.len() > 0 {
        lemma_work_of_zero(s.drop_last());
        if work_of(s) == 0 {
            assert forall|i: int| 0 <= i < s.len() implies s[i] == WorkerState::Stopped by {
                if i < s.len() - 1 {
                    assert(s[i] == s.drop_last()[i]);
                }
            }
        }
        if forall|i: int| 0 <= i < s.len() ==> s[i] == WorkerState::Stopped {
            assert forall|i: int| 0 <= i < s.drop_last().len() implies s.drop_last()[i]
                == WorkerState::Stopped by {
                assert(s[i] == WorkerState::Stopped);
            }
            assert(s[s.len() - 1] == WorkerState::Stopped);
        }
    }
}

/// A pool of a fixed number of workers sharing one job queue.
///
/// Worker `i` has ordinal `i`. A worker stops only once the queue is closed
/// and drained, so a stopped worker means no job will ever be handed out
/// again.
pub struct Pool<J> {
    queue: JobQueue<J>,
    workers: Vec<Worker>,
}

impl<J> Pool<J> {
    /// The state of each worker, by ordinal.
    pub closed spec fn statuses(&self) -> Seq<WorkerState> {
        self.workers@.map_values(|w: Worker| w.spec_state())
    }

    /// The number of workers.
    pub open spec fn spec_size(&self) -> nat {
        self.statuses().len()
    }

    /// The jobs waiting for a worker, oldest first.
    pub closed spec fn pending(&self) -> Seq<J> {
        self.queue.pending()
    }

    /// Whether the pool still accepts jobs.
    pub closed spec fn spec_is_open(&self) -> bool {
        self.queue.spec_is_open()
    }

    /// Every job the pool has accepted, in order of submission.
    pub closed spec fn submitted(&self) -> Seq<J> {
        self.queue.submitted()
    }

    /// Every job handed to a worker, in order of hand-out.
    pub closed spec fn delivered(&self) -> Seq<J> {
        self.queue.delivered()
    }

    pub closed spec fn wf(&self) -> bool {
        &&& self.queue.wf()
        &&& self.workers@.len() >= 1
        &&& forall|i: int| 0 <= i < self.workers@.len() ==> #[trigger] self.workers@[i].spec_id() == i
        &&& forall|i: int|
            0 <= i < self.workers@.len() && #[trigger] self.workers@[i].spec_state()
                == WorkerState::Stopped ==> !self.queue.spec_is_open() && self.queue.pending().len()
                == 0
    }

    /// Every worker has stopped: the pool is shut down.
    pub open spec fn all_stopped(&self) -> bool {
        forall|i: int| 0 <= i < self.statuses().len() ==> self.statuses()[i] == WorkerState::Stopped
    }

    /// A bound on the steps left before every worker stops, once the pool is
    /// closed: each pending job is taken and then finished, and each idle
    /// worker still has to see the closed queue.
    pub open spec fn remaining_work(&self) -> nat {
        2 * self.pending().len() + work_of(self.statuses())
    }

    /// Builds a pool of `size` idle workers with ordinals `0..size` around an
    /// open, empty queue. A size of zero is refused.
    pub fn new(size: usize) -> (r: Result<Pool<J>, PoolError>)
        ensures
            size == 0 <==> r is Err,
            size == 0 ==> r == Err::<Pool<J>, PoolError>(PoolError::ZeroSize),
            r matches Ok(p) ==> {
                &&& p.wf()
                &&& p.spec_size() == size
                &&& p.spec_is_open()
                &&& p.pending() == Seq::<J>::empty()
                &&& p.submitted() == Seq::<J>::empty()
                &&& p.delivered() == Seq::<J>::empty()
                &&& forall|i: int| 0 <= i < size ==> p.statuses()[i] == WorkerState::Idle
            },
    {
        if size == 0 {
            return Err(PoolError::ZeroSize);
        }
        let mut workers: Vec<Worker> = Vec::with_capacity(size);
        let mut id: usize = 0;
        while id < size
            invariant
                id <= size,
                workers@.len() == id,
                forall|i: int| 0 <= i < id ==> (#[trigger] workers@[i]).spec_id() == i,
                forall|i: int| 0 <= i < id ==> (#[trigger] workers@[i]).spec_state() == WorkerState::Idle,
            decreases size - id,
        {
            let w = Worker::new(id);
            workers.push(w);
            id = id + 1;
        }
        let p = Pool { queue: JobQueue::new(), workers };
        assert forall|i: int| 0 <= i < size implies p.statuses()[i] == WorkerState::Idle by {
            assert(p.workers@[i].spec_state() == WorkerState::Idle);
        }
        assert(p.wf());
        Ok(p)
    }

    /// The number of workers.
    pub fn size(&self) -> (r: usize)
        ensures
            r == self.spec_size(),
    {
        self.workers.len()
    }

    pub fn is_open(&self) -> (r: bool)
        ensures
            r == self.spec_is_open(),
    {
        self.queue.is_open()
    }

    /// The number of jobs waiting for a worker.
    pub fn pending_len(&self) -> (r: usize)
        ensures
            r == self.pending().len(),
    {
        self.queue.len()
    }

    /// The state of worker `id`.
    pub fn worker_state(&self, id: usize) -> (r: WorkerState)
        requires
            id < self.spec_size(),
        ensures
            r == self.statuses()[id as int],
    {
        self.workers[id].state()
    }

    /// Submits `job` for the first worker that asks. Once the pool is shut
    /// down the job is refused and handed back unrun, and nothing changes.
    pub fn execute(&mut self, job: J) -> (r: Result<(), J>)
        requires
            old(self).wf(),
        ensures
            final(self).wf(),
            final(self).spec_size() == old(self).spec_size(),
            final(self).statuses() == old(self).statuses(),
            old(self).spec_is_open() ==> {
                &&& r is Ok
                &&& final(self).spec_is_open()
                &&& final(self).pending() == old(self).pending().push(job)
                &&& final(self).submitted() == old(self).submitted().push(job)
                &&& final(self).delivered() == old(self).delivered()
            },
            !old(self).spec_is_open() ==> {
                &&& r == Err::<(), J>(job)
                &&& !final(self).spec_is_open()
                &&& final(self).pending() == old(self).pending()
                &&& final(self).submitted() == old(self).submitted()
                &&& final(self).delivered() == old(self).delivered()
            },
    {
        self.queue.submit(job)
    }

    /// Decides the next step of idle worker `id`: it takes the oldest
    /// pending job and runs it; with none pending it waits while the pool is
    /// open, and stops once the pool is shut down.
    pub fn next_job(&mut self, id: usize) -> (a: Action<J>)
        requires
            old(self).wf(),
            id < old(self).spec_size(),
            old(self).statuses()[id as int] == WorkerState::Idle,
        ensures
            final(self).wf(),
            final(self).spec_size() == old(self).spec_size(),
            final(self).spec_is_open() == old(self).spec_is_open(),
            final(self).submitted() == old(self).submitted(),
            old(self).pending().len() > 0 ==> {
                &&& a == Action::Run(old(self).pending()[0])
                &&& final(self).pending() == old(self).pending().drop_first()
                &&& final(self).delivered() == old(self).delivered().push(old(self).pending()[0])
                &&& final(self).statuses() == old(self).statuses().update(id as int, WorkerState::Busy)
            },
            old(self).pending().len() == 0 ==> {
                &&& final(self).pending() == old(self).pending()
                &&& final(self).delivered() == old(self).delivered()
            },
            old(self).pending().len() == 0 && old(self).spec_is_open() ==> {
                &&& a is Wait
                &&& final(self).statuses() == old(self).statuses()
            },
            old(self).pending().len() == 0 && !old(self).spec_is_open() ==> {
                &&& a is Exit
                &&& final(self).statuses() == old(self).statuses().update(id as int, WorkerState::Stopped)
            },
            !old(self).spec_is_open() ==> final(self).remaining_work() < old(self).remaining_work(),
    {
        let ghost st = self.statuses();
        let mut w = self.workers[id];
        assert(w.spec_state() == st[id as int]);
        let t = self.queue.take();
        let a = w.on_take(t);
        self.workers.set(id, w);
        proof {
            assert(self.statuses() =~= st.update(id as int, w.spec_state()));
            lemma_work_of_update(st, id as int, w.spec_state());
            assert forall|i: int|
                0 <= i < self.workers@.len() implies #[trigger] self.workers@[i].spec_id() == i by {
                if i != id {
                    assert(self.workers@[i] == old(self).workers@[i]);
                }
            }
            assert forall|i: int|
                0 <= i < self.workers@.len() && #[trigger] self.workers@[i].spec_state()
                    == WorkerState::Stopped implies !self.queue.spec_is_open()
                && self.queue.pending().len() == 0 by {
                if i != id {
                    assert(self.workers@[i] == old(self).workers@[i]);
                    assert(old(self).workers@[i].spec_state() == WorkerState::Stopped);
                }
            }
        }
        a
    }

    /// Worker `id` has finished its job and is idle again.
    pub fn job_done(&mut self, id: usize)
        requires
            old(self).wf(),
            id < old(self).spec_size(),
            old(self).statuses()[id as int] == WorkerState::Busy,
        ensures
            final(self).wf(),
            final(self).spec_size() == old(self).spec_size(),
            final(self).spec_is_open() == old(self).spec_is_open(),
            final(self).pending() == old(self).pending(),
            final(self).submitted() == old(self).submitted(),
            final(self).delivered() == old(self).delivered(),
            final(self).statuses() == old(self).statuses().update(id as int, WorkerState::Idle),
            final(self).remaining_work() < old(self).remaining_work(),
    {
        let ghost st = self.statuses();
        let mut w = self.workers[id];
        assert(w.spec_state() == st[id as int]);
        w.on_done();
        self.workers.set(id, w);
        proof {
            assert(self.statuses() =~= st.update(id as int, w.spec_state()));
            lemma_work_of_update(st, id as int, w.spec_state());
            assert forall|i: int|
                0 <= i < self.workers@.len() implies #[trigger] self.workers@[i].spec_id() == i by {
                if i != id {
                    assert(self.workers@[i] == old(self).workers@[i]);
                }
            }
            assert forall|i: int|
                0 <= i < self.workers@.len() && #[trigger] self.workers@[i].spec_state()
                    == WorkerState::Stopped implies !self.queue.spec_is_open()
                && self.queue.pending().len() == 0 by {
                assert(self.workers@[i] == old(self).workers@[i]);
            }
        }
    }

    /// Begins shutdown: no job is accepted from now on, while pending jobs
    /// are still handed out. Shutting down twice changes nothing more.
    pub fn shutdown(&mut self)
        requires
            old(self).wf(),
        ensures
            final(self).wf(),
            !final(self).spec_is_open(),
            final(self).spec_size() == old(self).spec_size(),
            final(self).statuses() == old(self).statuses(),
            final(self).pending() == old(self).pending(),
            final(self).submitted() == old(self).submitted(),
            final(self).delivered() == old(self).delivered(),
    {
        self.queue.close();
    }

    /// Whether every worker has stopped.
    pub fn is_finished(&self) -> (r: bool)
        ensures
            r == self.all_stopped(),
    {
        let mut i: usize = 0;
        while i < self.workers.len()
            invariant
                i <= self.workers@.len(),
                forall|k: int| 0 <= k < i ==> self.statuses()[k] == WorkerState::Stopped,
            decreases self.workers@.len() - i,
        {
            if self.workers[i].state() != WorkerState::Stopped {
                assert(self.statuses()[i as int] == self.workers@[i as int].spec_state());
                return false;
            }
            assert(self.statuses()[i as int] == self.workers@[i as int].spec_state());
            i = i + 1;
        }
        true
    }
}

proof fn lemma_work_of_all_idle(s: Seq<WorkerState>)
    requires
        forall|i: int| 0 <= i < s.len() ==> s[i] == WorkerState::Idle,
    ensures
        work_of(s) == s.len(),
    decreases s.len(),
{
    if s.len() > 0 {
        assert forall|i: int| 0 <= i < s.drop_last().len() implies s.drop_last()[i]
            == WorkerState::Idle by {
            assert(s[i] == WorkerState::Idle);
        }
        lemma_work_of_all_idle(s.drop_last());
    }
}

/// Once every worker of a pool has stopped, the pool is closed, no job is
/// pending, none is running, and every job it ever accepted was handed to a
/// worker exactly once, in the order of submission.
pub proof fn lemma_finished_ran_every_job<J>(p: Pool<J>)
    requires
        p.wf(),
        p.all_stopped(),
    ensures
        !p.spec_is_open(),
        p.pending().len() == 0,
        p.delivered() == p.submitted(),
        forall|i: int| 0 <= i < p.spec_size() ==> p.statuses()[i] != WorkerState::Busy,
{
    assert(p.statuses()[0] == p.workers@[0].spec_state());
    p.queue.lemma_drained_delivered_all();
}

/// No work is left in a pool exactly when every worker has stopped. Since
/// each step of a shut-down pool lowers `remaining_work`, shutdown ends after
/// at most that many steps.
pub proof fn lemma_no_work_left_iff_finished<J>(p: Pool<J>)
    requires
        p.wf(),
    ensures
        p.remaining_work() == 0 <==> p.all_stopped(),
{
    lemma_work_of_zero(p.statuses());
    if p.all_stopped() {
        lemma_finished_ran_every_job(p);
    }
}

/// A pool that holds no job and whose workers are all idle, as one that never
/// received a job, needs exactly one step per worker to shut down.
pub proof fn lemma_idle_pool_shutdown_steps<J>(p: Pool<J>)
    requires
        p.wf(),
        p.pending().len() == 0,
        forall|i: int| 0 <= i < p.spec_size() ==> p.statuses()[i] == WorkerState::Idle,
    ensures
        p.remaining_work() == p.spec_size(),
{
    lemma_work_of_all_idle(p.statuses());
}

} // verus!
