use std::collections::VecDeque;
use vstd::prelude::*;

verus! {

/// What a consumer gets when it asks the queue for work.
pub enum Take<J> {
    /// The oldest pending job, now owned by the consumer.
    Job(J),
    /// Nothing is pending, but the queue is still open: wait and ask again.
    Empty,
    /// The queue is closed and drained: no job will ever come.
    Closed,
}

/// An unbounded, ordered, closable queue of jobs.
///
/// Besides the pending jobs, it keeps as ghost state every job ever accepted
/// and every job ever handed out, in order; the accepted ones are always the
/// handed-out ones followed by the pending ones.
pub struct JobQueue<J> {
    pending: VecDeque<J>,
    open: bool,
    submitted: Ghost<Seq<J>>,
    delivered: Ghost<Seq<J>>,
}

impl<J> JobQueue<J> {
    /// The jobs waiting to be taken, oldest first.
    pub closed spec fn pending(&self) -> Seq<J> {
        self.pending@
    }

    /// Whether the queue still accepts jobs.
    pub closed spec fn spec_is_open(&self) -> bool {
        self.open
    }

    /// Every job the queue has accepted, in order of submission.
    pub closed spec fn submitted(&self) -> Seq<J> {
        self.submitted@
    }

    /// Every job the queue has handed out, in order of delivery.
    pub closed spec fn delivered(&self) -> Seq<J> {
        self.delivered@
    }

    pub closed spec fn wf(&self) -> bool {
        self.submitted@ == self.delivered@ + self.pending@
    }

    /// With nothing pending, every job the queue accepted has been handed out,
    /// once each, in the order it was accepted.
    pub proof fn lemma_drained_delivered_all(&self)
        requires
            self.wf(),
            self.pending().len() == 0,
        ensures
            self.delivered() == self.submitted(),
    {
        assert(self.delivered@ + self.pending@ =~= self.delivered@);
    }

    /// An open, empty queue.
    pub fn new() -> (q: Self)
        ensures
            q.wf(),
            q.spec_is_open(),
            q.pending() == Seq::<J>::empty(),
            q.submitted() == Seq::<J>::empty(),
            q.delivered() == Seq::<J>::empty(),
    {
        let q = JobQueue {
            pending: VecDeque::new(),
            open: true,
            submitted: Ghost(Seq::empty()),
            delivered: Ghost(Seq::empty()),
        };
        assert(q.delivered@ + q.pending@ =~= q.submitted@);
        q
    }

    pub fn is_open(&self) -> (r: bool)
        ensures
            r == self.spec_is_open(),
    {
        self.open
    }

    /// The number of pending jobs.
    pub fn len(&self) -> (r: usize)
        ensures
            r == self.pending().len(),
    {
        self.pending.len()
    }

    /// Enqueues `job` behind every pending one. A closed queue refuses it and
    /// hands it back unrun, changing nothing.
    pub fn submit(&mut self, job: J) -> (r: Result<(), J>)
        requires
            old(self).wf(),
        ensures
            final(self).wf(),
            old(self).spec_is_open() ==> {
                &&& r is Ok
                &&& final(self).spec_is_open()
                &&& final(self).pending() == old(self).pending().push(job)
                &&& final(self).submitted() == old(self).submitted().push(job)
                &&& final(self).delivered() == old(self).delivered()
            },
            !old(self).spec_is_open() ==> r == Err::<(), J>(job) && *final(self) == *old(self),
    {
        if !self.open {
            return Err(job);
        }
        self.submitted = Ghost(self.submitted@.push(job));
        self.pending.push_back(job);
        assert(self.delivered@ + self.pending@ =~= self.submitted@);
        Ok(())
    }

    /// Removes and returns the oldest pending job. With none pending, says
    /// whether the caller should wait (still open) or stop (closed).
    pub fn take(&mut self) -> (r: Take<J>)
        requires
            old(self).wf(),
        ensures
            final(self).wf(),
            final(self).spec_is_open() == old(self).spec_is_open(),
            final(self).submitted() == old(self).submitted(),
            old(self).pending().len() > 0 ==> {
                &&& r == Take::Job(old(self).pending()[0])
                &&& final(self).pending() == old(self).pending().drop_first()
                &&& final(self).delivered() == old(self).delivered().push(old(self).pending()[0])
            },
            old(self).pending().len() == 0 ==> {
                &&& final(self).pending() == old(self).pending()
                &&& final(self).delivered() == old(self).delivered()
            },
            old(self).pending().len() == 0 && old(self).spec_is_open() ==> r is Empty,
            old(self).pending().len() == 0 && !old(self).spec_is_open() ==> r is Closed,
    {
        match self.pending.pop_front() {
            Some(job) => {
                proof {
                    self.delivered@ = self.delivered@.push(job);
                    assert(self.delivered@ + self.pending@ =~= self.submitted@);
                }
                Take::Job(job)
            },
            None => {
                if self.open {
                    Take::Empty
                } else {
                    Take::Closed
                }
            },
        }
    }

    /// Refuses every later submission. Pending jobs stay to be taken.
    /// Closing a closed queue changes nothing.
    pub fn close(&mut self)
        requires
            old(self).wf(),
        ensures
            final(self).wf(),
            !final(self).spec_is_open(),
            final(self).pending() == old(self).pending(),
            final(self).submitted() == old(self).submitted(),
            final(self).delivered() == old(self).delivered(),
    {
        self.open = false;
    }
}

} // verus!
