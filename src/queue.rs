use vstd::prelude::*;
use std::collections::VecDeque;

verus! {

/// What a consumer gets when it asks the queue for work.
pub enum Fetch<T> {
    /// The oldest pending job, now owned by the consumer.
    Job(T),
    /// Nothing is pending and the queue is still open: the consumer waits.
    Empty,
    /// The queue is closed and drained: the consumer stops.
    Disconnected,
}

/// An enqueue that came after the queue was closed; the job is handed back.
pub struct Closed<T> {
    pub job: T,
}

/// The abstract state of a job queue: the pending jobs, oldest first, and
/// whether the producer side has been closed.
pub struct QueueModel<T> {
    pub pending: Seq<T>,
    pub closed: bool,
}

impl<T> QueueModel<T> {
    /// An open queue with nothing pending.
    pub open spec fn empty() -> QueueModel<T> {
        QueueModel { pending: Seq::empty(), closed: false }
    }

    /// The state after a producer offers `job`: appended while open, refused once closed.
    pub open spec fn push(self, job: T) -> QueueModel<T> {
        if self.closed {
            self
        } else {
            QueueModel { pending: self.pending.push(job), closed: self.closed }
        }
    }

    /// The state after offering each of `jobs`, in order.
    pub open spec fn push_all(self, jobs: Seq<T>) -> QueueModel<T>
        decreases jobs.len(),
    {
        if jobs.len() == 0 {
            self
        } else {
            self.push_all(jobs.drop_last()).push(jobs.last())
        }
    }

    /// What the next consumer receives.
    pub open spec fn next(self) -> Fetch<T> {
        if self.pending.len() > 0 {
            Fetch::Job(self.pending[0])
        } else if self.closed {
            Fetch::Disconnected
        } else {
            Fetch::Empty
        }
    }

    /// The state after the next consumer has taken what `next` gives.
    pub open spec fn pop(self) -> QueueModel<T> {
        if self.pending.len() > 0 {
            QueueModel { pending: self.pending.drop_first(), closed: self.closed }
        } else {
            self
        }
    }

    /// The state after the producer side is closed; pending jobs stay.
    pub open spec fn close(self) -> QueueModel<T> {
        QueueModel { pending: self.pending, closed: true }
    }

    /// What `k` successive fetches receive, in order.
    pub open spec fn fetch_n(self, k: nat) -> Seq<Fetch<T>>
        decreases k,
    {
        if k == 0 {
            Seq::empty()
        } else {
            seq![self.next()] + self.pop().fetch_n((k - 1) as nat)
        }
    }

    /// The state after `k` successive fetches.
    pub open spec fn pop_n(self, k: nat) -> QueueModel<T>
        decreases k,
    {
        if k == 0 {
            self
        } else {
            self.pop().pop_n((k - 1) as nat)
        }
    }
}

/// An unbounded first-in-first-out queue of jobs with a one-way close.
///
/// Each job is handed to exactly one consumer, oldest first. After `close`,
/// jobs already pending are still delivered, new ones are refused, and a
/// consumer that finds nothing pending is told to stop.
pub struct JobQueue<T> {
    items: VecDeque<T>,
    closed: bool,
}

impl<T> View for JobQueue<T> {
    type V = QueueModel<T>;

    closed spec fn view(&self) -> QueueModel<T> {
        QueueModel { pending: self.items@, closed: self.closed }
    }
}

impl<T> JobQueue<T> {
    /// An open, empty queue.
    pub fn new() -> (r: JobQueue<T>)
        ensures
            r@ == QueueModel::<T>::empty(),
    {
        JobQueue { items: VecDeque::new(), closed: false }
    }

    /// Appends `job` at the tail, or hands it back if the queue is closed.
    pub fn enqueue(&mut self, job: T) -> (r: Result<(), Closed<T>>)
        ensures
            final(self)@ == old(self)@.push(job),
            r is Err <==> old(self)@.closed,
            r matches Err(e) ==> e.job == job,
    {
        if self.closed {
            Err(Closed { job })
        } else {
            self.items.push_back(job);
            Ok(())
        }
    }

    /// Takes the oldest pending job, or says why there is none.
    pub fn dequeue(&mut self) -> (r: Fetch<T>)
        ensures
            r == old(self)@.next(),
            final(self)@ == old(self)@.pop(),
    {
        match self.items.pop_front() {
            Some(job) => Fetch::Job(job),
            None => {
                if self.closed {
                    Fetch::Disconnected
                } else {
                    Fetch::Empty
                }
            },
        }
    }

    /// Closes the producer side. Returns whether the queue was open before,
    /// so that only the first close counts.
    pub fn close(&mut self) -> (r: bool)
        ensures
            final(self)@ == old(self)@.close(),
            r == !old(self)@.closed,
    {
        let was_open = !self.closed;
        self.closed = true;
        was_open
    }

    /// Whether the producer side has been closed.
    pub fn is_closed(&self) -> (r: bool)
        ensures
            r == self@.closed,
    {
        self.closed
    }

    /// The number of jobs waiting for a consumer.
    pub fn len(&self) -> (r: usize)
        ensures
            r == self@.pending.len(),
    {
        self.items.len()
    }
}

/// Offering jobs to an open queue appends them, in order, after what is pending.
pub proof fn lemma_push_all_appends<T>(q: QueueModel<T>, jobs: Seq<T>)
    requires
        !q.closed,
    ensures
        q.push_all(jobs) == (QueueModel { pending: q.pending + jobs, closed: false }),
    decreases jobs.len(),
{
    if jobs.len() > 0 {
        lemma_push_all_appends(q, jobs.drop_last());
        assert((q.pending + jobs.drop_last()).push(jobs.last()) =~= q.pending + jobs);
    } else {
        assert(q.pending + jobs =~= q.pending);
    }
}

/// Fetching as many times as there are pending jobs hands out each of them
/// exactly once, oldest first, and leaves nothing pending.
pub proof fn lemma_fetch_delivers_pending<T>(q: QueueModel<T>)
    ensures
        q.fetch_n(q.pending.len()) == q.pending.map_values(|j: T| Fetch::Job(j)),
        q.pop_n(q.pending.len()) == (QueueModel { pending: Seq::<T>::empty(), closed: q.closed }),
    decreases q.pending.len(),
{
    if q.pending.len() == 0 {
        assert(q.pending =~= Seq::<T>::empty());
        assert(q.pending.map_values(|j: T| Fetch::Job(j)) =~= Seq::<Fetch<T>>::empty());
    } else {
        let rest = q.pop();
        lemma_fetch_delivers_pending(rest);
        assert(rest.pending =~= q.pending.drop_first());
        assert(q.pending.map_values(|j: T| Fetch::Job(j)) =~= seq![Fetch::Job(q.pending[0])]
            + rest.pending.map_values(|j: T| Fetch::Job(j)));
    }
}

/// Every job that one producer dispatches to a fresh queue is delivered exactly
/// once, in dispatch order, and none is left behind.
pub proof fn lemma_every_job_delivered_once<T>(jobs: Seq<T>)
    ensures
        QueueModel::<T>::empty().push_all(jobs).fetch_n(jobs.len()) == jobs.map_values(
            |j: T| Fetch::Job(j),
        ),
        QueueModel::<T>::empty().push_all(jobs).pop_n(jobs.len()).pending.len() == 0,
{
    let q = QueueModel::<T>::empty().push_all(jobs);
    lemma_push_all_appends(QueueModel::<T>::empty(), jobs);
    assert(Seq::<T>::empty() + jobs =~= jobs);
    lemma_fetch_delivers_pending(q);
}

/// A closed queue refuses new jobs, still delivers those pending, oldest
/// first, and then tells each consumer to stop.
pub proof fn lemma_closed_drains_then_disconnects<T>(q: QueueModel<T>, job: T)
    requires
        q.closed,
    ensures
        q.push(job) == q,
        q.fetch_n(q.pending.len() + 1) == q.pending.map_values(|j: T| Fetch::Job(j)).push(
            Fetch::<T>::Disconnected,
        ),
        q.pop_n(q.pending.len()).next() == Fetch::<T>::Disconnected,
    decreases q.pending.len(),
{
    if q.pending.len() == 0 {
        assert(q.pending.map_values(|j: T| Fetch::Job(j)) =~= Seq::<Fetch<T>>::empty());
        assert(q.pop().fetch_n(0) =~= Seq::<Fetch<T>>::empty());
        assert(q.fetch_n(1) =~= seq![Fetch::<T>::Disconnected]);
    } else {
        let rest = q.pop();
        lemma_closed_drains_then_disconnects(rest, job);
        assert(rest.pending =~= q.pending.drop_first());
        assert(q.pending.map_values(|j: T| Fetch::Job(j)).push(Fetch::<T>::Disconnected)
            =~= seq![Fetch::Job(q.pending[0])] + rest.pending.map_values(|j: T| Fetch::Job(j)).push(
            Fetch::<T>::Disconnected,
        ));
    }
}

} // verus!
