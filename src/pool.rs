use vstd::prelude::*;
use crate::error::ZeroSizedPoolErr;
use crate::queue::{Closed, Fetch, JobQueue, QueueModel};

verus! {

/// Where a worker stands in its fetch-execute loop.
#[derive(Debug, Clone, Copy, PartialEq, Eq, Structural)]
pub enum Phase {
    /// Waiting for its next job.
    Idle,
    /// Running a job on its own thread.
    Busy,
    /// Has seen the closed, drained queue and ended its loop.
    Stopped,
}

/// What a worker does after asking the pool for work.
pub enum Action<T> {
    /// Run this job, then report back with `finish`.
    Run(T),
    /// Block until a job is dispatched or the pool shuts down, then ask again.
    Wait,
    /// Leave the loop: the pool is shutting down and no job is left.
    Exit,
}

/// The abstract state of a pool: its job queue, the phase of each worker
/// (indexed by worker id), and how many workers, lowest ids first, have been
/// joined during shutdown.
pub struct PoolModel<T> {
    pub queue: QueueModel<T>,
    pub phases: Seq<Phase>,
    pub joined: nat,
}

impl<T> PoolModel<T> {
    /// A pool of `n` idle workers over an open, empty queue.
    pub open spec fn fresh(n: nat) -> PoolModel<T> {
        PoolModel { queue: QueueModel::empty(), phases: Seq::new(n, |i: int| Phase::Idle), joined: 0 }
    }

    /// Worker `id` exists and is waiting for a job.
    pub open spec fn can_fetch(self, id: int) -> bool {
        0 <= id < self.phases.len() && self.phases[id] == Phase::Idle
    }

    /// Worker `id` asks for work and, if it got a job, runs it to completion.
    pub open spec fn round(self, id: int) -> PoolModel<T> {
        let after = self.fetched(id);
        if self.action(id) is Run {
            after.finished(id)
        } else {
            after
        }
    }

    /// What the workers in `ws` are told, one round each, in that order.
    pub open spec fn rounds(self, ws: Seq<int>) -> Seq<Action<T>>
        decreases ws.len(),
    {
        if ws.len() == 0 {
            Seq::empty()
        } else {
            seq![self.action(ws[0])] + self.round(ws[0]).rounds(ws.drop_first())
        }
    }

    /// The state after one round by each worker in `ws`, in that order.
    pub open spec fn after_rounds(self, ws: Seq<int>) -> PoolModel<T>
        decreases ws.len(),
    {
        if ws.len() == 0 {
            self
        } else {
            self.round(ws[0]).after_rounds(ws.drop_first())
        }
    }

    /// Worker `id` exists and is running a job.
    pub open spec fn is_busy(self, id: int) -> bool {
        0 <= id < self.phases.len() && self.phases[id] == Phase::Busy
    }

    /// What worker `id` is told to do when it asks for work.
    pub open spec fn action(self, id: int) -> Action<T> {
        match self.queue.next() {
            Fetch::Job(j) => Action::Run(j),
            Fetch::Empty => Action::Wait,
            Fetch::Disconnected => Action::Exit,
        }
    }

    /// The state after worker `id` asked for work.
    pub open spec fn fetched(self, id: int) -> PoolModel<T> {
        let phase = match self.queue.next() {
            Fetch::Job(_) => Phase::Busy,
            Fetch::Empty => Phase::Idle,
            Fetch::Disconnected => Phase::Stopped,
        };
        PoolModel {
            queue: self.queue.pop(),
            phases: self.phases.update(id, phase),
            joined: self.joined,
        }
    }

    /// The state after worker `id` finished its job.
    pub open spec fn finished(self, id: int) -> PoolModel<T> {
        PoolModel { phases: self.phases.update(id, Phase::Idle), ..self }
    }

    /// The state after a job is dispatched.
    pub open spec fn dispatched(self, job: T) -> PoolModel<T> {
        PoolModel { queue: self.queue.push(job), ..self }
    }

    /// The state after each of `jobs` is dispatched, in order.
    pub open spec fn dispatched_all(self, jobs: Seq<T>) -> PoolModel<T>
        decreases jobs.len(),
    {
        if jobs.len() == 0 {
            self
        } else {
            self.dispatched_all(jobs.drop_last()).dispatched(jobs.last())
        }
    }

    /// The state after shutdown has begun: the queue is closed.
    pub open spec fn closed(self) -> PoolModel<T> {
        PoolModel { queue: self.queue.close(), ..self }
    }

    /// The worker to join next, if any is left.
    pub open spec fn join_target(self) -> Option<nat> {
        if self.joined < self.phases.len() {
            Some(self.joined)
        } else {
            None
        }
    }

    /// The state after that worker has been joined.
    pub open spec fn joined_next(self) -> PoolModel<T> {
        if self.joined < self.phases.len() {
            PoolModel { joined: self.joined + 1, ..self }
        } else {
            self
        }
    }

    /// The workers handed out by `k` successive join steps.
    pub open spec fn join_order(self, k: nat) -> Seq<Option<nat>>
        decreases k,
    {
        if k == 0 {
            Seq::empty()
        } else {
            seq![self.join_target()] + self.joined_next().join_order((k - 1) as nat)
        }
    }

    /// The state after `k` successive join steps.
    pub open spec fn joined_n(self, k: nat) -> PoolModel<T>
        decreases k,
    {
        if k == 0 {
            self
        } else {
            self.joined_next().joined_n((k - 1) as nat)
        }
    }

    /// Shutdown is complete: no job can be dispatched and every worker is joined.
    pub open spec fn is_shut_down(self) -> bool {
        self.queue.closed && self.joined == self.phases.len()
    }

    /// At least one worker; joining counts workers that exist, and begins
    /// only once the queue is closed.
    pub open spec fn wf(self) -> bool {
        &&& self.phases.len() > 0
        &&& self.joined <= self.phases.len()
        &&& self.joined > 0 ==> self.queue.closed
    }
}

/// The bookkeeping of a fixed-size pool of worker threads.
///
/// It owns the job queue and knows each worker's phase. The threads that
/// dispatch and run jobs share it behind a lock, which they hold only for one
/// call at a time: never while a job runs.
pub struct ThreadPool<T> {
    queue: JobQueue<T>,
    phases: Vec<Phase>,
    joined: usize,
}

impl<T> View for ThreadPool<T> {
    type V = PoolModel<T>;

    closed spec fn view(&self) -> PoolModel<T> {
        PoolModel { queue: self.queue@, phases: self.phases@, joined: self.joined as nat }
    }
}

impl<T> ThreadPool<T> {
    /// A pool of `n` idle workers, numbered `0..n`, over an empty queue.
    /// A pool without workers could never run a job, so `n == 0` is refused.
    pub fn build(n: usize) -> (r: Result<ThreadPool<T>, ZeroSizedPoolErr>)
        ensures
            r is Err <==> n == 0,
            r matches Ok(p) ==> p@ == PoolModel::<T>::fresh(n as nat) && p@.wf(),
    {
        if n == 0 {
            return Err(ZeroSizedPoolErr);
        }
        let mut phases: Vec<Phase> = Vec::with_capacity(n);
        let mut i: usize = 0;
        while i < n
            invariant
                i <= n,
                phases@ == Seq::new(i as nat, |k: int| Phase::Idle),
            decreases n - i,
        {
            phases.push(Phase::Idle);
            i = i + 1;
            assert(phases@ =~= Seq::new(i as nat, |k: int| Phase::Idle));
        }
        Ok(ThreadPool { queue: JobQueue::new(), phases, joined: 0 })
    }

    /// The number of workers, fixed at construction.
    pub fn size(&self) -> (r: usize)
        ensures
            r == self@.phases.len(),
    {
        self.phases.len()
    }

    /// The phase of worker `id`.
    pub fn phase(&self, id: usize) -> (r: Phase)
        requires
            id < self@.phases.len(),
        ensures
            r == self@.phases[id as int],
    {
        self.phases[id]
    }

    /// The number of dispatched jobs that no worker has taken yet.
    pub fn pending(&self) -> (r: usize)
        ensures
            r == self@.queue.pending.len(),
    {
        self.queue.len()
    }

    /// Dispatches `job` to whichever worker asks next. Once shutdown has
    /// begun the job is refused and handed back.
    pub fn execute(&mut self, job: T) -> (r: Result<(), Closed<T>>)
        requires
            old(self)@.wf(),
        ensures
            final(self)@.wf(),
            final(self)@ == old(self)@.dispatched(job),
            r is Err <==> old(self)@.queue.closed,
            r matches Err(e) ==> e.job == job,
    {
        self.queue.enqueue(job)
    }

    /// Worker `id`, idle, asks for work: it gets the oldest pending job and
    /// becomes busy, or waits, or, once the pool is shut and drained, stops.
    pub fn fetch(&mut self, id: usize) -> (r: Action<T>)
        requires
            old(self)@.wf(),
            old(self)@.can_fetch(id as int),
        ensures
            final(self)@.wf(),
            r == old(self)@.action(id as int),
            final(self)@ == old(self)@.fetched(id as int),
    {
        let got = self.queue.dequeue();
        match got {
            Fetch::Job(job) => {
                self.phases.set(id, Phase::Busy);
                Action::Run(job)
            },
            Fetch::Empty => {
                self.phases.set(id, Phase::Idle);
                Action::Wait
            },
            Fetch::Disconnected => {
                self.phases.set(id, Phase::Stopped);
                Action::Exit
            },
        }
    }

    /// Worker `id` has run its job to completion and is idle again.
    pub fn finish(&mut self, id: usize)
        requires
            old(self)@.wf(),
            old(self)@.is_busy(id as int),
        ensures
            final(self)@.wf(),
            final(self)@ == old(self)@.finished(id as int),
    {
        self.phases.set(id, Phase::Idle);
    }

    /// Begins shutdown by closing the queue, irreversibly. Returns whether
    /// this call closed it: a second shutdown changes nothing.
    pub fn shutdown(&mut self) -> (r: bool)
        requires
            old(self)@.wf(),
        ensures
            final(self)@.wf(),
            final(self)@ == old(self)@.closed(),
            r == !old(self)@.queue.closed,
    {
        self.queue.close()
    }

    /// During shutdown, names the next worker to join, by ascending id, and
    /// counts it as joined; `None` once every worker has been.
    pub fn next_join(&mut self) -> (r: Option<usize>)
        requires
            old(self)@.wf(),
            old(self)@.queue.closed,
        ensures
            final(self)@.wf(),
            r matches Some(id) ==> old(self)@.join_target() == Some(id as nat),
            r is None ==> old(self)@.join_target() is None,
            final(self)@ == old(self)@.joined_next(),
    {
        if self.joined < self.phases.len() {
            let id = self.joined;
            self.joined = self.joined + 1;
            Some(id)
        } else {
            None
        }
    }

    /// Whether shutdown is complete.
    pub fn is_shut_down(&self) -> (r: bool)
        ensures
            r == self@.is_shut_down(),
    {
        self.queue.is_closed() && self.joined == self.phases.len()
    }
}

/// A worker that took a job can take no other until it reports that job
/// finished. What other workers fetch, and what is dispatched meanwhile, leaves
/// it busy; once it finishes it may fetch again.
pub proof fn lemma_one_job_per_worker<T>(p: PoolModel<T>, id: int, other: int, job: T)
    requires
        p.wf(),
        p.can_fetch(id),
        p.action(id) is Run,
        0 <= other < p.phases.len(),
        other != id,
    ensures
        p.fetched(id).is_busy(id),
        !p.fetched(id).can_fetch(id),
        p.fetched(id).fetched(other).is_busy(id),
        p.fetched(id).finished(other).is_busy(id),
        p.fetched(id).dispatched(job).is_busy(id),
        p.fetched(id).closed().is_busy(id),
        p.fetched(id).finished(id).can_fetch(id),
{
}

/// Once shutdown has begun, the join steps name every worker not yet joined,
/// each once, by ascending id, and then report that none is left; shutdown is
/// then complete.
pub proof fn lemma_shutdown_joins_every_worker<T>(p: PoolModel<T>)
    requires
        p.wf(),
        p.queue.closed,
    ensures
        p.join_order((p.phases.len() - p.joined) as nat) == Seq::new(
            (p.phases.len() - p.joined) as nat,
            |i: int| Some((p.joined + i) as nat),
        ),
        p.joined_n((p.phases.len() - p.joined) as nat).is_shut_down(),
        p.joined_n((p.phases.len() - p.joined) as nat).join_target() is None,
    decreases p.phases.len() - p.joined,
{
    let k = (p.phases.len() - p.joined) as nat;
    if k == 0 {
        assert(p.join_order(0) =~= Seq::<Option<nat>>::empty());
    } else {
        let q = p.joined_next();
        lemma_shutdown_joins_every_worker(q);
        assert(p.join_order(k) =~= Seq::new(k, |i: int| Some((p.joined + i) as nat)));
    }
}

/// A pool built with `n` workers and shut down at once joins workers
/// `0..n`, in that order, and is then completely shut down.
pub proof fn lemma_fresh_pool_shutdown<T>(n: nat)
    requires
        n > 0,
    ensures
        PoolModel::<T>::fresh(n).closed().join_order(n) == Seq::new(n, |i: int| Some(i as nat)),
        PoolModel::<T>::fresh(n).closed().joined_n(n).is_shut_down(),
{
    let p = PoolModel::<T>::fresh(n).closed();
    lemma_shutdown_joins_every_worker(p);
    assert(Seq::new(n, |i: int| Some((p.joined + i) as nat)) =~= Seq::new(n, |i: int| Some(i as nat)));
}

/// Whichever idle workers ask, one round each, the pending jobs are handed out
/// one per round, each exactly once and in dispatch order, and none is left.
pub proof fn lemma_jobs_handed_out_once_in_order<T>(p: PoolModel<T>, ws: Seq<int>)
    requires
        p.wf(),
        ws.len() == p.queue.pending.len(),
        forall|i: int| 0 <= i < ws.len() ==> p.can_fetch(#[trigger] ws[i]),
    ensures
        p.rounds(ws) == p.queue.pending.map_values(|j: T| Action::Run(j)),
        p.after_rounds(ws).queue.pending.len() == 0,
        p.after_rounds(ws).phases == p.phases,
    decreases ws.len(),
{
    let s = p.queue.pending;
    if s.len() == 0 {
        assert(s.map_values(|j: T| Action::Run(j)) =~= Seq::<Action<T>>::empty());
        assert(p.rounds(ws) =~= Seq::<Action<T>>::empty());
    } else {
        let q = p.round(ws[0]);
        let rest = ws.drop_first();
        assert(q.queue.pending =~= s.drop_first());
        assert(q.phases =~= p.phases);
        assert forall|i: int| 0 <= i < rest.len() implies q.can_fetch(#[trigger] rest[i]) by {
            assert(rest[i] == ws[i + 1]);
        }
        lemma_jobs_handed_out_once_in_order(q, rest);
        assert(s.map_values(|j: T| Action::Run(j)) =~= seq![Action::Run(s[0])] + q.queue.pending.map_values(
            |j: T| Action::Run(j),
        ));
    }
}

/// Jobs dispatched to a fresh pool of one worker run one after another: each
/// round hands the worker the oldest job, which it finishes before it asks
/// again, so every job runs exactly once, in dispatch order.
pub proof fn lemma_single_worker_pool_serializes<T>(jobs: Seq<T>)
    ensures
        PoolModel::<T>::fresh(1).dispatched_all(jobs).rounds(Seq::new(jobs.len(), |i: int| 0int))
            == jobs.map_values(|j: T| Action::Run(j)),
{
    let p = PoolModel::<T>::fresh(1);
    lemma_dispatched_all(p, jobs);
    crate::queue::lemma_push_all_appends(p.queue, jobs);
    assert(p.queue.pending + jobs =~= jobs);
    lemma_jobs_handed_out_once_in_order(p.dispatched_all(jobs), Seq::new(jobs.len(), |i: int| 0int));
}

/// Dispatching a sequence of jobs changes only the queue, as offering each in turn.
pub proof fn lemma_dispatched_all<T>(p: PoolModel<T>, jobs: Seq<T>)
    ensures
        p.dispatched_all(jobs) == (PoolModel { queue: p.queue.push_all(jobs), ..p }),
    decreases jobs.len(),
{
    if jobs.len() > 0 {
        lemma_dispatched_all(p, jobs.drop_last());
    }
}

} // verus!
