use vstd::prelude::*;

use crate::error::PoolError;
use crate::queue::{Dequeued, JobQueue};
use crate::worker::{state_after_dequeue, JobOutcome, WorkerState};

verus! {

/// Weight of one worker in the teardown measure: a running worker still has
/// to finish its job and then stop, an idle one only has to stop.
pub open spec fn state_weight(s: WorkerState) -> nat {
    match s {
        WorkerState::Idle => 1,
        WorkerState::Running => 2,
        WorkerState::Stopped => 0,
    }
}

/// Sum of the weights of a sequence of worker states.
pub open spec fn total_weight(s: Seq<WorkerState>) -> nat
    decreases s.len(),
{
    if s.len() == 0 {
        0
    } else {
        total_weight(s.drop_last()) + state_weight(s.last())
    }
}

proof fn lemma_total_weight_update(s: Seq<WorkerState>, i: int, v: WorkerState)
    requires
        0 <= i < s.len(),
    ensures
        total_weight(s.update(i, v)) + state_weight(s[i]) == total_weight(s) + state_weight(v),
    decreases s.len(),
{
    if i == s.len() - 1 {
        assert(s.update(i, v).drop_last() =~= s.drop_last());
    } else {
        assert(s.update(i, v).drop_last() =~= s.drop_last().update(i, v));
        lemma_total_weight_update(s.drop_last(), i, v);
    }
}

proof fn lemma_total_weight_zero(s: Seq<WorkerState>)
    ensures
        total_weight(s) == 0 <==> forall|w: int| 0 <= w < s.len() ==> s[w] == WorkerState::Stopped,
    decreases s.len(),
{
    if s.len() > 0 {
        let t = s.drop_last();
        lemma_total_weight_zero(t);
        if total_weight(s) == 0 {
            assert forall|w: int| 0 <= w < s.len() implies s[w] == WorkerState::Stopped by {
                if w < t.len() {
                    assert(t[w] == s[w]);
                }
            }
        }
        if forall|w: int| 0 <= w < s.len() ==> s[w] == WorkerState::Stopped {
            assert forall|w: int| 0 <= w < t.len() implies t[w] == WorkerState::Stopped by {
                assert(t[w] == s[w]);
            }
            assert(s[s.len() - 1] == WorkerState::Stopped);
        }
    }
}

/// The decision state of a pool of a fixed number of workers sharing one
/// job queue.
///
/// Workers are named by their index. Besides the queue and each worker's
/// state, the pool keeps the history that its guarantees speak of: every
/// accepted job in submission order, which worker claimed each of them, and
/// which job each worker claimed last.
pub struct WorkerPool<J> {
    queue: JobQueue<J>,
    workers: Vec<WorkerState>,
    submitted: Ghost<Seq<J>>,
    claims: Ghost<Seq<nat>>,
    current: Ghost<Seq<int>>,
}

impl<J> WorkerPool<J> {
    /// The number of workers, fixed at construction.
    pub open spec fn num_workers(&self) -> nat {
        self.worker_states().len()
    }

    /// The state of each worker, by index.
    pub closed spec fn worker_states(&self) -> Seq<WorkerState> {
        self.workers@
    }

    /// The jobs waiting in the queue, head first.
    pub closed spec fn pending(&self) -> Seq<J> {
        self.queue.pending()
    }

    /// Whether teardown has begun.
    pub closed spec fn shut_down(&self) -> bool {
        self.queue.closed()
    }

    /// Every job the pool has accepted, in submission order.
    pub closed spec fn submitted(&self) -> Seq<J> {
        self.submitted@
    }

    /// The worker that claimed each job, by submission index; its length is
    /// the number of jobs handed out so far.
    pub closed spec fn claimants(&self) -> Seq<nat> {
        self.claims@
    }

    /// Whether the job with submission index `i` has been claimed and has
    /// ended: it was handed out and its worker is no longer running it.
    pub closed spec fn job_finished(&self, i: int) -> bool {
        &&& 0 <= i < self.claims@.len()
        &&& !(self.workers@[self.claims@[i] as int] == WorkerState::Running
            && self.current@[self.claims@[i] as int] == i)
    }

    /// Whether every worker has left its loop.
    pub open spec fn all_stopped(&self) -> bool {
        forall|w: int| 0 <= w < self.num_workers() ==> self.worker_states()[w] == WorkerState::Stopped
    }

    /// Work left before teardown can complete; every step a worker takes
    /// after shutdown makes it smaller.
    pub open spec fn teardown_measure(&self) -> nat {
        3 * self.pending().len() + total_weight(self.worker_states())
    }

    /// The pool's invariant: at least one worker; the queue holds exactly the
    /// accepted jobs not yet claimed, in order; each claimed job belongs to a
    /// worker that claimed nothing later; a running worker runs the last job
    /// it claimed; a worker stops only once the queue is closed and empty.
    pub closed spec fn wf(&self) -> bool {
        let n = self.workers@.len();
        let claims = self.claims@;
        let current = self.current@;
        &&& n > 0
        &&& current.len() == n
        &&& claims.len() <= self.submitted@.len()
        &&& self.queue.pending() == self.submitted@.subrange(
            claims.len() as int,
            self.submitted@.len() as int,
        )
        &&& forall|i: int|
            0 <= i < claims.len() ==> #[trigger] claims[i] < n && i <= current[claims[i] as int]
        &&& forall|w: int|
            0 <= w < n ==> -1 <= #[trigger] current[w] < claims.len() && (current[w] >= 0
                ==> claims[current[w]] == w)
        &&& forall|w: int|
            0 <= w < n && #[trigger] self.workers@[w] == WorkerState::Running ==> current[w] >= 0
        &&& forall|w: int|
            0 <= w < n && #[trigger] self.workers@[w] == WorkerState::Stopped
                ==> self.queue.closed() && self.queue.pending().len() == 0
    }

    /// A pool of `size` idle workers and an open, empty queue; fails with
    /// `InvalidPoolSize` when `size` is zero.
    pub fn new(size: usize) -> (r: Result<WorkerPool<J>, PoolError>)
        ensures
            match r {
                Ok(p) => {
                    &&& size > 0
                    &&& p.wf()
                    &&& p.num_workers() == size
                    &&& forall|w: int| 0 <= w < size ==> p.worker_states()[w] == WorkerState::Idle
                    &&& p.pending().len() == 0
                    &&& p.submitted().len() == 0
                    &&& p.claimants().len() == 0
                    &&& !p.shut_down()
                },
                Err(e) => size == 0 && e == PoolError::InvalidPoolSize,
            },
    {
        if size == 0 {
            return Err(PoolError::InvalidPoolSize);
        }
        let mut workers: Vec<WorkerState> = Vec::with_capacity(size);
        let mut i: usize = 0;
        while i < size
            invariant
                i <= size,
                workers@ == Seq::new(i as nat, |w: int| WorkerState::Idle),
            decreases size - i,
        {
            workers.push(WorkerState::Idle);
            i = i + 1;
            assert(workers@ =~= Seq::new(i as nat, |w: int| WorkerState::Idle));
        }
        let pool = WorkerPool {
            queue: JobQueue::new(),
            workers,
            submitted: Ghost(Seq::empty()),
            claims: Ghost(Seq::empty()),
            current: Ghost(Seq::new(size as nat, |w: int| -1)),
        };
        assert(pool.queue.pending() =~= pool.submitted@.subrange(0, 0));
        Ok(pool)
    }
    /// Accepts `job` at the tail of the queue, unless teardown has begun.
    /// It never waits: the answer depends on nothing but the shutdown flag,
    /// whatever the queue's depth or the workers' states.
    pub fn submit(&mut self, job: J) -> (r: Result<(), PoolError>)
        requires
            old(self).wf(),
        ensures
            final(self).wf(),
            final(self).worker_states() == old(self).worker_states(),
            final(self).claimants() == old(self).claimants(),
            final(self).shut_down() == old(self).shut_down(),
            forall|i: int| final(self).job_finished(i) == old(self).job_finished(i),
            old(self).shut_down() ==> {
                &&& r == Err::<(), PoolError>(PoolError::QueueClosed)
                &&& final(self).submitted() == old(self).submitted()
                &&& final(self).pending() == old(self).pending()
            },
            !old(self).shut_down() ==> {
                &&& r == Ok::<(), PoolError>(())
                &&& final(self).submitted() == old(self).submitted().push(job)
                &&& final(self).pending() == old(self).pending().push(job)
            },
    {
        let ghost before = self.submitted@;
        let r = self.queue.enqueue(job);
        if r.is_ok() {
            proof {
                self.submitted@ = before.push(job);
                assert(self.queue.pending() =~= self.submitted@.subrange(
                    self.claims@.len() as int,
                    self.submitted@.len() as int,
                ));
            }
        }
        r
    }

    /// Idle worker `worker` asks for work. It receives the oldest unclaimed
    /// job, or is told to wait (queue open and empty) or to stop (queue
    /// closed and empty).
    pub fn claim(&mut self, worker: usize) -> (r: Dequeued<J>)
        requires
            old(self).wf(),
            worker < old(self).num_workers(),
            old(self).worker_states()[worker as int] == WorkerState::Idle,
        ensures
            final(self).wf(),
            final(self).worker_states() == old(self).worker_states().update(
                worker as int,
                state_after_dequeue(r),
            ),
            final(self).submitted() == old(self).submitted(),
            final(self).shut_down() == old(self).shut_down(),
            match r {
                Dequeued::Job(j) => {
                    &&& old(self).pending().len() > 0
                    &&& j == old(self).pending()[0]
                    &&& j == old(self).submitted()[old(self).claimants().len() as int]
                    &&& final(self).pending() == old(self).pending().drop_first()
                    &&& final(self).claimants() == old(self).claimants().push(worker as nat)
                    &&& forall|a: int|
                        0 <= a < old(self).claimants().len() && old(self).claimants()[a]
                            == worker ==> #[trigger] old(self).job_finished(a)
                },
                Dequeued::Empty => {
                    &&& old(self).pending().len() == 0
                    &&& !old(self).shut_down()
                    &&& final(self).pending() == old(self).pending()
                    &&& final(self).claimants() == old(self).claimants()
                },
                Dequeued::Closed => {
                    &&& old(self).pending().len() == 0
                    &&& old(self).shut_down()
                    &&& final(self).pending() == old(self).pending()
                    &&& final(self).claimants() == old(self).claimants()
                },
            },
            old(self).shut_down() ==> final(self).teardown_measure()
                < old(self).teardown_measure(),
    {
        let r = self.queue.dequeue();
        let next = self.workers[worker].on_dequeued(&r);
        let ghost old_workers = self.workers@;
        self.workers.set(worker, next);
        proof {
            lemma_total_weight_update(old_workers, worker as int, next);
        }
        if let Dequeued::Job(_) = &r {
            proof {
                let k = self.claims@.len();
                assert(self.submitted@.subrange(k as int, self.submitted@.len() as int)[0]
                    == self.submitted@[k as int]);
                self.claims@ = self.claims@.push(worker as nat);
                self.current@ = self.current@.update(worker as int, k as int);
                assert(self.queue.pending() =~= self.submitted@.subrange(
                    self.claims@.len() as int,
                    self.submitted@.len() as int,
                ));
            }
        }
        r
    }

    /// Running worker `worker` reports that its job ended; it goes back to
    /// waiting for work whether the job completed or faulted.
    pub fn complete(&mut self, worker: usize, outcome: JobOutcome)
        requires
            old(self).wf(),
            worker < old(self).num_workers(),
            old(self).worker_states()[worker as int] == WorkerState::Running,
        ensures
            final(self).wf(),
            final(self).worker_states() == old(self).worker_states().update(
                worker as int,
                WorkerState::Idle,
            ),
            final(self).submitted() == old(self).submitted(),
            final(self).claimants() == old(self).claimants(),
            final(self).pending() == old(self).pending(),
            final(self).shut_down() == old(self).shut_down(),
            forall|i: int| old(self).job_finished(i) ==> #[trigger] final(self).job_finished(i),
            forall|i: int|
                0 <= i < old(self).claimants().len() && old(self).claimants()[i] == worker
                    ==> #[trigger] final(self).job_finished(i),
            old(self).shut_down() ==> final(self).teardown_measure()
                < old(self).teardown_measure(),
    {
        let next = self.workers[worker].on_job_done(outcome);
        let ghost old_workers = self.workers@;
        self.workers.set(worker, next);
        proof {
            lemma_total_weight_update(old_workers, worker as int, next);
        }
    }

    /// Begins teardown: later submissions fail, jobs already queued are still
    /// handed out, and each worker stops once the queue is empty.
    pub fn shutdown(&mut self)
        requires
            old(self).wf(),
        ensures
            final(self).wf(),
            final(self).shut_down(),
            final(self).worker_states() == old(self).worker_states(),
            final(self).submitted() == old(self).submitted(),
            final(self).claimants() == old(self).claimants(),
            final(self).pending() == old(self).pending(),
            forall|i: int| final(self).job_finished(i) == old(self).job_finished(i),
    {
        self.queue.close();
    }
    /// Until teardown begins, none of the workers has stopped: all of the
    /// pool's fixed number of workers are active.
    pub proof fn lemma_workers_active_until_shutdown(&self)
        requires
            self.wf(),
            !self.shut_down(),
        ensures
            forall|w: int|
                0 <= w < self.num_workers() ==> self.worker_states()[w] != WorkerState::Stopped,
    {
    }

    /// Once every worker has stopped, each accepted job was handed to exactly
    /// one worker and has finished: nothing is left in the queue and no job
    /// is left running.
    pub proof fn lemma_teardown_runs_every_job(&self)
        requires
            self.wf(),
            self.all_stopped(),
        ensures
            self.pending().len() == 0,
            self.claimants().len() == self.submitted().len(),
            forall|i: int| 0 <= i < self.submitted().len() ==> #[trigger] self.job_finished(i),
            forall|i: int|
                0 <= i < self.submitted().len() ==> #[trigger] self.claimants()[i]
                    < self.num_workers(),
    {
        assert(self.workers@[0] == WorkerState::Stopped);
        let k = self.claims@.len() as int;
        let m = self.submitted@.len() as int;
        assert(self.submitted@.subrange(k, m).len() == m - k);
        assert forall|i: int| 0 <= i < self.submitted().len() implies #[trigger] self.job_finished(
            i,
        ) by {
            assert(self.claims@[i] < self.workers@.len());
            assert(self.workers@[self.claims@[i] as int] == WorkerState::Stopped);
        }
    }

    /// Jobs that one worker claimed run in the order they were submitted:
    /// when a worker holds a later job, every earlier job it claimed has
    /// already finished.
    pub proof fn lemma_worker_runs_in_submission_order(&self, w: nat, a: int, b: int)
        requires
            self.wf(),
            0 <= a < b < self.claimants().len(),
            self.claimants()[a] == w,
            self.claimants()[b] == w,
        ensures
            self.job_finished(a),
    {
        assert(self.claims@[b] < self.workers@.len());
        assert(b <= self.current@[w as int]);
    }

    /// Teardown is complete exactly when the measure has reached zero; since
    /// after shutdown every `claim` and `complete` lowers it and no `claim`
    /// asks a worker to wait, teardown ends after finitely many steps.
    pub proof fn lemma_teardown_measure_zero(&self)
        requires
            self.wf(),
        ensures
            self.teardown_measure() == 0 <==> self.all_stopped(),
    {
        lemma_total_weight_zero(self.workers@);
        if self.all_stopped() {
            assert(self.workers@[0] == WorkerState::Stopped);
        }
    }

    /// Whether every worker has stopped, so that teardown is complete.
    pub fn is_finished(&self) -> (b: bool)
        requires
            self.wf(),
        ensures
            b == self.all_stopped(),
    {
        let mut w: usize = 0;
        while w < self.workers.len()
            invariant
                w <= self.workers@.len(),
                forall|v: int| 0 <= v < w ==> self.workers@[v] == WorkerState::Stopped,
            decreases self.workers@.len() - w,
        {
            if self.workers[w] != WorkerState::Stopped {
                return false;
            }
            w = w + 1;
        }
        true
    }

    /// The number of workers.
    pub fn size(&self) -> (n: usize)
        ensures
            n == self.num_workers(),
    {
        self.workers.len()
    }

    /// The number of jobs waiting in the queue.
    pub fn pending_len(&self) -> (n: usize)
        ensures
            n == self.pending().len(),
    {
        self.queue.len()
    }

    /// Whether teardown has begun.
    pub fn is_shut_down(&self) -> (b: bool)
        ensures
            b == self.shut_down(),
    {
        self.queue.is_closed()
    }

    /// The state of worker `worker`.
    pub fn worker_state(&self, worker: usize) -> (s: WorkerState)
        requires
            worker < self.num_workers(),
        ensures
            s == self.worker_states()[worker as int],
    {
        self.workers[worker]
    }
}

} // verus!
