use vstd::prelude::*;
use vstd::set_lib::{lemma_int_range, set_int_range};
use crate::message::Message;
use crate::model::{Event, Fate, PoolView};
use crate::worker::{ExitReason, Step, WorkerState, WorkerView};

verus! {

/// How many of the first `n` of `workers` were told to terminate.
pub open spec fn told_among(workers: Seq<WorkerView>, n: int) -> int
    decreases n,
{
    if n <= 0 {
        0
    } else {
        told_among(workers, n - 1) + if workers[n - 1].state == WorkerState::Terminated(
            ExitReason::Told,
        ) {
            1int
        } else {
            0int
        }
    }
}

impl<J> PoolView<J> {
    /// How many workers were told to terminate.
    pub open spec fn told(self) -> int {
        told_among(self.workers, self.workers.len() as int)
    }

    /// How many `Terminate` messages wait in the queue.
    pub open spec fn terminates_waiting(self) -> int {
        self.queue.len() - self.waiting()
    }

    /// The workers are numbered by their place, and the ledger has one
    /// entry for each worker and one for each job.
    pub open spec fn shape_ok(self) -> bool {
        &&& self.workers.len() > 0
        &&& self.jobs.len() == self.workers.len()
        &&& self.fates.len() == self.submitted.len()
        &&& 0 <= self.started <= self.submitted.len()
        &&& forall|i: int|
            0 <= i < self.workers.len() ==> (#[trigger] self.workers[i]).id == i
    }

    /// The queue holds the jobs that were not handed out yet, in
    /// submission order, and behind them nothing but `Terminate` messages,
    /// of which there are none before shutdown.
    pub open spec fn queue_ok(self) -> bool {
        &&& self.queue.len() >= self.waiting()
        &&& forall|k: int|
            0 <= k < self.waiting() ==> #[trigger] self.queue[k] == Message::NewJob(
                self.submitted[self.started + k],
            )
        &&& forall|k: int|
            self.waiting() <= k < self.queue.len() ==> #[trigger] self.queue[k] is Terminate
        &&& !self.shut_down ==> self.queue.len() == self.waiting()
    }

    /// A job waits exactly as long as it was not handed out; a job that is
    /// with a worker is the one that this worker holds; a job that came to
    /// its end is on the list of completed jobs.
    pub open spec fn fates_ok(self) -> bool {
        &&& forall|t: int|
            0 <= t < self.fates.len() ==> ((#[trigger] self.fates[t]) is Queued <==> t
                >= self.started)
        &&& forall|t: int|
            0 <= t < self.fates.len() ==> ((#[trigger] self.fates[t]) matches Fate::Running(i)
                ==> self.has_worker(i) && self.jobs[i] == Some(t) && self.workers[i].state
                is Running)
        &&& forall|t: int|
            0 <= t < self.fates.len() ==> ((#[trigger] self.fates[t]) matches Fate::Abandoned(i)
                ==> self.has_worker(i) && self.jobs[i] == Some(t) && self.workers[i].state
                == WorkerState::Terminated(ExitReason::JobFailed))
        &&& forall|t: int|
            0 <= t < self.fates.len() && (#[trigger] self.fates[t]) is Completed
                ==> self.completed.contains(t)
    }

    /// A worker holds a job exactly when it is running one or was lost to
    /// one, and the job's fate names that worker.
    pub open spec fn jobs_ok(self) -> bool {
        forall|i: int|
            0 <= i < self.workers.len() ==> match #[trigger] self.jobs[i] {
                Some(t) => 0 <= t < self.fates.len() && (self.fates[t] == Fate::Running(i)
                    || self.fates[t] == Fate::Abandoned(i)),
                None => !(self.workers[i].state is Running) && self.workers[i].state
                    != WorkerState::Terminated(ExitReason::JobFailed),
            }
    }

    /// No job is on the list of completed jobs twice, and each job on it
    /// was submitted and has come to its end.
    pub open spec fn completed_ok(self) -> bool {
        &&& self.completed.no_duplicates()
        &&& forall|k: int|
            0 <= k < self.completed.len() ==> 0 <= (#[trigger] self.completed[k])
                < self.fates.len() && self.fates[self.completed[k]] is Completed
    }

    /// A worker is told to terminate only after shutdown has begun and
    /// every job was handed out; no handle is taken before shutdown.
    pub open spec fn shutdown_ok(self) -> bool {
        &&& forall|i: int|
            0 <= i < self.workers.len() && (#[trigger] self.workers[i]).state
                == WorkerState::Terminated(ExitReason::Told) ==> self.shut_down && self.started
                == self.submitted.len()
        &&& !self.shut_down ==> forall|i: int|
            0 <= i < self.workers.len() ==> (#[trigger] self.workers[i]).joinable
    }

    /// In a pool of one worker the jobs end in the order in which they
    /// were submitted.
    pub open spec fn order_ok(self) -> bool {
        self.workers.len() == 1 ==> forall|k: int|
            0 <= k < self.completed.len() ==> #[trigger] self.completed[k] == k
    }

    /// The pool holds the producer end of its queue for as long as it
    /// lives, so no worker ever finds the queue closed.
    pub open spec fn open_ok(self) -> bool {
        forall|i: int|
            0 <= i < self.workers.len() ==> (#[trigger] self.workers[i]).state
                != WorkerState::Terminated(ExitReason::ChannelClosed)
    }

    /// Shutdown sends one `Terminate` for each worker: each of them
    /// either still waits or has stopped one worker.
    pub open spec fn count_ok(self) -> bool {
        self.shut_down ==> self.terminates_waiting() + self.told() == self.workers.len()
    }

    /// What holds of a pool in every state that it can reach.
    pub open spec fn inv(self) -> bool {
        &&& self.shape_ok()
        &&& self.queue_ok()
        &&& self.fates_ok()
        &&& self.jobs_ok()
        &&& self.completed_ok()
        &&& self.shutdown_ok()
        &&& self.order_ok()
        &&& self.open_ok()
        &&& self.count_ok()
    }
}

/// Replacing one worker changes the count of those told to terminate by
/// what that worker adds to it.
proof fn lemma_told_update(workers: Seq<WorkerView>, i: int, worker: WorkerView, n: int)
    requires
        0 <= i < workers.len(),
        0 <= n <= workers.len(),
    ensures
        told_among(workers.update(i, worker), n) == told_among(workers, n) + if i < n {
            (if worker.state == WorkerState::Terminated(ExitReason::Told) {
                1int
            } else {
                0int
            }) - (if workers[i].state == WorkerState::Terminated(ExitReason::Told) {
                1int
            } else {
                0int
            })
        } else {
            0int
        },
    decreases n,
{
    if n > 0 {
        lemma_told_update(workers, i, worker, n - 1);
    }
}

/// The count of the workers told to terminate lies between none and all,
/// and reaches these ends only where none or all of them were told.
proof fn lemma_told_bounds(workers: Seq<WorkerView>, n: int)
    requires
        0 <= n <= workers.len(),
    ensures
        0 <= told_among(workers, n) <= n,
        (forall|i: int|
            0 <= i < n ==> (#[trigger] workers[i]).state != WorkerState::Terminated(
                ExitReason::Told,
            )) ==> told_among(workers, n) == 0,
        (forall|i: int|
            0 <= i < n ==> (#[trigger] workers[i]).state == WorkerState::Terminated(
                ExitReason::Told,
            )) ==> told_among(workers, n) == n,
    decreases n,
{
    if n > 0 {
        lemma_told_bounds(workers, n - 1);
    }
}

/// A new pool is in order.
pub proof fn lemma_initial_inv<J>(size: nat)
    requires
        size > 0,
    ensures
        PoolView::<J>::initial(size).inv(),
{
}

/// Submitting a job before shutdown has begun keeps the pool in order.
pub proof fn lemma_execute_inv<J>(pool: PoolView<J>, job: J)
    requires
        pool.inv(),
        !pool.shut_down,
    ensures
        pool.after_execute(job).inv(),
{
}

/// An idle worker that asks for a message, before or after shutdown, leaves
/// the pool in order, whatever it is handed.
pub proof fn lemma_receive_inv<J>(pool: PoolView<J>, id: int)
    requires
        pool.inv(),
        pool.has_worker(id),
        pool.workers[id].state is Idle,
    ensures
        pool.after_receive(id).inv(),
{
    let next = pool.after_receive(id);
    if pool.queue.len() > 0 {
        // a job is at the front exactly when a job waits
        assert(pool.queue[0] is NewJob <==> pool.waiting() > 0);
        // what waited behind the front has moved up by one place
        assert forall|k: int| 0 <= k < next.queue.len() implies #[trigger] next.queue[k]
            == pool.queue[k + 1] by {}
        lemma_told_update(pool.workers, id, next.workers[id], pool.workers.len() as int);
    }
}

/// The end of a job leaves the pool in order.
pub proof fn lemma_completion_inv<J>(pool: PoolView<J>, id: int)
    requires
        pool.inv(),
        pool.has_worker(id),
        pool.workers[id].state is Running,
    ensures
        pool.after_completion(id).inv(),
{
    let next = pool.after_completion(id);
    let ticket = pool.jobs[id]->0;
    let done = pool.completed.len() as int;
    // the job was running until now, so it is not on the list yet
    assert(!pool.completed.contains(ticket));
    assert(next.completed[done] == ticket);
    assert forall|t: int|
        0 <= t < next.fates.len() && (#[trigger] next.fates[t]) is Completed implies
        next.completed.contains(t) by {
        if t != ticket {
            let k = choose|k: int| 0 <= k < done && pool.completed[k] == t;
            assert(next.completed[k] == t);
        }
    }
    if pool.workers.len() == 1 {
        lemma_single_worker_next_ticket(pool);
    }
    lemma_told_update(pool.workers, id, next.workers[id], pool.workers.len() as int);
}

/// In a pool of one worker, the job that the worker holds is the oldest
/// one that has not come to its end.
proof fn lemma_single_worker_next_ticket<J>(pool: PoolView<J>)
    requires
        pool.inv(),
        pool.workers.len() == 1,
        pool.jobs[0] is Some,
    ensures
        pool.jobs[0]->0 == pool.completed.len(),
{
    let ticket = pool.jobs[0]->0;
    let done = pool.completed.len() as int;
    if ticket < done {
        // then it would be on the list of completed jobs
        assert(pool.completed[ticket] == ticket);
    } else if ticket > done {
        // then an older job would be neither completed nor with the worker
        assert(!(pool.fates[done] is Queued));
        if pool.completed.contains(done) {
            let k = choose|k: int| 0 <= k < done && pool.completed[k] == done;
            assert(pool.completed[k] == k);
        }
    }
}

/// The failure of a job leaves the pool in order.
pub proof fn lemma_failure_inv<J>(pool: PoolView<J>, id: int)
    requires
        pool.inv(),
        pool.has_worker(id),
        pool.workers[id].state is Running,
    ensures
        pool.after_failure(id).inv(),
{
    let next = pool.after_failure(id);
    lemma_told_update(pool.workers, id, next.workers[id], pool.workers.len() as int);
}

/// Shutdown leaves the pool in order, the first time and every time after.
pub proof fn lemma_shutdown_inv<J>(pool: PoolView<J>)
    requires
        pool.inv(),
    ensures
        pool.after_shutdown().inv(),
{
    // before shutdown no worker was told to terminate
    lemma_told_bounds(pool.workers, pool.workers.len() as int);
}

/// Taking a worker's thread handle after shutdown has begun leaves the pool in order.
pub proof fn lemma_join_inv<J>(pool: PoolView<J>, id: int)
    requires
        pool.inv(),
        pool.shut_down,
        pool.has_worker(id),
    ensures
        pool.after_join(id).inv(),
{
    let next = pool.after_join(id);
    lemma_told_update(pool.workers, id, next.workers[id], pool.workers.len() as int);
}

/// Whatever can happen to a pool that is in order leaves it in order.
pub proof fn lemma_event_inv<J>(pool: PoolView<J>, event: Event<J>)
    requires
        pool.inv(),
        pool.allows(event),
    ensures
        pool.after(event).inv(),
{
    match event {
        Event::Execute(job) => lemma_execute_inv(pool, job),
        Event::Receive(id) => lemma_receive_inv(pool, id),
        Event::Complete(id) => lemma_completion_inv(pool, id),
        Event::Fail(id) => lemma_failure_inv(pool, id),
        Event::Shutdown => lemma_shutdown_inv(pool),
        Event::Join(id) => lemma_join_inv(pool, id),
    }
}

/// Nothing that happens to a pool changes the number of its workers, and
/// a worker that has left its loop stays out of it: whatever happens next,
/// it is not handed another message and its state does not change.
pub proof fn lemma_event_keeps_workers<J>(pool: PoolView<J>, event: Event<J>)
    requires
        pool.inv(),
        pool.allows(event),
    ensures
        pool.after(event).size() == pool.size(),
        forall|i: int|
            pool.has_worker(i) && pool.workers[i].state is Terminated ==> (
            #[trigger] pool.after(event).workers[i]).state == pool.workers[i].state,
        forall|i: int|
            pool.has_worker(i) ==> (#[trigger] pool.after(event).workers[i]).id
                == pool.workers[i].id,
{
}

/// A pool is in order in every state that it can reach, and has the
/// number of workers that it was created with: whatever jobs are
/// submitted, by whomever, and however the steps of the submitters and of
/// the workers interleave.
pub proof fn lemma_reachable_inv<J>(size: nat, events: Seq<Event<J>>)
    requires
        size > 0,
        PoolView::<J>::initial(size).allows_all(events),
    ensures
        PoolView::<J>::initial(size).after_all(events).inv(),
        PoolView::<J>::initial(size).after_all(events).size() == size,
    decreases events.len(),
{
    if events.len() == 0 {
        lemma_initial_inv::<J>(size);
    } else {
        let before = PoolView::<J>::initial(size).after_all(events.drop_last());
        lemma_reachable_inv(size, events.drop_last());
        lemma_event_inv(before, events.last());
        lemma_event_keeps_workers(before, events.last());
    }
}

impl<J> PoolView<J> {
    /// Whether job `t` still waits in the queue.
    pub open spec fn waits(self, t: int) -> bool {
        self.started <= t < self.submitted.len()
    }

    /// Whether worker `id` holds job `t`: it is running it, or was lost to it.
    pub open spec fn held_by(self, t: int, id: int) -> bool {
        self.has_worker(id) && self.jobs[id] == Some(t)
    }

    /// Whether some worker holds job `t`.
    pub open spec fn held(self, t: int) -> bool {
        exists|id: int| self.held_by(t, id)
    }

    /// How many times job `t` ran to its end.
    pub open spec fn completions(self, t: int) -> nat {
        self.completed.to_multiset().count(t)
    }

    /// Whether every worker has left its loop on a `Terminate`, which is
    /// the state in which an orderly shutdown ends.
    pub open spec fn all_told(self) -> bool {
        forall|i: int|
            0 <= i < self.workers.len() ==> (#[trigger] self.workers[i]).state
                == WorkerState::Terminated(ExitReason::Told)
    }
}

/// The queue is first in, first out: the next worker to ask is handed the
/// oldest job that was not handed out yet; a `Terminate` only when no job
/// waits; and nothing when the queue is empty.
pub proof fn lemma_jobs_leave_in_submission_order<J>(pool: PoolView<J>)
    requires
        pool.inv(),
    ensures
        pool.waiting() > 0 ==> pool.step_of() == Step::Run(pool.submitted[pool.started]),
        pool.waiting() == 0 && pool.queue.len() > 0 ==> pool.step_of() == Step::<J>::Exit(
            ExitReason::Told,
        ),
        pool.queue.len() == 0 ==> pool.step_of() == Step::<J>::Wait,
{
    if pool.waiting() > 0 {
        assert(pool.queue[0] == Message::NewJob(pool.submitted[pool.started + 0]));
    } else if pool.queue.len() > 0 {
        assert(pool.queue[0] is Terminate);
    }
}

/// No job is lost and none is run twice: in every state, a submitted job
/// is in exactly one place. Either it waits in the queue, at the place
/// that its turn gives it; or exactly one worker holds it; or it ran to
/// its end, once. Nothing ever ends that was not submitted.
pub proof fn lemma_job_in_one_place<J>(pool: PoolView<J>, t: int)
    requires
        pool.inv(),
    ensures
        pool.completions(t) <= 1,
        0 <= t < pool.submitted.len() ==> (if pool.waits(t) {
            1int
        } else {
            0int
        }) + (if pool.held(t) {
            1int
        } else {
            0int
        }) + pool.completions(t) == 1,
        !(0 <= t < pool.submitted.len()) ==> !pool.held(t) && pool.completions(t) == 0,
        pool.waits(t) ==> pool.queue[t - pool.started] == Message::NewJob(pool.submitted[t]),
        forall|i: int, j: int| pool.held_by(t, i) && pool.held_by(t, j) ==> i == j,
{
    pool.completed.to_multiset_ensures();
    pool.completed.lemma_multiset_has_no_duplicates();
    if pool.completed.contains(t) {
        // what is on the list of completed jobs is a job that has ended
        let k = choose|k: int| 0 <= k < pool.completed.len() && pool.completed[k] == t;
        assert(pool.fates[pool.completed[k]] is Completed);
    }
    assert forall|i: int| pool.held_by(t, i) implies 0 <= t < pool.fates.len() && (pool.fates[t]
        == Fate::Running(i) || pool.fates[t] == Fate::Abandoned(i)) by {
        assert(pool.jobs[i] == Some(t));
    }
    if 0 <= t < pool.submitted.len() {
        match pool.fates[t] {
            Fate::Running(i) => {
                assert(pool.held_by(t, i));
            },
            Fate::Abandoned(i) => {
                assert(pool.held_by(t, i));
            },
            _ => {},
        }
        if pool.waits(t) {
            assert(pool.queue[t - pool.started] == Message::NewJob(
                pool.submitted[pool.started + (t - pool.started)],
            ));
        }
    }
}

/// A worker of a pool leaves its loop for one of two reasons only: it
/// took its `Terminate`, after shutdown had begun and every job had been
/// handed out, or the job that it was running failed.
pub proof fn lemma_exit_reasons<J>(pool: PoolView<J>, id: int)
    requires
        pool.inv(),
        pool.has_worker(id),
        pool.workers[id].state is Terminated,
    ensures
        pool.workers[id].state == WorkerState::Terminated(ExitReason::Told)
            || pool.workers[id].state == WorkerState::Terminated(ExitReason::JobFailed),
        pool.workers[id].state == WorkerState::Terminated(ExitReason::Told) ==> pool.shut_down
            && pool.waiting() == 0,
        pool.workers[id].state == WorkerState::Terminated(ExitReason::JobFailed)
            ==> pool.jobs[id] is Some,
{
    assert(pool.jobs[id] is None ==> pool.workers[id].state != WorkerState::Terminated(
        ExitReason::JobFailed,
    ));
}

/// Shutdown sends exactly one `Terminate` for each worker: once it has
/// begun, the `Terminate` messages that still wait and the workers that
/// one of them has stopped add up to the size of the pool.
pub proof fn lemma_one_terminate_per_worker<J>(pool: PoolView<J>)
    requires
        pool.inv(),
    ensures
        0 <= pool.told() <= pool.size(),
        pool.shut_down ==> pool.terminates_waiting() == pool.size() - pool.told(),
        !pool.shut_down ==> pool.terminates_waiting() == 0 && pool.told() == 0,
{
    lemma_told_bounds(pool.workers, pool.workers.len() as int);
}

/// When shutdown has run its course, so that every worker has left its
/// loop on its `Terminate`, nothing is left in the queue and every job
/// that was submitted has run to its end, exactly once.
pub proof fn lemma_orderly_shutdown_runs_every_job<J>(pool: PoolView<J>)
    requires
        pool.inv(),
        pool.all_told(),
    ensures
        pool.shut_down,
        pool.queue.len() == 0,
        pool.completed.len() == pool.submitted.len(),
        forall|t: int| 0 <= t < pool.submitted.len() ==> #[trigger] pool.completions(t) == 1,
{
    // all the `Terminate` messages were taken, and a worker takes one
    // only when no job waits
    lemma_told_bounds(pool.workers, pool.workers.len() as int);
    assert(pool.workers[0].state == WorkerState::Terminated(ExitReason::Told));
    assert forall|t: int| 0 <= t < pool.submitted.len() implies #[trigger] pool.completions(t)
        == 1 by {
        lemma_job_in_one_place(pool, t);
        if pool.held(t) {
            let i = choose|i: int| pool.held_by(t, i);
            assert(pool.jobs[i] is Some);
        }
    }
    // the list of completed jobs holds each number below the count of
    // submitted jobs, and none twice
    let range = set_int_range(0, pool.submitted.len() as int);
    assert(pool.completed.to_set() =~= range) by {
        pool.completed.to_multiset_ensures();
        assert forall|t: int| pool.completed.to_set().contains(t) implies range.contains(t) by {
            let k = choose|k: int| 0 <= k < pool.completed.len() && pool.completed[k] == t;
            assert(0 <= pool.completed[k] < pool.fates.len());
        }
        assert forall|t: int| range.contains(t) implies pool.completed.to_set().contains(t) by {
            assert(pool.completions(t) == 1);
        }
    }
    pool.completed.unique_seq_to_set();
    lemma_int_range(0, pool.submitted.len() as int);
}

/// A pool of one worker runs the jobs one after the other in the order in
/// which they were submitted: the job that ends as the `k`-th is the one
/// that was submitted as the `k`-th.
pub proof fn lemma_one_worker_keeps_order<J>(pool: PoolView<J>, k: int)
    requires
        pool.inv(),
        pool.size() == 1,
        0 <= k < pool.completed.len(),
    ensures
        pool.completed[k] == k,
        k < pool.submitted.len(),
{
    assert(0 <= pool.completed[k] < pool.fates.len());
}

} // verus!
