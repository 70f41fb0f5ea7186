use vstd::prelude::*;
use crate::message::{Message, Received};
use crate::worker::{ExitReason, Step, WorkerState, WorkerView, step_for};

verus! {

/// What has become of a submitted job. Jobs are numbered in the order in
/// which they were submitted; workers are numbered as in the pool.
pub enum Fate {
    /// Still waiting in the queue.
    Queued,
    /// Handed to the worker with this number, which is running it.
    Running(int),
    /// Ran to its end.
    Completed,
    /// Handed to the worker with this number and failed there.
    Abandoned(int),
}

/// The abstract state of a pool: its workers, the queue between the
/// submitters and the workers, and a ledger of every job submitted so far.
pub struct PoolView<J> {
    /// The workers, in the order of their numbers.
    pub workers: Seq<WorkerView>,
    /// The messages that wait, oldest first.
    pub queue: Seq<Message<J>>,
    /// Whether shutdown has begun.
    pub shut_down: bool,
    /// Every job submitted so far, in submission order.
    pub submitted: Seq<J>,
    /// How many jobs were handed to workers so far.
    pub started: int,
    /// The numbers of the jobs that ran to their end, in the order in which they ended.
    pub completed: Seq<int>,
    /// For each worker, the number of the job it holds: the one it is
    /// running, or the one that failed in it.
    pub jobs: Seq<Option<int>>,
    /// For each job, what has become of it.
    pub fates: Seq<Fate>,
}

impl<J> PoolView<J> {
    /// A pool of `size` idle workers to which nothing was submitted yet.
    pub open spec fn initial(size: nat) -> Self {
        PoolView {
            workers: Seq::new(size, |i: int| WorkerView::fresh(i as nat)),
            queue: Seq::empty(),
            shut_down: false,
            submitted: Seq::empty(),
            started: 0,
            completed: Seq::empty(),
            jobs: Seq::new(size, |i: int| None),
            fates: Seq::empty(),
        }
    }

    /// The number of workers.
    pub open spec fn size(self) -> nat {
        self.workers.len()
    }

    /// Whether `id` is the number of a worker of this pool.
    pub open spec fn has_worker(self, id: int) -> bool {
        0 <= id < self.workers.len()
    }

    /// Whether worker `id` is still in its loop.
    pub open spec fn is_live(self, id: int) -> bool {
        self.has_worker(id) && !(self.workers[id].state is Terminated)
    }

    /// Whether some worker is still in its loop.
    pub open spec fn has_live_worker(self) -> bool {
        exists|id: int| self.is_live(id)
    }

    /// Whether the pool takes new jobs: shutdown has not begun and a worker
    /// is left to run them.
    pub open spec fn accepting(self) -> bool {
        !self.shut_down && self.has_live_worker()
    }

    /// How many jobs wait in the queue.
    pub open spec fn waiting(self) -> int {
        self.submitted.len() - self.started
    }

    /// What the next worker to ask is handed.
    pub open spec fn front(self) -> Received<J> {
        if self.queue.len() > 0 {
            Received::Message(self.queue[0])
        } else {
            Received::Empty
        }
    }

    /// This pool with worker `id` in `state`.
    pub open spec fn with_state(self, id: int, state: WorkerState) -> Self {
        PoolView {
            workers: self.workers.update(id, WorkerView { state, ..self.workers[id] }),
            ..self
        }
    }

    /// The pool after `job` was submitted: it waits behind everything else.
    pub open spec fn after_execute(self, job: J) -> Self {
        PoolView {
            queue: self.queue.push(Message::NewJob(job)),
            submitted: self.submitted.push(job),
            fates: self.fates.push(Fate::Queued),
            ..self
        }
    }

    /// What the next worker to ask is to do.
    pub open spec fn step_of(self) -> Step<J> {
        step_for(self.front())
    }

    /// The pool after idle worker `id` asked for a message. With nothing
    /// waiting, nothing changes. A job at the front goes to the worker,
    /// which runs it; a `Terminate` at the front ends the worker's loop.
    pub open spec fn after_receive(self, id: int) -> Self {
        if self.queue.len() == 0 {
            self
        } else if self.queue[0] is NewJob {
            PoolView {
                queue: self.queue.drop_first(),
                started: self.started + 1,
                jobs: self.jobs.update(id, Some(self.started)),
                fates: self.fates.update(self.started, Fate::Running(id)),
                ..self.with_state(id, WorkerState::Running)
            }
        } else {
            PoolView {
                queue: self.queue.drop_first(),
                ..self.with_state(id, WorkerState::Terminated(ExitReason::Told))
            }
        }
    }

    /// The pool after the job that worker `id` was running came to its end.
    pub open spec fn after_completion(self, id: int) -> Self {
        let ticket = self.jobs[id]->0;
        PoolView {
            completed: self.completed.push(ticket),
            jobs: self.jobs.update(id, None),
            fates: self.fates.update(ticket, Fate::Completed),
            ..self.with_state(id, WorkerState::Idle)
        }
    }

    /// The pool after the job that worker `id` was running failed: the
    /// worker is lost, and the job stays with it.
    pub open spec fn after_failure(self, id: int) -> Self {
        let ticket = self.jobs[id]->0;
        PoolView {
            fates: self.fates.update(ticket, Fate::Abandoned(id)),
            ..self.with_state(id, WorkerState::Terminated(ExitReason::JobFailed))
        }
    }

    /// The pool after shutdown was asked for. The first time, one
    /// `Terminate` for each worker is put behind everything that waits;
    /// after that, nothing changes.
    pub open spec fn after_shutdown(self) -> Self {
        if self.shut_down {
            self
        } else {
            PoolView {
                queue: self.queue + Seq::new(self.workers.len(), |k: int| Message::Terminate),
                shut_down: true,
                ..self
            }
        }
    }

    /// The pool after the thread handle of worker `id` was taken.
    pub open spec fn after_join(self, id: int) -> Self {
        PoolView {
            workers: self.workers.update(id, WorkerView { joinable: false, ..self.workers[id] }),
            ..self
        }
    }

    /// The worker whose thread is to be joined next: the one with the
    /// lowest number whose handle is still there, once shutdown has begun.
    pub open spec fn is_next_to_join(self, id: int) -> bool {
        &&& self.shut_down
        &&& self.has_worker(id)
        &&& self.workers[id].joinable
        &&& forall|j: int| 0 <= j < id ==> !(#[trigger] self.workers[j]).joinable
    }

    /// Whether no thread is left to be joined.
    pub open spec fn nothing_to_join(self) -> bool {
        !self.shut_down || forall|j: int|
            0 <= j < self.workers.len() ==> !(#[trigger] self.workers[j]).joinable
    }
}

/// Something that happens to a pool. Whatever the submitters and the
/// workers do, and however their steps interleave, the pool sees it as a
/// sequence of these.
pub enum Event<J> {
    /// A job is submitted.
    Execute(J),
    /// The worker with this number asks for a message.
    Receive(int),
    /// The job that the worker with this number was running came to its end.
    Complete(int),
    /// The job that the worker with this number was running failed.
    Fail(int),
    /// Shutdown is asked for.
    Shutdown,
    /// The thread handle of the worker with this number is taken to be joined.
    Join(int),
}

impl<J> PoolView<J> {
    /// Whether `event` can happen in this state: a job is submitted only
    /// to a pool that takes jobs, only an idle worker asks for a message,
    /// only a running worker reports on its job, and threads are joined in
    /// the order of their numbers once shutdown has begun.
    pub open spec fn allows(self, event: Event<J>) -> bool {
        match event {
            Event::Execute(_) => self.accepting(),
            Event::Receive(id) => self.has_worker(id) && self.workers[id].state is Idle,
            Event::Complete(id) => self.has_worker(id) && self.workers[id].state is Running,
            Event::Fail(id) => self.has_worker(id) && self.workers[id].state is Running,
            Event::Shutdown => true,
            Event::Join(id) => self.is_next_to_join(id),
        }
    }

    /// The pool after `event`.
    pub open spec fn after(self, event: Event<J>) -> Self {
        match event {
            Event::Execute(job) => self.after_execute(job),
            Event::Receive(id) => self.after_receive(id),
            Event::Complete(id) => self.after_completion(id),
            Event::Fail(id) => self.after_failure(id),
            Event::Shutdown => self.after_shutdown(),
            Event::Join(id) => self.after_join(id),
        }
    }

    /// The pool after `events`, one after the other.
    pub open spec fn after_all(self, events: Seq<Event<J>>) -> Self
        decreases events.len(),
    {
        if events.len() == 0 {
            self
        } else {
            self.after_all(events.drop_last()).after(events.last())
        }
    }

    /// Whether `events` can happen one after the other, starting in this state.
    pub open spec fn allows_all(self, events: Seq<Event<J>>) -> bool
        decreases events.len(),
    {
        events.len() == 0 || (self.allows_all(events.drop_last()) && self.after_all(
            events.drop_last(),
        ).allows(events.last()))
    }
}

} // verus!
