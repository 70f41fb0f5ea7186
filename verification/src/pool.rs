use vstd::prelude::*;
use crate::channel::DispatchChannel;
use crate::error::{PoolCreationError, zero_size_text};
use crate::laws::{
    lemma_completion_inv, lemma_execute_inv, lemma_failure_inv, lemma_initial_inv,
    lemma_join_inv, lemma_receive_inv, lemma_shutdown_inv,
};
use crate::message::Message;
use crate::model::{Fate, PoolView};
use crate::worker::{Step, Worker, WorkerState, WorkerView};

verus! {

/// The record that a pool keeps of the jobs submitted to it. It exists for
/// the proofs only.
struct Ledger<J> {
    submitted: Seq<J>,
    started: int,
    completed: Seq<int>,
    jobs: Seq<Option<int>>,
    fates: Seq<Fate>,
}

/// A pool of a fixed number of workers that share one queue of jobs.
///
/// The pool holds everything that is decided about the workers and the
/// queue: who gets which message, who runs and who has stopped, what
/// shutdown puts on the queue and in which order the threads are joined.
/// The threads themselves belong to the program around the pool: each of
/// them reports to the pool what happened (it asks for a message, its job
/// ended) and does what the pool answers.
pub struct ThreadPool<J> {
    workers: Vec<Worker>,
    channel: DispatchChannel<J>,
    shut_down: bool,
    ledger: Ghost<Ledger<J>>,
}

impl<J> View for ThreadPool<J> {
    type V = PoolView<J>;

    closed spec fn view(&self) -> PoolView<J> {
        PoolView {
            workers: Seq::new(self.workers@.len(), |i: int| self.workers@[i]@),
            queue: self.channel@.queue,
            shut_down: self.shut_down,
            submitted: self.ledger@.submitted,
            started: self.ledger@.started,
            completed: self.ledger@.completed,
            jobs: self.ledger@.jobs,
            fates: self.ledger@.fates,
        }
    }
}

impl<J> ThreadPool<J> {
    /// Both ends of the pool's channel are held for as long as the pool lives.
    pub closed spec fn channel_held(&self) -> bool {
        self.channel@.producer && self.channel@.consumer
    }

    /// The pool is in order: every method needs this of the pool it is
    /// called on, and leaves the pool so.
    pub open spec fn wf(&self) -> bool {
        self.channel_held() && self@.inv()
    }

    /// Creates a pool of `size` workers, numbered from 0, all idle, with an
    /// empty queue. A pool without workers is refused.
    pub fn new(size: usize) -> (outcome: Result<ThreadPool<J>, PoolCreationError>)
        ensures
            size == 0 <==> outcome is Err,
            outcome matches Ok(pool) ==> pool.wf() && pool@ == PoolView::<J>::initial(
                size as nat,
            ),
            outcome matches Err(e) ==> e@ == zero_size_text(),
    {
        if size > 0 {
            let mut workers: Vec<Worker> = Vec::new();
            for idx in 0..size
                invariant
                    workers@.len() == idx,
                    forall|i: int|
                        0 <= i < idx ==> (#[trigger] workers@[i])@ == WorkerView::fresh(i as nat),
            {
                workers.push(Worker::new(idx));
            }
            let pool = ThreadPool {
                workers,
                channel: DispatchChannel::new(),
                shut_down: false,
                ledger: Ghost(
                    Ledger {
                        submitted: Seq::empty(),
                        started: 0,
                        completed: Seq::empty(),
                        jobs: Seq::new(size as nat, |i: int| None),
                        fates: Seq::empty(),
                    },
                ),
            };
            proof {
                assert(pool@.workers =~= PoolView::<J>::initial(size as nat).workers);
                lemma_initial_inv::<J>(size as nat);
            }
            Ok(pool)
        } else {
            Err(PoolCreationError::zero_size())
        }
    }

    /// The number of workers. It never changes.
    pub fn size(&self) -> (size: usize)
        ensures
            size == self@.size(),
    {
        self.workers.len()
    }

    /// Submits `job`: it is put behind everything that waits, and the call
    /// returns at once. Nothing is handed back by which the job could be
    /// awaited.
    pub fn execute(&mut self, job: J)
        requires
            old(self).wf(),
            old(self)@.accepting(),
        ensures
            final(self).wf(),
            final(self)@ == old(self)@.after_execute(job),
    {
        proof {
            lemma_execute_inv(self@, job);
        }
        let _ = self.channel.send(Message::NewJob(job));
        proof {
            self.ledger@ = Ledger {
                submitted: self.ledger@.submitted.push(job),
                fates: self.ledger@.fates.push(Fate::Queued),
                ..self.ledger@
            };
        }
    }

    /// One turn of the loop of worker `id`, which is idle and asks for a
    /// message. The oldest waiting message leaves the queue and decides:
    /// a job is handed to the worker, which now runs it; a `Terminate` ends
    /// the worker's loop; with nothing waiting the worker has to wait and
    /// nothing changes. No message is handed out twice.
    pub fn receive(&mut self, id: usize) -> (step: Step<J>)
        requires
            old(self).wf(),
            old(self)@.has_worker(id as int),
            old(self)@.workers[id as int].state is Idle,
        ensures
            final(self).wf(),
            step == old(self)@.step_of(),
            final(self)@ == old(self)@.after_receive(id as int),
    {
        proof {
            lemma_receive_inv(self@, id as int);
        }
        let received = self.channel.receive();
        let step = self.workers[id].work(received);
        proof {
            if old(self)@.queue.len() > 0 && old(self)@.queue[0] is NewJob {
                self.ledger@ = Ledger {
                    started: self.ledger@.started + 1,
                    jobs: self.ledger@.jobs.update(id as int, Some(self.ledger@.started)),
                    fates: self.ledger@.fates.update(
                        self.ledger@.started,
                        Fate::Running(id as int),
                    ),
                    ..self.ledger@
                };
            }
            assert(self@.workers =~= old(self)@.after_receive(id as int).workers);
        }
        step
    }

    /// Worker `id` reports that the job it was running came to its end:
    /// the worker is idle again and the job is completed.
    pub fn complete(&mut self, id: usize)
        requires
            old(self).wf(),
            old(self)@.has_worker(id as int),
            old(self)@.workers[id as int].state is Running,
        ensures
            final(self).wf(),
            final(self)@ == old(self)@.after_completion(id as int),
    {
        proof {
            lemma_completion_inv(self@, id as int);
        }
        self.workers[id].finish();
        proof {
            let ticket = self.ledger@.jobs[id as int]->0;
            self.ledger@ = Ledger {
                completed: self.ledger@.completed.push(ticket),
                jobs: self.ledger@.jobs.update(id as int, None),
                fates: self.ledger@.fates.update(ticket, Fate::Completed),
                ..self.ledger@
            };
            assert(self@.workers =~= old(self)@.after_completion(id as int).workers);
        }
    }

    /// The job that worker `id` was running failed and took the worker's
    /// thread with it: the worker is lost to the pool, the other workers go on.
    pub fn fail(&mut self, id: usize)
        requires
            old(self).wf(),
            old(self)@.has_worker(id as int),
            old(self)@.workers[id as int].state is Running,
        ensures
            final(self).wf(),
            final(self)@ == old(self)@.after_failure(id as int),
    {
        proof {
            lemma_failure_inv(self@, id as int);
        }
        self.workers[id].fail();
        proof {
            let ticket = self.ledger@.jobs[id as int]->0;
            self.ledger@ = Ledger {
                fates: self.ledger@.fates.update(ticket, Fate::Abandoned(id as int)),
                ..self.ledger@
            };
            assert(self@.workers =~= old(self)@.after_failure(id as int).workers);
        }
    }

    /// Begins shutdown: one `Terminate` for each worker is put behind
    /// everything that waits, so the jobs submitted before are run first.
    /// A second call changes nothing.
    pub fn shutdown(&mut self)
        requires
            old(self).wf(),
        ensures
            final(self).wf(),
            final(self)@ == old(self)@.after_shutdown(),
    {
        proof {
            lemma_shutdown_inv(self@);
        }
        if self.shut_down {
            return ;
        }
        let size = self.workers.len();
        for sent in 0..size
            invariant
                size == self.workers@.len(),
                self.channel_held(),
                self.workers == old(self).workers,
                self.shut_down == old(self).shut_down,
                self.ledger == old(self).ledger,
                self.channel@.queue == old(self).channel@.queue + Seq::new(
                    sent as nat,
                    |k: int| Message::<J>::Terminate,
                ),
        {
            let _ = self.channel.send(Message::Terminate);
            assert(self.channel@.queue =~= old(self).channel@.queue + Seq::new(
                (sent + 1) as nat,
                |k: int| Message::<J>::Terminate,
            ));
        }
        self.shut_down = true;
    }

    /// Names the worker whose thread is to be joined next and takes its
    /// handle: after shutdown has begun, the workers come in the order of
    /// their numbers, each of them once. `None` says that no thread is left
    /// to be joined, or that shutdown has not begun.
    pub fn join_next(&mut self) -> (next: Option<usize>)
        requires
            old(self).wf(),
        ensures
            final(self).wf(),
            match next {
                Some(id) => old(self)@.is_next_to_join(id as int) && final(self)@ == old(
                    self,
                )@.after_join(id as int),
                None => old(self)@.nothing_to_join() && final(self)@ == old(self)@,
            },
    {
        if !self.shut_down {
            return None;
        }
        let size = self.workers.len();
        let mut id: usize = 0;
        while id < size
            invariant
                id <= size,
                size == self.workers@.len(),
                *self == *old(self),
                self.wf(),
                self.shut_down,
                forall|j: int| 0 <= j < id ==> !(#[trigger] self@.workers[j]).joinable,
            decreases size - id,
        {
            if self.workers[id].is_joinable() {
                proof {
                    lemma_join_inv(self@, id as int);
                }
                let _ = self.workers[id].take_thread();
                proof {
                    assert(self@.workers =~= old(self)@.after_join(id as int).workers);
                }
                return Some(id);
            }
            id += 1;
        }
        None
    }

    /// Where worker `id` stands in its loop; `None` if the pool has no such worker.
    pub fn worker_state(&self, id: usize) -> (state: Option<WorkerState>)
        ensures
            state == if self@.has_worker(id as int) {
                Some(self@.workers[id as int].state)
            } else {
                None
            },
    {
        if id < self.workers.len() {
            Some(self.workers[id].state())
        } else {
            None
        }
    }

    /// The number of messages that wait in the queue.
    pub fn pending(&self) -> (pending: usize)
        ensures
            pending == self@.queue.len(),
    {
        self.channel.len()
    }

    /// Whether shutdown has begun.
    pub fn is_shut_down(&self) -> (shut_down: bool)
        ensures
            shut_down == self@.shut_down,
    {
        self.shut_down
    }

    /// Whether the pool takes new jobs: shutdown has not begun and at
    /// least one worker is still in its loop.
    pub fn is_accepting(&self) -> (accepting: bool)
        ensures
            accepting == self@.accepting(),
    {
        if self.shut_down {
            return false;
        }
        let size = self.workers.len();
        let mut id: usize = 0;
        while id < size
            invariant
                id <= size,
                size == self.workers@.len(),
                !self.shut_down,
                forall|j: int| 0 <= j < id ==> !self@.is_live(j),
            decreases size - id,
        {
            match self.workers[id].state() {
                WorkerState::Terminated(_) => {},
                _ => {
                    assert(self@.is_live(id as int));
                    return true;
                },
            }
            id += 1;
        }
        false
    }
}

} // verus!
