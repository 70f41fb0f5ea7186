use vstd::prelude::*;
use crate::message::{Message, Received};

verus! {

/// Why a worker's loop ended.
#[derive(Clone, Copy, Debug, PartialEq, Eq, Structural)]
pub enum ExitReason {
    /// The worker dequeued a `Terminate` message.
    Told,
    /// The channel was closed without a `Terminate` for this worker.
    ChannelClosed,
    /// The job that the worker was running failed and took the worker with it.
    JobFailed,
}

/// Where a worker stands in its loop.
#[derive(Clone, Copy, Debug, PartialEq, Eq, Structural)]
pub enum WorkerState {
    /// Waiting for a message.
    Idle,
    /// Running a job that it dequeued.
    Running,
    /// Out of the loop for good.
    Terminated(ExitReason),
}

/// What a worker has to do after it asked the channel for a message.
pub enum Step<J> {
    /// Run this job, then report how it ended.
    Run(J),
    /// Nothing to do yet: wait and ask again.
    Wait,
    /// Leave the loop.
    Exit(ExitReason),
}

impl WorkerState {
    /// The state of a worker that was in state `self` when it was handed `received`.
    /// Only an idle worker asks for messages; any other state is left as it is.
    pub open spec fn after_receive<J>(self, received: Received<J>) -> WorkerState {
        if self is Idle {
            match received {
                Received::Message(Message::NewJob(_)) => WorkerState::Running,
                Received::Message(Message::Terminate) => WorkerState::Terminated(
                    ExitReason::Told,
                ),
                Received::Empty => WorkerState::Idle,
                Received::Closed => WorkerState::Terminated(ExitReason::ChannelClosed),
            }
        } else {
            self
        }
    }

    /// The state after the job at hand ran to its end.
    pub open spec fn after_completion(self) -> WorkerState {
        if self is Running {
            WorkerState::Idle
        } else {
            self
        }
    }

    /// The state after the job at hand failed.
    pub open spec fn after_failure(self) -> WorkerState {
        if self is Running {
            WorkerState::Terminated(ExitReason::JobFailed)
        } else {
            self
        }
    }
}

/// What an idle worker does with `received`.
pub open spec fn step_for<J>(received: Received<J>) -> Step<J> {
    match received {
        Received::Message(Message::NewJob(job)) => Step::Run(job),
        Received::Message(Message::Terminate) => Step::Exit(ExitReason::Told),
        Received::Empty => Step::Wait,
        Received::Closed => Step::Exit(ExitReason::ChannelClosed),
    }
}

/// The abstract state of a worker.
pub struct WorkerView {
    /// The worker's number, fixed for its lifetime.
    pub id: nat,
    /// Where the worker stands in its loop.
    pub state: WorkerState,
    /// Whether the handle of the worker's thread is still there to be joined.
    pub joinable: bool,
}

impl WorkerView {
    /// A worker as it is right after its thread was started.
    pub open spec fn fresh(id: nat) -> WorkerView {
        WorkerView { id, state: WorkerState::Idle, joinable: true }
    }
}

/// One worker of a pool: its number, its place in the receive loop, and
/// whether its thread is still to be joined.
#[derive(Debug)]
pub struct Worker {
    id: usize,
    state: WorkerState,
    thread: bool,
}

impl View for Worker {
    type V = WorkerView;

    closed spec fn view(&self) -> WorkerView {
        WorkerView { id: self.id as nat, state: self.state, joinable: self.thread }
    }
}

impl Worker {
    /// A worker with number `id`, idle, whose thread is to be joined later.
    pub fn new(id: usize) -> (worker: Worker)
        ensures
            worker@ == WorkerView::fresh(id as nat),
    {
        Worker { id, state: WorkerState::Idle, thread: true }
    }

    /// The worker's number.
    pub fn id(&self) -> (id: usize)
        ensures
            id == self@.id,
    {
        self.id
    }

    /// Where the worker stands in its loop.
    pub fn state(&self) -> (state: WorkerState)
        ensures
            state == self@.state,
    {
        self.state
    }

    /// Whether the worker's thread is still to be joined.
    pub fn is_joinable(&self) -> (joinable: bool)
        ensures
            joinable == self@.joinable,
    {
        self.thread
    }

    /// One turn of the worker's loop: the idle worker was handed `received`
    /// and decides what to do. A job sends it running, a `Terminate` or a
    /// closed channel ends its loop, and an empty channel leaves it waiting.
    pub fn work<J>(&mut self, received: Received<J>) -> (step: Step<J>)
        requires
            old(self)@.state is Idle,
        ensures
            step == step_for(received),
            final(self)@ == (WorkerView {
                state: old(self)@.state.after_receive(received),
                ..old(self)@
            }),
    {
        match received {
            Received::Message(Message::NewJob(job)) => {
                self.state = WorkerState::Running;
                Step::Run(job)
            },
            Received::Message(Message::Terminate) => {
                self.state = WorkerState::Terminated(ExitReason::Told);
                Step::Exit(ExitReason::Told)
            },
            Received::Empty => Step::Wait,
            Received::Closed => {
                self.state = WorkerState::Terminated(ExitReason::ChannelClosed);
                Step::Exit(ExitReason::ChannelClosed)
            },
        }
    }

    /// The job at hand ran to its end: the worker is idle again.
    pub fn finish(&mut self)
        requires
            old(self)@.state is Running,
        ensures
            final(self)@ == (WorkerView { state: WorkerState::Idle, ..old(self)@ }),
    {
        self.state = WorkerState::Idle;
    }

    /// The job at hand failed: the worker is lost.
    pub fn fail(&mut self)
        requires
            old(self)@.state is Running,
        ensures
            final(self)@ == (WorkerView {
                state: WorkerState::Terminated(ExitReason::JobFailed),
                ..old(self)@
            }),
    {
        self.state = WorkerState::Terminated(ExitReason::JobFailed);
    }

    /// Takes the handle of the worker's thread, if it is still there. The
    /// answer is `true` for the first call only, so a thread is joined at
    /// most once.
    pub fn take_thread(&mut self) -> (taken: bool)
        ensures
            taken == old(self)@.joinable,
            final(self)@ == (WorkerView { joinable: false, ..old(self)@ }),
    {
        let taken = self.thread;
        self.thread = false;
        taken
    }
}

} // verus!
