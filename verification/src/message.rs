use vstd::prelude::*;

verus! {

/// A control message travelling through the dispatch channel.
pub enum Message<J> {
    /// Run the carried job.
    NewJob(J),
    /// Stop the worker that dequeues this message.
    Terminate,
}

/// What a consumer gets when it asks the channel for the next message.
pub enum Received<J> {
    /// The oldest message that was waiting.
    Message(Message<J>),
    /// Nothing is waiting and a producer is still alive: the consumer has to wait.
    Empty,
    /// Nothing is waiting and no producer is left: nothing will ever arrive.
    Closed,
}

} // verus!
