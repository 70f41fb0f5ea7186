use vstd::prelude::*;
use std::collections::VecDeque;
use crate::message::{Message, Received};

verus! {

/// The abstract state of a dispatch channel.
pub struct ChannelView<J> {
    /// The messages that wait, oldest first.
    pub queue: Seq<Message<J>>,
    /// Whether the producer end is still held.
    pub producer: bool,
    /// Whether a consumer end is still held.
    pub consumer: bool,
}

impl<J> ChannelView<J> {
    /// A channel on which nothing was sent yet, with both ends held.
    pub open spec fn fresh() -> Self {
        ChannelView { queue: Seq::empty(), producer: true, consumer: true }
    }

    /// The channel after `message` was accepted.
    pub open spec fn with_sent(self, message: Message<J>) -> Self {
        ChannelView { queue: self.queue.push(message), ..self }
    }

    /// The channel after its oldest message left it.
    pub open spec fn without_front(self) -> Self {
        ChannelView { queue: self.queue.drop_first(), ..self }
    }

    /// What a consumer is handed in this state.
    pub open spec fn front(self) -> Received<J> {
        if self.queue.len() > 0 {
            Received::Message(self.queue[0])
        } else if self.producer {
            Received::Empty
        } else {
            Received::Closed
        }
    }
}

/// An unbounded first-in, first-out queue of control messages, with a
/// producer end and a consumer end that can each be given up.
///
/// A message is handed out at most once: receiving moves it out of the queue.
pub struct DispatchChannel<J> {
    queue: VecDeque<Message<J>>,
    producer: bool,
    consumer: bool,
}

impl<J> View for DispatchChannel<J> {
    type V = ChannelView<J>;

    closed spec fn view(&self) -> ChannelView<J> {
        ChannelView { queue: self.queue@, producer: self.producer, consumer: self.consumer }
    }
}

impl<J> DispatchChannel<J> {
    /// An empty channel with both ends held.
    pub fn new() -> (channel: Self)
        ensures
            channel@ == ChannelView::<J>::fresh(),
    {
        DispatchChannel { queue: VecDeque::new(), producer: true, consumer: true }
    }

    /// Appends `message` behind everything that waits. This never blocks.
    /// It fails, handing the message back, exactly when no consumer is left.
    pub fn send(&mut self, message: Message<J>) -> (outcome: Result<(), Message<J>>)
        ensures
            old(self)@.consumer ==> outcome == Ok::<(), Message<J>>(()) && final(self)@ == old(
                self,
            )@.with_sent(message),
            !old(self)@.consumer ==> outcome == Err::<(), Message<J>>(message) && final(self)@
                == old(self)@,
    {
        if self.consumer {
            self.queue.push_back(message);
            Ok(())
        } else {
            Err(message)
        }
    }

    /// Takes the oldest waiting message out of the channel. With nothing
    /// waiting the channel is left as it is, and the answer tells whether a
    /// producer could still send (`Empty`) or not (`Closed`).
    pub fn receive(&mut self) -> (received: Received<J>)
        ensures
            received == old(self)@.front(),
            old(self)@.queue.len() > 0 ==> final(self)@ == old(self)@.without_front(),
            old(self)@.queue.len() == 0 ==> final(self)@ == old(self)@,
    {
        match self.queue.pop_front() {
            Some(message) => Received::Message(message),
            None => {
                if self.producer {
                    Received::Empty
                } else {
                    Received::Closed
                }
            },
        }
    }

    /// Gives up the producer end: once the waiting messages are taken,
    /// consumers are told that the channel is closed.
    pub fn close(&mut self)
        ensures
            final(self)@ == (ChannelView { producer: false, ..old(self)@ }),
    {
        self.producer = false;
    }

    /// Gives up the consumer end: from now on sending fails.
    pub fn disconnect(&mut self)
        ensures
            final(self)@ == (ChannelView { consumer: false, ..old(self)@ }),
    {
        self.consumer = false;
    }

    /// The number of messages that wait.
    pub fn len(&self) -> (n: usize)
        ensures
            n == self@.queue.len(),
    {
        self.queue.len()
    }
}

} // verus!
