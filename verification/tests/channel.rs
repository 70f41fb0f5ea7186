use hello::channel::DispatchChannel;
use hello::message::{Message, Received};

fn job_of(received: Received<u32>) -> Option<u32> {
    match received {
        Received::Message(Message::NewJob(job)) => Some(job),
        _ => None,
    }
}

#[test]
fn a_channel_hands_out_messages_oldest_first() {
    let mut channel = DispatchChannel::<u32>::new();
    assert_eq!(channel.len(), 0);
    assert!(channel.send(Message::NewJob(1)).is_ok());
    assert!(channel.send(Message::NewJob(2)).is_ok());
    assert!(channel.send(Message::Terminate).is_ok());
    assert!(channel.send(Message::NewJob(3)).is_ok());
    assert_eq!(channel.len(), 4);
    assert_eq!(job_of(channel.receive()), Some(1));
    assert_eq!(job_of(channel.receive()), Some(2));
    assert!(matches!(channel.receive(), Received::Message(Message::Terminate)));
    assert_eq!(job_of(channel.receive()), Some(3));
    assert_eq!(channel.len(), 0);
}

#[test]
fn an_open_channel_with_nothing_waiting_is_empty_not_closed() {
    let mut channel = DispatchChannel::<u32>::new();
    assert!(matches!(channel.receive(), Received::Empty));
    assert!(matches!(channel.receive(), Received::Empty));
    assert_eq!(channel.len(), 0);
}

#[test]
fn a_closed_channel_still_hands_out_what_waits() {
    let mut channel = DispatchChannel::<u32>::new();
    assert!(channel.send(Message::NewJob(8)).is_ok());
    channel.close();
    assert_eq!(job_of(channel.receive()), Some(8));
    assert!(matches!(channel.receive(), Received::Closed));
    assert!(matches!(channel.receive(), Received::Closed));
}

#[test]
fn sending_fails_once_no_consumer_is_left() {
    let mut channel = DispatchChannel::<u32>::new();
    assert!(channel.send(Message::NewJob(1)).is_ok());
    channel.disconnect();
    match channel.send(Message::NewJob(2)) {
        Err(Message::NewJob(job)) => assert_eq!(job, 2),
        _ => panic!("the message was not handed back"),
    }
    assert_eq!(channel.len(), 1);
}
