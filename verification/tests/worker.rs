use hello::message::{Message, Received};
use hello::worker::{ExitReason, Step, Worker, WorkerState};

#[test]
fn a_new_worker_is_idle_and_to_be_joined() {
    let worker = Worker::new(7);
    assert_eq!(worker.id(), 7);
    assert_eq!(worker.state(), WorkerState::Idle);
    assert!(worker.is_joinable());
}

#[test]
fn a_job_sends_the_worker_running_and_its_end_makes_it_idle() {
    let mut worker = Worker::new(0);
    match worker.work(Received::Message(Message::NewJob(41u32))) {
        Step::Run(job) => assert_eq!(job, 41),
        _ => panic!("the job was not handed on"),
    }
    assert_eq!(worker.state(), WorkerState::Running);
    worker.finish();
    assert_eq!(worker.state(), WorkerState::Idle);
    assert_eq!(worker.id(), 0);
}

#[test]
fn a_terminate_ends_the_loop() {
    let mut worker = Worker::new(1);
    assert!(matches!(
        worker.work(Received::<u32>::Message(Message::Terminate)),
        Step::Exit(ExitReason::Told)
    ));
    assert_eq!(worker.state(), WorkerState::Terminated(ExitReason::Told));
}

#[test]
fn a_closed_channel_ends_the_loop_for_another_reason() {
    let mut worker = Worker::new(2);
    assert!(matches!(
        worker.work(Received::<u32>::Closed),
        Step::Exit(ExitReason::ChannelClosed)
    ));
    assert_eq!(worker.state(), WorkerState::Terminated(ExitReason::ChannelClosed));
}

#[test]
fn an_empty_channel_leaves_the_worker_idle() {
    let mut worker = Worker::new(3);
    assert!(matches!(worker.work(Received::<u32>::Empty), Step::Wait));
    assert_eq!(worker.state(), WorkerState::Idle);
}

#[test]
fn a_failed_job_ends_the_worker() {
    let mut worker = Worker::new(4);
    assert!(matches!(worker.work(Received::Message(Message::NewJob(1u32))), Step::Run(1)));
    worker.fail();
    assert_eq!(worker.state(), WorkerState::Terminated(ExitReason::JobFailed));
    assert!(worker.is_joinable());
}

#[test]
fn a_thread_handle_is_taken_once() {
    let mut worker = Worker::new(5);
    assert!(worker.take_thread());
    assert!(!worker.is_joinable());
    assert!(!worker.take_thread());
    assert!(!worker.take_thread());
    assert_eq!(worker.state(), WorkerState::Idle);
}
