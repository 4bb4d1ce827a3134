use http_server::thread_pool::{TaskMessage, Worker, WorkerState};

#[test]
fn new_worker_is_idle() {
    let worker = Worker::new(3);
    assert_eq!(worker.id(), 3);
    assert_eq!(worker.state(), WorkerState::Idle);
}

#[test]
fn idle_worker_takes_a_task_and_becomes_idle_again() {
    let mut worker = Worker::new(0);
    let job = worker.receive(Some(TaskMessage::NewTask(41)));
    assert_eq!(job, Some(41));
    assert_eq!(worker.state(), WorkerState::Executing);
    worker.finish();
    assert_eq!(worker.state(), WorkerState::Idle);
    assert_eq!(worker.receive(Some(TaskMessage::NewTask(42))), Some(42));
    assert_eq!(worker.id(), 0);
}

#[test]
fn exit_terminates_an_idle_worker() {
    let mut worker = Worker::new(1);
    assert_eq!(worker.receive(Some(TaskMessage::<u8>::Exit)), None);
    assert_eq!(worker.state(), WorkerState::Terminated);
}

#[test]
fn closed_queue_terminates_an_idle_worker() {
    let mut worker = Worker::new(1);
    assert_eq!(worker.receive(None::<TaskMessage<u8>>), None);
    assert_eq!(worker.state(), WorkerState::Terminated);
}

#[test]
fn terminated_worker_stays_terminated() {
    let mut worker = Worker::new(2);
    worker.receive(None::<TaskMessage<u8>>);
    assert_eq!(worker.receive(Some(TaskMessage::NewTask(1u8))), None);
    assert_eq!(worker.state(), WorkerState::Terminated);
    worker.finish();
    assert_eq!(worker.state(), WorkerState::Terminated);
    assert_eq!(worker.receive(Some(TaskMessage::<u8>::Exit)), None);
    assert_eq!(worker.state(), WorkerState::Terminated);
}

#[test]
fn executing_worker_takes_nothing() {
    let mut worker = Worker::new(2);
    worker.receive(Some(TaskMessage::NewTask(1u8)));
    assert_eq!(worker.receive(Some(TaskMessage::NewTask(2u8))), None);
    assert_eq!(worker.state(), WorkerState::Executing);
    assert_eq!(worker.receive(Some(TaskMessage::<u8>::Exit)), None);
    assert_eq!(worker.state(), WorkerState::Executing);
}

#[test]
fn finishing_without_a_task_changes_nothing() {
    let mut worker = Worker::new(5);
    worker.finish();
    assert_eq!(worker.state(), WorkerState::Idle);
}
