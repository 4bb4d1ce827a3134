//! The protocol between a pool and its workers.
//!
//! A pool sends its workers messages through one queue. A worker is idle
//! until it takes a task from the queue, executes that task and is idle
//! again; it terminates when it is told to exit or finds the queue closed,
//! and never leaves that state. This module holds the messages and the
//! state of one worker; the threads and the queue belong to the caller.

use vstd::prelude::*;

verus! {

/// What a pool sends to its workers: a job of type `J` to execute, or the
/// order to exit.
pub enum TaskMessage<J> {
    NewTask(J),
    Exit,
}

/// The state of a worker.
#[derive(PartialEq, Eq, Debug, Clone, Copy, Structural)]
pub enum WorkerState {
    /// Waiting for a message.
    Idle,
    /// Executing a task.
    Executing,
    /// Done for good.
    Terminated,
}

/// What can happen to a worker.
pub enum WorkerEvent {
    /// A task came from the queue.
    Task,
    /// The order to exit came from the queue.
    Exit,
    /// The queue was found closed.
    Closed,
    /// The task in hand was executed.
    Done,
}

/// The event that `message` is for the worker that took it from the queue;
/// no message means that the queue was found closed.
pub open spec fn event_of<J>(message: Option<TaskMessage<J>>) -> WorkerEvent {
    match message {
        Some(TaskMessage::NewTask(_)) => WorkerEvent::Task,
        Some(TaskMessage::Exit) => WorkerEvent::Exit,
        None => WorkerEvent::Closed,
    }
}

/// The job that `message` brings, if any.
pub open spec fn job_of<J>(message: Option<TaskMessage<J>>) -> Option<J> {
    match message {
        Some(TaskMessage::NewTask(job)) => Some(job),
        _ => None,
    }
}

/// The state of a worker after an event. An event that has no meaning in a
/// state leaves the state as it is.
pub open spec fn step(state: WorkerState, event: WorkerEvent) -> WorkerState {
    match (state, event) {
        (WorkerState::Idle, WorkerEvent::Task) => WorkerState::Executing,
        (WorkerState::Idle, WorkerEvent::Exit) => WorkerState::Terminated,
        (WorkerState::Idle, WorkerEvent::Closed) => WorkerState::Terminated,
        (WorkerState::Executing, WorkerEvent::Done) => WorkerState::Idle,
        _ => state,
    }
}

/// The state of a worker after a sequence of events.
pub open spec fn run(state: WorkerState, events: Seq<WorkerEvent>) -> WorkerState
    decreases events.len(),
{
    if events.len() == 0 {
        state
    } else {
        step(run(state, events.drop_last()), events.last())
    }
}

/// A worker that has terminated stays so, whatever happens.
pub proof fn lemma_terminated_for_good(events: Seq<WorkerEvent>)
    ensures
        run(WorkerState::Terminated, events) == WorkerState::Terminated,
    decreases events.len(),
{
    if events.len() > 0 {
        lemma_terminated_for_good(events.drop_last());
    }
}

/// A worker starts to execute only when it is idle and a task comes, so it
/// never holds two tasks at once.
pub proof fn lemma_one_task_at_a_time(state: WorkerState, event: WorkerEvent)
    ensures
        step(state, event) == WorkerState::Executing && state != WorkerState::Executing ==> state
            == WorkerState::Idle && event is Task,
        state == WorkerState::Executing ==> step(state, event) == WorkerState::Executing
            || event is Done,
{
}

/// One worker of a pool: its number and its state.
#[derive(Debug)]
pub struct Worker {
    id: usize,
    state: WorkerState,
}

/// A worker as a mathematical value.
pub struct WorkerView {
    pub id: nat,
    pub state: WorkerState,
}

impl View for Worker {
    type V = WorkerView;

    closed spec fn view(&self) -> WorkerView {
        WorkerView { id: self.id as nat, state: self.state }
    }
}

impl Worker {
    /// An idle worker with the number `id`.
    pub fn new(id: usize) -> (w: Worker)
        ensures
            w@ == (WorkerView { id: id as nat, state: WorkerState::Idle }),
    {
        Worker { id, state: WorkerState::Idle }
    }

    /// The number of the worker.
    pub fn id(&self) -> (id: usize)
        ensures
            id == self@.id,
    {
        self.id
    }

    /// The state of the worker.
    pub fn state(&self) -> (state: WorkerState)
        ensures
            state == self@.state,
    {
        self.state
    }

    /// Takes what came from the queue: a message, or nothing if the queue
    /// was found closed. Gives the job to execute, if an idle worker took a
    /// task; a worker that is not idle takes no job.
    pub fn receive<J>(&mut self, message: Option<TaskMessage<J>>) -> (job: Option<J>)
        ensures
            final(self)@.id == old(self)@.id,
            final(self)@.state == step(old(self)@.state, event_of(message)),
            job == if old(self)@.state == WorkerState::Idle {
                job_of(message)
            } else {
                None
            },
    {
        if self.state != WorkerState::Idle {
            return None;
        }
        match message {
            Some(TaskMessage::NewTask(job)) => {
                self.state = WorkerState::Executing;
                Some(job)
            },
            Some(TaskMessage::Exit) => {
                self.state = WorkerState::Terminated;
                None
            },
            None => {
                self.state = WorkerState::Terminated;
                None
            },
        }
    }

    /// Records that the task in hand was executed.
    pub fn finish(&mut self)
        ensures
            final(self)@.id == old(self)@.id,
            final(self)@.state == step(old(self)@.state, WorkerEvent::Done),
    {
        if self.state == WorkerState::Executing {
            self.state = WorkerState::Idle;
        }
    }
}

} // verus!
