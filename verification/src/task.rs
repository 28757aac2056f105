//! The task pool's bookkeeping: which tasks are in flight, how a task's
//! race ends, and what an event does to the pool.
//!
//! A spawned task races its work against a cancellation signal and an
//! optional deadline. Whoever runs the race reports its outcome; this
//! module turns the outcome into the one terminal event of the task and
//! keeps the registry of tasks in step with the events.

use vstd::prelude::*;
use vstd::string::StringExecFns;
use std::collections::HashMap;
use std::time::Duration;
use std::time::Instant;
use crate::error::TaskError;
use crate::keys::map_keys;

verus! {

broadcast use vstd::std_specs::hash::group_hash_axioms;

/// Capacity of the queue of terminal events: large enough that tasks do
/// not wait to report.
pub const EVENT_QUEUE_CAPACITY: usize = 1024;

/// The terminal event of a task.
#[derive(Debug)]
pub enum TaskEvent {
    /// The work of the task ran to its end.
    Finished(u64),
    /// The task ended with an error.
    Error(u64, TaskError),
}

impl TaskEvent {
    /// The request id of the task that the event is about.
    pub open spec fn spec_id(&self) -> u64 {
        match self {
            TaskEvent::Finished(id) => *id,
            TaskEvent::Error(id, _) => *id,
        }
    }

    /// The request id of the task that the event is about.
    pub fn id(&self) -> (r: u64)
        ensures
            r == self.spec_id(),
    {
        match self {
            TaskEvent::Finished(id) => *id,
            TaskEvent::Error(id, _) => *id,
        }
    }
}

/// How a task is to be run.
#[derive(Debug)]
pub struct TaskOptions {
    /// A name for logs and diagnostics.
    pub name: Option<String>,
    /// The deadline of the task, if it has one.
    pub timeout: Option<Duration>,
}

impl Default for TaskOptions {
    fn default() -> (r: TaskOptions)
        ensures
            r.name.is_none(),
            r.timeout.is_none(),
    {
        TaskOptions { name: None, timeout: None }
    }
}

impl Clone for TaskOptions {
    fn clone(&self) -> (r: TaskOptions)
        ensures
            r.timeout == self.timeout,
            match (r.name, self.name) {
                (Some(a), Some(b)) => a@ == b@,
                (None, None) => true,
                _ => false,
            },
    {
        TaskOptions {
            name: match &self.name {
                Some(n) => Some(n.clone()),
                None => None,
            },
            timeout: self.timeout,
        }
    }
}

impl TaskOptions {
    /// No name and no deadline.
    pub fn new() -> (r: TaskOptions)
        ensures
            r.name.is_none(),
            r.timeout.is_none(),
    {
        TaskOptions { name: None, timeout: None }
    }

    /// Sets the name.
    pub fn with_name(self, name: &str) -> (r: TaskOptions)
        ensures
            r.name matches Some(n) && n@ == name@,
            r.timeout == self.timeout,
    {
        TaskOptions { name: Some(String::from_str(name)), timeout: self.timeout }
    }

    /// Sets the deadline.
    pub fn with_timeout(self, timeout: Duration) -> (r: TaskOptions)
        ensures
            r.name == self.name,
            r.timeout == Some(timeout),
    {
        TaskOptions { name: self.name, timeout: Some(timeout) }
    }
}

/// Which of the racers of a task came in first.
#[derive(Debug)]
pub enum RaceOutcome {
    /// The cancellation signal fired.
    Cancelled,
    /// The deadline of this length passed.
    DeadlineFired(Duration),
    /// The work ran to its end.
    Completed,
}

/// Picks the winner among the racers that are ready at the same time:
/// cancellation comes before the deadline, and the deadline before the
/// work. `None` while no racer is ready.
pub fn resolve_race(cancelled: bool, deadline_fired: Option<Duration>, completed: bool) -> (r:
    Option<RaceOutcome>)
    ensures
        r == (if cancelled {
            Some(RaceOutcome::Cancelled)
        } else if let Some(d) = deadline_fired {
            Some(RaceOutcome::DeadlineFired(d))
        } else if completed {
            Some(RaceOutcome::Completed)
        } else {
            None
        }),
{
    if cancelled {
        Some(RaceOutcome::Cancelled)
    } else {
        match deadline_fired {
            Some(d) => Some(RaceOutcome::DeadlineFired(d)),
            None => if completed {
                Some(RaceOutcome::Completed)
            } else {
                None
            },
        }
    }
}

/// The one terminal event of a task whose race ended with `outcome`.
pub fn terminal_event(req_id: u64, outcome: RaceOutcome) -> (r: TaskEvent)
    ensures
        r.spec_id() == req_id,
        match outcome {
            RaceOutcome::Cancelled => r matches TaskEvent::Error(_, TaskError::Cancelled),
            RaceOutcome::DeadlineFired(d) => r matches TaskEvent::Error(_, TaskError::Timeout(t))
                && t == d,
            RaceOutcome::Completed => r is Finished,
        },
{
    match outcome {
        RaceOutcome::Cancelled => TaskEvent::Error(req_id, TaskError::Cancelled),
        RaceOutcome::DeadlineFired(d) => TaskEvent::Error(req_id, TaskError::Timeout(d)),
        RaceOutcome::Completed => TaskEvent::Finished(req_id),
    }
}

/// What the pool knows of a task in flight.
#[derive(Debug)]
pub struct Task {
    req_id: u64,
    spawned_at: Instant,
    name: Option<String>,
    timeout: Option<Duration>,
}

impl Task {
    /// The request id of the task.
    pub closed spec fn spec_req_id(&self) -> u64 {
        self.req_id
    }

    /// When the task was spawned.
    pub closed spec fn spec_spawned_at(&self) -> Instant {
        self.spawned_at
    }

    /// The name of the task, if it has one.
    pub closed spec fn spec_name(&self) -> Option<Seq<char>> {
        match self.name {
            Some(n) => Some(n@),
            None => None,
        }
    }

    /// The deadline of the task, if it has one.
    pub closed spec fn spec_timeout(&self) -> Option<Duration> {
        self.timeout
    }

    /// The record of a task spawned at `now` with these options.
    pub fn new(req_id: u64, options: TaskOptions, now: Instant) -> (r: Task)
        ensures
            r.spec_req_id() == req_id,
            r.spec_spawned_at() == now,
            r.spec_timeout() == options.timeout,
            r.spec_name() == (match options.name {
                Some(n) => Some(n@),
                None => None,
            }),
    {
        Task { req_id, spawned_at: now, name: options.name, timeout: options.timeout }
    }

    /// The request id of the task.
    pub fn req_id(&self) -> (r: u64)
        ensures
            r == self.spec_req_id(),
    {
        self.req_id
    }

    /// When the task was spawned.
    pub fn spawned_at(&self) -> (r: Instant)
        ensures
            r == self.spec_spawned_at(),
    {
        self.spawned_at
    }

    /// The name of the task, if it has one.
    pub fn name(&self) -> (r: Option<&str>)
        ensures
            match r {
                Some(n) => self.spec_name() == Some(n@),
                None => self.spec_name().is_none(),
            },
    {
        match &self.name {
            Some(n) => Some(n.as_str()),
            None => None,
        }
    }

    /// The deadline of the task, if it has one.
    pub fn timeout(&self) -> (r: Option<Duration>)
        ensures
            r == self.spec_timeout(),
    {
        self.timeout
    }
}

/// The registry of the tasks in flight, by request id.
pub struct TaskPool {
    tasks: HashMap<u64, Task>,
}

impl View for TaskPool {
    type V = Map<u64, Task>;

    closed spec fn view(&self) -> Map<u64, Task> {
        self.tasks@
    }
}

impl Default for TaskPool {
    fn default() -> (r: TaskPool)
        ensures
            r@ == Map::<u64, Task>::empty(),
    {
        TaskPool::new()
    }
}

impl TaskPool {
    /// An empty pool.
    pub fn new() -> (r: TaskPool)
        ensures
            r@ == Map::<u64, Task>::empty(),
    {
        TaskPool { tasks: HashMap::new() }
    }

    /// Enters a task spawned at `now` under its request id, in place of
    /// any task that was there under that id.
    pub fn spawn_at(&mut self, req_id: u64, options: TaskOptions, now: Instant)
        ensures
            final(self)@.dom() == old(self)@.dom().insert(req_id),
            forall|id: u64|
                id != req_id && old(self)@.contains_key(id) ==> final(self)@[id] == old(self)@[id],
            final(self)@[req_id].spec_req_id() == req_id,
            final(self)@[req_id].spec_spawned_at() == now,
            final(self)@[req_id].spec_timeout() == options.timeout,
            final(self)@[req_id].spec_name() == (match options.name {
                Some(n) => Some(n@),
                None => None,
            }),
    {
        let task = Task::new(req_id, options, now);
        self.tasks.insert(req_id, task);
    }

    /// Enters a task spawned now under its request id.
    pub fn spawn_with_options(&mut self, req_id: u64, options: TaskOptions)
        ensures
            final(self)@.dom() == old(self)@.dom().insert(req_id),
            forall|id: u64|
                id != req_id && old(self)@.contains_key(id) ==> final(self)@[id] == old(self)@[id],
            final(self)@[req_id].spec_req_id() == req_id,
            final(self)@[req_id].spec_timeout() == options.timeout,
            final(self)@[req_id].spec_name() == (match options.name {
                Some(n) => Some(n@),
                None => None,
            }),
    {
        let now = Instant::now();
        self.spawn_at(req_id, options, now);
    }

    /// Enters a task spawned now, without name or deadline.
    pub fn spawn(&mut self, req_id: u64)
        ensures
            final(self)@.dom() == old(self)@.dom().insert(req_id),
            forall|id: u64|
                id != req_id && old(self)@.contains_key(id) ==> final(self)@[id] == old(self)@[id],
            final(self)@[req_id].spec_req_id() == req_id,
            final(self)@[req_id].spec_timeout().is_none(),
            final(self)@[req_id].spec_name().is_none(),
    {
        self.spawn_with_options(req_id, TaskOptions::new());
    }

    /// Whether the task is in flight, and so is to be signalled. For an
    /// id that is not in the pool the answer is `false`.
    pub fn cancel_task(&self, req_id: u64) -> (r: bool)
        ensures
            r == self@.contains_key(req_id),
    {
        self.tasks.contains_key(&req_id)
    }

    /// The ids of all tasks in flight, each once: the tasks to signal
    /// when everything is cancelled.
    pub fn cancel_all(&self) -> (r: Vec<u64>)
        ensures
            r@.no_duplicates(),
            r@.to_set() == self@.dom(),
            r@.len() == self@.dom().len(),
    {
        map_keys(&self.tasks)
    }

    /// The number of tasks in flight.
    pub fn active_count(&self) -> (r: usize)
        ensures
            r == self@.dom().len(),
    {
        self.tasks.len()
    }

    /// Whether a task is in flight under this id.
    pub fn is_active(&self, req_id: u64) -> (r: bool)
        ensures
            r == self@.contains_key(req_id),
    {
        self.tasks.contains_key(&req_id)
    }

    /// What the pool knows of the task under this id.
    pub fn get_task(&self, req_id: u64) -> (r: Option<&Task>)
        ensures
            match r {
                Some(t) => self@.contains_key(req_id) && *t == self@[req_id],
                None => !self@.contains_key(req_id),
            },
    {
        self.tasks.get(&req_id)
    }

    /// Takes the task of a terminal event out of the pool. Returns the id
    /// of the event, for the callbacks of the caller, and whether the task
    /// was in flight: a second event for the same id finds it gone.
    pub fn process_event(&mut self, event: &TaskEvent) -> (r: (u64, bool))
        ensures
            r.0 == event.spec_id(),
            r.1 == old(self)@.contains_key(event.spec_id()),
            final(self)@ == old(self)@.remove(event.spec_id()),
    {
        let id = event.id();
        let was = self.tasks.remove(&id);
        (id, was.is_some())
    }
}

/// After the terminal event of a task was processed the task is not in
/// flight, so no second event for it is awaited, and every other task is
/// as it was.
pub proof fn lemma_event_is_terminal(pool: Map<u64, Task>, id: u64)
    ensures
        !pool.remove(id).contains_key(id),
        forall|other: u64| other != id ==> (pool.remove(id).contains_key(other)
            == pool.contains_key(other)),
{
}

} // verus!
