//! The queue of the tasks that have been issued to machines.

use vstd::prelude::*;
use std::collections::HashMap;
use crate::tasks::task::Task;

verus! {

/// Holds the tasks that have been issued, by identifier.
pub struct TasksQueue {
    issued_tasks: HashMap<u16, Task>,
}

impl TasksQueue {
    /// How many tasks have been issued.
    pub closed spec fn spec_issued_count(&self) -> nat {
        self.issued_tasks@.len()
    }

    /// Creates an empty queue.
    pub fn new() -> (r: TasksQueue)
        ensures
            r.spec_issued_count() == 0,
    {
        TasksQueue { issued_tasks: HashMap::new() }
    }

    /// Hands out a task; nothing is issued yet.
    pub fn get_task() {
    }
}

} // verus!
