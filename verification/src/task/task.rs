//! Types related to task management.

use vstd::prelude::*;

verus! {

/// Task status: UnInit, Ready, Running, Exited.
#[derive(Clone, Copy, PartialEq, Eq, Structural, Debug)]
pub enum TaskStatus {
    UnInit,
    Ready,
    Running,
    Exited,
}

impl TaskStatus {
    /// The printed name of the status.
    pub open spec fn spec_name(self) -> Seq<char> {
        match self {
            TaskStatus::UnInit => "UnInit"@,
            TaskStatus::Ready => "Ready"@,
            TaskStatus::Running => "Running"@,
            TaskStatus::Exited => "Exited"@,
        }
    }

    /// The text by which the status is printed.
    pub fn name(&self) -> (s: &'static str)
        ensures
            s@ == self.spec_name(),
    {
        match self {
            TaskStatus::UnInit => "UnInit",
            TaskStatus::Ready => "Ready",
            TaskStatus::Running => "Running",
            TaskStatus::Exited => "Exited",
        }
    }
}

/// Task control block: the status and the time accounting of one task.
#[derive(Clone, Copy, Debug)]
pub struct TaskControlBlock {
    pub task_status: TaskStatus,
    /// Time the task has been running, as last measured.
    pub task_time: isize,
    /// Time at which the task first ran.
    pub task_start_time: isize,
    /// The task has run at least once, so its start time is set.
    pub task_started: bool,
}

} // verus!
