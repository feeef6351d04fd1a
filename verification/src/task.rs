//! Tasks and their fixed priorities.

use vstd::prelude::*;

verus! {

/// What a task asks the agent to do at its target.
#[derive(Clone, Copy, Debug, PartialEq, Eq, Hash)]
pub enum TaskAction {
    DestroyFire,
    DestroyGarbage,
    PutGarbageInBin,
}

impl TaskAction {
    /// The priority of an action: fire first, then garbage, then deposits.
    pub open spec fn priority(self) -> nat {
        match self {
            TaskAction::DestroyFire => 100,
            TaskAction::DestroyGarbage => 50,
            TaskAction::PutGarbageInBin => 1,
        }
    }

    /// The number under which an action is stored in the queue.
    pub open spec fn code(self) -> u8 {
        match self {
            TaskAction::DestroyFire => 0,
            TaskAction::DestroyGarbage => 1,
            TaskAction::PutGarbageInBin => 2,
        }
    }

    /// The action stored under `code`, for the three codes in use.
    pub open spec fn of_code(code: u8) -> Option<TaskAction> {
        if code == 0 {
            Some(TaskAction::DestroyFire)
        } else if code == 1 {
            Some(TaskAction::DestroyGarbage)
        } else if code == 2 {
            Some(TaskAction::PutGarbageInBin)
        } else {
            None
        }
    }

    pub fn get_priority_for_task(&self) -> (p: usize)
        ensures
            p == self.priority(),
    {
        match self {
            TaskAction::DestroyFire => 100,
            TaskAction::DestroyGarbage => 50,
            TaskAction::PutGarbageInBin => 1,
        }
    }

    pub fn to_code(&self) -> (c: u8)
        ensures
            c == self.code(),
    {
        match self {
            TaskAction::DestroyFire => 0,
            TaskAction::DestroyGarbage => 1,
            TaskAction::PutGarbageInBin => 2,
        }
    }

    pub fn from_code(code: u8) -> (a: Option<TaskAction>)
        ensures
            a == TaskAction::of_code(code),
    {
        if code == 0 {
            Some(TaskAction::DestroyFire)
        } else if code == 1 {
            Some(TaskAction::DestroyGarbage)
        } else if code == 2 {
            Some(TaskAction::PutGarbageInBin)
        } else {
            None
        }
    }

    /// Codes and actions correspond one to one.
    pub proof fn lemma_code_round_trip(self)
        ensures
            TaskAction::of_code(self.code()) == Some(self),
    {
    }
}

/// A pending action at an absolute `(row, col)` coordinate.
#[derive(Clone, Copy, Debug, PartialEq, Eq, Hash)]
pub struct Task {
    pub action: TaskAction,
    /// Coordinates in the form of row, col
    pub coordinates: (usize, usize),
}

impl Task {
    pub fn new(action: TaskAction, coordinates: (usize, usize)) -> (task: Task)
        ensures
            task.action == action,
            task.coordinates == coordinates,
    {
        Task { action, coordinates }
    }

    /// The priority of a task is that of its action.
    pub open spec fn priority(self) -> nat {
        self.action.priority()
    }

    /// The queue entry under which the task is stored.
    pub open spec fn entry(self) -> (u8, usize, usize) {
        (self.action.code(), self.coordinates.0, self.coordinates.1)
    }
}

} // verus!
