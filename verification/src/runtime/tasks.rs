//! Background task groups of a connected instance.
use vstd::prelude::*;

use crate::model::error::ErrorCode;

verus! {

/// Life cycle of a task group.
#[derive(Debug, Clone, Copy, PartialEq, Eq, Structural)]
pub enum TaskGroupState {
    Running,
    Cancelling,
    Finished,
}

/// How a task group ended.
#[derive(Debug, Clone, Copy, PartialEq, Eq, Structural)]
pub enum TaskExit {
    Clean,
    Failed(ErrorCode),
}

/// The tasks serving one connection.
#[derive(Debug, Clone, Copy)]
pub struct TaskGroup {
    state: TaskGroupState,
    exit: Option<TaskExit>,
}

impl View for TaskGroup {
    type V = (TaskGroupState, Option<TaskExit>);

    closed spec fn view(&self) -> (TaskGroupState, Option<TaskExit>) {
        (self.state, self.exit)
    }
}

impl TaskGroup {
    /// The group of a fresh connection.
    pub closed spec fn spec_running() -> TaskGroup {
        TaskGroup { state: TaskGroupState::Running, exit: None }
    }

    /// The group once it ended with `exit`.
    pub closed spec fn spec_finished(exit: TaskExit) -> TaskGroup {
        TaskGroup { state: TaskGroupState::Finished, exit: Some(exit) }
    }

    /// A running group that has not exited.
    pub fn new_for_tests() -> (g: Self)
        ensures
            g@ == (TaskGroupState::Running, None::<TaskExit>),
            g == Self::spec_running(),
    {
        TaskGroup { state: TaskGroupState::Running, exit: None }
    }

    pub fn state(&self) -> (s: TaskGroupState)
        ensures
            s == self@.0,
    {
        self.state
    }

    /// A running group starts cancelling; any other state is kept.
    pub fn cancel(&mut self)
        ensures
            final(self)@.0 == (if old(self)@.0 == TaskGroupState::Running {
                TaskGroupState::Cancelling
            } else {
                old(self)@.0
            }),
            final(self)@.1 == old(self)@.1,
    {
        if self.state == TaskGroupState::Running {
            self.state = TaskGroupState::Cancelling;
        }
    }

    /// Records how the group ended; it is then finished.
    pub fn finish(&mut self, exit: TaskExit)
        ensures
            final(self)@ == (TaskGroupState::Finished, Some(exit)),
            *final(self) == Self::spec_finished(exit),
    {
        self.exit = Some(exit);
        self.state = TaskGroupState::Finished;
    }

    pub fn exit(&self) -> (e: Option<TaskExit>)
        ensures
            e == self@.1,
    {
        self.exit
    }
}

} // verus!
