//! One training example and its editing state.
use vstd::prelude::*;

use crate::codec::Fields;

verus! {

/// Editing state of a record; never written to disk.
#[derive(Debug, Clone, Copy, PartialEq, Eq, Structural)]
pub enum TaskState {
    Idle,
    Editing,
    Done,
}

impl Default for TaskState {
    fn default() -> (r: Self)
        ensures
            r == TaskState::Idle,
    {
        TaskState::Idle
    }
}

/// What a user does to one record.
#[derive(Debug, Clone)]
pub enum TaskMessage {
    /// Tick (`true`) or untick (`false`) the record as accepted.
    Completed(bool),
    /// Begin editing.
    Edit,
    InstructionChanged(String),
    InputChanged(String),
    /// Finish editing.
    FinishEdition,
    /// Remove the record from the dataset.
    Delete,
}

/// The editing state after `m`: `Idle -> Editing` on `Edit`,
/// `Editing -> Idle` on `FinishEdition`, `Idle | Editing -> Done` on
/// `Completed(true)`, `Done -> Idle` on `Completed(false)`; anything else
/// leaves the state as it is.
pub open spec fn next_state(s: TaskState, m: TaskMessage) -> TaskState {
    match m {
        TaskMessage::Edit => if s == TaskState::Idle {
            TaskState::Editing
        } else {
            s
        },
        TaskMessage::FinishEdition => if s == TaskState::Editing {
            TaskState::Idle
        } else {
            s
        },
        TaskMessage::Completed(true) => TaskState::Done,
        TaskMessage::Completed(false) => if s == TaskState::Done {
            TaskState::Idle
        } else {
            s
        },
        _ => s,
    }
}

/// One training example.
#[derive(Debug, Clone)]
pub struct Instruction {
    pub instruction: String,
    pub input: String,
    pub output: String,
    /// Editing state, kept in memory only.
    pub state: TaskState,
}

impl Instruction {
    /// The persisted fields: instruction, input, output.
    pub open spec fn fields(&self) -> Fields {
        (self.instruction@, self.input@, self.output@)
    }

    /// The record after `m`: a field change replaces that field, an editing
    /// event moves the state; `Delete` is the dataset's to carry out.
    pub open spec fn after(&self, m: TaskMessage) -> Instruction {
        match m {
            TaskMessage::InstructionChanged(v) => Instruction { instruction: v, ..*self },
            TaskMessage::InputChanged(v) => Instruction { input: v, ..*self },
            _ => Instruction { state: next_state(self.state, m), ..*self },
        }
    }

    /// A fresh record, in the `Idle` state.
    pub fn new(instruction: String, input: String, output: String) -> (r: Instruction)
        ensures
            r.fields() == (instruction@, input@, output@),
            r.state == TaskState::Idle,
    {
        Instruction { instruction, input, output, state: TaskState::Idle }
    }

    /// Applies one user action to this record.
    pub fn update(&mut self, m: TaskMessage)
        ensures
            final(self).fields() == old(self).after(m).fields(),
            final(self).state == old(self).after(m).state,
    {
        match m {
            TaskMessage::InstructionChanged(v) => {
                self.instruction = v;
            },
            TaskMessage::InputChanged(v) => {
                self.input = v;
            },
            TaskMessage::Edit => {
                if self.state == TaskState::Idle {
                    self.state = TaskState::Editing;
                }
            },
            TaskMessage::FinishEdition => {
                if self.state == TaskState::Editing {
                    self.state = TaskState::Idle;
                }
            },
            TaskMessage::Completed(done) => {
                if done {
                    self.state = TaskState::Done;
                } else if self.state == TaskState::Done {
                    self.state = TaskState::Idle;
                }
            },
            TaskMessage::Delete => {},
        }
    }
}

} // verus!
