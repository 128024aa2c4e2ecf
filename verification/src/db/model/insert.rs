//! The rows the server writes to the store.
use vstd::prelude::*;

use crate::model;
use crate::model::State;

verus! {

/// A task to store: its name, and its state's text.
#[derive(Debug, Clone)]
pub struct Task {
    pub name: String,
    pub state: &'static str,
}

impl From<model::Task> for Task {
    /// The row of a task of the model.
    fn from(other: model::Task) -> (r: Task)
        ensures
            r.name == other.name,
            r.state == other.state.text(),
    {
        Task { name: other.name, state: other.state.as_str() }
    }
}

impl vstd::std_specs::convert::FromSpecImpl<model::Task> for Task {
    open spec fn obeys_from_spec() -> bool {
        true
    }

    open spec fn from_spec(other: model::Task) -> Task {
        Task { name: other.name, state: other.state.text() }
    }
}

/// A task list to store, started from a routine.
#[derive(Debug, Clone)]
pub struct RegularTasklist {
    pub name: String,
    pub state: &'static str,
    pub routine_id: i32,
}

/// A link to store, of a task to a task list.
#[derive(Debug, Clone, Copy, PartialEq, Eq, Structural)]
pub struct TaskPartofRegular {
    pub regular: i32,
    pub task: i32,
}

/// A link to store, of a task to a model task list.
#[derive(Debug, Clone, Copy, PartialEq, Eq, Structural)]
pub struct TaskPartofModel {
    pub model: i32,
    pub task: i32,
}

/// A routine to store.
#[derive(Debug, Clone)]
pub struct Routine {
    pub name: String,
    pub model: i32,
}

/// A model task list to store.
#[derive(Debug, Clone, Copy, PartialEq, Eq, Structural)]
pub struct ModelTasklist {
    pub routine: i32,
}

} // verus!
