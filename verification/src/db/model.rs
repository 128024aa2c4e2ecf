//! The rows of the store, as they are read, and how they become the model.
pub mod insert;

use vstd::prelude::*;

use crate::db::request::DbRequest;
use crate::model;
use crate::model::{unknown_state_prefix, State};
use crate::text::debug_text;

verus! {

/// A stored routine.
#[derive(Debug, Clone)]
pub struct Routine {
    pub id: i32,
    pub name: String,
    pub model: i32,
}

impl Routine {
    /// The routine of the model, with the ids of the task lists started from it.
    pub fn to_model(self, tasklists: Vec<i32>) -> (r: Result<model::Routine, String>)
        ensures
            r matches Ok(m) && m.id == self.id && m.name == self.name && m.model == self.model
                && m.repetition == model::Repetition::Manual && m.tasklists == tasklists,
    {
        Ok(
            model::Routine {
                id: self.id,
                model: self.model,
                name: self.name,
                repetition: model::Repetition::Manual,
                tasklists,
            },
        )
    }

    /// The request for the ids of the task lists started from this routine.
    pub fn tasklists(&self) -> (r: DbRequest)
        ensures
            r == (DbRequest::RoutineTasklists { routine: self.id }),
    {
        DbRequest::RoutineTasklists { routine: self.id }
    }
}

/// A stored model task list: the one each routine copies from.
#[derive(Debug, Clone)]
pub struct ModelTasklist {
    pub id: i32,
    pub routine: i32,
}

/// A stored user.
#[derive(Debug, Clone)]
pub struct User {
    pub id: i32,
    pub name: String,
}

/// A stored task list, its state as text.
#[derive(Debug, Clone)]
pub struct RegularTasklist {
    pub id: i32,
    pub name: String,
    pub state: String,
    pub routine_id: i32,
    pub archived: bool,
}

impl RegularTasklist {
    /// The task list of the model, with the given tasks; refused when the stored
    /// state is no state's text.
    pub fn to_model(self, tasks: Vec<i32>) -> (r: Result<model::Tasklist, String>)
        ensures
            match r {
                Ok(t) => State::from_name(self.state@) == Some(t.state) && t.id == self.id
                    && t.name == self.name && t.tasks == tasks,
                Err(msg) => State::from_name(self.state@).is_none() && msg@
                    == unknown_state_prefix() + debug_text(self.state@),
            },
    {
        let state = State::parse(self.state.as_str())?;
        Ok(model::Tasklist { id: self.id, name: self.name, state, tasks })
    }
}

/// A stored task, its state as text.
#[derive(Debug, Clone)]
pub struct Task {
    pub id: i32,
    pub name: String,
    pub state: String,
}

impl Task {
    /// The task of the model; refused when the stored state is no state's text.
    pub fn to_model(self) -> (r: Result<model::Task, String>)
        ensures
            match r {
                Ok(t) => State::from_name(self.state@) == Some(t.state) && t.name == self.name,
                Err(msg) => State::from_name(self.state@).is_none() && msg@
                    == unknown_state_prefix() + debug_text(self.state@),
            },
    {
        let state = State::parse(self.state.as_str())?;
        Ok(model::Task { name: self.name, state })
    }
}

/// A task the server stores (its row made by `insert::Task::from`) reads back
/// as the same task: the stored state's text is read back as the task's state,
/// so `Task::to_model` gives the task's name and state.
pub proof fn lemma_stored_task_reads_back(task: model::Task, stored: Task)
    requires
        stored.name == task.name,
        stored.state@ == task.state.text()@,
    ensures
        State::from_name(stored.state@) == Some(task.state),
{
    crate::model::lemma_state_name_round_trip(task.state);
}

/// A stored link of a task to a task list.
#[derive(Debug, Clone)]
pub struct RegularPartOf {
    pub _id: i32,
    pub regular: i32,
    pub task: i32,
}

/// A stored assignment of a task to a user.
#[derive(Debug, Clone)]
pub struct Assigned {
    pub _id: i32,
    pub task: i32,
    pub user: i32,
}

/// A stored membership of a user in a model task list.
#[derive(Debug, Clone)]
pub struct ModelMember {
    pub _id: i32,
    pub tasklist: i32,
    pub user: i32,
}

/// A stored membership of a user in a routine.
#[derive(Debug, Clone)]
pub struct RoutineMember {
    pub _id: i32,
    pub routine: i32,
    pub user: i32,
}

/// A stored membership of a user in a task list.
#[derive(Debug, Clone)]
pub struct RegularMember {
    pub _id: i32,
    pub tasklist: i32,
    pub user: i32,
}

/// A stored link of a task to a model task list.
#[derive(Debug, Clone)]
pub struct ModelPartof {
    pub _id: i32,
    pub model: i32,
    pub task: i32,
}

} // verus!
