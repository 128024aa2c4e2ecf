//! The requests the server's handlers make of the store, the replies they get,
//! and the shape of a handler that runs as a sequence of such requests.
use vstd::prelude::*;

use crate::db::model::insert;
use crate::db::model::{RegularTasklist, Routine};
use crate::error::ServiceError;

verus! {

/// One request to the store.
#[derive(Debug, Clone)]
pub enum DbRequest {
    /// All routines.
    LoadRoutines,
    /// The routine `id`, if there is one.
    FindRoutine { id: i32 },
    /// The ids of the task lists started from the routine `routine`.
    RoutineTasklists { routine: i32 },
    /// The model of the routine `routine`, if there is such a routine.
    FindRoutineModel { routine: i32 },
    /// The name and the model of the routine `routine`, if there is one.
    FindRoutineNameModel { routine: i32 },
    /// Store a model task list; the reply is its id.
    InsertModel(insert::ModelTasklist),
    /// Store a routine; the reply is its id.
    InsertRoutine(insert::Routine),
    /// Set the routine of the model task list `model`; the reply counts the rows changed.
    SetModelRoutine { model: i32, routine: i32 },
    /// Store a task; the reply is its id.
    InsertTask(insert::Task),
    /// Store the link of a task to a model task list.
    InsertTaskPartofModel(insert::TaskPartofModel),
    /// The ids of the tasks of the model task list `model`.
    ModelTasks { model: i32 },
    /// Store a task list; the reply is its id.
    InsertTasklist(insert::RegularTasklist),
    /// The name of the task `task`, if there is one.
    FindTaskName { task: i32 },
    /// Store the link of a task to a task list.
    InsertTaskPartofRegular(insert::TaskPartofRegular),
    /// All task lists.
    LoadTasklists,
    /// The task list `id`, if there is one.
    FindTasklist { id: i32 },
    /// The ids of the tasks of the task list `tasklist`.
    TasklistTasks { tasklist: i32 },
    /// Set the state of the task `id`; the reply counts the rows changed.
    SetTaskState { id: i32, state: String },
    /// Set the name of the task `id`; the reply counts the rows changed.
    SetTaskName { id: i32, name: String },
}

/// What the store answered.
#[derive(Debug, Clone)]
pub enum DbReply {
    /// The store failed, with this message.
    Failed(String),
    Routines(Vec<Routine>),
    Routine(Option<Routine>),
    Ids(Vec<i32>),
    Model(Option<i32>),
    NameModel(Option<(String, i32)>),
    /// The id of the row just stored.
    Inserted(i32),
    /// The row was stored.
    Stored,
    /// The number of rows changed.
    Updated(usize),
    TaskName(Option<String>),
    Tasklists(Vec<RegularTasklist>),
    Tasklist(Option<RegularTasklist>),
}

/// `reply` is of the kind that answers `request`: a failure, or the kind the
/// request asks for.
pub open spec fn answers(request: DbRequest, reply: DbReply) -> bool {
    match reply {
        DbReply::Failed(_) => true,
        DbReply::Routines(_) => request is LoadRoutines,
        DbReply::Routine(_) => request is FindRoutine,
        DbReply::Ids(_) => request is RoutineTasklists || request is ModelTasks
            || request is TasklistTasks,
        DbReply::Model(_) => request is FindRoutineModel,
        DbReply::NameModel(_) => request is FindRoutineNameModel,
        DbReply::Inserted(_) => request is InsertModel || request is InsertRoutine
            || request is InsertTask || request is InsertTasklist,
        DbReply::Stored => request is InsertTaskPartofModel || request is InsertTaskPartofRegular,
        DbReply::Updated(_) => request is SetModelRoutine || request is SetTaskState
            || request is SetTaskName,
        DbReply::TaskName(_) => request is FindTaskName,
        DbReply::Tasklists(_) => request is LoadTasklists,
        DbReply::Tasklist(_) => request is FindTasklist,
    }
}

impl DbRequest {
    /// Whether `reply` is of the kind that answers this request.
    pub fn expects(&self, reply: &DbReply) -> (r: bool)
        ensures
            r == answers(*self, *reply),
    {
        match reply {
            DbReply::Failed(_) => true,
            DbReply::Routines(_) => matches!(self, DbRequest::LoadRoutines),
            DbReply::Routine(_) => matches!(self, DbRequest::FindRoutine { .. }),
            DbReply::Ids(_) => matches!(self, DbRequest::RoutineTasklists { .. })
                || matches!(self, DbRequest::ModelTasks { .. })
                || matches!(self, DbRequest::TasklistTasks { .. }),
            DbReply::Model(_) => matches!(self, DbRequest::FindRoutineModel { .. }),
            DbReply::NameModel(_) => matches!(self, DbRequest::FindRoutineNameModel { .. }),
            DbReply::Inserted(_) => matches!(self, DbRequest::InsertModel(_))
                || matches!(self, DbRequest::InsertRoutine(_))
                || matches!(self, DbRequest::InsertTask(_))
                || matches!(self, DbRequest::InsertTasklist(_)),
            DbReply::Stored => matches!(self, DbRequest::InsertTaskPartofModel(_))
                || matches!(self, DbRequest::InsertTaskPartofRegular(_)),
            DbReply::Updated(_) => matches!(self, DbRequest::SetModelRoutine { .. })
                || matches!(self, DbRequest::SetTaskState { .. })
                || matches!(self, DbRequest::SetTaskName { .. }),
            DbReply::TaskName(_) => matches!(self, DbRequest::FindTaskName { .. }),
            DbReply::Tasklists(_) => matches!(self, DbRequest::LoadTasklists),
            DbReply::Tasklist(_) => matches!(self, DbRequest::FindTasklist { .. }),
        }
    }
}

/// Where a handler stands after a reply: waiting on its next request (the
/// handler holds it), or done with its answer.
pub enum Progress<M, T> {
    Next(M),
    Finish(Result<T, ServiceError>),
}

} // verus!
