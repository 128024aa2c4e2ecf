//! A model of the store: its tables, what each request reads from them, and
//! how each request that writes changes them. Rows are kept in the order they
//! were stored; a stored row gets an id that no row of its table holds.
//!
//! Each handler states, beside its step, where its run stands against such a
//! store (`on`): the handler that `start` gives stands there, each step that
//! gets the store's answer keeps it there, and the answer a run finishes with
//! is the handler's result against the store (`..._result`), or, for one that
//! writes, the store after it is the one its change describes. The laws that
//! relate two handlers are stated over those results.
use vstd::prelude::*;

use crate::db::model::{ModelPartof, ModelTasklist, RegularPartOf, RegularTasklist, Routine, Task};
use crate::db::request::{DbReply, DbRequest};

verus! {

/// The tables of the store.
pub struct Store {
    pub models: Seq<ModelTasklist>,
    pub routines: Seq<Routine>,
    pub tasks: Seq<Task>,
    pub task_partof_model: Seq<ModelPartof>,
    pub task_partof_regular: Seq<RegularPartOf>,
    pub tasklists: Seq<RegularTasklist>,
}

/// The ids of the task lists among `rows` that were started from the routine
/// `routine`, in order.
pub open spec fn tasklist_ids_of(rows: Seq<RegularTasklist>, routine: i32) -> Seq<i32>
    decreases rows.len(),
{
    if rows.len() == 0 {
        Seq::empty()
    } else {
        let rest = tasklist_ids_of(rows.drop_last(), routine);
        if rows.last().routine_id == routine {
            rest.push(rows.last().id)
        } else {
            rest
        }
    }
}

/// The tasks that `rows` link to the model task list `model`, in order.
pub open spec fn model_task_ids_of(rows: Seq<ModelPartof>, model: i32) -> Seq<i32>
    decreases rows.len(),
{
    if rows.len() == 0 {
        Seq::empty()
    } else {
        let rest = model_task_ids_of(rows.drop_last(), model);
        if rows.last().model == model {
            rest.push(rows.last().task)
        } else {
            rest
        }
    }
}

/// The tasks that `rows` link to the task list `tasklist`, in order.
pub open spec fn tasklist_task_ids_of(rows: Seq<RegularPartOf>, tasklist: i32) -> Seq<i32>
    decreases rows.len(),
{
    if rows.len() == 0 {
        Seq::empty()
    } else {
        let rest = tasklist_task_ids_of(rows.drop_last(), tasklist);
        if rows.last().regular == tasklist {
            rest.push(rows.last().task)
        } else {
            rest
        }
    }
}

/// The rows of `tasks`, the rows whose id is `id` holding the state `state`.
pub open spec fn with_task_state(tasks: Seq<Task>, id: i32, state: String) -> Seq<Task> {
    tasks.map_values(
        |row: Task|
            if row.id == id {
                Task { id: row.id, name: row.name, state }
            } else {
                row
            },
    )
}

/// The rows of `tasks`, the rows whose id is `id` holding the name `name`.
pub open spec fn with_task_name(tasks: Seq<Task>, id: i32, name: String) -> Seq<Task> {
    tasks.map_values(
        |row: Task|
            if row.id == id {
                Task { id: row.id, name, state: row.state }
            } else {
                row
            },
    )
}

/// The rows of `models`, the rows whose id is `id` belonging to the routine
/// `routine`.
pub open spec fn with_model_routine(models: Seq<ModelTasklist>, id: i32, routine: i32) -> Seq<
    ModelTasklist,
> {
    models.map_values(
        |row: ModelTasklist|
            if row.id == id {
                ModelTasklist { id: row.id, routine }
            } else {
                row
            },
    )
}

/// The number of rows of `tasks` whose id is `id`.
pub open spec fn count_tasks(tasks: Seq<Task>, id: i32) -> nat
    decreases tasks.len(),
{
    if tasks.len() == 0 {
        0
    } else {
        count_tasks(tasks.drop_last(), id) + if tasks.last().id == id {
            1nat
        } else {
            0nat
        }
    }
}

/// The number of rows of `models` whose id is `id`.
pub open spec fn count_models(models: Seq<ModelTasklist>, id: i32) -> nat
    decreases models.len(),
{
    if models.len() == 0 {
        0
    } else {
        count_models(models.drop_last(), id) + if models.last().id == id {
            1nat
        } else {
            0nat
        }
    }
}

/// `next` is `rows` with one more row at the end, for which `last` holds.
pub open spec fn pushed<T>(rows: Seq<T>, next: Seq<T>, last: spec_fn(T) -> bool) -> bool {
    &&& next.len() == rows.len() + 1
    &&& next.take(rows.len() as int) == rows
    &&& last(next.last())
}

impl Store {
    /// Each of the tables keyed by id holds each id at most once.
    pub open spec fn wf(self) -> bool {
        &&& forall|i: int, j: int|
            0 <= i < j < self.routines.len() ==> self.routines[i].id != self.routines[j].id
        &&& forall|i: int, j: int|
            0 <= i < j < self.tasks.len() ==> self.tasks[i].id != self.tasks[j].id
        &&& forall|i: int, j: int|
            0 <= i < j < self.tasklists.len() ==> self.tasklists[i].id != self.tasklists[j].id
        &&& forall|i: int, j: int|
            0 <= i < j < self.models.len() ==> self.models[i].id != self.models[j].id
    }

    /// The routine `id`, if there is one.
    pub open spec fn find_routine(self, id: i32) -> Option<Routine> {
        if exists|i: int| 0 <= i < self.routines.len() && #[trigger] self.routines[i].id == id {
            Some(
                self.routines[choose|i: int|
                    0 <= i < self.routines.len() && #[trigger] self.routines[i].id == id],
            )
        } else {
            None
        }
    }

    /// The task list `id`, if there is one.
    pub open spec fn find_tasklist(self, id: i32) -> Option<RegularTasklist> {
        if exists|i: int| 0 <= i < self.tasklists.len() && #[trigger] self.tasklists[i].id == id {
            Some(
                self.tasklists[choose|i: int|
                    0 <= i < self.tasklists.len() && #[trigger] self.tasklists[i].id == id],
            )
        } else {
            None
        }
    }

    /// The task `id`, if there is one.
    pub open spec fn find_task(self, id: i32) -> Option<Task> {
        if exists|i: int| 0 <= i < self.tasks.len() && #[trigger] self.tasks[i].id == id {
            Some(
                self.tasks[choose|i: int| 0 <= i < self.tasks.len() && #[trigger] self.tasks[i].id == id],
            )
        } else {
            None
        }
    }

    /// No routine holds the id `id`.
    pub open spec fn routine_id_free(self, id: i32) -> bool {
        forall|i: int| 0 <= i < self.routines.len() ==> #[trigger] self.routines[i].id != id
    }

    /// No task holds the id `id`.
    pub open spec fn task_id_free(self, id: i32) -> bool {
        forall|i: int| 0 <= i < self.tasks.len() ==> #[trigger] self.tasks[i].id != id
    }

    /// No task list holds the id `id`.
    pub open spec fn tasklist_id_free(self, id: i32) -> bool {
        forall|i: int| 0 <= i < self.tasklists.len() ==> #[trigger] self.tasklists[i].id != id
    }

    /// No model task list holds the id `id`.
    pub open spec fn model_id_free(self, id: i32) -> bool {
        forall|i: int| 0 <= i < self.models.len() ==> #[trigger] self.models[i].id != id
    }

    /// The store answers the request `request`, which only reads, with `reply`.
    pub open spec fn reads(self, request: DbRequest, reply: DbReply) -> bool {
        match request {
            DbRequest::LoadRoutines => reply matches DbReply::Routines(v) && v@ == self.routines,
            DbRequest::FindRoutine { id } => reply matches DbReply::Routine(o) && o
                == self.find_routine(id),
            DbRequest::RoutineTasklists { routine } => reply matches DbReply::Ids(v) && v@
                == tasklist_ids_of(self.tasklists, routine),
            DbRequest::FindRoutineModel { routine } => reply matches DbReply::Model(o) && match self.find_routine(
                routine,
            ) {
                Some(row) => o == Some(row.model),
                None => o is None,
            },
            DbRequest::FindRoutineNameModel { routine } => reply matches DbReply::NameModel(o)
                && match self.find_routine(routine) {
                Some(row) => o == Some((row.name, row.model)),
                None => o is None,
            },
            DbRequest::ModelTasks { model } => reply matches DbReply::Ids(v) && v@
                == model_task_ids_of(self.task_partof_model, model),
            DbRequest::FindTaskName { task } => reply matches DbReply::TaskName(o) && match self.find_task(
                task,
            ) {
                Some(row) => o == Some(row.name),
                None => o is None,
            },
            DbRequest::LoadTasklists => reply matches DbReply::Tasklists(v) && v@
                == self.tasklists,
            DbRequest::FindTasklist { id } => reply matches DbReply::Tasklist(o) && o
                == self.find_tasklist(id),
            DbRequest::TasklistTasks { tasklist } => reply matches DbReply::Ids(v) && v@
                == tasklist_task_ids_of(self.task_partof_regular, tasklist),
            _ => false,
        }
    }

    /// The request `request` succeeds with `reply`, the store being `next` after
    /// it. A request that reads leaves the store as it is; a stored row goes at
    /// the end of its table, with an id its table does not hold; an update changes
    /// the rows with the id it names, and answers how many there are.
    pub open spec fn succeeds(self, request: DbRequest, reply: DbReply, next: Store) -> bool {
        !(reply is Failed) && {
            match request {
                DbRequest::InsertModel(row) => reply matches DbReply::Inserted(id)
                    && self.model_id_free(id) && next == Store {
                    models: self.models.push(ModelTasklist { id, routine: row.routine }),
                    ..self
                },
                DbRequest::InsertRoutine(row) => reply matches DbReply::Inserted(id)
                    && self.routine_id_free(id) && next == Store {
                    routines: self.routines.push(Routine { id, name: row.name, model: row.model }),
                    ..self
                },
                DbRequest::SetModelRoutine { model, routine } => reply matches DbReply::Updated(n)
                    && n == count_models(self.models, model) && next == Store {
                    models: with_model_routine(self.models, model, routine),
                    ..self
                },
                DbRequest::InsertTask(row) => reply matches DbReply::Inserted(id)
                    && self.task_id_free(id) && pushed(
                    self.tasks,
                    next.tasks,
                    |t: Task| t.id == id && t.name == row.name && t.state@ == row.state@,
                ) && next == Store { tasks: next.tasks, ..self },
                DbRequest::InsertTaskPartofModel(row) => reply is Stored && pushed(
                    self.task_partof_model,
                    next.task_partof_model,
                    |p: ModelPartof| p.model == row.model && p.task == row.task,
                ) && next == Store { task_partof_model: next.task_partof_model, ..self },
                DbRequest::InsertTasklist(row) => reply matches DbReply::Inserted(id)
                    && self.tasklist_id_free(id) && pushed(
                    self.tasklists,
                    next.tasklists,
                    |t: RegularTasklist|
                        t.id == id && t.name == row.name && t.state@ == row.state@ && t.routine_id
                            == row.routine_id && !t.archived,
                ) && next == Store { tasklists: next.tasklists, ..self },
                DbRequest::InsertTaskPartofRegular(row) => reply is Stored && pushed(
                    self.task_partof_regular,
                    next.task_partof_regular,
                    |p: RegularPartOf| p.regular == row.regular && p.task == row.task,
                ) && next == Store { task_partof_regular: next.task_partof_regular, ..self },
                DbRequest::SetTaskState { id, state } => reply matches DbReply::Updated(n) && n
                    == count_tasks(self.tasks, id) && next == Store {
                    tasks: with_task_state(self.tasks, id, state),
                    ..self
                },
                DbRequest::SetTaskName { id, name } => reply matches DbReply::Updated(n) && n
                    == count_tasks(self.tasks, id) && next == Store {
                    tasks: with_task_name(self.tasks, id, name),
                    ..self
                },
                _ => self.reads(request, reply) && next == self,
            }
        }
    }

    /// The request stores a row and then reads the id it was given.
    pub open spec fn stores_with_id(request: DbRequest) -> bool {
        ||| request is InsertModel
        ||| request is InsertRoutine
        ||| request is InsertTask
        ||| request is InsertTasklist
    }

    /// The store answers `request` with `reply` and is then `next`. A failed
    /// statement leaves the store as it was (the store undoes it); a request that
    /// stores a row and then reads its id may fail after the row was stored.
    pub open spec fn answers(self, request: DbRequest, reply: DbReply, next: Store) -> bool {
        if reply is Failed {
            next == self || (Store::stores_with_id(request) && exists|id: i32|
                self.succeeds(request, DbReply::Inserted(id), next))
        } else {
            self.succeeds(request, reply, next)
        }
    }

    /// Every row of this store is still in `next`, in its place.
    pub open spec fn kept_in(self, next: Store) -> bool {
        &&& self.models.len() <= next.models.len() && next.models.take(self.models.len() as int) == self.models
        &&& self.routines.len() <= next.routines.len() && next.routines.take(self.routines.len() as int) == self.routines
        &&& self.tasks.len() <= next.tasks.len() && next.tasks.take(self.tasks.len() as int) == self.tasks
        &&& self.task_partof_model.len() <= next.task_partof_model.len() && next.task_partof_model.take(
            self.task_partof_model.len() as int,
        ) == self.task_partof_model
        &&& self.task_partof_regular.len() <= next.task_partof_regular.len()
            && next.task_partof_regular.take(self.task_partof_regular.len() as int)
            == self.task_partof_regular
        &&& self.tasklists.len() <= next.tasklists.len() && next.tasklists.take(self.tasklists.len() as int) == self.tasklists
    }
}

/// In a well-formed store, the task list found by the id of a row is that row.
pub proof fn lemma_find_tasklist(s: Store, k: int)
    requires
        s.wf(),
        0 <= k < s.tasklists.len(),
    ensures
        s.find_tasklist(s.tasklists[k].id) == Some(s.tasklists[k]),
{
    let id = s.tasklists[k].id;
    assert(0 <= k < s.tasklists.len() && s.tasklists[k].id == id);
    let c = choose|i: int| 0 <= i < s.tasklists.len() && #[trigger] s.tasklists[i].id == id;
    if c < k {
        assert(s.tasklists[c].id != s.tasklists[k].id);
    } else if c > k {
        assert(s.tasklists[k].id != s.tasklists[c].id);
    }
}

/// In a well-formed store, the routine found by the id of a row is that row.
pub proof fn lemma_find_routine(s: Store, k: int)
    requires
        s.wf(),
        0 <= k < s.routines.len(),
    ensures
        s.find_routine(s.routines[k].id) == Some(s.routines[k]),
{
    let id = s.routines[k].id;
    assert(0 <= k < s.routines.len() && s.routines[k].id == id);
    let c = choose|i: int| 0 <= i < s.routines.len() && #[trigger] s.routines[i].id == id;
    if c < k {
        assert(s.routines[c].id != s.routines[k].id);
    } else if c > k {
        assert(s.routines[k].id != s.routines[c].id);
    }
}

/// In a well-formed store, the task found by the id of a row is that row.
pub proof fn lemma_find_task(s: Store, k: int)
    requires
        s.wf(),
        0 <= k < s.tasks.len(),
    ensures
        s.find_task(s.tasks[k].id) == Some(s.tasks[k]),
{
    let id = s.tasks[k].id;
    assert(0 <= k < s.tasks.len() && s.tasks[k].id == id);
    let c = choose|i: int| 0 <= i < s.tasks.len() && #[trigger] s.tasks[i].id == id;
    if c < k {
        assert(s.tasks[c].id != s.tasks[k].id);
    } else if c > k {
        assert(s.tasks[k].id != s.tasks[c].id);
    }
}

/// A failed request keeps every row the store held, in its place.
pub proof fn lemma_failure_keeps_rows(s: Store, request: DbRequest, e: String, next: Store)
    requires
        s.answers(request, DbReply::Failed(e), next),
    ensures
        s.kept_in(next),
{
    if next == s {
        assert(s.models.take(s.models.len() as int) =~= s.models);
        assert(s.routines.take(s.routines.len() as int) =~= s.routines);
        assert(s.tasks.take(s.tasks.len() as int) =~= s.tasks);
        assert(s.task_partof_model.take(s.task_partof_model.len() as int) =~= s.task_partof_model);
        assert(s.task_partof_regular.take(s.task_partof_regular.len() as int) =~= s.task_partof_regular);
        assert(s.tasklists.take(s.tasklists.len() as int) =~= s.tasklists);
    } else {
        let id = choose|id: i32| s.succeeds(request, DbReply::Inserted(id), next);
        assert(s.models.take(s.models.len() as int) =~= s.models);
        assert(s.routines.take(s.routines.len() as int) =~= s.routines);
        assert(s.tasks.take(s.tasks.len() as int) =~= s.tasks);
        assert(s.task_partof_model.take(s.task_partof_model.len() as int) =~= s.task_partof_model);
        assert(s.task_partof_regular.take(s.task_partof_regular.len() as int) =~= s.task_partof_regular);
        assert(s.tasklists.take(s.tasklists.len() as int) =~= s.tasklists);
        match request {
            DbRequest::InsertModel(row) => {
                assert(next.models.take(s.models.len() as int) =~= s.models);
            },
            DbRequest::InsertRoutine(row) => {
                assert(next.routines.take(s.routines.len() as int) =~= s.routines);
            },
            _ => {},
        }
    }
}

} // verus!
