//! The routes under `/routines`: each runs as a sequence of requests to the
//! store, and says after each reply what comes next.
use vstd::prelude::*;

use crate::db;
use crate::db::model::insert;
use crate::db::request::{answers, DbReply, DbRequest, Progress};
use crate::db::store::{
    lemma_failure_keeps_rows, lemma_find_routine, lemma_find_task, lemma_find_tasklist,
    tasklist_task_ids_of, model_task_ids_of, pushed, tasklist_ids_of, with_model_routine, Store,
};
use crate::error::{not_found, not_found_text, ServiceError};
use crate::model;
use crate::model::State;
use crate::server::parse_path_id;
use crate::text::{i32_to_string, parse_i32_spec, signed_decimal};

verus! {

/// `r` is the routine made of the stored `row`, whatever its task lists.
pub open spec fn routine_made_from(row: db::model::Routine, r: model::Routine) -> bool {
    &&& r.id == row.id
    &&& r.name == row.name
    &&& r.model == row.model
    &&& r.repetition == model::Repetition::Manual
}

fn copy_routine_row(row: &db::model::Routine) -> (r: db::model::Routine)
    ensures
        r == *row,
{
    db::model::Routine { id: row.id, name: row.name.clone(), model: row.model }
}

/// `x` is the routine made of the stored `row`, with the task lists the store
/// `s` holds as started from it.
pub open spec fn routine_in_store(s: Store, row: db::model::Routine, x: model::Routine) -> bool {
    routine_made_from(row, x) && x.tasklists@ == tasklist_ids_of(s.tasklists, row.id)
}

/// `r` is what listing the routines gives against the store `s`.
pub open spec fn list_result(s: Store, r: Result<Vec<model::Routine>, ServiceError>) -> bool {
    r matches Ok(v) && v@.len() == s.routines.len() && forall|i: int|
        0 <= i < v@.len() ==> routine_in_store(s, s.routines[i], #[trigger] v@[i])
}

/// `r` is what reading the routine `id` gives against the store `s`.
pub open spec fn get_result(s: Store, id: i32, r: Result<model::Routine, ServiceError>) -> bool {
    match s.find_routine(id) {
        None => r matches Err(ServiceError::NotFound(m)) && m@ == not_found_text("Routine"@, id as int),
        Some(row) => r matches Ok(x) && routine_in_store(s, row, x),
    }
}

/// `r` is what listing the model tasks of the routine `id` gives against the
/// store `s`.
pub open spec fn routine_tasks_result(s: Store, id: i32, r: Result<Vec<i32>, ServiceError>) -> bool {
    match s.find_routine(id) {
        None => r matches Err(ServiceError::NotFound(m)) && m@ == not_found_text("Routine"@, id as int),
        Some(row) => r matches Ok(v) && v@ == model_task_ids_of(s.task_partof_model, row.model),
    }
}

/// Each routine that listing the routines gives is what reading it by its id
/// gives, against the same store; an id that none of them holds is a 404.
pub proof fn lemma_get_agrees_with_list(
    s: Store,
    all: Vec<model::Routine>,
    id: i32,
    r: Result<model::Routine, ServiceError>,
)
    requires
        s.wf(),
        list_result(s, Ok(all)),
        get_result(s, id, r),
    ensures
        forall|i: int|
            0 <= i < all@.len() && #[trigger] all@[i].id == id ==> (r matches Ok(x) && x.id
                == all@[i].id && x.name == all@[i].name && x.model == all@[i].model
                && x.repetition == all@[i].repetition && x.tasklists@ == all@[i].tasklists@),
        (forall|i: int| 0 <= i < all@.len() ==> #[trigger] all@[i].id != id) ==> (
        r matches Err(ServiceError::NotFound(m)) && m@ == not_found_text("Routine"@, id as int)),
{
    assert forall|i: int| 0 <= i < all@.len() && #[trigger] all@[i].id == id implies (r matches Ok(
        x,
    ) && x.id == all@[i].id && x.name == all@[i].name && x.model == all@[i].model && x.repetition
        == all@[i].repetition && x.tasklists@ == all@[i].tasklists@) by {
        assert(routine_in_store(s, s.routines[i], all@[i]));
        lemma_find_routine(s, i);
    }
    if forall|i: int| 0 <= i < all@.len() ==> #[trigger] all@[i].id != id {
        if exists|j: int| 0 <= j < s.routines.len() && #[trigger] s.routines[j].id == id {
            let j = choose|j: int| 0 <= j < s.routines.len() && #[trigger] s.routines[j].id == id;
            assert(routine_in_store(s, s.routines[j], all@[j]));
            assert(all@[j].id != id);
        }
    }
}

/// Where listing the routines stands.
pub enum ListPhase {
    /// Waiting for all stored routines.
    Load,
    /// Waiting for the task lists of `rows[done.len()]`; `done` holds the
    /// routines made of the rows before it.
    Tasklists { rows: Vec<db::model::Routine>, done: Vec<model::Routine> },
}

/// `GET /routines`: the stored routines, then the task lists of each in turn.
pub struct List {
    pub phase: ListPhase,
    pub request: DbRequest,
}

impl List {
    /// Starts listing the routines.
    pub fn start() -> (m: List)
        ensures
            m.wf(),
            m.phase == ListPhase::Load,
            forall|s: Store| #[trigger] m.on(s),
    {
        List { phase: ListPhase::Load, request: DbRequest::LoadRoutines }
    }

    /// The request waited on is the one the phase calls for, and each routine made
    /// so far is made of the row in its place.
    pub open spec fn wf(self) -> bool {
        match self.phase {
            ListPhase::Load => self.request == DbRequest::LoadRoutines,
            ListPhase::Tasklists { rows, done } => {
                &&& done.len() < rows.len()
                &&& self.request == (DbRequest::RoutineTasklists {
                    routine: rows@[done.len() as int].id,
                })
                &&& forall|i: int|
                    0 <= i < done.len() ==> routine_made_from(rows@[i], #[trigger] done@[i])
            },
        }
    }

    /// The request to make of the store next.
    pub fn request(&self) -> (r: &DbRequest)
        ensures
            *r == self.request,
    {
        &self.request
    }

    /// The run stands where listing the routines against the store `s` stands:
    /// the rows are the store's, and each routine made so far holds the task lists
    /// the store holds as started from it.
    pub open spec fn on(self, s: Store) -> bool {
        match self.phase {
            ListPhase::Load => true,
            ListPhase::Tasklists { rows, done } => rows@ == s.routines && forall|i: int|
                0 <= i < done@.len() ==> routine_in_store(s, rows@[i], #[trigger] done@[i]),
        }
    }

    /// Takes the store's reply. A failure of the store is a 500 answer. Each
    /// stored routine, in order, gets the ids of its task lists; after the last,
    /// all routines are answered.
    pub fn step(self, reply: DbReply) -> (p: Progress<List, Vec<model::Routine>>)
        requires
            self.wf(),
            answers(self.request, reply),
        ensures
            reply matches DbReply::Failed(e) ==> (p matches Progress::Finish(
                Err(ServiceError::Internal(m)),
            ) && m == e),
            self.phase is Load ==> (reply matches DbReply::Routines(rows) ==> {
                &&& rows.len() == 0 ==> (p matches Progress::Finish(Ok(v)) && v.len() == 0)
                &&& rows.len() > 0 ==> (p matches Progress::Next(m) && m.wf() && (
                m.phase matches ListPhase::Tasklists { rows: rows2, done } && rows2 == rows
                    && done@.len() == 0))
            }),
            self.phase matches ListPhase::Tasklists { rows, done } ==> (reply matches DbReply::Ids(
                ids,
            ) ==> {
                let row = rows@[done.len() as int];
                &&& done.len() + 1 == rows.len() ==> (p matches Progress::Finish(Ok(v))
                    && v@.len() == rows.len() && v@.take(done.len() as int) == done@
                    && routine_made_from(row, v@.last()) && v@.last().tasklists == ids)
                &&& done.len() + 1 < rows.len() ==> (p matches Progress::Next(m) && m.wf() && (
                m.phase matches ListPhase::Tasklists { rows: rows2, done: done2 } && rows2
                    == rows && done2@.len() == done.len() + 1 && done2@.take(done.len() as int)
                    == done@ && routine_made_from(row, done2@.last()) && done2@.last().tasklists
                    == ids))
            }),
            forall|s: Store|
                #[trigger] self.on(s) && s.reads(self.request, reply) ==> {
                    &&& p matches Progress::Next(m) ==> m.on(s)
                    &&& p matches Progress::Finish(r) ==> list_result(s, r)
                },
    {
        match self.phase {
            ListPhase::Load => match reply {
                DbReply::Failed(e) => Progress::Finish(Err(ServiceError::Internal(e))),
                DbReply::Routines(rows) => {
                    if rows.len() == 0 {
                        Progress::Finish(Ok(Vec::new()))
                    } else {
                        let request = rows[0].tasklists();
                        Progress::Next(
                            List { phase: ListPhase::Tasklists { rows, done: Vec::new() }, request },
                        )
                    }
                },
                _ => {
                    proof {
                        assert(false);
                    }
                    Progress::Finish(Err(ServiceError::Internal(String::new())))
                },
            },
            ListPhase::Tasklists { rows, done } => match reply {
                DbReply::Failed(e) => Progress::Finish(Err(ServiceError::Internal(e))),
                DbReply::Ids(ids) => {
                    let k = done.len();
                    let row = copy_routine_row(&rows[k]);
                    let ghost ids_v = ids@;
                    let r = match row.to_model(ids) {
                        Ok(r) => r,
                        Err(_) => {
                            proof {
                                assert(false);
                            }
                            return Progress::Finish(Err(ServiceError::Internal(String::new())));
                        },
                    };
                    let mut done = done;
                    let ghost old_done = done@;
                    done.push(r);
                    assert(done@.take(k as int) =~= old_done);
                    proof {
                        assert forall|s: Store|
                            rows@ == s.routines && (forall|i: int|
                                0 <= i < old_done.len() ==> routine_in_store(
                                    s,
                                    rows@[i],
                                    #[trigger] old_done[i],
                                )) && ids_v == tasklist_ids_of(
                                s.tasklists,
                                rows@[k as int].id,
                            ) implies forall|i: int|
                            0 <= i < done@.len() ==> routine_in_store(
                                s,
                                rows@[i],
                                #[trigger] done@[i],
                            ) by {
                            assert forall|i: int| 0 <= i < done@.len() implies routine_in_store(
                                s,
                                rows@[i],
                                #[trigger] done@[i],
                            ) by {
                                if i < k {
                                    assert(done@[i] == old_done[i]);
                                }
                            }
                        }
                    }
                    if k + 1 == rows.len() {
                        Progress::Finish(Ok(done))
                    } else {
                        let request = rows[k + 1].tasklists();
                        let next = List { phase: ListPhase::Tasklists { rows, done }, request };
                        assert(next.wf()) by {
                            assert forall|i: int| 0 <= i < k + 1 implies routine_made_from(
                                rows@[i],
                                #[trigger] done@[i],
                            ) by {
                                if i < k {
                                    assert(done@[i] == old_done[i]);
                                }
                            }
                        }
                        Progress::Next(next)
                    }
                },
                _ => {
                    proof {
                        assert(false);
                    }
                    Progress::Finish(Err(ServiceError::Internal(String::new())))
                },
            },
        }
    }
}

/// The result of reading the id in a request's path, as `parse_path_id` gives it.
pub open spec fn path_outcome<M>(path: Seq<char>, r: Result<M, ServiceError>, started: spec_fn(
    M,
    i32,
) -> bool) -> bool {
    match parse_i32_spec(path) {
        Ok(id) => r matches Ok(m) && started(m, id),
        Err(k) => r matches Err(ServiceError::BadRequest(msg)) && msg@ == k.text(),
    }
}

/// Where reading one routine stands.
pub enum GetPhase {
    /// Waiting for the stored routine `id`.
    Find { id: i32 },
    /// Waiting for the task lists of the stored `row`.
    Tasklists { row: db::model::Routine },
}

/// `GET /routines/{id}`: the stored routine, then its task lists.
pub struct Get {
    pub phase: GetPhase,
    pub request: DbRequest,
}

impl Get {
    /// Reads the routine's id from the path and starts; a malformed id is a 400
    /// answer.
    pub fn start(path: &str) -> (r: Result<Get, ServiceError>)
        ensures
            path_outcome(path@, r, |m: Get, id: i32| m.wf() && m.phase == (GetPhase::Find { id })),
    {
        let id = parse_path_id(path)?;
        Ok(Get { phase: GetPhase::Find { id }, request: DbRequest::FindRoutine { id } })
    }

    /// The request waited on is the one the phase calls for.
    pub open spec fn wf(self) -> bool {
        match self.phase {
            GetPhase::Find { id } => self.request == (DbRequest::FindRoutine { id }),
            GetPhase::Tasklists { row } => self.request == (DbRequest::RoutineTasklists {
                routine: row.id,
            }),
        }
    }

    /// The request to make of the store next.
    pub fn request(&self) -> (r: &DbRequest)
        ensures
            *r == self.request,
    {
        &self.request
    }

    /// The run stands where reading the routine `id` against the store `s` stands.
    pub open spec fn on(self, s: Store, id: i32) -> bool {
        match self.phase {
            GetPhase::Find { id: i } => i == id,
            GetPhase::Tasklists { row } => s.find_routine(id) == Some(row),
        }
    }

    /// Takes the store's reply. A failure of the store is a 500 answer, a missing
    /// routine a 404 answer; else the routine is answered with its task lists.
    pub fn step(self, reply: DbReply) -> (p: Progress<Get, model::Routine>)
        requires
            self.wf(),
            answers(self.request, reply),
        ensures
            reply matches DbReply::Failed(e) ==> (p matches Progress::Finish(
                Err(ServiceError::Internal(m)),
            ) && m == e),
            self.phase matches GetPhase::Find { id } ==> {
                &&& reply matches DbReply::Routine(None) ==> (p matches Progress::Finish(
                    Err(ServiceError::NotFound(m)),
                ) && m@ == not_found_text("Routine"@, id as int))
                &&& reply matches DbReply::Routine(Some(row)) ==> (p matches Progress::Next(m)
                    && m.wf() && m.phase == (GetPhase::Tasklists { row }))
            },
            self.phase matches GetPhase::Tasklists { row } ==> (reply matches DbReply::Ids(ids)
                ==> (p matches Progress::Finish(Ok(r)) && routine_made_from(row, r) && r.tasklists
                == ids)),
            forall|s: Store, id: i32|
                #[trigger] self.on(s, id) && s.reads(self.request, reply) ==> {
                    &&& p matches Progress::Next(m) ==> m.on(s, id)
                    &&& p matches Progress::Finish(r) ==> get_result(s, id, r)
                },
    {
        match self.phase {
            GetPhase::Find { id } => match reply {
                DbReply::Failed(e) => Progress::Finish(Err(ServiceError::Internal(e))),
                DbReply::Routine(None) => Progress::Finish(Err(not_found("Routine", id))),
                DbReply::Routine(Some(row)) => {
                    let request = row.tasklists();
                    Progress::Next(Get { phase: GetPhase::Tasklists { row }, request })
                },
                _ => {
                    proof {
                        assert(false);
                    }
                    Progress::Finish(Err(ServiceError::Internal(String::new())))
                },
            },
            GetPhase::Tasklists { row } => match reply {
                DbReply::Failed(e) => Progress::Finish(Err(ServiceError::Internal(e))),
                DbReply::Ids(ids) => match row.to_model(ids) {
                    Ok(r) => Progress::Finish(Ok(r)),
                    Err(msg) => Progress::Finish(Err(ServiceError::Internal(msg))),
                },
                _ => {
                    proof {
                        assert(false);
                    }
                    Progress::Finish(Err(ServiceError::Internal(String::new())))
                },
            },
        }
    }
}

/// `s` is `s0` with a new model task list `model_id` and a new routine
/// `routine_id` named `name` whose model it is, the model belonging to the
/// routine; nothing else changed.
pub open spec fn routine_created(
    s0: Store,
    s: Store,
    name: String,
    model_id: i32,
    routine_id: i32,
) -> bool {
    &&& s0.model_id_free(model_id)
    &&& s0.routine_id_free(routine_id)
    &&& s == Store {
        models: with_model_routine(
            s0.models.push(db::model::ModelTasklist { id: model_id, routine: 0 }),
            model_id,
            routine_id,
        ),
        routines: s0.routines.push(db::model::Routine { id: routine_id, name, model: model_id }),
        ..s0
    }
}

/// After a routine is created, listing the routines gives those listed before,
/// unchanged, followed by the new routine, with no task lists (when the store
/// holds none started from it).
pub proof fn lemma_new_then_list(
    s0: Store,
    s: Store,
    name: String,
    model_id: i32,
    routine_id: i32,
    before: Vec<model::Routine>,
    after: Result<Vec<model::Routine>, ServiceError>,
)
    requires
        routine_created(s0, s, name, model_id, routine_id),
        tasklist_ids_of(s0.tasklists, routine_id) == Seq::<i32>::empty(),
        list_result(s0, Ok(before)),
        list_result(s, after),
    ensures
        after matches Ok(v) && v@.len() == before@.len() + 1 && (forall|i: int|
            0 <= i < before@.len() ==> #[trigger] v@[i].id == before@[i].id && v@[i].name
                == before@[i].name && v@[i].model == before@[i].model && v@[i].repetition
                == before@[i].repetition && v@[i].tasklists@ == before@[i].tasklists@) && v@.last().id
            == routine_id && v@.last().name == name && v@.last().model == model_id
            && v@.last().repetition == model::Repetition::Manual && v@.last().tasklists@.len() == 0,
{
    let v = after->Ok_0;
    assert forall|i: int| 0 <= i < before@.len() implies #[trigger] v@[i].id == before@[i].id
        && v@[i].name == before@[i].name && v@[i].model == before@[i].model && v@[i].repetition
        == before@[i].repetition && v@[i].tasklists@ == before@[i].tasklists@ by {
        assert(routine_in_store(s, s.routines[i], v@[i]));
        assert(routine_in_store(s0, s0.routines[i], before@[i]));
        assert(s.routines[i] == s0.routines[i]);
    }
    let k = before@.len() as int;
    assert(routine_in_store(s, s.routines[k], v@[k]));
}

/// A run of `new` whose request fails (the run then ends with a 500 answer)
/// leaves in the store what it had stored before: once the model task list is
/// stored, it stays; once the routine is stored too, both stay; nothing stored
/// before the run is lost.
pub proof fn lemma_new_failure_keeps_rows(
    m: New,
    s0: Store,
    s: Store,
    s2: Store,
    name: String,
    e: String,
)
    requires
        m.on(s0, s, name),
        s.answers(m.request, DbReply::Failed(e), s2),
    ensures
        s0.kept_in(s2),
        m.phase matches NewPhase::Routine { model_id } ==> s2.models[s0.models.len() as int] == (
        db::model::ModelTasklist { id: model_id, routine: 0 }),
        m.phase matches NewPhase::Link { model_id, routine_id } ==> {
            &&& s2.models[s0.models.len() as int] == (db::model::ModelTasklist {
                id: model_id,
                routine: 0,
            })
            &&& s2.routines[s0.routines.len() as int] == (db::model::Routine {
                id: routine_id,
                name,
                model: model_id,
            })
        },
{
    lemma_failure_keeps_rows(s, m.request, e, s2);
    assert(s.models.len() <= s2.models.len());
    match m.phase {
        NewPhase::Routine { model_id } => {
            assert(s.models[s0.models.len() as int] == s2.models.take(s.models.len() as int)[s0.models.len() as int]);
        },
        NewPhase::Link { model_id, routine_id } => {
            assert(s.models[s0.models.len() as int] == s2.models.take(s.models.len() as int)[s0.models.len() as int]);
            assert(s.routines[s0.routines.len() as int] == s2.routines.take(s.routines.len() as int)[s0.routines.len() as int]);
        },
        _ => {},
    }
    assert(s0.models.len() <= s.models.len());
    assert(s2.models.take(s0.models.len() as int) =~= s.models.take(s0.models.len() as int));
    assert(s.models.take(s0.models.len() as int) =~= s0.models);
    assert(s0.routines.len() <= s.routines.len());
    assert(s2.routines.take(s0.routines.len() as int) =~= s.routines.take(s0.routines.len() as int));
    assert(s.routines.take(s0.routines.len() as int) =~= s0.routines);
    assert(s2.tasks.take(s0.tasks.len() as int) =~= s0.tasks);
    assert(s2.task_partof_model.take(s0.task_partof_model.len() as int) =~= s0.task_partof_model);
    assert(s2.task_partof_regular.take(s0.task_partof_regular.len() as int) =~= s0.task_partof_regular);
    assert(s2.tasklists.take(s0.tasklists.len() as int) =~= s0.tasklists);
}

/// Where creating a routine stands.
pub enum NewPhase {
    /// Waiting for the id of the routine's new model task list.
    Model { name: String },
    /// Waiting for the id of the new routine, whose model is `model_id`.
    Routine { model_id: i32 },
    /// Waiting for the model `model_id` to be given to the routine `routine_id`.
    Link { model_id: i32, routine_id: i32 },
}

/// `POST /routines/new`: stores a model task list, then the routine with that
/// model, then gives the model to the routine.
pub struct New {
    pub phase: NewPhase,
    pub request: DbRequest,
}

impl New {
    /// Starts creating the routine `routine`.
    pub fn start(routine: model::NewRoutine) -> (m: New)
        ensures
            m.wf(),
            m.phase == (NewPhase::Model { name: routine.name }),
            forall|s0: Store| #[trigger] m.on(s0, s0, routine.name),
    {
        New {
            phase: NewPhase::Model { name: routine.name },
            request: DbRequest::InsertModel(insert::ModelTasklist { routine: 0 }),
        }
    }

    /// The request waited on is the one the phase calls for.
    pub open spec fn wf(self) -> bool {
        match self.phase {
            NewPhase::Model { .. } => self.request == DbRequest::InsertModel(
                insert::ModelTasklist { routine: 0 },
            ),
            NewPhase::Routine { model_id } => self.request matches DbRequest::InsertRoutine(r)
                && r.model == model_id,
            NewPhase::Link { model_id, routine_id } => self.request == (
            DbRequest::SetModelRoutine { model: model_id, routine: routine_id }),
        }
    }

    /// The request to make of the store next.
    pub fn request(&self) -> (r: &DbRequest)
        ensures
            *r == self.request,
    {
        &self.request
    }

    /// The run stands where creating the routine `name` stands, started on the
    /// store `s0`, the store now being `s`.
    pub open spec fn on(self, s0: Store, s: Store, name: String) -> bool {
        match self.phase {
            NewPhase::Model { name: n } => n == name && s == s0,
            NewPhase::Routine { model_id } => {
                &&& s0.model_id_free(model_id)
                &&& s == Store {
                    models: s0.models.push(db::model::ModelTasklist { id: model_id, routine: 0 }),
                    ..s0
                }
                &&& self.request == DbRequest::InsertRoutine(
                    insert::Routine { name, model: model_id },
                )
            },
            NewPhase::Link { model_id, routine_id } => {
                &&& s0.model_id_free(model_id)
                &&& s0.routine_id_free(routine_id)
                &&& s == Store {
                    models: s0.models.push(db::model::ModelTasklist { id: model_id, routine: 0 }),
                    routines: s0.routines.push(
                        db::model::Routine { id: routine_id, name, model: model_id },
                    ),
                    ..s0
                }
            },
        }
    }

    /// Takes the store's reply. A failure of the store is a 500 answer; the new
    /// model's id goes into the routine stored next, and the two ids into the
    /// link; once linked, the routine is created.
    pub fn step(self, reply: DbReply) -> (p: Progress<New, ()>)
        requires
            self.wf(),
            answers(self.request, reply),
        ensures
            reply matches DbReply::Failed(e) ==> (p matches Progress::Finish(
                Err(ServiceError::Internal(m)),
            ) && m == e),
            self.phase matches NewPhase::Model { name } ==> (reply matches DbReply::Inserted(
                model_id,
            ) ==> (p matches Progress::Next(m) && m.wf() && m.phase == (NewPhase::Routine {
                model_id,
            }) && m.request == DbRequest::InsertRoutine(
                insert::Routine { name, model: model_id },
            ))),
            self.phase matches NewPhase::Routine { model_id } ==> (reply matches DbReply::Inserted(
                routine_id,
            ) ==> (p matches Progress::Next(m) && m.wf() && m.phase == (NewPhase::Link {
                model_id,
                routine_id,
            }))),
            self.phase is Link ==> (reply is Updated ==> p matches Progress::Finish(Ok(_))),
            forall|s0: Store, s: Store, s2: Store, name: String|
                #[trigger] self.on(s0, s, name) && #[trigger] s.answers(self.request, reply, s2)
                    && !(reply is Failed) ==> {
                    &&& p matches Progress::Next(m) ==> m.on(s0, s2, name)
                    &&& p matches Progress::Finish(Ok(_)) ==> exists|model_id: i32, routine_id: i32|
                        routine_created(s0, s2, name, model_id, routine_id)
                },
    {
        let ghost req = self.request;
        match self.phase {
            NewPhase::Model { name } => match reply {
                DbReply::Failed(e) => Progress::Finish(Err(ServiceError::Internal(e))),
                DbReply::Inserted(model_id) => {
                    let ghost n = name;
                    let next = New {
                        phase: NewPhase::Routine { model_id },
                        request: DbRequest::InsertRoutine(insert::Routine { name, model: model_id }),
                    };
                    proof {
                        assert forall|s0: Store, s: Store, s2: Store|
                            s == s0 && #[trigger] s.answers(req, DbReply::Inserted(model_id), s2)
                                implies #[trigger] next.on(s0, s2, n) by {
                            assert(s2 == Store {
                                models: s0.models.push(
                                    db::model::ModelTasklist { id: model_id, routine: 0 },
                                ),
                                ..s0
                            });
                        }
                    }
                    Progress::Next(next)
                },
                _ => {
                    proof {
                        assert(false);
                    }
                    Progress::Finish(Err(ServiceError::Internal(String::new())))
                },
            },
            NewPhase::Routine { model_id } => match reply {
                DbReply::Failed(e) => Progress::Finish(Err(ServiceError::Internal(e))),
                DbReply::Inserted(routine_id) => {
                    let next = New {
                        phase: NewPhase::Link { model_id, routine_id },
                        request: DbRequest::SetModelRoutine { model: model_id, routine: routine_id },
                    };
                    proof {
                        assert forall|s0: Store, s: Store, s2: Store, name: String|
                            s0.model_id_free(model_id) && s == Store {
                                models: s0.models.push(
                                    db::model::ModelTasklist { id: model_id, routine: 0 },
                                ),
                                ..s0
                            } && req == DbRequest::InsertRoutine(
                                insert::Routine { name, model: model_id },
                            ) && #[trigger] s.answers(req, DbReply::Inserted(routine_id), s2)
                                implies #[trigger] next.on(s0, s2, name) by {
                            assert(s.routines == s0.routines);
                            assert(s2 == Store {
                                models: s0.models.push(
                                    db::model::ModelTasklist { id: model_id, routine: 0 },
                                ),
                                routines: s0.routines.push(
                                    db::model::Routine { id: routine_id, name, model: model_id },
                                ),
                                ..s0
                            });
                        }
                    }
                    Progress::Next(next)
                },
                _ => {
                    proof {
                        assert(false);
                    }
                    Progress::Finish(Err(ServiceError::Internal(String::new())))
                },
            },
            NewPhase::Link { model_id, routine_id } => match reply {
                DbReply::Failed(e) => Progress::Finish(Err(ServiceError::Internal(e))),
                DbReply::Updated(n) => {
                    proof {
                        assert forall|s0: Store, s: Store, s2: Store, name: String|
                            #![trigger s.answers(req, DbReply::Updated(n), s2), s0.routines.push(db::model::Routine { id: routine_id, name, model: model_id })]
                            s0.model_id_free(model_id) && s0.routine_id_free(routine_id)
                                && s == Store {
                                models: s0.models.push(
                                    db::model::ModelTasklist { id: model_id, routine: 0 },
                                ),
                                routines: s0.routines.push(
                                    db::model::Routine { id: routine_id, name, model: model_id },
                                ),
                                ..s0
                            } && s.answers(req, DbReply::Updated(n), s2) implies exists|
                            m: i32,
                            r: i32,
                        | routine_created(s0, s2, name, m, r) by {
                            assert(s.succeeds(req, DbReply::Updated(n), s2));
                            assert(routine_created(s0, s2, name, model_id, routine_id));
                        }
                    }
                    Progress::Finish(Ok(()))
                },
                _ => {
                    proof {
                        assert(false);
                    }
                    Progress::Finish(Err(ServiceError::Internal(String::new())))
                },
            },
        }
    }
}

/// `s` is `s0` with the task `task` stored, under the id `t`.
pub open spec fn task_stored(s0: Store, s: Store, task: model::Task, t: i32) -> bool {
    &&& s0.task_id_free(t)
    &&& pushed(
        s0.tasks,
        s.tasks,
        |x: db::model::Task| x.id == t && x.name == task.name && x.state@ == task.state.name(),
    )
    &&& s == Store { tasks: s.tasks, ..s0 }
}

/// `s` is `s0` with the task `task` stored under the id `t` and linked to the
/// model of the routine `routine_id`; nothing else changed.
pub open spec fn task_added(s0: Store, s: Store, routine_id: i32, task: model::Task, t: i32) -> bool {
    &&& s0.find_routine(routine_id) matches Some(row)
    &&& s0.task_id_free(t)
    &&& pushed(
        s0.tasks,
        s.tasks,
        |x: db::model::Task| x.id == t && x.name == task.name && x.state@ == task.state.name(),
    )
    &&& pushed(
        s0.task_partof_model,
        s.task_partof_model,
        |p: db::model::ModelPartof| p.model == row.model && p.task == t,
    )
    &&& s == Store { tasks: s.tasks, task_partof_model: s.task_partof_model, ..s0 }
}

/// After a task is added to a routine's model, listing the routine's model
/// tasks gives those listed before, followed by the new task.
pub proof fn lemma_add_task_then_routine_tasks(
    s0: Store,
    s: Store,
    routine_id: i32,
    task: model::Task,
    t: i32,
    before: Vec<i32>,
    after: Result<Vec<i32>, ServiceError>,
)
    requires
        task_added(s0, s, routine_id, task, t),
        routine_tasks_result(s0, routine_id, Ok(before)),
        routine_tasks_result(s, routine_id, after),
    ensures
        after matches Ok(v) && v@ == before@.push(t),
{
    assert(s.routines == s0.routines);
    assert(s.find_routine(routine_id) == s0.find_routine(routine_id));
    let row = s0.find_routine(routine_id)->Some_0;
    assert(s.task_partof_model.drop_last() =~= s0.task_partof_model);
}

/// Where adding a task to a routine's model stands.
pub enum AddTaskPhase {
    /// Waiting for the model of the routine `routine_id`; `task` is to be added.
    Find { routine_id: i32, task: model::Task },
    /// Waiting for the id of the new task, to be linked to the model `model_id`.
    Insert { model_id: i32 },
    /// Waiting for the link of the new task to the model to be stored.
    Link,
}

/// `POST /routines/{id}/task`: the routine's model, then the new task, then its
/// link to the model.
pub struct AddTask {
    pub phase: AddTaskPhase,
    pub request: DbRequest,
}

impl AddTask {
    /// Reads the routine's id from the path and starts adding `task`; a malformed
    /// id is a 400 answer.
    pub fn start(path: &str, task: model::Task) -> (r: Result<AddTask, ServiceError>)
        ensures
            path_outcome(
                path@,
                r,
                |m: AddTask, id: i32| m.wf() && m.phase == (AddTaskPhase::Find { routine_id: id, task }),
            ),
    {
        let routine_id = parse_path_id(path)?;
        Ok(
            AddTask {
                phase: AddTaskPhase::Find { routine_id, task },
                request: DbRequest::FindRoutineModel { routine: routine_id },
            },
        )
    }

    /// The request waited on is the one the phase calls for.
    pub open spec fn wf(self) -> bool {
        match self.phase {
            AddTaskPhase::Find { routine_id, .. } => self.request == (DbRequest::FindRoutineModel {
                routine: routine_id,
            }),
            AddTaskPhase::Insert { .. } => self.request is InsertTask,
            AddTaskPhase::Link => self.request is InsertTaskPartofModel,
        }
    }

    /// The request to make of the store next.
    pub fn request(&self) -> (r: &DbRequest)
        ensures
            *r == self.request,
    {
        &self.request
    }

    /// The run stands where adding `task` to the model of the routine
    /// `routine_id` stands, started on the store `s0`, the store now being `s`.
    pub open spec fn on(self, s0: Store, s: Store, routine_id: i32, task: model::Task) -> bool {
        match self.phase {
            AddTaskPhase::Find { routine_id: r, task: t } => r == routine_id && t == task && s == s0,
            AddTaskPhase::Insert { model_id } => {
                &&& s == s0
                &&& s0.find_routine(routine_id) matches Some(row)
                &&& row.model == model_id
                &&& self.request == DbRequest::InsertTask(
                    insert::Task { name: task.name, state: task.state.text() },
                )
            },
            AddTaskPhase::Link => {
                &&& self.request matches DbRequest::InsertTaskPartofModel(l)
                &&& s0.find_routine(routine_id) matches Some(row)
                &&& row.model == l.model
                &&& task_stored(s0, s, task, l.task)
            },
        }
    }

    /// Takes the store's reply. A failure of the store is a 500 answer, a missing
    /// routine a 404 answer; else the task is stored with its name and its
    /// state's text, and linked by its new id to the routine's model.
    pub fn step(self, reply: DbReply) -> (p: Progress<AddTask, ()>)
        requires
            self.wf(),
            answers(self.request, reply),
        ensures
            reply matches DbReply::Failed(e) ==> (p matches Progress::Finish(
                Err(ServiceError::Internal(m)),
            ) && m == e),
            self.phase matches AddTaskPhase::Find { routine_id, task } ==> {
                &&& reply matches DbReply::Model(None) ==> (p matches Progress::Finish(
                    Err(ServiceError::NotFound(m)),
                ) && m@ == not_found_text("Routine"@, routine_id as int))
                &&& reply matches DbReply::Model(Some(model_id)) ==> (p matches Progress::Next(m)
                    && m.wf() && m.phase == (AddTaskPhase::Insert { model_id }) && m.request
                    == DbRequest::InsertTask(
                    insert::Task { name: task.name, state: task.state.text() },
                ))
            },
            self.phase matches AddTaskPhase::Insert { model_id } ==> (reply matches DbReply::Inserted(
                task_id,
            ) ==> (p matches Progress::Next(m) && m.wf() && m.phase is Link && m.request
                == DbRequest::InsertTaskPartofModel(
                insert::TaskPartofModel { model: model_id, task: task_id },
            ))),
            self.phase is Link ==> (reply is Stored ==> p matches Progress::Finish(Ok(_))),
            forall|s0: Store, s: Store, s2: Store, routine_id: i32, task: model::Task|
                #[trigger] self.on(s0, s, routine_id, task) && #[trigger] s.answers(
                    self.request,
                    reply,
                    s2,
                ) && !(reply is Failed) ==> {
                    &&& p matches Progress::Next(m) ==> m.on(s0, s2, routine_id, task)
                    &&& p matches Progress::Finish(Ok(_)) ==> exists|t: i32|
                        task_added(s0, s2, routine_id, task, t)
                },
    {
        let ghost req = self.request;
        match self.phase {
            AddTaskPhase::Find { routine_id, task } => match reply {
                DbReply::Failed(e) => Progress::Finish(Err(ServiceError::Internal(e))),
                DbReply::Model(None) => Progress::Finish(Err(not_found("Routine", routine_id))),
                DbReply::Model(Some(model_id)) => Progress::Next(
                    AddTask {
                        phase: AddTaskPhase::Insert { model_id },
                        request: DbRequest::InsertTask(insert::Task::from(task)),
                    },
                ),
                _ => {
                    proof {
                        assert(false);
                    }
                    Progress::Finish(Err(ServiceError::Internal(String::new())))
                },
            },
            AddTaskPhase::Insert { model_id } => match reply {
                DbReply::Failed(e) => Progress::Finish(Err(ServiceError::Internal(e))),
                DbReply::Inserted(task_id) => {
                    let next = AddTask {
                        phase: AddTaskPhase::Link,
                        request: DbRequest::InsertTaskPartofModel(
                            insert::TaskPartofModel { model: model_id, task: task_id },
                        ),
                    };
                    proof {
                        assert forall|s0: Store, s: Store, s2: Store, rid: i32, task: model::Task|
                            s == s0 && (s0.find_routine(rid) matches Some(row) && row.model
                                == model_id) && req == DbRequest::InsertTask(
                                insert::Task { name: task.name, state: task.state.text() },
                            ) && s.answers(req, DbReply::Inserted(task_id), s2) implies next.on(
                            s0,
                            s2,
                            rid,
                            task,
                        ) by {
                            let row = insert::Task { name: task.name, state: task.state.text() };
                            assert(pushed(
                                s.tasks,
                                s2.tasks,
                                |x: db::model::Task|
                                    x.id == task_id && x.name == row.name && x.state@ == row.state@,
                            ));
                            assert(task_stored(s0, s2, task, task_id));
                        }
                    }
                    Progress::Next(next)
                },
                _ => {
                    proof {
                        assert(false);
                    }
                    Progress::Finish(Err(ServiceError::Internal(String::new())))
                },
            },
            AddTaskPhase::Link => match reply {
                DbReply::Failed(e) => Progress::Finish(Err(ServiceError::Internal(e))),
                DbReply::Stored => {
                    proof {
                        let l = req->InsertTaskPartofModel_0;
                        assert forall|s0: Store, s: Store, s2: Store, rid: i32, task: model::Task|
                            (#[trigger] s0.find_routine(rid) matches Some(row) && row.model == l.model)
                                && #[trigger] task_stored(s0, s, task, l.task) && #[trigger] s.answers(
                                req,
                                DbReply::Stored,
                                s2,
                            ) implies exists|t: i32|
                            task_added(s0, s2, rid, task, t) by {
                            assert(s2.tasks == s.tasks);
                            assert(s2 == Store {
                                tasks: s2.tasks,
                                task_partof_model: s2.task_partof_model,
                                ..s0
                            });
                            assert(task_added(s0, s2, rid, task, l.task));
                        }
                    }
                    Progress::Finish(Ok(()))
                },
                _ => {
                    proof {
                        assert(false);
                    }
                    Progress::Finish(Err(ServiceError::Internal(String::new())))
                },
            },
        }
    }
}

/// Where listing a routine's model tasks stands.
pub enum RoutineTasksPhase {
    /// Waiting for the model of the routine `routine_id`.
    Find { routine_id: i32 },
    /// Waiting for the tasks of the model `model_id`.
    Tasks { model_id: i32 },
}

/// `GET /routines/{id}/tasks`: the routine's model, then the ids of its tasks.
pub struct RoutineTasks {
    pub phase: RoutineTasksPhase,
    pub request: DbRequest,
}

impl RoutineTasks {
    /// Reads the routine's id from the path and starts; a malformed id is a 400
    /// answer.
    pub fn start(path: &str) -> (r: Result<RoutineTasks, ServiceError>)
        ensures
            path_outcome(
                path@,
                r,
                |m: RoutineTasks, id: i32| m.wf() && m.phase == (RoutineTasksPhase::Find { routine_id: id }),
            ),
    {
        let routine_id = parse_path_id(path)?;
        Ok(
            RoutineTasks {
                phase: RoutineTasksPhase::Find { routine_id },
                request: DbRequest::FindRoutineModel { routine: routine_id },
            },
        )
    }

    /// The request waited on is the one the phase calls for.
    pub open spec fn wf(self) -> bool {
        match self.phase {
            RoutineTasksPhase::Find { routine_id } => self.request == (
            DbRequest::FindRoutineModel { routine: routine_id }),
            RoutineTasksPhase::Tasks { model_id } => self.request == (DbRequest::ModelTasks {
                model: model_id,
            }),
        }
    }

    /// The request to make of the store next.
    pub fn request(&self) -> (r: &DbRequest)
        ensures
            *r == self.request,
    {
        &self.request
    }

    /// The run stands where listing the model tasks of the routine `id` against
    /// the store `s` stands.
    pub open spec fn on(self, s: Store, id: i32) -> bool {
        match self.phase {
            RoutineTasksPhase::Find { routine_id } => routine_id == id,
            RoutineTasksPhase::Tasks { model_id } => s.find_routine(id) matches Some(row)
                && row.model == model_id,
        }
    }

    /// Takes the store's reply. A failure of the store is a 500 answer, a missing
    /// routine a 404 answer; else the ids of the model's tasks are answered.
    pub fn step(self, reply: DbReply) -> (p: Progress<RoutineTasks, Vec<i32>>)
        requires
            self.wf(),
            answers(self.request, reply),
        ensures
            reply matches DbReply::Failed(e) ==> (p matches Progress::Finish(
                Err(ServiceError::Internal(m)),
            ) && m == e),
            self.phase matches RoutineTasksPhase::Find { routine_id } ==> {
                &&& reply matches DbReply::Model(None) ==> (p matches Progress::Finish(
                    Err(ServiceError::NotFound(m)),
                ) && m@ == not_found_text("Routine"@, routine_id as int))
                &&& reply matches DbReply::Model(Some(model_id)) ==> (p matches Progress::Next(m)
                    && m.wf() && m.phase == (RoutineTasksPhase::Tasks { model_id }))
            },
            self.phase is Tasks ==> (reply matches DbReply::Ids(ids) ==> (
            p matches Progress::Finish(Ok(v)) && v == ids)),
            forall|s: Store, id: i32|
                #[trigger] self.on(s, id) && s.reads(self.request, reply) ==> {
                    &&& p matches Progress::Next(m) ==> m.on(s, id)
                    &&& p matches Progress::Finish(r) ==> routine_tasks_result(s, id, r)
                },
    {
        match self.phase {
            RoutineTasksPhase::Find { routine_id } => match reply {
                DbReply::Failed(e) => Progress::Finish(Err(ServiceError::Internal(e))),
                DbReply::Model(None) => Progress::Finish(Err(not_found("Routine", routine_id))),
                DbReply::Model(Some(model_id)) => Progress::Next(
                    RoutineTasks {
                        phase: RoutineTasksPhase::Tasks { model_id },
                        request: DbRequest::ModelTasks { model: model_id },
                    },
                ),
                _ => {
                    proof {
                        assert(false);
                    }
                    Progress::Finish(Err(ServiceError::Internal(String::new())))
                },
            },
            RoutineTasksPhase::Tasks { .. } => match reply {
                DbReply::Failed(e) => Progress::Finish(Err(ServiceError::Internal(e))),
                DbReply::Ids(ids) => Progress::Finish(Ok(ids)),
                _ => {
                    proof {
                        assert(false);
                    }
                    Progress::Finish(Err(ServiceError::Internal(String::new())))
                },
            },
        }
    }
}

/// `"Model <model> in routine <routine> refers to invalid task <task>"`.
pub open spec fn invalid_task_text(model_id: int, routine_id: int, task: int) -> Seq<char> {
    "Model "@ + signed_decimal(model_id) + " in routine "@ + signed_decimal(routine_id)
        + " refers to invalid task "@ + signed_decimal(task)
}

/// The 500 answer for a model that lists a task the store does not hold.
fn invalid_task(model_id: i32, routine_id: i32, task: i32) -> (r: ServiceError)
    ensures
        r matches ServiceError::Internal(m) && m@ == invalid_task_text(
            model_id as int,
            routine_id as int,
            task as int,
        ),
{
    let mut m = String::from_str("Model ");
    let s = i32_to_string(model_id);
    m.append(s.as_str());
    m.append(" in routine ");
    let s = i32_to_string(routine_id);
    m.append(s.as_str());
    m.append(" refers to invalid task ");
    let s = i32_to_string(task);
    m.append(s.as_str());
    ServiceError::Internal(m)
}

/// `s` holds, after the rows of `s0`, a new task list `tasklist_id`, named as
/// the routine `routine_id`, not started, started from that routine.
pub open spec fn list_started(s0: Store, s: Store, routine_id: i32, tasklist_id: i32) -> bool {
    &&& s0.find_routine(routine_id) matches Some(row)
    &&& s0.tasklist_id_free(tasklist_id)
    &&& pushed(
        s0.tasklists,
        s.tasklists,
        |t: db::model::RegularTasklist|
            t.id == tasklist_id && t.name == row.name && t.state@ == State::NotStarted.name()
                && t.routine_id == routine_id && !t.archived,
    )
}

/// The tasks of `s` are those of `s0` followed by one copy of each of the first
/// `copies.len()` tasks of `tasks`, in order: the copy `i` has the id
/// `copies[i]`, which no task held before it, is not started, and has the name
/// of the task `tasks[i]` as the store held it when it was copied.
pub open spec fn tasks_copied(s0: Store, s: Store, tasks: Seq<i32>, copies: Seq<i32>) -> bool {
    &&& copies.len() <= tasks.len()
    &&& s.tasks.len() == s0.tasks.len() + copies.len()
    &&& s.tasks.take(s0.tasks.len() as int) == s0.tasks
    &&& forall|i: int|
        0 <= i < copies.len() ==> {
            let before = Store { tasks: s.tasks.take(s0.tasks.len() + i), ..s0 };
            let c = s.tasks[s0.tasks.len() + i];
            &&& c.id == #[trigger] copies[i]
            &&& c.state@ == State::NotStarted.name()
            &&& before.task_id_free(c.id)
            &&& before.find_task(tasks[i]) matches Some(t)
            &&& c.name == t.name
        }
}

/// The links of `s` to task lists are those of `s0` followed by a link of each of
/// the first `linked` copies to the task list `tasklist_id`, in order.
pub open spec fn copies_linked(
    s0: Store,
    s: Store,
    tasklist_id: i32,
    copies: Seq<i32>,
    linked: int,
) -> bool {
    &&& 0 <= linked <= copies.len()
    &&& s.task_partof_regular.len() == s0.task_partof_regular.len() + linked
    &&& s.task_partof_regular.take(s0.task_partof_regular.len() as int) == s0.task_partof_regular
    &&& forall|j: int|
        0 <= j < linked ==> {
            let p = #[trigger] s.task_partof_regular[s0.task_partof_regular.len() + j];
            p.regular == tasklist_id && p.task == copies[j]
        }
}

/// `s` is `s0` after the routine `routine_id` was started: a new task list
/// `tasklist_id`, named as the routine and not started; a not-started copy
/// `copies[i]` of each task of the routine's model, in order; each copy linked to
/// the new task list, in order; nothing else changed.
pub open spec fn routine_started(
    s0: Store,
    s: Store,
    routine_id: i32,
    tasklist_id: i32,
    copies: Seq<i32>,
) -> bool {
    &&& s0.find_routine(routine_id) matches Some(row)
    &&& list_started(s0, s, routine_id, tasklist_id)
    &&& copies.len() == model_task_ids_of(s0.task_partof_model, row.model).len()
    &&& tasks_copied(s0, s, model_task_ids_of(s0.task_partof_model, row.model), copies)
    &&& copies_linked(s0, s, tasklist_id, copies, copies.len() as int)
    &&& s == Store {
        tasklists: s.tasklists,
        tasks: s.tasks,
        task_partof_regular: s.task_partof_regular,
        ..s0
    }
}

proof fn lemma_linked_ids(s0: Store, s: Store, tasklist_id: i32, copies: Seq<i32>, linked: int)
    requires
        copies_linked(s0, s, tasklist_id, copies, linked),
    ensures
        tasklist_task_ids_of(s.task_partof_regular, tasklist_id) == tasklist_task_ids_of(
            s0.task_partof_regular,
            tasklist_id,
        ) + copies.take(linked),
    decreases linked,
{
    let n0 = s0.task_partof_regular.len();
    if linked == 0 {
        assert(s.task_partof_regular =~= s0.task_partof_regular);
        assert(copies.take(0) =~= Seq::<i32>::empty());
        assert(tasklist_task_ids_of(s0.task_partof_regular, tasklist_id) + Seq::<i32>::empty()
            =~= tasklist_task_ids_of(s0.task_partof_regular, tasklist_id));
    } else {
        let shorter = Store {
            task_partof_regular: s.task_partof_regular.drop_last(),
            ..s
        };
        assert(shorter.task_partof_regular.take(n0 as int) =~= s0.task_partof_regular);
        assert forall|j: int| 0 <= j < linked - 1 implies {
            let p = #[trigger] shorter.task_partof_regular[n0 + j];
            p.regular == tasklist_id && p.task == copies[j]
        } by {
            assert(shorter.task_partof_regular[n0 + j] == s.task_partof_regular[n0 + j]);
        }
        lemma_linked_ids(s0, shorter, tasklist_id, copies, linked - 1);
        let jl = linked - 1;
        let last = s.task_partof_regular[n0 + jl];
        assert(s.task_partof_regular.last() == last);
        assert(last.regular == tasklist_id && last.task == copies[linked - 1]);
        assert(s.task_partof_regular.drop_last() == shorter.task_partof_regular);
        assert(tasklist_task_ids_of(s.task_partof_regular, tasklist_id) == tasklist_task_ids_of(
            shorter.task_partof_regular,
            tasklist_id,
        ).push(last.task));
        assert(copies.take(linked) =~= copies.take(linked - 1).push(copies[linked - 1]));
        let old_ids = tasklist_task_ids_of(s0.task_partof_regular, tasklist_id);
        assert((old_ids + copies.take(linked - 1)).push(copies[linked - 1]) =~= old_ids
            + copies.take(linked - 1).push(copies[linked - 1]));
    }
}

/// Starting a routine stamps out a new task list from it: the task list is
/// found by its id, named as the routine, not started, started from the
/// routine; its tasks are those the store already linked to that id followed by
/// the copies, in order; and each copy is found by its id, not started, named as
/// the model task it copies was when copied, under an id no task held before.
pub proof fn lemma_routine_started_stamps_out(
    s0: Store,
    s: Store,
    routine_id: i32,
    tasklist_id: i32,
    copies: Seq<i32>,
)
    requires
        s0.wf(),
        routine_started(s0, s, routine_id, tasklist_id, copies),
    ensures
        s.find_tasklist(tasklist_id) matches Some(t) && t.name == s0.find_routine(
            routine_id,
        )->Some_0.name && State::from_name(t.state@) == Some(State::NotStarted) && t.routine_id
            == routine_id,
        tasklist_task_ids_of(s.task_partof_regular, tasklist_id) == tasklist_task_ids_of(
            s0.task_partof_regular,
            tasklist_id,
        ) + copies,
        forall|i: int|
            0 <= i < copies.len() ==> (s.find_task(#[trigger] copies[i]) matches Some(c)
                && State::from_name(c.state@) == Some(State::NotStarted) && s0.task_id_free(
                copies[i],
            )),
{
    let row = s0.find_routine(routine_id)->Some_0;
    let tasks = model_task_ids_of(s0.task_partof_model, row.model);
    let n0 = s0.tasks.len();
    crate::model::lemma_state_name_round_trip(State::NotStarted);
    // The task lists stay well formed, and the new one is found by its id.
    let k = s0.tasklists.len() as int;
    assert(s.tasklists.take(k) == s0.tasklists);
    assert(s.wf()) by {
        assert forall|i: int, j: int| 0 <= i < j < s.tasklists.len() implies s.tasklists[i].id
            != s.tasklists[j].id by {
            if j == k {
                assert(s.tasklists[i] == s0.tasklists[i]);
            } else {
                assert(s.tasklists[i] == s0.tasklists[i]);
                assert(s.tasklists[j] == s0.tasklists[j]);
            }
        }
        assert forall|i: int, j: int| 0 <= i < j < s.tasks.len() implies s.tasks[i].id
            != s.tasks[j].id by {
            if j >= n0 {
                let before = Store { tasks: s.tasks.take(j), ..s0 };
                assert(copies[j - n0] == s.tasks[j].id);
                assert(before.tasks[i] == s.tasks[i]);
            } else {
                assert(s.tasks[i] == s0.tasks[i]);
                assert(s.tasks[j] == s0.tasks[j]);
            }
        }
    }
    lemma_find_tasklist(s, k);
    lemma_linked_ids(s0, s, tasklist_id, copies, copies.len() as int);
    assert(copies.take(copies.len() as int) =~= copies);
    assert forall|i: int| 0 <= i < copies.len() implies (s.find_task(#[trigger] copies[i]) matches Some(
        c,
    ) && State::from_name(c.state@) == Some(State::NotStarted) && s0.task_id_free(copies[i])) by {
        let before = Store { tasks: s.tasks.take(n0 + i), ..s0 };
        assert(copies[i] == s.tasks[n0 + i].id);
        lemma_find_task(s, n0 + i);
        assert forall|j: int| 0 <= j < s0.tasks.len() implies #[trigger] s0.tasks[j].id != copies[i] by {
            assert(before.tasks[j] == s0.tasks[j]);
        }
    }
}

proof fn lemma_copy_step(
    s0: Store,
    s: Store,
    s2: Store,
    tasks: Seq<i32>,
    copies: Seq<i32>,
    copy: i32,
    name: String,
)
    requires
        tasks_copied(s0, s, tasks, copies),
        copies.len() < tasks.len(),
        s.find_task(tasks[copies.len() as int]) matches Some(t) && name == t.name,
        s.task_id_free(copy),
        pushed(
            s.tasks,
            s2.tasks,
            |x: db::model::Task|
                x.id == copy && x.name == name && x.state@ == State::NotStarted.text()@,
        ),
    ensures
        tasks_copied(s0, s2, tasks, copies.push(copy)),
{
    let n0 = s0.tasks.len();
    let k = copies.len() as int;
    let nc = copies.push(copy);
    assert(s2.tasks.take(n0 as int) =~= s0.tasks) by {
        assert(s2.tasks.take(n0 as int) =~= s.tasks.take(n0 as int));
    }
    assert forall|i: int| 0 <= i < nc.len() implies {
        let before = Store { tasks: s2.tasks.take(n0 + i), ..s0 };
        let c = s2.tasks[n0 + i];
        &&& c.id == #[trigger] nc[i]
        &&& c.state@ == State::NotStarted.name()
        &&& before.task_id_free(c.id)
        &&& before.find_task(tasks[i]) matches Some(t)
        &&& c.name == t.name
    } by {
        assert(s2.tasks.take(n0 + i) =~= s.tasks.take(n0 + i));
        if i < k {
            assert(nc[i] == copies[i]);
            assert(s2.tasks[n0 + i] == s.tasks[n0 + i]);
        } else {
            assert(s.tasks.take(n0 + i) =~= s.tasks);
            assert(Store { tasks: s2.tasks.take(n0 + i), ..s0 }.tasks == s.tasks);
            assert(s2.tasks[n0 + i] == s2.tasks.last());
        }
    }
}

proof fn lemma_link_step(
    s0: Store,
    s: Store,
    s2: Store,
    tasklist_id: i32,
    copies: Seq<i32>,
    linked: int,
)
    requires
        copies_linked(s0, s, tasklist_id, copies, linked),
        linked < copies.len(),
        pushed(
            s.task_partof_regular,
            s2.task_partof_regular,
            |p: db::model::RegularPartOf| p.regular == tasklist_id && p.task == copies[linked],
        ),
    ensures
        copies_linked(s0, s2, tasklist_id, copies, linked + 1),
{
    let n0 = s0.task_partof_regular.len();
    assert(s2.task_partof_regular.take(n0 as int) =~= s.task_partof_regular.take(n0 as int));
    assert forall|j: int| 0 <= j < linked + 1 implies {
        let p = #[trigger] s2.task_partof_regular[n0 + j];
        p.regular == tasklist_id && p.task == copies[j]
    } by {
        if j < linked {
            assert(s2.task_partof_regular[n0 + j] == s.task_partof_regular[n0 + j]);
        } else {
            assert(s2.task_partof_regular[n0 + j] == s2.task_partof_regular.last());
        }
    }
}

/// Where starting a task list from a routine stands.
pub enum InitPhase {
    /// Waiting for the name and the model of the routine `routine_id`.
    Routine { routine_id: i32 },
    /// Waiting for the id of the new task list of the routine, whose model is
    /// `model_id`.
    Tasklist { routine_id: i32, model_id: i32 },
    /// Waiting for the ids of the model's tasks; the new task list is `tasklist_id`.
    ModelTasks { routine_id: i32, model_id: i32, tasklist_id: i32 },
    /// Waiting for the name of the model task `tasks[new_tasks.len()]`; the tasks
    /// before it have been copied, as `new_tasks`.
    TaskName {
        routine_id: i32,
        model_id: i32,
        tasklist_id: i32,
        tasks: Vec<i32>,
        new_tasks: Vec<i32>,
    },
    /// Waiting for the id of the copy of the model task `tasks[new_tasks.len()]`.
    NewTask {
        routine_id: i32,
        model_id: i32,
        tasklist_id: i32,
        tasks: Vec<i32>,
        new_tasks: Vec<i32>,
    },
    /// Every model task in `tasks` has been copied, as `new_tasks`; waiting for
    /// the copy `new_tasks[linked]` to be linked to the new task list.
    Link { tasklist_id: i32, tasks: Vec<i32>, new_tasks: Vec<i32>, linked: usize },
}

/// `POST /routines/{id}/init`: starts a new task list from a routine. It stores
/// a task list named as the routine, not started; then copies each task of the
/// routine's model, in order, as a new task of the same name, not started; then
/// links each copy, in order, to the new task list.
pub struct Init {
    pub phase: InitPhase,
    pub request: DbRequest,
}

impl Init {
    /// Reads the routine's id from the path and starts; a malformed id is a 400
    /// answer.
    pub fn start(path: &str) -> (r: Result<Init, ServiceError>)
        ensures
            path_outcome(
                path@,
                r,
                |m: Init, id: i32| m.wf() && m.phase == (InitPhase::Routine { routine_id: id }),
            ),
    {
        let routine_id = parse_path_id(path)?;
        Ok(
            Init {
                phase: InitPhase::Routine { routine_id },
                request: DbRequest::FindRoutineNameModel { routine: routine_id },
            },
        )
    }

    /// The request waited on is the one the phase calls for: every task and task
    /// list stored is not started, each model task is asked for in turn, and each
    /// link joins the new task list to the copy in its turn.
    pub open spec fn wf(self) -> bool {
        match self.phase {
            InitPhase::Routine { routine_id } => self.request == (DbRequest::FindRoutineNameModel {
                routine: routine_id,
            }),
            InitPhase::Tasklist { routine_id, .. } => self.request matches DbRequest::InsertTasklist(
                row,
            ) && row.state == State::NotStarted.text() && row.routine_id == routine_id,
            InitPhase::ModelTasks { model_id, .. } => self.request == (DbRequest::ModelTasks {
                model: model_id,
            }),
            InitPhase::TaskName { tasks, new_tasks, .. } => {
                &&& new_tasks.len() < tasks.len()
                &&& self.request == (DbRequest::FindTaskName {
                    task: tasks@[new_tasks.len() as int],
                })
            },
            InitPhase::NewTask { tasks, new_tasks, .. } => {
                &&& new_tasks.len() < tasks.len()
                &&& self.request matches DbRequest::InsertTask(row) && row.state
                    == State::NotStarted.text()
            },
            InitPhase::Link { tasklist_id, tasks, new_tasks, linked } => {
                &&& new_tasks.len() == tasks.len()
                &&& linked < new_tasks.len()
                &&& self.request == DbRequest::InsertTaskPartofRegular(
                    insert::TaskPartofRegular { regular: tasklist_id, task: new_tasks@[linked as int] },
                )
            },
        }
    }

    /// The request to make of the store next.
    pub fn request(&self) -> (r: &DbRequest)
        ensures
            *r == self.request,
    {
        &self.request
    }

    /// The run stands where starting the routine `routine_id` stands, started on
    /// the store `s0`, the store now being `s`.
    pub open spec fn on(self, s0: Store, s: Store, routine_id: i32) -> bool {
        match self.phase {
            InitPhase::Routine { routine_id: r } => r == routine_id && s == s0,
            InitPhase::Tasklist { routine_id: r, model_id } => {
                &&& r == routine_id
                &&& s == s0
                &&& s0.find_routine(routine_id) matches Some(row)
                &&& row.model == model_id
                &&& self.request == DbRequest::InsertTasklist(
                    insert::RegularTasklist {
                        name: row.name,
                        state: State::NotStarted.text(),
                        routine_id,
                    },
                )
            },
            InitPhase::ModelTasks { routine_id: r, model_id, tasklist_id } => {
                &&& r == routine_id
                &&& s0.find_routine(routine_id) matches Some(row)
                &&& row.model == model_id
                &&& list_started(s0, s, routine_id, tasklist_id)
                &&& s == Store { tasklists: s.tasklists, ..s0 }
            },
            InitPhase::TaskName { routine_id: r, model_id, tasklist_id, tasks, new_tasks } => {
                &&& r == routine_id
                &&& s0.find_routine(routine_id) matches Some(row)
                &&& row.model == model_id
                &&& list_started(s0, s, routine_id, tasklist_id)
                &&& tasks@ == model_task_ids_of(s0.task_partof_model, model_id)
                &&& tasks_copied(s0, s, tasks@, new_tasks@)
                &&& s == Store { tasklists: s.tasklists, tasks: s.tasks, ..s0 }
            },
            InitPhase::NewTask { routine_id: r, model_id, tasklist_id, tasks, new_tasks } => {
                &&& r == routine_id
                &&& s0.find_routine(routine_id) matches Some(row)
                &&& row.model == model_id
                &&& list_started(s0, s, routine_id, tasklist_id)
                &&& tasks@ == model_task_ids_of(s0.task_partof_model, model_id)
                &&& tasks_copied(s0, s, tasks@, new_tasks@)
                &&& s == Store { tasklists: s.tasklists, tasks: s.tasks, ..s0 }
                &&& s.find_task(tasks@[new_tasks.len() as int]) matches Some(t)
                &&& self.request == DbRequest::InsertTask(
                    insert::Task { name: t.name, state: State::NotStarted.text() },
                )
            },
            InitPhase::Link { tasklist_id, tasks, new_tasks, linked } => {
                &&& s0.find_routine(routine_id) matches Some(row)
                &&& list_started(s0, s, routine_id, tasklist_id)
                &&& tasks@ == model_task_ids_of(s0.task_partof_model, row.model)
                &&& new_tasks.len() == tasks.len()
                &&& tasks_copied(s0, s, tasks@, new_tasks@)
                &&& copies_linked(s0, s, tasklist_id, new_tasks@, linked as int)
                &&& s == Store {
                    tasklists: s.tasklists,
                    tasks: s.tasks,
                    task_partof_regular: s.task_partof_regular,
                    ..s0
                }
            },
        }
    }

    /// Takes the store's reply. A failure of the store is a 500 answer, a missing
    /// routine a 404 answer, a model task the store does not hold a 500 answer
    /// naming the model, the routine and the task. Otherwise the run goes on as
    /// `Init` describes, and ends with the last link.
    #[verifier::rlimit(30)]
    pub fn step(self, reply: DbReply) -> (p: Progress<Init, ()>)
        requires
            self.wf(),
            answers(self.request, reply),
        ensures
            reply matches DbReply::Failed(e) ==> (p matches Progress::Finish(
                Err(ServiceError::Internal(m)),
            ) && m == e),
            self.phase matches InitPhase::Routine { routine_id } ==> {
                &&& reply matches DbReply::NameModel(None) ==> (p matches Progress::Finish(
                    Err(ServiceError::NotFound(m)),
                ) && m@ == not_found_text("Routine"@, routine_id as int))
                &&& reply matches DbReply::NameModel(Some(found)) ==> (p matches Progress::Next(m)
                    && m.wf() && m.phase == (InitPhase::Tasklist {
                    routine_id,
                    model_id: found.1,
                }) && m.request == DbRequest::InsertTasklist(
                    insert::RegularTasklist {
                        name: found.0,
                        state: State::NotStarted.text(),
                        routine_id,
                    },
                ))
            },
            self.phase matches InitPhase::Tasklist { routine_id, model_id } ==> (
            reply matches DbReply::Inserted(tasklist_id) ==> (p matches Progress::Next(m)
                && m.wf() && m.phase == (InitPhase::ModelTasks {
                routine_id,
                model_id,
                tasklist_id,
            }))),
            self.phase matches InitPhase::ModelTasks { routine_id, model_id, tasklist_id } ==> (
            reply matches DbReply::Ids(tasks) ==> {
                &&& tasks.len() == 0 ==> (p matches Progress::Finish(Ok(_)))
                &&& tasks.len() > 0 ==> (p matches Progress::Next(m) && m.wf() && (
                m.phase matches InitPhase::TaskName {
                    routine_id: r2,
                    model_id: m2,
                    tasklist_id: t2,
                    tasks: tasks2,
                    new_tasks,
                } && r2 == routine_id && m2 == model_id && t2 == tasklist_id && tasks2 == tasks
                    && new_tasks@.len() == 0))
            }),
            self.phase matches InitPhase::TaskName {
                routine_id,
                model_id,
                tasklist_id,
                tasks,
                new_tasks,
            } ==> {
                &&& reply matches DbReply::TaskName(None) ==> (p matches Progress::Finish(
                    Err(ServiceError::Internal(m)),
                ) && m@ == invalid_task_text(
                    model_id as int,
                    routine_id as int,
                    tasks@[new_tasks.len() as int] as int,
                ))
                &&& reply matches DbReply::TaskName(Some(name)) ==> (p matches Progress::Next(m)
                    && m.wf() && m.phase == (InitPhase::NewTask {
                    routine_id,
                    model_id,
                    tasklist_id,
                    tasks,
                    new_tasks,
                }) && m.request == DbRequest::InsertTask(
                    insert::Task { name, state: State::NotStarted.text() },
                ))
            },
            self.phase matches InitPhase::NewTask {
                routine_id,
                model_id,
                tasklist_id,
                tasks,
                new_tasks,
            } ==> (reply matches DbReply::Inserted(copy) ==> {
                &&& new_tasks.len() + 1 < tasks.len() ==> (p matches Progress::Next(m) && m.wf() && (
                m.phase matches InitPhase::TaskName {
                    routine_id: r2,
                    model_id: m2,
                    tasklist_id: t2,
                    tasks: tasks2,
                    new_tasks: new2,
                } && r2 == routine_id && m2 == model_id && t2 == tasklist_id && tasks2 == tasks
                    && new2@ == new_tasks@.push(copy)))
                &&& new_tasks.len() + 1 == tasks.len() ==> (p matches Progress::Next(m) && m.wf() && (
                m.phase matches InitPhase::Link {
                    tasklist_id: t2,
                    tasks: tasks2,
                    new_tasks: new2,
                    linked,
                } && t2 == tasklist_id && tasks2 == tasks && new2@ == new_tasks@.push(copy)
                    && linked == 0))
            }),
            self.phase matches InitPhase::Link { tasklist_id, tasks, new_tasks, linked } ==> (
            reply is Stored ==> {
                &&& linked + 1 == new_tasks.len() ==> (p matches Progress::Finish(Ok(_)))
                &&& linked + 1 < new_tasks.len() ==> (p matches Progress::Next(m) && m.wf() && (
                m.phase matches InitPhase::Link {
                    tasklist_id: t2,
                    tasks: tasks2,
                    new_tasks: new2,
                    linked: l2,
                } && t2 == tasklist_id && tasks2 == tasks && new2 == new_tasks && l2 == linked
                    + 1))
            }),
            forall|s0: Store, s: Store, s2: Store, routine_id: i32|
                #[trigger] self.on(s0, s, routine_id) && #[trigger] s.answers(self.request, reply, s2)
                    && !(reply is Failed) ==> {
                    &&& p matches Progress::Next(m) ==> m.on(s0, s2, routine_id)
                    &&& p matches Progress::Finish(Ok(_)) ==> exists|tasklist_id: i32, copies: Seq<i32>|
                        routine_started(s0, s2, routine_id, tasklist_id, copies)
                },
    {
        let ghost this = self;
        let ghost rep = reply;
        match self.phase {
            InitPhase::Routine { routine_id } => match reply {
                DbReply::Failed(e) => Progress::Finish(Err(ServiceError::Internal(e))),
                DbReply::NameModel(None) => Progress::Finish(Err(not_found("Routine", routine_id))),
                DbReply::NameModel(Some(found)) => {
                    let (name, model_id) = found;
                    let next = Init {
                        phase: InitPhase::Tasklist { routine_id, model_id },
                        request: DbRequest::InsertTasklist(
                            insert::RegularTasklist {
                                name,
                                state: State::NotStarted.as_str(),
                                routine_id,
                            },
                        ),
                    };
                    proof {
                        assert forall|s0: Store, s: Store, s2: Store, rid: i32|
                            #[trigger] this.on(s0, s, rid) && #[trigger] s.answers(this.request, rep, s2)
                                implies next.on(s0, s2, rid) by {
                            assert(s.reads(this.request, rep));
                        }
                    }
                    Progress::Next(next)
                },
                _ => {
                    proof {
                        assert(false);
                    }
                    Progress::Finish(Err(ServiceError::Internal(String::new())))
                },
            },
            InitPhase::Tasklist { routine_id, model_id } => match reply {
                DbReply::Failed(e) => Progress::Finish(Err(ServiceError::Internal(e))),
                DbReply::Inserted(tasklist_id) => {
                    let next = Init {
                        phase: InitPhase::ModelTasks { routine_id, model_id, tasklist_id },
                        request: DbRequest::ModelTasks { model: model_id },
                    };
                    proof {
                        assert forall|s0: Store, s: Store, s2: Store, rid: i32|
                            #[trigger] this.on(s0, s, rid) && #[trigger] s.answers(this.request, rep, s2)
                                implies next.on(s0, s2, rid) by {
                            let row = s0.find_routine(rid)->Some_0;
                            let r = insert::RegularTasklist {
                                name: row.name,
                                state: State::NotStarted.text(),
                                routine_id: rid,
                            };
                            assert(s.succeeds(this.request, rep, s2));
                            assert(pushed(
                                s.tasklists,
                                s2.tasklists,
                                |t: db::model::RegularTasklist|
                                    t.id == tasklist_id && t.name == r.name && t.state@ == r.state@
                                        && t.routine_id == r.routine_id && !t.archived,
                            ));
                            assert(list_started(s0, s2, rid, tasklist_id));
                        }
                    }
                    Progress::Next(next)
                },
                _ => {
                    proof {
                        assert(false);
                    }
                    Progress::Finish(Err(ServiceError::Internal(String::new())))
                },
            },
            InitPhase::ModelTasks { routine_id, model_id, tasklist_id } => match reply {
                DbReply::Failed(e) => Progress::Finish(Err(ServiceError::Internal(e))),
                DbReply::Ids(tasks) => {
                    let ghost tv = tasks@;
                    if tasks.len() == 0 {
                        proof {
                            assert forall|s0: Store, s: Store, s2: Store, rid: i32|
                                #[trigger] this.on(s0, s, rid) && #[trigger] s.answers(
                                    this.request,
                                    rep,
                                    s2,
                                ) implies exists|tl: i32, copies: Seq<i32>|
                                routine_started(s0, s2, rid, tl, copies) by {
                                assert(s.reads(this.request, rep));
                                assert(s2.tasks.take(s0.tasks.len() as int) =~= s0.tasks);
                                assert(s2.task_partof_regular.take(
                                    s0.task_partof_regular.len() as int,
                                ) =~= s0.task_partof_regular);
                                assert(routine_started(
                                    s0,
                                    s2,
                                    rid,
                                    tasklist_id,
                                    Seq::<i32>::empty(),
                                ));
                            }
                        }
                        Progress::Finish(Ok(()))
                    } else {
                        let task = tasks[0];
                        let next = Init {
                            phase: InitPhase::TaskName {
                                routine_id,
                                model_id,
                                tasklist_id,
                                tasks,
                                new_tasks: Vec::new(),
                            },
                            request: DbRequest::FindTaskName { task },
                        };
                        proof {
                            assert forall|s0: Store, s: Store, s2: Store, rid: i32|
                                #[trigger] this.on(s0, s, rid) && #[trigger] s.answers(
                                    this.request,
                                    rep,
                                    s2,
                                ) implies next.on(s0, s2, rid) by {
                                assert(s.reads(this.request, rep));
                                assert(s2.tasks.take(s0.tasks.len() as int) =~= s0.tasks);
                                assert(tasks_copied(s0, s2, tv, Seq::<i32>::empty()));
                            }
                        }
                        Progress::Next(next)
                    }
                },
                _ => {
                    proof {
                        assert(false);
                    }
                    Progress::Finish(Err(ServiceError::Internal(String::new())))
                },
            },
            InitPhase::TaskName { routine_id, model_id, tasklist_id, tasks, new_tasks } => match reply {
                DbReply::Failed(e) => Progress::Finish(Err(ServiceError::Internal(e))),
                DbReply::TaskName(None) => {
                    let task = tasks[new_tasks.len()];
                    Progress::Finish(Err(invalid_task(model_id, routine_id, task)))
                },
                DbReply::TaskName(Some(name)) => {
                    let next = Init {
                        phase: InitPhase::NewTask {
                            routine_id,
                            model_id,
                            tasklist_id,
                            tasks,
                            new_tasks,
                        },
                        request: DbRequest::InsertTask(
                            insert::Task { name, state: State::NotStarted.as_str() },
                        ),
                    };
                    proof {
                        assert forall|s0: Store, s: Store, s2: Store, rid: i32|
                            #[trigger] this.on(s0, s, rid) && #[trigger] s.answers(this.request, rep, s2)
                                implies next.on(s0, s2, rid) by {
                            assert(s.reads(this.request, rep));
                        }
                    }
                    Progress::Next(next)
                },
                _ => {
                    proof {
                        assert(false);
                    }
                    Progress::Finish(Err(ServiceError::Internal(String::new())))
                },
            },
            InitPhase::NewTask { routine_id, model_id, tasklist_id, tasks, new_tasks } => match reply {
                DbReply::Failed(e) => Progress::Finish(Err(ServiceError::Internal(e))),
                DbReply::Inserted(copy) => {
                    let ghost old_new = new_tasks@;
                    let ghost tv = tasks@;
                    let mut new_tasks = new_tasks;
                    new_tasks.push(copy);
                    proof {
                        assert forall|s0: Store, s: Store, s2: Store, rid: i32|
                            #[trigger] this.on(s0, s, rid) && #[trigger] s.answers(this.request, rep, s2)
                                implies {
                                &&& list_started(s0, s2, rid, tasklist_id)
                                &&& tasks_copied(s0, s2, tv, new_tasks@)
                                &&& s2 == Store { tasklists: s2.tasklists, tasks: s2.tasks, ..s0 }
                            } by {
                            let t = s.find_task(tv[old_new.len() as int])->Some_0;
                            let r = insert::Task { name: t.name, state: State::NotStarted.text() };
                            assert(s.succeeds(this.request, rep, s2));
                            assert(pushed(
                                s.tasks,
                                s2.tasks,
                                |x: db::model::Task| x.id == copy && x.name == r.name && x.state@ == r.state@,
                            ));
                            lemma_copy_step(s0, s, s2, tv, old_new, copy, t.name);
                        }
                    }
                    if new_tasks.len() < tasks.len() {
                        let task = tasks[new_tasks.len()];
                        let next = Init {
                            phase: InitPhase::TaskName {
                                routine_id,
                                model_id,
                                tasklist_id,
                                tasks,
                                new_tasks,
                            },
                            request: DbRequest::FindTaskName { task },
                        };
                        Progress::Next(next)
                    } else {
                        let first = new_tasks[0];
                        let next = Init {
                            phase: InitPhase::Link { tasklist_id, tasks, new_tasks, linked: 0 },
                            request: DbRequest::InsertTaskPartofRegular(
                                insert::TaskPartofRegular { regular: tasklist_id, task: first },
                            ),
                        };
                        proof {
                            assert forall|s0: Store, s: Store, s2: Store, rid: i32|
                                #[trigger] this.on(s0, s, rid) && #[trigger] s.answers(
                                    this.request,
                                    rep,
                                    s2,
                                ) implies next.on(s0, s2, rid) by {
                                assert(s2.task_partof_regular == s0.task_partof_regular);
                                assert(s2.task_partof_regular.take(
                                    s0.task_partof_regular.len() as int,
                                ) =~= s0.task_partof_regular);
                            }
                        }
                        Progress::Next(next)
                    }
                },
                _ => {
                    proof {
                        assert(false);
                    }
                    Progress::Finish(Err(ServiceError::Internal(String::new())))
                },
            },
            InitPhase::Link { tasklist_id, tasks, new_tasks, linked } => match reply {
                DbReply::Failed(e) => Progress::Finish(Err(ServiceError::Internal(e))),
                DbReply::Stored => {
                    let ghost nv = new_tasks@;
                    proof {
                        assert forall|s0: Store, s: Store, s2: Store, rid: i32|
                            #[trigger] this.on(s0, s, rid) && #[trigger] s.answers(this.request, rep, s2)
                                implies {
                                &&& copies_linked(s0, s2, tasklist_id, nv, linked + 1)
                                &&& s2 == Store {
                                    tasklists: s2.tasklists,
                                    tasks: s2.tasks,
                                    task_partof_regular: s2.task_partof_regular,
                                    ..s0
                                }
                            } by {
                            assert(s.succeeds(this.request, rep, s2));
                            assert(pushed(
                                s.task_partof_regular,
                                s2.task_partof_regular,
                                |p: db::model::RegularPartOf| p.regular == tasklist_id && p.task == nv[linked as int],
                            ));
                            lemma_link_step(s0, s, s2, tasklist_id, nv, linked as int);
                        }
                    }
                    if linked + 1 == new_tasks.len() {
                        proof {
                            assert forall|s0: Store, s: Store, s2: Store, rid: i32|
                                #[trigger] this.on(s0, s, rid) && #[trigger] s.answers(
                                    this.request,
                                    rep,
                                    s2,
                                ) implies exists|tl: i32, copies: Seq<i32>|
                                routine_started(s0, s2, rid, tl, copies) by {
                                assert(routine_started(s0, s2, rid, tasklist_id, nv));
                            }
                        }
                        Progress::Finish(Ok(()))
                    } else {
                        let next_task = new_tasks[linked + 1];
                        let next = Init {
                            phase: InitPhase::Link {
                                tasklist_id,
                                tasks,
                                new_tasks,
                                linked: linked + 1,
                            },
                            request: DbRequest::InsertTaskPartofRegular(
                                insert::TaskPartofRegular { regular: tasklist_id, task: next_task },
                            ),
                        };
                        Progress::Next(next)
                    }
                },
                _ => {
                    proof {
                        assert(false);
                    }
                    Progress::Finish(Err(ServiceError::Internal(String::new())))
                },
            },
        }
    }
}

} // verus!
