//! Reading task lists: each stored task list, then the ids of its tasks.
use vstd::prelude::*;

use crate::db::model::RegularTasklist;
use crate::db::request::{answers, DbReply, DbRequest, Progress};
use crate::db::store::{lemma_find_tasklist, tasklist_task_ids_of, Store};
use crate::error::{not_found, not_found_text, ServiceError};
use crate::model;
use crate::model::{unknown_state_prefix, State};
use crate::text::debug_text;

verus! {

/// `r` is the answer made of the stored `row` and the ids `tasks` of its tasks:
/// the task list, or a 500 answer when the stored state is no state's text.
pub open spec fn tasklist_outcome(
    row: RegularTasklist,
    tasks: Vec<i32>,
    r: Result<model::Tasklist, ServiceError>,
) -> bool {
    match r {
        Ok(t) => State::from_name(row.state@) == Some(t.state) && t.id == row.id && t.name
            == row.name && t.tasks == tasks,
        Err(err) => State::from_name(row.state@).is_none() && (err matches ServiceError::Internal(
            m,
        ) && m@ == unknown_state_prefix() + debug_text(row.state@)),
    }
}

/// `t` is the task list made of the stored `row`, whatever its tasks.
pub open spec fn made_from(row: RegularTasklist, t: model::Tasklist) -> bool {
    State::from_name(row.state@) == Some(t.state) && t.id == row.id && t.name == row.name
}

fn tasklist_from_row(row: RegularTasklist, tasks: Vec<i32>) -> (r: Result<
    model::Tasklist,
    ServiceError,
>)
    ensures
        tasklist_outcome(row, tasks, r),
{
    match row.to_model(tasks) {
        Ok(t) => Ok(t),
        Err(msg) => Err(ServiceError::Internal(msg)),
    }
}

fn copy_tasklist_row(row: &RegularTasklist) -> (r: RegularTasklist)
    ensures
        r == *row,
{
    RegularTasklist {
        id: row.id,
        name: row.name.clone(),
        state: row.state.clone(),
        routine_id: row.routine_id,
        archived: row.archived,
    }
}

/// Where reading one task list stands.
pub enum TasklistByIdPhase {
    /// Waiting for the stored task list `id`.
    Find { id: i32 },
    /// Waiting for the ids of the tasks of the stored `row`.
    Tasks { row: RegularTasklist },
}

/// Reading the task list `id`: the stored task list, then its tasks.
pub struct TasklistById {
    pub phase: TasklistByIdPhase,
    pub request: DbRequest,
}

/// Starts reading the task list `id`.
pub fn tasklist_by_id(id: i32) -> (m: TasklistById)
    ensures
        m.wf(),
        m.phase == (TasklistByIdPhase::Find { id }),
        forall|s: Store| #[trigger] m.on(s, id),
{
    TasklistById { phase: TasklistByIdPhase::Find { id }, request: DbRequest::FindTasklist { id } }
}

impl TasklistById {
    /// The request waited on is the one the phase calls for.
    pub open spec fn wf(self) -> bool {
        match self.phase {
            TasklistByIdPhase::Find { id } => self.request == (DbRequest::FindTasklist { id }),
            TasklistByIdPhase::Tasks { row } => self.request == (DbRequest::TasklistTasks {
                tasklist: row.id,
            }),
        }
    }

    /// The run stands where reading the task list `id` against the store `s`
    /// stands.
    pub open spec fn on(self, s: Store, id: i32) -> bool {
        match self.phase {
            TasklistByIdPhase::Find { id: i } => i == id,
            TasklistByIdPhase::Tasks { row } => s.find_tasklist(id) == Some(row),
        }
    }

    /// The request to make of the store next.
    pub fn request(&self) -> (r: &DbRequest)
        ensures
            *r == self.request,
    {
        &self.request
    }

    /// Takes the store's reply to the request waited on. A failure of the store
    /// is a 500 answer; a missing task list a 404 answer; else the tasks of the
    /// found task list are asked for, and the task list is made of both.
    pub fn step(self, reply: DbReply) -> (p: Progress<TasklistById, model::Tasklist>)
        requires
            self.wf(),
            answers(self.request, reply),
        ensures
            reply matches DbReply::Failed(e) ==> (p matches Progress::Finish(
                Err(ServiceError::Internal(m)),
            ) && m == e),
            self.phase matches TasklistByIdPhase::Find { id } ==> {
                &&& reply matches DbReply::Tasklist(None) ==> (p matches Progress::Finish(
                    Err(ServiceError::NotFound(m)),
                ) && m@ == not_found_text("Tasklist"@, id as int))
                &&& reply matches DbReply::Tasklist(Some(row)) ==> (p matches Progress::Next(m)
                    && m.wf() && m.phase == (TasklistByIdPhase::Tasks { row }))
            },
            self.phase matches TasklistByIdPhase::Tasks { row } ==> (reply matches DbReply::Ids(
                tasks,
            ) ==> (p matches Progress::Finish(r) && tasklist_outcome(row, tasks, r))),
            forall|s: Store, id: i32|
                #[trigger] self.on(s, id) && s.reads(self.request, reply) ==> {
                    &&& p matches Progress::Next(m) ==> m.on(s, id)
                    &&& p matches Progress::Finish(r) ==> tasklist_by_id_result(s, id, r)
                },
    {
        match self.phase {
            TasklistByIdPhase::Find { id } => match reply {
                DbReply::Failed(e) => Progress::Finish(Err(ServiceError::Internal(e))),
                DbReply::Tasklist(None) => Progress::Finish(Err(not_found("Tasklist", id))),
                DbReply::Tasklist(Some(row)) => {
                    let tasklist = row.id;
                    Progress::Next(
                        TasklistById {
                            phase: TasklistByIdPhase::Tasks { row },
                            request: DbRequest::TasklistTasks { tasklist },
                        },
                    )
                },
                _ => {
                    proof {
                        assert(false);
                    }
                    Progress::Finish(Err(ServiceError::Internal(String::new())))
                },
            },
            TasklistByIdPhase::Tasks { row } => match reply {
                DbReply::Failed(e) => Progress::Finish(Err(ServiceError::Internal(e))),
                DbReply::Ids(tasks) => Progress::Finish(tasklist_from_row(row, tasks)),
                _ => {
                    proof {
                        assert(false);
                    }
                    Progress::Finish(Err(ServiceError::Internal(String::new())))
                },
            },
        }
    }
}

/// Where reading all task lists stands.
pub enum AllTasklistsPhase {
    /// Waiting for all stored task lists.
    Load,
    /// Waiting for the ids of the tasks of `rows[done.len()]`; `done` holds the
    /// task lists made of the rows before it.
    Tasks { rows: Vec<RegularTasklist>, done: Vec<model::Tasklist> },
}

/// Reading all task lists: the stored ones, then the tasks of each in turn.
pub struct AllTasklists {
    pub phase: AllTasklistsPhase,
    pub request: DbRequest,
}

/// Starts reading all task lists.
pub fn all_tasklists() -> (m: AllTasklists)
    ensures
        m.wf(),
        m.phase == AllTasklistsPhase::Load,
        forall|s: Store| #[trigger] m.on(s),
{
    AllTasklists { phase: AllTasklistsPhase::Load, request: DbRequest::LoadTasklists }
}

impl AllTasklists {
    /// The request waited on is the one the phase calls for, and each task list
    /// made so far is made of the row in its place.
    pub open spec fn wf(self) -> bool {
        match self.phase {
            AllTasklistsPhase::Load => self.request == DbRequest::LoadTasklists,
            AllTasklistsPhase::Tasks { rows, done } => {
                &&& done.len() < rows.len()
                &&& self.request == (DbRequest::TasklistTasks {
                    tasklist: rows@[done.len() as int].id,
                })
                &&& forall|i: int| 0 <= i < done.len() ==> made_from(rows@[i], #[trigger] done@[i])
            },
        }
    }

    /// The run stands where reading all task lists against the store `s` stands:
    /// the rows are the store's, and each task list made so far holds the tasks
    /// the store links to it.
    pub open spec fn on(self, s: Store) -> bool {
        match self.phase {
            AllTasklistsPhase::Load => true,
            AllTasklistsPhase::Tasks { rows, done } => rows@ == s.tasklists && forall|i: int|
                0 <= i < done@.len() ==> tasklist_in_store(s, rows@[i], #[trigger] done@[i]),
        }
    }

    /// The request to make of the store next.
    pub fn request(&self) -> (r: &DbRequest)
        ensures
            *r == self.request,
    {
        &self.request
    }

    /// Takes the store's reply to the request waited on. A failure of the store
    /// is a 500 answer. The stored task lists are taken in order; for each, its
    /// tasks are asked for and the task list is made of both; a stored state that
    /// is no state's text is a 500 answer. After the last, all are answered.
    pub fn step(self, reply: DbReply) -> (p: Progress<AllTasklists, Vec<model::Tasklist>>)
        requires
            self.wf(),
            answers(self.request, reply),
        ensures
            reply matches DbReply::Failed(e) ==> (p matches Progress::Finish(
                Err(ServiceError::Internal(m)),
            ) && m == e),
            self.phase is Load ==> (reply matches DbReply::Tasklists(rows) ==> {
                &&& rows.len() == 0 ==> (p matches Progress::Finish(Ok(v)) && v.len() == 0)
                &&& rows.len() > 0 ==> (p matches Progress::Next(m) && m.wf() && (m.phase matches AllTasklistsPhase::Tasks {
                    rows: rows2,
                    done,
                } && rows2 == rows && done@.len() == 0))
            }),
            self.phase matches AllTasklistsPhase::Tasks { rows, done } ==> (reply matches DbReply::Ids(
                tasks,
            ) ==> {
                let row = rows@[done.len() as int];
                &&& State::from_name(row.state@).is_none() ==> (p matches Progress::Finish(
                    Err(ServiceError::Internal(m)),
                ) && m@ == unknown_state_prefix() + debug_text(row.state@))
                &&& State::from_name(row.state@).is_some() && done.len() + 1 == rows.len() ==> (
                p matches Progress::Finish(Ok(v)) && v@.len() == rows.len() && v@.take(
                    done.len() as int,
                ) == done@ && tasklist_outcome(row, tasks, Ok(v@.last())))
                &&& State::from_name(row.state@).is_some() && done.len() + 1 < rows.len() ==> (
                p matches Progress::Next(m) && m.wf() && (m.phase matches AllTasklistsPhase::Tasks {
                    rows: rows2,
                    done: done2,
                } && rows2 == rows && done2@.len() == done.len() + 1 && done2@.take(
                    done.len() as int,
                ) == done@ && tasklist_outcome(row, tasks, Ok(done2@.last()))))
            }),
            forall|s: Store|
                #[trigger] self.on(s) && s.reads(self.request, reply) ==> {
                    &&& p matches Progress::Next(m) ==> m.on(s)
                    &&& p matches Progress::Finish(r) ==> all_tasklists_result(s, r)
                },
    {
        match self.phase {
            AllTasklistsPhase::Load => match reply {
                DbReply::Failed(e) => Progress::Finish(Err(ServiceError::Internal(e))),
                DbReply::Tasklists(rows) => {
                    if rows.len() == 0 {
                        Progress::Finish(Ok(Vec::new()))
                    } else {
                        let tasklist = rows[0].id;
                        Progress::Next(
                            AllTasklists {
                                phase: AllTasklistsPhase::Tasks { rows, done: Vec::new() },
                                request: DbRequest::TasklistTasks { tasklist },
                            },
                        )
                    }
                },
                _ => {
                    proof {
                        assert(false);
                    }
                    Progress::Finish(Err(ServiceError::Internal(String::new())))
                },
            },
            AllTasklistsPhase::Tasks { rows, done } => match reply {
                DbReply::Failed(e) => Progress::Finish(Err(ServiceError::Internal(e))),
                DbReply::Ids(tasks) => {
                    let k = done.len();
                    let row = copy_tasklist_row(&rows[k]);
                    let ghost ids = tasks@;
                    let ghost old_done = done@;
                    match tasklist_from_row(row, tasks) {
                        Err(err) => {
                            proof {
                                assert forall|s: Store|
                                    rows@ == s.tasklists && (forall|i: int|
                                        0 <= i < old_done.len() ==> tasklist_in_store(
                                            s,
                                            rows@[i],
                                            #[trigger] old_done[i],
                                        )) implies all_tasklists_result(s, Err(err)) by {
                                    assert forall|j: int| 0 <= j < k implies State::from_name(
                                        #[trigger] s.tasklists[j].state@,
                                    ).is_some() by {
                                        assert(tasklist_in_store(s, rows@[j], old_done[j]));
                                    }
                                    assert(first_bad_tasklist(s.tasklists, k as int));
                                    assert(!State::from_name(s.tasklists[k as int].state@).is_some());
                                }
                            }
                            Progress::Finish(Err(err))
                        },
                        Ok(t) => {
                            let mut done = done;
                            done.push(t);
                            assert(done@.take(k as int) =~= old_done);
                            proof {
                                assert forall|s: Store|
                                    rows@ == s.tasklists && (forall|i: int|
                                        0 <= i < old_done.len() ==> tasklist_in_store(
                                            s,
                                            rows@[i],
                                            #[trigger] old_done[i],
                                        )) && ids == tasklist_task_ids_of(
                                        s.task_partof_regular,
                                        rows@[k as int].id,
                                    ) implies forall|i: int|
                                    0 <= i < done@.len() ==> tasklist_in_store(
                                        s,
                                        rows@[i],
                                        #[trigger] done@[i],
                                    ) by {
                                    assert forall|i: int| 0 <= i < done@.len() implies tasklist_in_store(
                                        s,
                                        rows@[i],
                                        #[trigger] done@[i],
                                    ) by {
                                        if i < k {
                                            assert(done@[i] == old_done[i]);
                                        }
                                    }
                                }
                            }
                            if k + 1 == rows.len() {
                                proof {
                                    assert forall|s: Store|
                                        rows@ == s.tasklists && (forall|i: int|
                                            0 <= i < done@.len() ==> tasklist_in_store(
                                                s,
                                                rows@[i],
                                                #[trigger] done@[i],
                                            )) implies all_tasklists_result(s, Ok(done)) by {
                                        assert forall|j: int| 0 <= j < s.tasklists.len() implies State::from_name(
                                            #[trigger] s.tasklists[j].state@,
                                        ).is_some() by {
                                            assert(tasklist_in_store(s, rows@[j], done@[j]));
                                        }
                                    }
                                }
                                Progress::Finish(Ok(done))
                            } else {
                                let tasklist = rows[k + 1].id;
                                let next = AllTasklists {
                                    phase: AllTasklistsPhase::Tasks { rows, done },
                                    request: DbRequest::TasklistTasks { tasklist },
                                };
                                assert(next.wf()) by {
                                    assert forall|i: int| 0 <= i < k + 1 implies made_from(
                                        rows@[i],
                                        #[trigger] done@[i],
                                    ) by {
                                        if i < k {
                                            assert(done@[i] == old_done[i]);
                                        }
                                    }
                                }
                                Progress::Next(next)
                            }
                        },
                    }
                },
                _ => {
                    proof {
                        assert(false);
                    }
                    Progress::Finish(Err(ServiceError::Internal(String::new())))
                },
            },
        }
    }
}

/// `t` is the task list made of the stored `row`, with the tasks the store `s`
/// links to it.
pub open spec fn tasklist_in_store(s: Store, row: RegularTasklist, t: model::Tasklist) -> bool {
    made_from(row, t) && t.tasks@ == tasklist_task_ids_of(s.task_partof_regular, row.id)
}

/// Row `k` is the first of `rows` whose state is no state's text.
pub open spec fn first_bad_tasklist(rows: Seq<RegularTasklist>, k: int) -> bool {
    &&& 0 <= k < rows.len()
    &&& State::from_name(rows[k].state@).is_none()
    &&& forall|j: int| 0 <= j < k ==> State::from_name(#[trigger] rows[j].state@).is_some()
}

/// `r` is what reading the task list `id` gives against the store `s`.
pub open spec fn tasklist_by_id_result(s: Store, id: i32, r: Result<model::Tasklist, ServiceError>) -> bool {
    match s.find_tasklist(id) {
        None => r matches Err(ServiceError::NotFound(m)) && m@ == not_found_text("Tasklist"@, id as int),
        Some(row) => if State::from_name(row.state@).is_some() {
            r matches Ok(t) && tasklist_in_store(s, row, t)
        } else {
            r matches Err(ServiceError::Internal(m)) && m@ == unknown_state_prefix() + debug_text(
                row.state@,
            )
        },
    }
}

/// `r` is what reading all task lists gives against the store `s`.
pub open spec fn all_tasklists_result(s: Store, r: Result<Vec<model::Tasklist>, ServiceError>) -> bool {
    if forall|i: int| 0 <= i < s.tasklists.len() ==> State::from_name(#[trigger] s.tasklists[i].state@).is_some() {
        r matches Ok(v) && v@.len() == s.tasklists.len() && forall|i: int|
            0 <= i < v@.len() ==> tasklist_in_store(s, s.tasklists[i], #[trigger] v@[i])
    } else {
        exists|k: int|
            first_bad_tasklist(s.tasklists, k) && (r matches Err(ServiceError::Internal(m)) && m@
                == unknown_state_prefix() + debug_text(#[trigger] s.tasklists[k].state@))
    }
}

/// Each task list that reading all task lists gives is what reading it by its
/// id gives, against the same store; an id that none of them holds is a 404.
pub proof fn lemma_tasklist_by_id_agrees_with_all(
    s: Store,
    all: Vec<model::Tasklist>,
    id: i32,
    r: Result<model::Tasklist, ServiceError>,
)
    requires
        s.wf(),
        all_tasklists_result(s, Ok(all)),
        tasklist_by_id_result(s, id, r),
    ensures
        forall|i: int|
            0 <= i < all@.len() && #[trigger] all@[i].id == id ==> (r matches Ok(t) && t.id
                == all@[i].id && t.name == all@[i].name && t.state == all@[i].state && t.tasks@
                == all@[i].tasks@),
        (forall|i: int| 0 <= i < all@.len() ==> #[trigger] all@[i].id != id) ==> (
        r matches Err(ServiceError::NotFound(m)) && m@ == not_found_text("Tasklist"@, id as int)),
{
    assert forall|i: int| 0 <= i < all@.len() && #[trigger] all@[i].id == id implies (r matches Ok(t) && t.id
                == all@[i].id && t.name == all@[i].name && t.state == all@[i].state && t.tasks@
                == all@[i].tasks@) by {
        assert(tasklist_in_store(s, s.tasklists[i], all@[i]));
        lemma_find_tasklist(s, i);
        assert(State::from_name(s.tasklists[i].state@).is_some());
    }
    if !(forall|i: int| 0 <= i < all@.len() ==> #[trigger] all@[i].id != id) {
    } else {
        if exists|j: int| 0 <= j < s.tasklists.len() && #[trigger] s.tasklists[j].id == id {
            let j = choose|j: int| 0 <= j < s.tasklists.len() && #[trigger] s.tasklists[j].id == id;
            assert(tasklist_in_store(s, s.tasklists[j], all@[j]));
            assert(all@[j].id != id);
        }
    }
}

} // verus!
