use tasklist::cli::{plan_request, Command, Show};
use tasklist::command::MarkTask;
use tasklist::db::model::{insert, Routine};
use tasklist::db::request::{DbReply, DbRequest, Progress};
use tasklist::error::ServiceError;
use tasklist::model::{self, NewRoutine, State};
use tasklist::server::parse_path_id;
use tasklist::server::routine::{AddTask, Get, Init, InitPhase, List, New, RoutineTasks};
use tasklist::server::task::Put;
use tasklist::server::tasklist::get as tasklist_get;

fn next<M, T>(p: Progress<M, T>) -> M {
    match p {
        Progress::Next(m) => m,
        Progress::Finish(_) => panic!("finished early"),
    }
}

fn finish<M, T>(p: Progress<M, T>) -> Result<T, ServiceError> {
    match p {
        Progress::Next(_) => panic!("not finished"),
        Progress::Finish(r) => r,
    }
}

fn routine_row(id: i32, name: &str, model: i32) -> Routine {
    Routine { id, name: name.to_string(), model }
}

#[test]
fn path_ids() {
    assert_eq!(parse_path_id("15").unwrap(), 15);
    assert!(matches!(parse_path_id("abc"), Err(ServiceError::BadRequest(m)) if m == "invalid digit found in string"));
    assert!(matches!(parse_path_id(""), Err(ServiceError::BadRequest(m)) if m == "cannot parse integer from empty string"));
    assert!(matches!(parse_path_id("99999999999"), Err(ServiceError::BadRequest(m)) if m == "number too large to fit in target type"));
}

#[test]
fn routine_list_run() {
    let m = List::start();
    assert!(matches!(m.request(), DbRequest::LoadRoutines));
    assert!(matches!(finish(List::start().step(DbReply::Routines(vec![]))), Ok(v) if v.is_empty()));
    let m = next(m.step(DbReply::Routines(vec![routine_row(1, "a", 10), routine_row(2, "b", 20)])));
    assert!(matches!(m.request(), DbRequest::RoutineTasklists { routine: 1 }));
    let m = next(m.step(DbReply::Ids(vec![3])));
    assert!(matches!(m.request(), DbRequest::RoutineTasklists { routine: 2 }));
    let v = finish(m.step(DbReply::Ids(vec![]))).unwrap();
    assert_eq!(v.len(), 2);
    assert_eq!((v[0].id, v[0].name.as_str(), v[0].model, v[0].tasklists.clone()), (1, "a", 10, vec![3]));
    assert_eq!((v[1].id, v[1].name.as_str(), v[1].model, v[1].tasklists.clone()), (2, "b", 20, vec![]));
    let m = next(List::start().step(DbReply::Routines(vec![routine_row(1, "a", 10)])));
    assert!(matches!(finish(m.step(DbReply::Failed("x".to_string()))), Err(ServiceError::Internal(m)) if m == "x"));
}

#[test]
fn routine_get_run() {
    assert!(matches!(Get::start("x"), Err(ServiceError::BadRequest(_))));
    let m = Get::start("4").unwrap();
    assert!(matches!(m.request(), DbRequest::FindRoutine { id: 4 }));
    assert!(matches!(finish(Get::start("4").unwrap().step(DbReply::Routine(None))), Err(ServiceError::NotFound(m)) if m == "Routine 4 not found"));
    let m = next(m.step(DbReply::Routine(Some(routine_row(4, "eve", 8)))));
    assert!(matches!(m.request(), DbRequest::RoutineTasklists { routine: 4 }));
    let r = finish(m.step(DbReply::Ids(vec![6, 7]))).unwrap();
    assert_eq!((r.id, r.name.as_str(), r.model, r.tasklists), (4, "eve", 8, vec![6, 7]));
}

#[test]
fn routine_new_run() {
    let m = New::start(NewRoutine { name: "gym".to_string() });
    assert!(matches!(m.request(), DbRequest::InsertModel(insert::ModelTasklist { routine: 0 })));
    let m = next(m.step(DbReply::Inserted(11)));
    assert!(matches!(m.request(), DbRequest::InsertRoutine(r) if r.name == "gym" && r.model == 11));
    let m = next(m.step(DbReply::Inserted(5)));
    assert!(matches!(m.request(), DbRequest::SetModelRoutine { model: 11, routine: 5 }));
    assert!(finish(m.step(DbReply::Updated(1))).is_ok());
    let m = New::start(NewRoutine { name: "gym".to_string() });
    assert!(matches!(finish(m.step(DbReply::Failed("full".to_string()))), Err(ServiceError::Internal(m)) if m == "full"));
}

#[test]
fn routine_add_task_run() {
    let task = model::Task { name: "stretch".to_string(), state: State::Started };
    let m = AddTask::start("2", task).unwrap();
    assert!(matches!(m.request(), DbRequest::FindRoutineModel { routine: 2 }));
    let m = next(m.step(DbReply::Model(Some(30))));
    assert!(matches!(m.request(), DbRequest::InsertTask(t) if t.name == "stretch" && t.state == "started"));
    let m = next(m.step(DbReply::Inserted(77)));
    assert!(matches!(m.request(), DbRequest::InsertTaskPartofModel(l) if l.model == 30 && l.task == 77));
    assert!(finish(m.step(DbReply::Stored)).is_ok());
    let task = model::Task { name: "x".to_string(), state: State::Done };
    assert!(matches!(finish(AddTask::start("2", task).unwrap().step(DbReply::Model(None))), Err(ServiceError::NotFound(m)) if m == "Routine 2 not found"));
}

#[test]
fn routine_tasks_run() {
    let m = RoutineTasks::start("9").unwrap();
    assert!(matches!(m.request(), DbRequest::FindRoutineModel { routine: 9 }));
    let m = next(m.step(DbReply::Model(Some(3))));
    assert!(matches!(m.request(), DbRequest::ModelTasks { model: 3 }));
    assert_eq!(finish(m.step(DbReply::Ids(vec![4, 5]))).unwrap(), vec![4, 5]);
    assert!(matches!(finish(RoutineTasks::start("9").unwrap().step(DbReply::Model(None))), Err(ServiceError::NotFound(m)) if m == "Routine 9 not found"));
}

#[test]
fn init_copies_model_tasks_in_order() {
    let m = Init::start("1").unwrap();
    assert!(matches!(m.request(), DbRequest::FindRoutineNameModel { routine: 1 }));
    let m = next(m.step(DbReply::NameModel(Some(("chores".to_string(), 40)))));
    assert!(matches!(m.request(), DbRequest::InsertTasklist(t) if t.name == "chores" && t.state == "not-started" && t.routine_id == 1));
    let m = next(m.step(DbReply::Inserted(100)));
    assert!(matches!(m.request(), DbRequest::ModelTasks { model: 40 }));
    let m = next(m.step(DbReply::Ids(vec![7, 8])));
    assert!(matches!(m.request(), DbRequest::FindTaskName { task: 7 }));
    let m = next(m.step(DbReply::TaskName(Some("wash".to_string()))));
    assert!(matches!(m.request(), DbRequest::InsertTask(t) if t.name == "wash" && t.state == "not-started"));
    let m = next(m.step(DbReply::Inserted(201)));
    assert!(matches!(m.request(), DbRequest::FindTaskName { task: 8 }));
    let m = next(m.step(DbReply::TaskName(Some("dry".to_string()))));
    assert!(matches!(m.request(), DbRequest::InsertTask(t) if t.name == "dry" && t.state == "not-started"));
    let m = next(m.step(DbReply::Inserted(202)));
    assert!(matches!(m.request(), DbRequest::InsertTaskPartofRegular(l) if l.regular == 100 && l.task == 201));
    assert!(matches!(&m.phase, InitPhase::Link { new_tasks, linked: 0, .. } if *new_tasks == vec![201, 202]));
    let m = next(m.step(DbReply::Stored));
    assert!(matches!(m.request(), DbRequest::InsertTaskPartofRegular(l) if l.regular == 100 && l.task == 202));
    assert!(finish(m.step(DbReply::Stored)).is_ok());
}

#[test]
fn init_refusals() {
    assert!(matches!(Init::start("one"), Err(ServiceError::BadRequest(m)) if m == "invalid digit found in string"));
    assert!(matches!(finish(Init::start("1").unwrap().step(DbReply::NameModel(None))), Err(ServiceError::NotFound(m)) if m == "Routine 1 not found"));
    let m = next(Init::start("1").unwrap().step(DbReply::NameModel(Some(("c".to_string(), 40)))));
    let m = next(m.step(DbReply::Inserted(100)));
    assert!(finish(m.step(DbReply::Ids(vec![]))).is_ok());
}

#[test]
fn init_invalid_model_task() {
    let m = next(Init::start("1").unwrap().step(DbReply::NameModel(Some(("c".to_string(), 40)))));
    let m = next(m.step(DbReply::Inserted(100)));
    let m = next(m.step(DbReply::Ids(vec![7])));
    let r = finish(m.step(DbReply::TaskName(None)));
    assert!(matches!(r, Err(ServiceError::Internal(m)) if m == "Model 40 in routine 1 refers to invalid task 7"));
}

#[test]
fn put_sets_state_then_name() {
    let cmd = MarkTask { state: Some(State::Done), name: Some("new".to_string()) };
    let m = next(Put::start("3", cmd).unwrap());
    assert!(matches!(m.request(), DbRequest::SetTaskState { id: 3, state } if state == "done"));
    let m = next(m.step(DbReply::Updated(1)));
    assert!(matches!(m.request(), DbRequest::SetTaskName { id: 3, name } if name == "new"));
    assert!(finish(m.step(DbReply::Updated(1))).is_ok());
}

#[test]
fn put_cases() {
    assert!(matches!(Put::start("3", MarkTask::default()), Ok(Progress::Finish(Ok(())))));
    assert!(matches!(Put::start("z", MarkTask::default()), Err(ServiceError::BadRequest(_))));
    let m = next(Put::start("3", MarkTask { state: None, name: Some("n".to_string()) }).unwrap());
    assert!(matches!(m.request(), DbRequest::SetTaskName { id: 3, .. }));
    assert!(matches!(finish(m.step(DbReply::Updated(0))), Err(ServiceError::NotFound(m)) if m == "Task 3 not found"));
    let m = next(Put::start("3", MarkTask { state: Some(State::Paused), name: Some("n".to_string()) }).unwrap());
    assert!(matches!(finish(m.step(DbReply::Updated(0))), Err(ServiceError::NotFound(m)) if m == "Task 3 not found"));
}

#[test]
fn tasklist_get_start() {
    assert!(matches!(tasklist_get("8").unwrap().request(), DbRequest::FindTasklist { id: 8 }));
    assert!(matches!(tasklist_get("-"), Err(ServiceError::BadRequest(_))));
}

#[test]
fn path_ids_written_by_the_command_line_read_back() {
    for id in [0u64, 5, 2147483647] {
        let q = plan_request(Command::Show(Show::Task { id })).unwrap();
        let segment = q.url.rsplit('/').next().unwrap().to_string();
        assert_eq!(parse_path_id(&segment).unwrap() as u64, id);
    }
    let q = plan_request(Command::Show(Show::Task { id: 3000000000 })).unwrap();
    let segment = q.url.rsplit('/').next().unwrap().to_string();
    assert!(matches!(parse_path_id(&segment), Err(ServiceError::BadRequest(m)) if m == "number too large to fit in target type"));
}

#[test]
fn routine_row_asks_for_its_tasklists() {
    assert!(matches!(routine_row(12, "r", 1).tasklists(), DbRequest::RoutineTasklists { routine: 12 }));
}
