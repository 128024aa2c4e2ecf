use tasklist::db::model::{ModelPartof, ModelTasklist, RegularPartOf, RegularTasklist, Routine, Task};
use tasklist::db::request::{DbReply, DbRequest, Progress};
use tasklist::db::task::task_by_id;
use tasklist::db::tasklists::{all_tasklists, tasklist_by_id, AllTasklists, TasklistById};
use tasklist::error::ServiceError;
use tasklist::model::{self, NewRoutine, State};
use tasklist::server::routine::{AddTask, Get, Init, List, New, RoutineTasks};
use tasklist::server::task::Put;
use tasklist::command::MarkTask;

/// A store in memory that answers requests as the library's model of the store
/// says: rows in the order stored, fresh ids one past the largest.
#[derive(Default)]
struct Mem {
    models: Vec<ModelTasklist>,
    routines: Vec<Routine>,
    tasks: Vec<Task>,
    tpm: Vec<ModelPartof>,
    tpr: Vec<RegularPartOf>,
    tasklists: Vec<RegularTasklist>,
}

fn fresh<I: Iterator<Item = i32>>(ids: I) -> i32 {
    ids.max().unwrap_or(0) + 1
}

impl Mem {
    fn execute(&mut self, q: &DbRequest) -> DbReply {
        match q {
            DbRequest::LoadRoutines => DbReply::Routines(self.routines.clone()),
            DbRequest::FindRoutine { id } => DbReply::Routine(self.routines.iter().find(|r| r.id == *id).cloned()),
            DbRequest::RoutineTasklists { routine } => DbReply::Ids(self.tasklists.iter().filter(|t| t.routine_id == *routine).map(|t| t.id).collect()),
            DbRequest::FindRoutineModel { routine } => DbReply::Model(self.routines.iter().find(|r| r.id == *routine).map(|r| r.model)),
            DbRequest::FindRoutineNameModel { routine } => DbReply::NameModel(self.routines.iter().find(|r| r.id == *routine).map(|r| (r.name.clone(), r.model))),
            DbRequest::InsertModel(row) => {
                let id = fresh(self.models.iter().map(|m| m.id));
                self.models.push(ModelTasklist { id, routine: row.routine });
                DbReply::Inserted(id)
            }
            DbRequest::InsertRoutine(row) => {
                let id = fresh(self.routines.iter().map(|r| r.id));
                self.routines.push(Routine { id, name: row.name.clone(), model: row.model });
                DbReply::Inserted(id)
            }
            DbRequest::SetModelRoutine { model, routine } => {
                let mut n = 0;
                for m in self.models.iter_mut().filter(|m| m.id == *model) {
                    m.routine = *routine;
                    n += 1;
                }
                DbReply::Updated(n)
            }
            DbRequest::InsertTask(row) => {
                let id = fresh(self.tasks.iter().map(|t| t.id));
                self.tasks.push(Task { id, name: row.name.clone(), state: row.state.to_string() });
                DbReply::Inserted(id)
            }
            DbRequest::InsertTaskPartofModel(row) => {
                let id = fresh(self.tpm.iter().map(|p| p._id));
                self.tpm.push(ModelPartof { _id: id, model: row.model, task: row.task });
                DbReply::Stored
            }
            DbRequest::ModelTasks { model } => DbReply::Ids(self.tpm.iter().filter(|p| p.model == *model).map(|p| p.task).collect()),
            DbRequest::InsertTasklist(row) => {
                let id = fresh(self.tasklists.iter().map(|t| t.id));
                self.tasklists.push(RegularTasklist { id, name: row.name.clone(), state: row.state.to_string(), routine_id: row.routine_id, archived: false });
                DbReply::Inserted(id)
            }
            DbRequest::FindTaskName { task } => DbReply::TaskName(self.tasks.iter().find(|t| t.id == *task).map(|t| t.name.clone())),
            DbRequest::InsertTaskPartofRegular(row) => {
                let id = fresh(self.tpr.iter().map(|p| p._id));
                self.tpr.push(RegularPartOf { _id: id, regular: row.regular, task: row.task });
                DbReply::Stored
            }
            DbRequest::LoadTasklists => DbReply::Tasklists(self.tasklists.clone()),
            DbRequest::FindTasklist { id } => DbReply::Tasklist(self.tasklists.iter().find(|t| t.id == *id).cloned()),
            DbRequest::TasklistTasks { tasklist } => DbReply::Ids(self.tpr.iter().filter(|p| p.regular == *tasklist).map(|p| p.task).collect()),
            DbRequest::SetTaskState { id, state } => {
                let mut n = 0;
                for t in self.tasks.iter_mut().filter(|t| t.id == *id) {
                    t.state = state.clone();
                    n += 1;
                }
                DbReply::Updated(n)
            }
            DbRequest::SetTaskName { id, name } => {
                let mut n = 0;
                for t in self.tasks.iter_mut().filter(|t| t.id == *id) {
                    t.name = name.clone();
                    n += 1;
                }
                DbReply::Updated(n)
            }
        }
    }
}

trait Handler: Sized {
    type Out;
    fn request(&self) -> &DbRequest;
    fn step(self, reply: DbReply) -> Progress<Self, Self::Out>;
}

impl Handler for List {
    type Out = Vec<model::Routine>;
    fn request(&self) -> &DbRequest {
        List::request(self)
    }
    fn step(self, reply: DbReply) -> Progress<Self, Self::Out> {
        List::step(self, reply)
    }
}

impl Handler for Get {
    type Out = model::Routine;
    fn request(&self) -> &DbRequest {
        Get::request(self)
    }
    fn step(self, reply: DbReply) -> Progress<Self, Self::Out> {
        Get::step(self, reply)
    }
}

impl Handler for New {
    type Out = ();
    fn request(&self) -> &DbRequest {
        New::request(self)
    }
    fn step(self, reply: DbReply) -> Progress<Self, Self::Out> {
        New::step(self, reply)
    }
}

impl Handler for AddTask {
    type Out = ();
    fn request(&self) -> &DbRequest {
        AddTask::request(self)
    }
    fn step(self, reply: DbReply) -> Progress<Self, Self::Out> {
        AddTask::step(self, reply)
    }
}

impl Handler for RoutineTasks {
    type Out = Vec<i32>;
    fn request(&self) -> &DbRequest {
        RoutineTasks::request(self)
    }
    fn step(self, reply: DbReply) -> Progress<Self, Self::Out> {
        RoutineTasks::step(self, reply)
    }
}

impl Handler for Init {
    type Out = ();
    fn request(&self) -> &DbRequest {
        Init::request(self)
    }
    fn step(self, reply: DbReply) -> Progress<Self, Self::Out> {
        Init::step(self, reply)
    }
}

impl Handler for Put {
    type Out = ();
    fn request(&self) -> &DbRequest {
        Put::request(self)
    }
    fn step(self, reply: DbReply) -> Progress<Self, Self::Out> {
        Put::step(self, reply)
    }
}

impl Handler for TasklistById {
    type Out = model::Tasklist;
    fn request(&self) -> &DbRequest {
        TasklistById::request(self)
    }
    fn step(self, reply: DbReply) -> Progress<Self, Self::Out> {
        TasklistById::step(self, reply)
    }
}

impl Handler for AllTasklists {
    type Out = Vec<model::Tasklist>;
    fn request(&self) -> &DbRequest {
        AllTasklists::request(self)
    }
    fn step(self, reply: DbReply) -> Progress<Self, Self::Out> {
        AllTasklists::step(self, reply)
    }
}

fn run<H: Handler>(mem: &mut Mem, mut p: Progress<H, H::Out>) -> Result<H::Out, ServiceError> {
    loop {
        match p {
            Progress::Finish(r) => return r,
            Progress::Next(m) => {
                let reply = mem.execute(m.request());
                assert!(m.request().expects(&reply));
                p = m.step(reply);
            }
        }
    }
}

fn seeded() -> Mem {
    let mut mem = Mem::default();
    run(&mut mem, Progress::Next(New::start(NewRoutine { name: "morning".to_string() }))).unwrap();
    run(&mut mem, Progress::Next(New::start(NewRoutine { name: "evening".to_string() }))).unwrap();
    for (name, state) in [("wash", State::Started), ("dress", State::NotStarted)] {
        let task = model::Task { name: name.to_string(), state };
        run(&mut mem, Progress::Next(AddTask::start("1", task).unwrap())).unwrap();
    }
    run(&mut mem, Progress::Next(Init::start("1").unwrap())).unwrap();
    mem
}

#[test]
fn add_task_then_routine_tasks() {
    let mut mem = seeded();
    let before = run(&mut mem, Progress::Next(RoutineTasks::start("1").unwrap())).unwrap();
    let task = model::Task { name: "eat".to_string(), state: State::Done };
    run(&mut mem, Progress::Next(AddTask::start("1", task).unwrap())).unwrap();
    let after = run(&mut mem, Progress::Next(RoutineTasks::start("1").unwrap())).unwrap();
    let new_id = mem.tasks.last().unwrap().id;
    let mut expected = before.clone();
    expected.push(new_id);
    assert_eq!(after, expected);
}

#[test]
fn get_agrees_with_list() {
    let mut mem = seeded();
    let all = run(&mut mem, Progress::Next(List::start())).unwrap();
    assert_eq!(all.len(), 2);
    for x in &all {
        let y = run(&mut mem, Progress::Next(Get::start(&x.id.to_string()).unwrap())).unwrap();
        assert_eq!((y.id, y.name.clone(), y.model, y.repetition, y.tasklists.clone()), (x.id, x.name.clone(), x.model, x.repetition, x.tasklists.clone()));
    }
    assert!(matches!(run(&mut mem, Progress::Next(Get::start("99").unwrap())), Err(ServiceError::NotFound(m)) if m == "Routine 99 not found"));
}

#[test]
fn tasklist_by_id_agrees_with_all() {
    let mut mem = seeded();
    let all = run(&mut mem, Progress::Next(all_tasklists())).unwrap();
    assert_eq!(all.len(), 1);
    assert_eq!(all[0].state, State::NotStarted);
    assert_eq!(all[0].tasks.len(), 2);
    for t in &all {
        let u = run(&mut mem, Progress::Next(tasklist_by_id(t.id))).unwrap();
        assert_eq!((u.id, u.name.clone(), u.state, u.tasks.clone()), (t.id, t.name.clone(), t.state, t.tasks.clone()));
    }
    assert!(matches!(run(&mut mem, Progress::Next(tasklist_by_id(42))), Err(ServiceError::NotFound(m)) if m == "Tasklist 42 not found"));
}

#[test]
fn new_then_list() {
    let mut mem = seeded();
    let before = run(&mut mem, Progress::Next(List::start())).unwrap();
    run(&mut mem, Progress::Next(New::start(NewRoutine { name: "night".to_string() }))).unwrap();
    let after = run(&mut mem, Progress::Next(List::start())).unwrap();
    assert_eq!(after.len(), before.len() + 1);
    for (a, b) in before.iter().zip(after.iter()) {
        assert_eq!((a.id, &a.name, a.model, &a.tasklists), (b.id, &b.name, b.model, &b.tasklists));
    }
    let last = after.last().unwrap();
    assert_eq!((last.name.as_str(), last.tasklists.len()), ("night", 0));
    assert_eq!(mem.models.iter().find(|m| m.id == last.model).unwrap().routine, last.id);
}

#[test]
fn set_state_then_task_by_id() {
    let mut mem = seeded();
    let id = mem.tasks[0].id;
    let name = mem.tasks[0].name.clone();
    let cmd = MarkTask { state: Some(State::Aborted), name: None };
    run(&mut mem, Put::start(&id.to_string(), cmd).unwrap()).unwrap();
    let found = Ok(mem.tasks.iter().find(|t| t.id == id).cloned());
    let t = task_by_id(id, found).unwrap();
    assert_eq!((t.name, t.state), (name, State::Aborted));
}

#[test]
fn put_then_task_by_id() {
    let mut mem = seeded();
    let id = mem.tasks[1].id;
    let cmd = MarkTask { state: Some(State::Paused), name: Some("dress up".to_string()) };
    run(&mut mem, Put::start(&id.to_string(), cmd).unwrap()).unwrap();
    let t = task_by_id(id, Ok(mem.tasks.iter().find(|t| t.id == id).cloned())).unwrap();
    assert_eq!((t.name.as_str(), t.state), ("dress up", State::Paused));

    let cmd = MarkTask { state: None, name: Some("get dressed".to_string()) };
    run(&mut mem, Put::start(&id.to_string(), cmd).unwrap()).unwrap();
    let t = task_by_id(id, Ok(mem.tasks.iter().find(|t| t.id == id).cloned())).unwrap();
    assert_eq!((t.name.as_str(), t.state), ("get dressed", State::Paused));

    let before: Vec<(i32, String, String)> = mem.tasks.iter().map(|t| (t.id, t.name.clone(), t.state.clone())).collect();
    let cmd = MarkTask { state: Some(State::Done), name: Some("x".to_string()) };
    let r = run(&mut mem, Put::start("77", cmd).unwrap());
    assert!(matches!(r, Err(ServiceError::NotFound(m)) if m == "Task 77 not found"));
    let after: Vec<(i32, String, String)> = mem.tasks.iter().map(|t| (t.id, t.name.clone(), t.state.clone())).collect();
    assert_eq!(before, after);
}

#[test]
fn routine_started_stamps_out() {
    let mut mem = seeded();
    let model_tasks = run(&mut mem, Progress::Next(RoutineTasks::start("1").unwrap())).unwrap();
    let tasks_before: Vec<i32> = mem.tasks.iter().map(|t| t.id).collect();
    run(&mut mem, Progress::Next(Init::start("1").unwrap())).unwrap();
    let list = mem.tasklists.last().unwrap().clone();
    assert_eq!((list.name.as_str(), list.state.as_str(), list.routine_id, list.archived), ("morning", "not-started", 1, false));
    let linked: Vec<i32> = mem.tpr.iter().filter(|p| p.regular == list.id).map(|p| p.task).collect();
    assert_eq!(linked.len(), model_tasks.len());
    for (copy, original) in linked.iter().zip(model_tasks.iter()) {
        assert!(!tasks_before.contains(copy));
        let c = mem.tasks.iter().find(|t| t.id == *copy).unwrap();
        let o = mem.tasks.iter().find(|t| t.id == *original).unwrap();
        assert_eq!((c.name.as_str(), c.state.as_str()), (o.name.as_str(), "not-started"));
    }
}
