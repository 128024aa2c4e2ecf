//! The data that the server hands out and the command line shows: routines,
//! task lists, tasks and their states.
use vstd::prelude::*;

use crate::text::{debug_str, debug_text, str_eq};

verus! {

/// The identifier of a stored row.
pub type Id = i32;

/// Where a task or a task list stands.
#[derive(Debug, Clone, Copy, PartialEq, Eq, Structural)]
pub enum State {
    NotStarted,
    Started,
    Paused,
    Aborted,
    Done,
}

/// The text `"unknown state "`.
pub open spec fn unknown_state_prefix() -> Seq<char> {
    "unknown state "@
}

impl State {
    /// The string literal a state is written as.
    pub open spec fn text(self) -> &'static str {
        match self {
            State::NotStarted => "not-started",
            State::Started => "started",
            State::Paused => "paused",
            State::Aborted => "aborted",
            State::Done => "done",
        }
    }

    /// The characters a state is written as.
    pub open spec fn name(self) -> Seq<char> {
        self.text()@
    }

    /// The state a text names, if any: `notstarted`, `not-started` and
    /// `not_started` all name `NotStarted`.
    pub open spec fn from_name(s: Seq<char>) -> Option<State> {
        if s == "notstarted"@ || s == "not-started"@ || s == "not_started"@ {
            Some(State::NotStarted)
        } else if s == "started"@ {
            Some(State::Started)
        } else if s == "paused"@ {
            Some(State::Paused)
        } else if s == "aborted"@ {
            Some(State::Aborted)
        } else if s == "done"@ {
            Some(State::Done)
        } else {
            None
        }
    }

    /// The text a state is written as.
    pub fn as_str(&self) -> (r: &'static str)
        ensures
            r == self.text(),
    {
        match self {
            State::NotStarted => "not-started",
            State::Started => "started",
            State::Paused => "paused",
            State::Aborted => "aborted",
            State::Done => "done",
        }
    }

    /// The text a state is written as (what `Display` writes for it).
    pub fn to_string(&self) -> (r: String)
        ensures
            r@ == self.name(),
    {
        String::from_str(self.as_str())
    }

    /// Reads a state from its text; any other text is refused with the message
    /// `unknown state ` followed by the text as `{:?}` writes it.
    pub fn parse(s: &str) -> (r: Result<State, String>)
        ensures
            match r {
                Ok(st) => State::from_name(s@) == Some(st),
                Err(msg) => State::from_name(s@).is_none() && msg@ == unknown_state_prefix()
                    + debug_text(s@),
            },
    {
        if str_eq(s, "notstarted") || str_eq(s, "not-started") || str_eq(s, "not_started") {
            Ok(State::NotStarted)
        } else if str_eq(s, "started") {
            Ok(State::Started)
        } else if str_eq(s, "paused") {
            Ok(State::Paused)
        } else if str_eq(s, "aborted") {
            Ok(State::Aborted)
        } else if str_eq(s, "done") {
            Ok(State::Done)
        } else {
            let msg = String::from_str("unknown state ");
            let quoted = debug_str(s);
            Err(msg.concat(quoted.as_str()))
        }
    }
}

impl core::str::FromStr for State {
    type Err = String;

    /// Reads a state from its text, as `State::parse` does.
    fn from_str(s: &str) -> (r: Result<Self, Self::Err>)
        ensures
            match r {
                Ok(st) => State::from_name(s@) == Some(st),
                Err(msg) => State::from_name(s@).is_none() && msg@ == unknown_state_prefix()
                    + debug_text(s@),
            },
    {
        State::parse(s)
    }
}

/// Reading back the text of a state gives the same state.
pub proof fn lemma_state_name_round_trip(s: State)
    ensures
        State::from_name(s.name()) == Some(s),
{
    reveal_strlit("notstarted");
    reveal_strlit("not-started");
    reveal_strlit("not_started");
    reveal_strlit("started");
    reveal_strlit("paused");
    reveal_strlit("aborted");
    reveal_strlit("done");
    match s {
        State::NotStarted => {},
        State::Started => {
            assert("started"@.len() != "notstarted"@.len());
            assert("started"@.len() != "not-started"@.len());
            assert("started"@.len() != "not_started"@.len());
        },
        State::Paused => {
            assert("paused"@[0] != "notstarted"@[0]);
            assert("paused"@[0] != "not-started"@[0]);
            assert("paused"@[0] != "not_started"@[0]);
            assert("paused"@[0] != "started"@[0]);
        },
        State::Aborted => {
            assert("aborted"@[0] != "notstarted"@[0]);
            assert("aborted"@[0] != "not-started"@[0]);
            assert("aborted"@[0] != "not_started"@[0]);
            assert("aborted"@[0] != "started"@[0]);
            assert("aborted"@[0] != "paused"@[0]);
        },
        State::Done => {
            assert("done"@[0] != "notstarted"@[0]);
            assert("done"@[0] != "not-started"@[0]);
            assert("done"@[0] != "not_started"@[0]);
            assert("done"@[0] != "started"@[0]);
            assert("done"@[0] != "paused"@[0]);
            assert("done"@[0] != "aborted"@[0]);
        },
    }
}

/// How a routine is repeated.
#[derive(Debug, Clone, Copy, PartialEq, Eq, Structural)]
pub enum Repetition {
    Manual,
}

/// A routine: a model task list, and the task lists started from it.
#[derive(Debug, Clone)]
pub struct Routine {
    pub id: Id,
    pub name: String,
    pub repetition: Repetition,
    pub model: Id,
    pub tasklists: Vec<Id>,
}

/// A task list: its tasks, and where it stands.
#[derive(Debug, Clone)]
pub struct Tasklist {
    pub id: i32,
    pub name: String,
    pub state: State,
    pub tasks: Vec<Id>,
}

/// A task.
#[derive(Debug, Clone)]
pub struct Task {
    pub name: String,
    pub state: State,
}

/// What a client sends to create a routine.
#[derive(Debug, Clone)]
pub struct NewRoutine {
    pub name: String,
}

/// Everything the single-file store holds.
#[derive(Debug, Clone)]
pub struct Database {
    pub routines: Vec<Routine>,
    pub tasklists: Vec<Tasklist>,
    pub tasks: Vec<Task>,
}

impl Database {
    /// The store with nothing in it, which opening gives when there is no file.
    pub fn empty() -> (db: Database)
        ensures
            db.routines@.len() == 0,
            db.tasklists@.len() == 0,
            db.tasks@.len() == 0,
    {
        Database { routines: Vec::new(), tasklists: Vec::new(), tasks: Vec::new() }
    }
}

} // verus!
