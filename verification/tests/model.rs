use tasklist::cli::parse_repetition;
use tasklist::command::{MarkTask, MarkTasklist};
use tasklist::model::{Database, Repetition, State};

const ALL: [State; 5] = [State::NotStarted, State::Started, State::Paused, State::Aborted, State::Done];

#[test]
fn state_texts() {
    assert_eq!(State::NotStarted.to_string(), "not-started");
    assert_eq!(State::Started.to_string(), "started");
    assert_eq!(State::Paused.to_string(), "paused");
    assert_eq!(State::Aborted.to_string(), "aborted");
    assert_eq!(State::Done.as_str(), "done");
}

#[test]
fn state_text_reads_back() {
    for s in ALL {
        assert_eq!(State::parse(&s.to_string()), Ok(s));
    }
}

#[test]
fn state_spellings() {
    assert_eq!(State::parse("notstarted"), Ok(State::NotStarted));
    assert_eq!(State::parse("not-started"), Ok(State::NotStarted));
    assert_eq!(State::parse("not_started"), Ok(State::NotStarted));
    assert_eq!(State::parse("started"), Ok(State::Started));
    assert_eq!(State::parse("paused"), Ok(State::Paused));
    assert_eq!(State::parse("aborted"), Ok(State::Aborted));
    assert_eq!(State::parse("done"), Ok(State::Done));
}

#[test]
fn state_unknown() {
    assert_eq!(State::parse("bogus"), Err("unknown state \"bogus\"".to_string()));
    assert_eq!(State::parse("Done"), Err("unknown state \"Done\"".to_string()));
    assert_eq!(State::parse(""), Err("unknown state \"\"".to_string()));
    assert_eq!(State::parse("a\"b"), Err("unknown state \"a\\\"b\"".to_string()));
}

#[test]
fn state_from_str() {
    assert_eq!("paused".parse::<State>(), Ok(State::Paused));
    assert!("x".parse::<State>().is_err());
}

#[test]
fn repetition_parsing() {
    assert_eq!(parse_repetition("manual"), Ok(Repetition::Manual));
    assert_eq!(parse_repetition("weekly"), Err("unknown repetition \"weekly\"".to_string()));
}

#[test]
fn mark_defaults_change_nothing() {
    let m = MarkTask::default();
    assert!(m.state.is_none() && m.name.is_none());
    let m = MarkTasklist::default();
    assert!(m.state.is_none());
}

#[test]
fn empty_database() {
    let db = Database::empty();
    assert!(db.routines.is_empty() && db.tasklists.is_empty() && db.tasks.is_empty());
}
