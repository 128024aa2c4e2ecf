//! The changes a client may ask for on a task or a task list.
use vstd::prelude::*;

use crate::model::State;

verus! {

/// A change to a task: a new state, a new name, or both.
#[derive(Debug, Clone)]
pub struct MarkTask {
    pub state: Option<State>,
    pub name: Option<String>,
}

impl Default for MarkTask {
    /// Asks for no change.
    fn default() -> (r: MarkTask)
        ensures
            r.state.is_none(),
            r.name.is_none(),
    {
        MarkTask { state: None, name: None }
    }
}

/// A change to a task list: a new state.
#[derive(Debug, Clone)]
pub struct MarkTasklist {
    pub state: Option<State>,
}

impl Default for MarkTasklist {
    /// Asks for no change.
    fn default() -> (r: MarkTasklist)
        ensures
            r.state.is_none(),
    {
        MarkTasklist { state: None }
    }
}

} // verus!
