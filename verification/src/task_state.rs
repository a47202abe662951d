//! Task lifecycle states: a closed enumeration with a canonical text form
//! and no ordering.

use vstd::prelude::*;
use vstd::string::*;

use crate::text::str_eq;

verus! {

/// The lifecycle state of a task.
#[derive(Debug, Clone, Copy, PartialEq, Eq, Structural)]
pub enum TaskState {
    Pending,
    InProgress,
    Ended,
}

impl TaskState {
    /// The canonical text of the state.
    pub open spec fn text(self) -> Seq<char> {
        match self {
            TaskState::Pending => "pending"@,
            TaskState::InProgress => "in progress"@,
            TaskState::Ended => "ended"@,
        }
    }

    /// The canonical text as a borrowed slice.
    pub fn to_str(&self) -> (r: &str)
        ensures
            r@ == self.text(),
    {
        match self {
            TaskState::Pending => "pending",
            TaskState::InProgress => "in progress",
            TaskState::Ended => "ended",
        }
    }

    /// The canonical text as an owned string.
    pub fn to_string(&self) -> (r: String)
        ensures
            r@ == self.text(),
    {
        String::from_str(self.to_str())
    }

    /// Reads a state back from its canonical text; any other text gives no
    /// match rather than an error.
    pub fn from_string(state: &String) -> (r: Option<TaskState>)
        ensures
            match r {
                Some(t) => state@ == t.text(),
                None => forall|t: TaskState| state@ != t.text(),
            },
    {
        if str_eq(state.as_str(), "pending") {
            Some(TaskState::Pending)
        } else if str_eq(state.as_str(), "in progress") {
            Some(TaskState::InProgress)
        } else if str_eq(state.as_str(), "ended") {
            Some(TaskState::Ended)
        } else {
            None
        }
    }
}

/// Law: distinct states have distinct canonical texts, so parsing a
/// canonical text gives back exactly the value it was formatted from.
pub proof fn lemma_task_state_text_injective(t1: TaskState, t2: TaskState)
    ensures
        t1 != t2 ==> t1.text() != t2.text(),
{
    reveal_strlit("pending");
    reveal_strlit("in progress");
    reveal_strlit("ended");
    if t1 != t2 && t1.text() == t2.text() {
        assert(t1.text().len() == t2.text().len());
    }
}

/// The sentinel text is not the canonical text of any state.
pub proof fn lemma_state_text_not_none(t: TaskState)
    ensures
        t.text() != "None"@,
{
    reveal_strlit("pending");
    reveal_strlit("in progress");
    reveal_strlit("ended");
    reveal_strlit("None");
    if t.text() == "None"@ {
        assert(t.text().len() == 4);
    }
}

} // verus!
