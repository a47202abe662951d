//! The task record and its builder.
//!
//! A task is immutable once built.  The builder has value semantics: every
//! setter returns a new builder and leaves the receiver unchanged, and
//! finalising stamps the modification date and hands the builder a fresh
//! random identity for the next task.

use vstd::prelude::*;
use vstd::string::*;

use crate::date::{date_text, Date};
use crate::priority::Priority;
use crate::task_state::TaskState;
use crate::text::{dec_rep, lemma_dec_rep_val, str_eq, u64_to_string};

verus! {

/// Relies on rand's `random`, drawn from the thread-local generator; nothing
/// is assumed of the value.
pub assume_specification<T>[ rand::random::<T> ]() -> (r: T)
    where
        rand::distributions::Standard: rand::distributions::Distribution<T>,
;

/// The mathematical image of a task.
pub struct TaskV {
    pub id: u64,
    pub name: Seq<char>,
    pub description: Option<Seq<char>>,
    pub modification: Date,
    pub term: Option<Date>,
    pub task_state: Option<TaskState>,
    pub priority: Option<Priority>,
}

/// One persisted to-do item: identity, free-text fields, dates, state and
/// priority.
#[derive(Debug, PartialEq)]
pub struct Task {
    id: u64,
    name: String,
    description: Option<String>,
    modification: Date,
    term: Option<Date>,
    task_state: Option<TaskState>,
    priority: Option<Priority>,
}

impl View for Task {
    type V = TaskV;

    closed spec fn view(&self) -> TaskV {
        TaskV {
            id: self.id,
            name: self.name@,
            description: match self.description {
                Some(s) => Some(s@),
                None => None,
            },
            modification: self.modification,
            term: self.term,
            task_state: self.task_state,
            priority: self.priority,
        }
    }
}

impl Clone for Task {
    fn clone(&self) -> (r: Self)
        ensures
            r@ == self@,
    {
        Task {
            id: self.id,
            name: self.name.clone(),
            description: match &self.description {
                Some(s) => Some(s.clone()),
                None => None,
            },
            modification: self.modification,
            term: self.term,
            task_state: self.task_state,
            priority: self.priority,
        }
    }
}

/// The placeholder name a task is given at creation.
pub open spec fn default_name(id: u64) -> Seq<char> {
    "TASK:"@ + dec_rep(id as nat)
}

/// The state of a task that was just created and has no field set: the
/// derived name, no optional field, and a zero modification date.
pub open spec fn fresh_task(m: TaskV) -> bool {
    &&& m.name == default_name(m.id)
    &&& m.description is None
    &&& m.modification == (Date { day: 0, month: 0, year: 0 })
    &&& m.term is None
    &&& m.task_state is None
    &&& m.priority is None
}

/// The rendering of an optional text field: the text, or the sentinel.
pub open spec fn opt_text(o: Option<Seq<char>>) -> Seq<char> {
    match o {
        Some(s) => s,
        None => "None"@,
    }
}

/// The rendering of an optional date: its canonical text, or the sentinel.
pub open spec fn opt_date_text(o: Option<Date>) -> Seq<char> {
    match o {
        Some(d) => date_text(d),
        None => "None"@,
    }
}

/// The rendering of an optional state: its canonical text, or the sentinel.
pub open spec fn opt_state_text(o: Option<TaskState>) -> Seq<char> {
    match o {
        Some(t) => t.text(),
        None => "None"@,
    }
}

/// The rendering of an optional priority: its canonical text, or the
/// sentinel.
pub open spec fn opt_priority_text(o: Option<Priority>) -> Seq<char> {
    match o {
        Some(p) => p.text(),
        None => "None"@,
    }
}

/// Turns free text into an optional description: the sentinel text means
/// absence.
pub fn description_from_string(description: String) -> (r: Option<String>)
    ensures
        match r {
            None => description@ == "None"@,
            Some(s) => s@ == description@ && description@ != "None"@,
        },
{
    if str_eq(description.as_str(), "None") {
        None
    } else {
        Some(description)
    }
}

impl Task {
    /// The task's identity.
    pub fn get_id(&self) -> (r: u64)
        ensures
            r == self@.id,
    {
        self.id
    }

    /// The task's name.
    pub fn get_name(&self) -> (r: String)
        ensures
            r@ == self@.name,
    {
        self.name.clone()
    }

    /// The description, or the sentinel text when unset.
    pub fn get_description(&self) -> (r: String)
        ensures
            r@ == opt_text(self@.description),
    {
        match &self.description {
            Some(s) => s.clone(),
            None => String::from_str("None"),
        }
    }

    /// The modification date as canonical text.
    pub fn get_modification(&self) -> (r: String)
        ensures
            r@ == date_text(self@.modification),
    {
        self.modification.to_string()
    }

    /// The due date as canonical text, or the sentinel when unset.
    pub fn get_term(&self) -> (r: String)
        ensures
            r@ == opt_date_text(self@.term),
    {
        match &self.term {
            Some(d) => d.to_string(),
            None => String::from_str("None"),
        }
    }

    /// The state as canonical text, or the sentinel when unset.
    pub fn get_state(&self) -> (r: String)
        ensures
            r@ == opt_state_text(self@.task_state),
    {
        match &self.task_state {
            Some(t) => t.to_string(),
            None => String::from_str("None"),
        }
    }

    /// The priority as canonical text, or the sentinel when unset.
    pub fn get_priority(&self) -> (r: String)
        ensures
            r@ == opt_priority_text(self@.priority),
    {
        match &self.priority {
            Some(p) => p.to_string(),
            None => String::from_str("None"),
        }
    }

    /// Assembles a task from its parts; the store uses this when it
    /// reconstructs a task from a persisted row.
    pub(crate) fn from_parts(
        id: u64,
        name: String,
        description: Option<String>,
        modification: Date,
        term: Option<Date>,
        task_state: Option<TaskState>,
        priority: Option<Priority>,
    ) -> (t: Task)
        ensures
            t@ == (TaskV {
                id: id,
                name: name@,
                description: match description {
                    Some(s) => Some(s@),
                    None => None,
                },
                modification: modification,
                term: term,
                task_state: task_state,
                priority: priority,
            }),
    {
        Task { id, name, description, modification, term, task_state, priority }
    }

    /// A task with a fresh random id, the derived placeholder name, and
    /// nothing else set.
    fn new() -> (t: Task)
        ensures
            fresh_task(t@),
    {
        let id = rand::random::<u64>();
        let mut name = String::from_str("TASK:");
        name.append(u64_to_string(id).as_str());
        Task {
            id,
            name,
            description: None,
            modification: Date { day: 0, month: 0, year: 0 },
            term: None,
            task_state: None,
            priority: None,
        }
    }
}

/// Incremental, value-semantics construction of a task: each setter returns
/// a new builder and leaves the receiver as it was.
pub trait TaskBuilder: Sized {
    /// The task value the builder currently holds.
    spec fn task_model(&self) -> TaskV;

    fn new() -> (r: Self)
        ensures
            fresh_task(r.task_model()),
    ;

    fn reset(&self) -> (r: Self)
        ensures
            fresh_task(r.task_model()),
    ;

    fn set_priority(&self, priority: Priority) -> (r: Self)
        ensures
            r.task_model() == (TaskV { priority: Some(priority), ..self.task_model() }),
    ;

    fn set_task_state(&self, task_state: TaskState) -> (r: Self)
        ensures
            r.task_model() == (TaskV { task_state: Some(task_state), ..self.task_model() }),
    ;

    fn set_description(&self, description: String) -> (r: Self)
        ensures
            r.task_model() == (TaskV { description: Some(description@), ..self.task_model() }),
    ;

    fn set_name(&self, name: String) -> (r: Self)
        ensures
            r.task_model() == (TaskV { name: name@, ..self.task_model() }),
    ;

    fn set_term(&self, date: Date) -> (r: Self)
        ensures
            r.task_model() == (TaskV { term: Some(date), ..self.task_model() }),
    ;

    fn set_by_task(&self, task: Task) -> (r: Self)
        ensures
            r.task_model() == task@,
    ;

    /// Finalises the task: stamps the modification field with the current
    /// local date, hands the completed task out, and resets the builder to a
    /// fresh state with a new random id.
    fn get_task(&mut self) -> (t: Task)
        ensures
            t@ == (TaskV { modification: t@.modification, ..old(self).task_model() }),
            1 <= t@.modification.day <= 31,
            1 <= t@.modification.month <= 12,
            fresh_task(final(self).task_model()),
    ;
}

/// The one builder of this library; it holds the task being assembled.
pub struct ConcreteTaskBuilder {
    task: Task,
}

impl TaskBuilder for ConcreteTaskBuilder {
    closed spec fn task_model(&self) -> TaskV {
        self.task@
    }

    fn new() -> Self {
        ConcreteTaskBuilder { task: Task::new() }
    }

    fn reset(&self) -> Self {
        ConcreteTaskBuilder { task: Task::new() }
    }

    fn set_priority(&self, priority: Priority) -> Self {
        let mut new_task = self.task.clone();
        new_task.priority = Some(priority);
        ConcreteTaskBuilder { task: new_task }
    }

    fn set_task_state(&self, task_state: TaskState) -> Self {
        let mut new_task = self.task.clone();
        new_task.task_state = Some(task_state);
        ConcreteTaskBuilder { task: new_task }
    }

    fn set_description(&self, description: String) -> Self {
        let mut new_task = self.task.clone();
        new_task.description = Some(description);
        ConcreteTaskBuilder { task: new_task }
    }

    fn set_name(&self, name: String) -> Self {
        let mut new_task = self.task.clone();
        new_task.name = name;
        ConcreteTaskBuilder { task: new_task }
    }

    fn set_term(&self, date: Date) -> Self {
        let mut new_task = self.task.clone();
        new_task.term = Some(date);
        ConcreteTaskBuilder { task: new_task }
    }

    fn set_by_task(&self, task: Task) -> Self {
        ConcreteTaskBuilder { task }
    }

    fn get_task(&mut self) -> Task {
        let mut new_task = self.task.clone();
        new_task.modification = Date::get_local_date();
        self.task = Task::new();
        new_task
    }
}

/// Law: a freshly built task renders description, term, state and priority
/// as the sentinel text, and its derived name is non-empty and contains the
/// decimal text of its id.
pub proof fn lemma_fresh_task_rendering(m: TaskV)
    requires
        fresh_task(m),
    ensures
        opt_text(m.description) == "None"@,
        opt_date_text(m.term) == "None"@,
        opt_state_text(m.task_state) == "None"@,
        opt_priority_text(m.priority) == "None"@,
        m.name.len() > 0,
        m.name.subrange(5, m.name.len() as int) == dec_rep(m.id as nat),
{
    reveal_strlit("TASK:");
    lemma_dec_rep_val(m.id as nat);
    assert(m.name.subrange(5, m.name.len() as int) =~= dec_rep(m.id as nat));
}

} // verus!
