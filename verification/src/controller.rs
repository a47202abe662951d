//! The command flows over the store: insert, show, modify, delete and
//! initialise.  Each takes already-parsed option values and a store, and
//! returns a value describing the outcome; reading arguments and printing
//! results belong to the calling layer.
//!
//! Retrying: a failed store call is treated as transient and retried, but
//! never without bound — the caps are the named constants below, and
//! exhausting one surfaces an unavailability error.

use vstd::prelude::*;

use crate::date::{valid_date_text, Date};
use crate::priority::Priority;
use crate::store::{
    date_of_text, decode_row, encode_task, entry_id_ge, keys_with_name, lists_decoded_db,
    priority_of_text, state_of_text, PersistenceError, Row, TaskRelationalManager,
};
use crate::task::{default_name, ConcreteTaskBuilder, Task, TaskBuilder, TaskV};
use crate::task_state::TaskState;
use crate::text::dec_rep;

verus! {

/// How often a failed insert is retried before the command gives up.
pub const INSERT_RETRY_LIMIT: u64 = 100000;

/// How often a failed delete or reinsert is retried while modifying a
/// task before the command gives up.
pub const MODIFY_RETRY_LIMIT: u64 = 100000;

/// The errors the insert command can raise.
#[derive(Debug, PartialEq, Eq, Structural)]
pub enum InsertError {
    InvalidDate,
    Unavailable,
}

/// The errors the modify command can raise.
#[derive(Debug, PartialEq, Eq, Structural)]
pub enum ModifyError {
    NotFound,
    InvalidDate,
    InvalidTaskState,
    InvalidPriority,
    MissingKey,
    Unavailable,
}

/// What the show command found.
#[derive(Debug)]
pub enum ShowOutcome {
    Tasks(Vec<Task>),
    NotFound,
    QueryFailed,
}

/// Whether a given term option is date text that the parser rejects; the
/// sentinel and absence are not errors.
pub open spec fn term_text_invalid(term: Option<String>) -> bool {
    match term {
        Some(s) => s@ != "None"@ && !valid_date_text(s@),
        None => false,
    }
}

/// The term field a given term option sets: absence and the sentinel leave
/// it unset.
pub open spec fn term_field(term: Option<String>) -> Option<Date> {
    match term {
        None => None,
        Some(s) => if s@ == "None"@ {
            None
        } else {
            Some(date_of_text(s@))
        },
    }
}

/// Whether a given state option holds text that no state's canonical form
/// matches; absence is not such a mismatch.
pub open spec fn state_text_unrecognised(task_state: Option<String>) -> bool {
    match task_state {
        Some(s) => state_of_text(s@) is None,
        None => false,
    }
}

/// Whether a given priority option holds text that no priority's canonical
/// form matches; absence is not such a mismatch.
pub open spec fn priority_text_unrecognised(priority: Option<String>) -> bool {
    match priority {
        Some(s) => priority_of_text(s@) is None,
        None => false,
    }
}

/// The state field a given option sets: unrecognised text leaves it unset.
pub open spec fn state_field(task_state: Option<String>) -> Option<TaskState> {
    match task_state {
        None => None,
        Some(s) => state_of_text(s@),
    }
}

/// The priority field a given option sets: unrecognised text leaves it
/// unset.
pub open spec fn priority_field(priority: Option<String>) -> Option<Priority> {
    match priority {
        None => None,
        Some(s) => priority_of_text(s@),
    }
}

/// Whether `t` is the task the insert command builds from its options: the
/// given name or the derived one, the parsed optional fields, and a
/// modification date stamped from the calendar.
pub open spec fn built_task(
    t: TaskV,
    name: Option<String>,
    description: Option<String>,
    term: Option<String>,
    task_state: Option<String>,
    priority: Option<String>,
) -> bool {
    &&& t.name == match name {
        Some(n) => n@,
        None => default_name(t.id),
    }
    &&& t.description == match description {
        Some(d) => Some(d@),
        None => None,
    }
    &&& t.term == term_field(term)
    &&& t.task_state == state_field(task_state)
    &&& t.priority == priority_field(priority)
    &&& 1 <= t.modification.day <= 31
    &&& 1 <= t.modification.month <= 12
}

/// Builds a task from the insert command's options and appends it to the
/// store, retrying a failed insert up to `INSERT_RETRY_LIMIT` times.
/// Malformed date text is rejected before the store is touched.
pub fn insert<M: TaskRelationalManager>(
    store: &mut M,
    name: Option<String>,
    description: Option<String>,
    term: Option<String>,
    task_state: Option<String>,
    priority: Option<String>,
) -> (r: Result<(), InsertError>)
    requires
        old(store).ready(),
    ensures
        final(store).ready(),
        r == Err::<(), InsertError>(InsertError::InvalidDate) <==> term_text_invalid(term),
        match r {
            Ok(()) => exists|t: TaskV|
                {
                    &&& #[trigger] built_task(t, name, description, term, task_state, priority)
                    &&& !old(store).db().contains_key(dec_rep(t.id as nat))
                    &&& final(store).db() == old(store).db().insert(
                        dec_rep(t.id as nat),
                        encode_task(t),
                    )
                },
            Err(_) => final(store).db() == old(store).db(),
        },
{
    let mut task_build = ConcreteTaskBuilder::new();
    match name {
        Some(i) => task_build = task_build.set_name(i),
        None => {},
    }
    match description {
        Some(i) => task_build = task_build.set_description(i),
        None => {},
    }
    match &term {
        Some(i) => match Date::from_string(i.clone()) {
            Ok(Some(k)) => {
                proof {
                    crate::date::lemma_text_date_unique(i@, date_of_text(i@), k);
                }
                task_build = task_build.set_term(k);
            },
            Ok(None) => {},
            Err(_) => {
                return Err(InsertError::InvalidDate);
            },
        },
        None => {},
    }
    match &task_state {
        Some(i) => match TaskState::from_string(i) {
            Some(j) => {
                proof {
                    let t2 = choose|t: TaskState| i@ == t.text();
                    crate::task_state::lemma_task_state_text_injective(t2, j);
                }
                task_build = task_build.set_task_state(j);
            },
            None => {},
        },
        None => {},
    }
    match &priority {
        Some(i) => match Priority::from_string(i) {
            Some(j) => {
                proof {
                    let p2 = choose|p: Priority| i@ == p.text();
                    crate::priority::lemma_priority_text_injective(p2, j);
                }
                task_build = task_build.set_priority(j);
            },
            None => {},
        },
        None => {},
    }
    let task = task_build.get_task();
    let ghost t0 = task@;
    proof {
        assert(built_task(t0, name, description, term, task_state, priority));
    }
    let mut attempts: u64 = 0;
    while attempts < INSERT_RETRY_LIMIT
        invariant
            store.ready(),
            store.db() == old(store).db(),
            task@ == t0,
            built_task(t0, name, description, term, task_state, priority),
            !term_text_invalid(term),
        decreases INSERT_RETRY_LIMIT - attempts,
    {
        match store.insert_task(&task) {
            Ok(()) => {
                return Ok(());
            },
            Err(_) => {},
        }
        attempts += 1;
    }
    Err(InsertError::Unavailable)
}

/// Looks tasks up for display: by name when a name is given, else by id
/// when an id is given, else the whole table.  A missing task is absence,
/// not an error; only the whole-table query can fail.
pub fn show<M: TaskRelationalManager>(store: &M, name: Option<String>, id: Option<u64>) -> (r:
    ShowOutcome)
    requires
        store.ready(),
    ensures
        match name {
            Some(n) => match r {
                ShowOutcome::Tasks(v) => {
                    &&& v@.len() == 1
                    &&& v@[0]@.name == n@
                    &&& exists|k: Seq<char>|
                        #[trigger] store.db().contains_key(k) && store.db()[k].name == n@
                            && decode_row(k, store.db()[k]) == Some(v@[0]@)
                    &&& forall|k: Seq<char>|
                        #[trigger] store.db().contains_key(k) && store.db()[k].name == n@
                            ==> entry_id_ge(store.db(), k, v@[0]@.id)
                },
                ShowOutcome::NotFound => true,
                ShowOutcome::QueryFailed => false,
            },
            None => match id {
                Some(i) => match r {
                    ShowOutcome::Tasks(v) => v@.len() == 1 && store.db().contains_key(
                        dec_rep(i as nat),
                    ) && decode_row(dec_rep(i as nat), store.db()[dec_rep(i as nat)]) == Some(
                        v@[0]@,
                    ),
                    ShowOutcome::NotFound => true,
                    ShowOutcome::QueryFailed => false,
                },
                None => match r {
                    ShowOutcome::Tasks(v) => exists|ks: Seq<Seq<char>>| #[trigger] lists_decoded_db(
                        store.db(),
                        ks,
                        v@,
                    ),
                    ShowOutcome::NotFound => false,
                    ShowOutcome::QueryFailed => true,
                },
            },
        },
{
    match &name {
        Some(i) => {
            match store.get_task_by_name(i) {
                Some(t) => {
                    let mut v: Vec<Task> = Vec::new();
                    v.push(t);
                    return ShowOutcome::Tasks(v);
                },
                None => {
                    return ShowOutcome::NotFound;
                },
            }
        },
        None => {},
    }
    match id {
        Some(i) => {
            match store.get_task_by_id(i) {
                Some(t) => {
                    let mut v: Vec<Task> = Vec::new();
                    v.push(t);
                    return ShowOutcome::Tasks(v);
                },
                None => {
                    return ShowOutcome::NotFound;
                },
            }
        },
        None => {},
    }
    match store.get_tasks() {
        Some(v) => ShowOutcome::Tasks(v),
        None => ShowOutcome::QueryFailed,
    }
}

/// Deletes by name, then by id, when each key is given; a delete that
/// fails or affects nothing stops the command with its error.
pub fn delete<M: TaskRelationalManager>(store: &mut M, name: Option<String>, id: Option<u64>) -> (r:
    Result<(), PersistenceError>)
    requires
        old(store).ready(),
    ensures
        final(store).ready(),
        match r {
            Ok(()) => ({
                let m1 = (match name {
                    Some(n) => old(store).db().remove_keys(
                        keys_with_name(old(store).db(), n@),
                    ),
                    None => old(store).db(),
                });
                &&& (match name {
                    Some(n) => keys_with_name(old(store).db(), n@).len() > 0,
                    None => true,
                })
                &&& (match id {
                    Some(i) => m1.contains_key(dec_rep(i as nat)) && final(store).db()
                        == m1.remove(dec_rep(i as nat)),
                    None => final(store).db() == m1,
                })
            }),
            Err(_) => final(store).db() == old(store).db() || (match name {
                Some(n) => final(store).db() == old(store).db().remove_keys(
                    keys_with_name(old(store).db(), n@),
                ),
                None => false,
            }),
        },
{
    match &name {
        Some(i) => {
            match store.delete_task_by_name(i) {
                Ok(()) => {},
                Err(e) => {
                    return Err(e);
                },
            }
        },
        None => {},
    }
    match id {
        Some(i) => {
            match store.delete_task_by_id(i) {
                Ok(()) => {},
                Err(e) => {
                    return Err(e);
                },
            }
        },
        None => {},
    }
    Ok(())
}

/// Retries a failed delete-by-id up to the modify cap.
fn delete_by_id_retry<M: TaskRelationalManager>(store: &mut M, task_id: u64) -> (r: Result<
    (),
    ModifyError,
>)
    requires
        old(store).ready(),
    ensures
        final(store).ready(),
        match r {
            Ok(()) => old(store).db().contains_key(dec_rep(task_id as nat)) && final(store).db()
                == old(store).db().remove(dec_rep(task_id as nat)),
            Err(e) => e == ModifyError::Unavailable && final(store).db() == old(store).db(),
        },
{
    let mut times: u64 = 0;
    while times < MODIFY_RETRY_LIMIT
        invariant
            store.ready(),
            store.db() == old(store).db(),
        decreases MODIFY_RETRY_LIMIT - times,
    {
        match store.delete_task_by_id(task_id) {
            Ok(()) => {
                return Ok(());
            },
            Err(_) => {},
        }
        times += 1;
    }
    Err(ModifyError::Unavailable)
}

/// Retries a failed delete-by-name up to the modify cap.
fn delete_by_name_retry<M: TaskRelationalManager>(store: &mut M, task_name: &String) -> (r: Result<
    (),
    ModifyError,
>)
    requires
        old(store).ready(),
    ensures
        final(store).ready(),
        match r {
            Ok(()) => keys_with_name(old(store).db(), task_name@).len() > 0 && final(store).db()
                == old(store).db().remove_keys(keys_with_name(old(store).db(), task_name@)),
            Err(e) => e == ModifyError::Unavailable && final(store).db() == old(store).db(),
        },
{
    let mut times: u64 = 0;
    while times < MODIFY_RETRY_LIMIT
        invariant
            store.ready(),
            store.db() == old(store).db(),
        decreases MODIFY_RETRY_LIMIT - times,
    {
        match store.delete_task_by_name(task_name) {
            Ok(()) => {
                return Ok(());
            },
            Err(_) => {},
        }
        times += 1;
    }
    Err(ModifyError::Unavailable)
}

/// Retries a failed insert up to the modify cap.
fn insert_retry<M: TaskRelationalManager>(store: &mut M, task: &Task) -> (r: Result<
    (),
    ModifyError,
>)
    requires
        old(store).ready(),
    ensures
        final(store).ready(),
        match r {
            Ok(()) => !old(store).db().contains_key(dec_rep(task@.id as nat)) && final(store).db()
                == old(store).db().insert(dec_rep(task@.id as nat), encode_task(task@)),
            Err(e) => e == ModifyError::Unavailable && final(store).db() == old(store).db(),
        },
{
    let mut times: u64 = 0;
    while times < MODIFY_RETRY_LIMIT
        invariant
            store.ready(),
            store.db() == old(store).db(),
        decreases MODIFY_RETRY_LIMIT - times,
    {
        match store.insert_task(task) {
            Ok(()) => {
                return Ok(());
            },
            Err(_) => {},
        }
        times += 1;
    }
    Err(ModifyError::Unavailable)
}

/// Whether `base` is the task the modify command starts from: the one the
/// given id keys, or — with no id — the by-name lookup's choice among the
/// rows carrying the given name.
pub open spec fn fetched_base(
    db: Map<Seq<char>, Row>,
    name: Option<String>,
    id: Option<u64>,
    base: TaskV,
) -> bool {
    match id {
        Some(i) => db.contains_key(dec_rep(i as nat)) && decode_row(
            dec_rep(i as nat),
            db[dec_rep(i as nat)],
        ) == Some(base),
        None => match name {
            Some(n) => exists|k: Seq<char>|
                #[trigger] db.contains_key(k) && db[k].name == n@ && decode_row(k, db[k]) == Some(
                    base,
                ),
            None => false,
        },
    }
}

/// Whether `t` is `base` with the modify command's updates applied: given
/// fields replaced, the rest kept, the id stable, and the modification
/// date freshly stamped.
pub open spec fn modified_task(
    t: TaskV,
    base: TaskV,
    new_name: Option<String>,
    description: Option<String>,
    term: Option<String>,
    task_state: Option<String>,
    priority: Option<String>,
) -> bool {
    &&& t.id == base.id
    &&& t.name == (match new_name {
        Some(n) => n@,
        None => base.name,
    })
    &&& t.description == (match description {
        Some(d) => Some(d@),
        None => base.description,
    })
    &&& t.term == (match term {
        None => base.term,
        Some(s) => if s@ == "None"@ {
            base.term
        } else {
            Some(date_of_text(s@))
        },
    })
    &&& t.task_state == (match task_state {
        None => base.task_state,
        Some(s) => state_of_text(s@),
    })
    &&& t.priority == (match priority {
        None => base.priority,
        Some(s) => priority_of_text(s@),
    })
    &&& 1 <= t.modification.day <= 31
    &&& 1 <= t.modification.month <= 12
}

/// Edits a stored task: fetches it by name or id, applies the given
/// updates, then replaces it — delete by id, delete by name, reinsert,
/// each retried up to `MODIFY_RETRY_LIMIT` times.  Unlike insertion,
/// unrecognised state or priority text is a hard error here; a missing
/// key, a missing task and malformed date text are errors too, raised
/// before the table is touched.
pub fn modify<M: TaskRelationalManager>(
    store: &mut M,
    name: Option<String>,
    id: Option<u64>,
    new_name: Option<String>,
    description: Option<String>,
    term: Option<String>,
    task_state: Option<String>,
    priority: Option<String>,
) -> (r: Result<(), ModifyError>)
    requires
        old(store).ready(),
    ensures
        final(store).ready(),
        name is None && id is None ==> r is Err,
        term_text_invalid(term) ==> r is Err && final(store).db() == old(store).db(),
        state_text_unrecognised(task_state) ==> r is Err && final(store).db() == old(store).db(),
        priority_text_unrecognised(priority) ==> r is Err && final(store).db() == old(store).db(),
        (r == Err::<(), ModifyError>(ModifyError::MissingKey)) <==> (name is None && id is None
            && !term_text_invalid(term) && !state_text_unrecognised(task_state)
            && !priority_text_unrecognised(priority)),
        match r {
            Ok(()) => exists|base: TaskV, t: TaskV|
                {
                    &&& #[trigger] fetched_base(old(store).db(), name, id, base)
                    &&& #[trigger] modified_task(
                        t,
                        base,
                        new_name,
                        description,
                        term,
                        task_state,
                        priority,
                    )
                    &&& ({
                        let m1 = (match id {
                            Some(i) => old(store).db().remove(dec_rep(i as nat)),
                            None => old(store).db(),
                        });
                        let m2 = (match name {
                            Some(n) => m1.remove_keys(keys_with_name(m1, n@)),
                            None => m1,
                        });
                        final(store).db() == m2.insert(dec_rep(t.id as nat), encode_task(t))
                    })
                },
            Err(e) => {
                &&& (e == ModifyError::InvalidDate ==> term_text_invalid(term))
                &&& (e == ModifyError::InvalidTaskState ==> (match task_state {
                    Some(s) => state_of_text(s@) is None,
                    None => false,
                }))
                &&& (e == ModifyError::InvalidPriority ==> (match priority {
                    Some(s) => priority_of_text(s@) is None,
                    None => false,
                }))
                &&& (e == ModifyError::MissingKey ==> name is None && id is None)
                &&& (e != ModifyError::Unavailable ==> final(store).db() == old(store).db())
                &&& (e == ModifyError::Unavailable ==> ({
                    let m1 = (match id {
                        Some(i) => old(store).db().remove(dec_rep(i as nat)),
                        None => old(store).db(),
                    });
                    let m2 = (match name {
                        Some(n) => m1.remove_keys(keys_with_name(m1, n@)),
                        None => m1,
                    });
                    final(store).db() == old(store).db() || final(store).db() == m1 || final(store).db() == m2
                }))
            },
        },
{
    let mut task_build = ConcreteTaskBuilder::new();
    let mut initialised = false;
    let ghost mut base_g: TaskV = task_build.task_model();
    match &name {
        Some(i) => {
            match store.get_task_by_name(i) {
                Some(j) => {
                    proof {
                        base_g = j@;
                    }
                    task_build = task_build.set_by_task(j);
                    initialised = true;
                },
                None => {
                    return Err(ModifyError::NotFound);
                },
            }
        },
        None => {},
    }
    match id {
        Some(i) => {
            match store.get_task_by_id(i) {
                Some(j) => {
                    proof {
                        base_g = j@;
                    }
                    task_build = task_build.set_by_task(j);
                    initialised = true;
                },
                None => {
                    return Err(ModifyError::NotFound);
                },
            }
        },
        None => {},
    }
    match new_name {
        Some(i) => task_build = task_build.set_name(i),
        None => {},
    }
    match description {
        Some(i) => task_build = task_build.set_description(i),
        None => {},
    }
    match &term {
        Some(i) => match Date::from_string(i.clone()) {
            Ok(Some(k)) => {
                proof {
                    crate::date::lemma_text_date_unique(i@, date_of_text(i@), k);
                }
                task_build = task_build.set_term(k);
            },
            Ok(None) => {},
            Err(_) => {
                return Err(ModifyError::InvalidDate);
            },
        },
        None => {},
    }
    match &task_state {
        Some(i) => match TaskState::from_string(i) {
            Some(j) => {
                proof {
                    let t2 = choose|t: TaskState| i@ == t.text();
                    crate::task_state::lemma_task_state_text_injective(t2, j);
                }
                task_build = task_build.set_task_state(j);
            },
            None => {
                return Err(ModifyError::InvalidTaskState);
            },
        },
        None => {},
    }
    match &priority {
        Some(i) => match Priority::from_string(i) {
            Some(j) => {
                proof {
                    let p2 = choose|p: Priority| i@ == p.text();
                    crate::priority::lemma_priority_text_injective(p2, j);
                }
                task_build = task_build.set_priority(j);
            },
            None => {
                return Err(ModifyError::InvalidPriority);
            },
        },
        None => {},
    }
    if !initialised {
        return Err(ModifyError::MissingKey);
    }
    let task = task_build.get_task();
    proof {
        assert(fetched_base(old(store).db(), name, id, base_g));
        assert(modified_task(task@, base_g, new_name, description, term, task_state, priority));
    }
    match id {
        Some(i) => {
            match delete_by_id_retry(store, i) {
                Ok(()) => {},
                Err(e) => {
                    return Err(e);
                },
            }
        },
        None => {},
    }
    match &name {
        Some(i) => {
            match delete_by_name_retry(store, i) {
                Ok(()) => {},
                Err(e) => {
                    return Err(e);
                },
            }
        },
        None => {},
    }
    match insert_retry(store, &task) {
        Ok(()) => Ok(()),
        Err(e) => Err(e),
    }
}

/// Initialises the store: ensures the table exists, then checks that it is
/// counted exactly once.
pub fn init(store: &mut crate::store::ConcreteTaskRelationalManager) -> (r: Result<
    (),
    PersistenceError,
>)
    ensures
        match r {
            Ok(()) => {
                &&& final(store).ready()
                &&& (old(store).ready() ==> final(store).db() == old(store).db())
                &&& (final(store).db() == old(store).db() || final(store).db() == Map::<
                    Seq<char>,
                    Row,
                >::empty())
            },
            Err(_) => {
                &&& (old(store).ready() ==> final(store).ready() && final(store).db() == old(store).db())
                &&& (final(store).db() == old(store).db() || final(store).db() == Map::<
                    Seq<char>,
                    Row,
                >::empty())
            },
        },
{
    match store.init_db() {
        Ok(()) => {},
        Err(e) => {
            return Err(e);
        },
    }
    match store.check_table("tasks") {
        Ok(n) => {
            if n == 1 {
                Ok(())
            } else {
                Err(PersistenceError)
            }
        },
        Err(e) => Err(e),
    }
}

} // verus!
