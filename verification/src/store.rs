//! The persistent task store: one SQLite connection, one `tasks` table of
//! seven text columns, and CRUD operations over it.
//!
//! The table is modelled as a map from the text of the `id` column — the
//! primary key — to the remaining six columns.  Every value is serialised
//! to its canonical text before storage; optional fields persist as the
//! literal sentinel `"None"`.

use vstd::prelude::*;
use vstd::set_lib::*;
use vstd::string::*;

use crate::date::{
    date_text, lemma_date_text_denotes, lemma_none_not_date, lemma_text_date_unique, text_is_date,
    valid_date_text, Date,
};
use crate::priority::Priority;
use crate::task::{
    description_from_string, opt_date_text, opt_priority_text, opt_state_text, opt_text, Task,
    TaskV,
};
use crate::task_state::TaskState;
use crate::text::{
    dec_rep, digits_val, id_text_ok, lemma_dec_rep_val, parse_u64, str_eq, u64_to_string,
};

verus! {

#[verifier::external_type_specification]
#[verifier::external_body]
pub struct ExConnection(rusqlite::Connection);

/// The error reported when a store operation fails, or affects no row.  The
/// two cases are not distinguished in the result.
#[derive(Debug)]
pub struct PersistenceError;

/// The mathematical image of one row of the `tasks` table, the `id` column
/// excepted: it is the row's key in the table model.
pub struct Row {
    pub name: Seq<char>,
    pub description: Seq<char>,
    pub date: Seq<char>,
    pub term: Seq<char>,
    pub task_state: Seq<char>,
    pub priority: Seq<char>,
}

/// One row of the `tasks` table as read or written, every column as text.
pub struct TaskRow {
    pub id: String,
    pub name: String,
    pub description: String,
    pub date: String,
    pub term: String,
    pub task_state: String,
    pub priority: String,
}

impl TaskRow {
    /// The row's key: the text of its id column.
    pub open spec fn key(self) -> Seq<char> {
        self.id@
    }

    /// The row's remaining columns.
    pub open spec fn val(self) -> Row {
        Row {
            name: self.name@,
            description: self.description@,
            date: self.date@,
            term: self.term@,
            task_state: self.task_state@,
            priority: self.priority@,
        }
    }
}

/// Whether the database behind the connection holds the `tasks` table as
/// this library's schema statement creates it: seven text columns with
/// `id` the primary key.  A table of the same name but another shape does
/// not count; initialisation reads the schema back and rejects it.
pub uninterp spec fn table_ready(conn: rusqlite::Connection) -> bool;

/// The contents of the `tasks` table behind the connection, keyed by the
/// text of the `id` column.  The store writes every column as text; a
/// table holding anything but text is outside this description, and the
/// reading operations report such rows as failures rather than values.
pub uninterp spec fn db_map(conn: rusqlite::Connection) -> Map<Seq<char>, Row>;

/// Whether no two rows share an id.
pub open spec fn distinct_keys(rows: Seq<TaskRow>) -> bool {
    forall|i: int, j: int| 0 <= i < j < rows.len() ==> rows[i].key() != rows[j].key()
}

/// The map a sequence of rows denotes; later rows win, though the sequences
/// the store handles never repeat a key.
pub open spec fn row_map_of(rows: Seq<TaskRow>) -> Map<Seq<char>, Row>
    decreases rows.len(),
{
    if rows.len() == 0 {
        Map::empty()
    } else {
        row_map_of(rows.drop_last()).insert(rows.last().key(), rows.last().val())
    }
}

/// The keys of the rows that carry a given name.
pub open spec fn keys_with_name(m: Map<Seq<char>, Row>, name: Seq<char>) -> Set<Seq<char>> {
    m.dom().filter(|k: Seq<char>| m[k].name == name)
}

/// Relies on rusqlite's `Connection::open`; nothing is assumed of the
/// database behind a fresh connection.
#[verifier::external_body]
fn open_connection(path: &str) -> (r: Result<rusqlite::Connection, ()>) {
    match rusqlite::Connection::open(path) {
        Ok(c) => Ok(c),
        Err(_) => Err(()),
    }
}

/// Relies on rusqlite's `Connection::execute` running `CREATE TABLE IF NOT
/// EXISTS`, and on `query_row` reading the table's statement text back from
/// `sqlite_master` (which stores it with the `IF NOT EXISTS` clause
/// dropped): success means a `tasks` table with exactly this library's
/// schema stands there — a table of any other shape makes the call fail.
/// A table that already existed keeps its rows; a newly created one is
/// empty.  On failure, either nothing changed, or the statement had just
/// created the empty table and only the read-back failed.
#[verifier::external_body]
fn create_table(conn: &mut rusqlite::Connection) -> (r: Result<(), ()>)
    ensures
        match r {
            Ok(()) => {
                &&& table_ready(*final(conn))
                &&& db_map(*final(conn)).dom().finite()
                &&& table_ready(*old(conn)) ==> db_map(*final(conn)) == db_map(*old(conn))
                &&& !table_ready(*old(conn)) ==> db_map(*final(conn)) == Map::<Seq<char>, Row>::empty()
            },
            Err(()) => {
                &&& table_ready(*old(conn)) ==> table_ready(*final(conn)) && db_map(*final(conn))
                    == db_map(*old(conn))
                &&& (table_ready(*final(conn)) == table_ready(*old(conn)) && db_map(*final(conn))
                    == db_map(*old(conn))) || (table_ready(*final(conn)) && db_map(*final(conn))
                    == Map::<Seq<char>, Row>::empty() && db_map(*final(conn)).dom().finite())
            },
        },
{
    let created =
        "CREATE TABLE tasks(id TEXT PRIMARY KEY, name TEXT, description TEXT, date TEXT, term TEXT, task_state TEXT, priority TEXT)";
    let stmt =
        "CREATE TABLE IF NOT EXISTS tasks(id TEXT PRIMARY KEY, name TEXT, description TEXT, date TEXT, term TEXT, task_state TEXT, priority TEXT)";
    conn.execute(stmt, []).map_err(|_| ())?;
    let back = "SELECT sql FROM sqlite_master WHERE type = 'table' AND name = 'tasks'";
    let schema: String = conn.query_row(back, [], |row| row.get(0)).map_err(|_| ())?;
    if schema == created { Ok(()) } else { Err(()) }
}

/// Relies on rusqlite's `Connection::execute` running a single-row
/// `INSERT`: on success exactly the given row was added, and the primary
/// key on `id` means success only happens when the id was absent.  A failed
/// statement changes nothing.
#[verifier::external_body]
fn insert_row(conn: &mut rusqlite::Connection, row: &TaskRow) -> (r: Result<(), ()>)
    requires
        table_ready(*old(conn)),
    ensures
        table_ready(*final(conn)),
        match r {
            Ok(()) => !db_map(*old(conn)).contains_key(row.key()) && db_map(*final(conn)) == db_map(
                *old(conn),
            ).insert(row.key(), row.val()),
            Err(()) => db_map(*final(conn)) == db_map(*old(conn)),
        },
{
    let sql =
        "INSERT INTO tasks(id, name, description, date, term, task_state, priority) VALUES (?1, ?2, ?3, ?4, ?5, ?6, ?7)";
    let p = (&row.id, &row.name, &row.description, &row.date, &row.term, &row.task_state, &row.priority);
    match conn.execute(sql, p) {
        Ok(_) => Ok(()),
        Err(_) => Err(()),
    }
}

/// Relies on rusqlite's `prepare` and `query_map` running `SELECT` over the
/// whole table: a successful query returns exactly the table's rows, with
/// ids distinct since `id` is the primary key.
#[verifier::external_body]
fn select_rows(conn: &rusqlite::Connection) -> (r: Result<Vec<TaskRow>, ()>)
    requires
        table_ready(*conn),
    ensures
        match r {
            Ok(rows) => distinct_keys(rows@) && row_map_of(rows@) == db_map(*conn),
            Err(()) => true,
        },
{
    let sql = "SELECT id, name, description, date, term, task_state, priority FROM tasks";
    let mut stmt = conn.prepare(sql).map_err(|_| ())?;
    let iter = stmt.query_map([], |r| Ok(TaskRow {
        id: r.get(0)?, name: r.get(1)?, description: r.get(2)?, date: r.get(3)?,
        term: r.get(4)?, task_state: r.get(5)?, priority: r.get(6)?,
    })).map_err(|_| ())?;
    let mut rows = Vec::new();
    for item in iter {
        rows.push(item.map_err(|_| ())?);
    }
    Ok(rows)
}

/// Relies on rusqlite's `Connection::execute` running `DELETE ... WHERE id
/// = ?`: the result counts the deleted rows, at most one since `id` is the
/// primary key.  A failed statement changes nothing.
#[verifier::external_body]
fn delete_rows_by_id(conn: &mut rusqlite::Connection, id: &String) -> (r: Result<usize, ()>)
    requires
        table_ready(*old(conn)),
    ensures
        table_ready(*final(conn)),
        match r {
            Ok(n) => {
                &&& db_map(*final(conn)) == db_map(*old(conn)).remove(id@)
                &&& n <= 1
                &&& (n == 1 <==> db_map(*old(conn)).contains_key(id@))
            },
            Err(()) => db_map(*final(conn)) == db_map(*old(conn)),
        },
{
    match conn.execute("DELETE FROM tasks WHERE id = ?1", (id,)) {
        Ok(n) => Ok(n),
        Err(_) => Err(()),
    }
}

/// Relies on rusqlite's `Connection::execute` running `DELETE ... WHERE
/// name = ?`: every row carrying the name goes, and the result counts them.
/// A failed statement changes nothing.
#[verifier::external_body]
fn delete_rows_by_name(conn: &mut rusqlite::Connection, name: &String) -> (r: Result<usize, ()>)
    requires
        table_ready(*old(conn)),
        db_map(*old(conn)).dom().finite(),
    ensures
        table_ready(*final(conn)),
        match r {
            Ok(n) => {
                &&& db_map(*final(conn)) == db_map(*old(conn)).remove_keys(
                    keys_with_name(db_map(*old(conn)), name@),
                )
                &&& n == keys_with_name(db_map(*old(conn)), name@).len()
            },
            Err(()) => db_map(*final(conn)) == db_map(*old(conn)),
        },
{
    match conn.execute("DELETE FROM tasks WHERE name = ?1", (name,)) {
        Ok(n) => Ok(n),
        Err(_) => Err(()),
    }
}

/// Relies on rusqlite's `query_row` counting the `sqlite_master` entries of
/// a given table name: names are unique there, and a present `tasks` table
/// is counted.
#[verifier::external_body]
fn count_tables(conn: &rusqlite::Connection, table_name: &str) -> (r: Result<i64, ()>)
    ensures
        match r {
            Ok(n) => 0 <= n <= 1 && (table_name@ == "tasks"@ && table_ready(*conn) ==> n == 1),
            Err(()) => true,
        },
{
    let sql = "SELECT COUNT (*) FROM sqlite_master WHERE type = 'table' AND name = ?1";
    match conn.query_row(sql, (table_name,), |row| row.get::<_, i64>(0)) {
        Ok(n) => Ok(n),
        Err(_) => Err(()),
    }
}

/// The row a task is serialised to; the id column is the row's key and is
/// the task id's decimal text.
pub open spec fn encode_task(t: TaskV) -> Row {
    Row {
        name: t.name,
        description: opt_text(t.description),
        date: date_text(t.modification),
        term: opt_date_text(t.term),
        task_state: opt_state_text(t.task_state),
        priority: opt_priority_text(t.priority),
    }
}

/// The date value a valid date text denotes.
pub open spec fn date_of_text(s: Seq<char>) -> Date {
    choose|d: Date| text_is_date(s, d)
}

/// The optional date a term column denotes: the sentinel, and any text that
/// is not a date, mean absence rather than failure.
pub open spec fn term_of_text(s: Seq<char>) -> Option<Date> {
    if s != "None"@ && valid_date_text(s) {
        Some(date_of_text(s))
    } else {
        None
    }
}

/// The optional state a column denotes; unrecognised text means absence.
pub open spec fn state_of_text(s: Seq<char>) -> Option<TaskState> {
    if exists|t: TaskState| s == t.text() {
        Some(choose|t: TaskState| s == t.text())
    } else {
        None
    }
}

/// The optional priority a column denotes; unrecognised text means absence.
pub open spec fn priority_of_text(s: Seq<char>) -> Option<Priority> {
    if exists|p: Priority| s == p.text() {
        Some(choose|p: Priority| s == p.text())
    } else {
        None
    }
}

/// Whether a stored row reconstructs into a task: the id text must parse
/// and the date column must be a date.  The term, state and priority
/// columns tolerate the sentinel and unrecognised text, which read as
/// absence.
pub open spec fn decode_ok(k: Seq<char>, row: Row) -> bool {
    &&& id_text_ok(k)
    &&& valid_date_text(row.date)
}

/// The task a stored row reconstructs into, or nothing for a row whose id
/// or date columns do not parse.
pub open spec fn decode_row(k: Seq<char>, row: Row) -> Option<TaskV> {
    if decode_ok(k, row) {
        Some(
            TaskV {
                id: digits_val(k) as u64,
                name: row.name,
                description: if row.description == "None"@ {
                    None
                } else {
                    Some(row.description)
                },
                modification: date_of_text(row.date),
                term: term_of_text(row.term),
                task_state: state_of_text(row.task_state),
                priority: priority_of_text(row.priority),
            },
        )
    } else {
        None
    }
}

/// Serialises a task to the row that persists it.
pub fn encode_task_row(task: &Task) -> (r: TaskRow)
    ensures
        r.key() == dec_rep(task@.id as nat),
        r.val() == encode_task(task@),
{
    TaskRow {
        id: u64_to_string(task.get_id()),
        name: task.get_name(),
        description: task.get_description(),
        date: task.get_modification(),
        term: task.get_term(),
        task_state: task.get_state(),
        priority: task.get_priority(),
    }
}

/// Reconstructs the task a row stores; a row whose id or date columns do
/// not parse yields nothing.
pub fn decode_task_row(row: &TaskRow) -> (r: Option<Task>)
    ensures
        match r {
            Some(t) => decode_row(row.key(), row.val()) == Some(t@),
            None => decode_row(row.key(), row.val()) is None,
        },
{
    let id = match parse_u64(row.id.as_str()) {
        Some(v) => v,
        None => {
            return None;
        },
    };
    let modification = match Date::from_string(row.date.clone()) {
        Ok(Some(d)) => d,
        Ok(None) => {
            proof {
                lemma_none_not_date();
            }
            return None;
        },
        Err(_) => {
            return None;
        },
    };
    proof {
        assert(text_is_date(row.date@, modification));
        lemma_text_date_unique(row.date@, date_of_text(row.date@), modification);
    }
    let term = if str_eq(row.term.as_str(), "None") {
        None
    } else {
        match Date::from_string(row.term.clone()) {
            Ok(Some(d)) => {
                proof {
                    lemma_text_date_unique(row.term@, date_of_text(row.term@), d);
                }
                Some(d)
            },
            Ok(None) => {
                proof {
                    assert(false);
                }
                None
            },
            Err(_) => None,
        }
    };
    let task_state = TaskState::from_string(&row.task_state);
    proof {
        match task_state {
            Some(ts) => {
                assert(exists|t: TaskState| row.task_state@ == t.text());
                let t2 = choose|t: TaskState| row.task_state@ == t.text();
                crate::task_state::lemma_task_state_text_injective(t2, ts);
            },
            None => {},
        }
    }
    let priority = Priority::from_string(&row.priority);
    proof {
        match priority {
            Some(ps) => {
                assert(exists|p: Priority| row.priority@ == p.text());
                let p2 = choose|p: Priority| row.priority@ == p.text();
                crate::priority::lemma_priority_text_injective(p2, ps);
            },
            None => {},
        }
    }
    let description = description_from_string(row.description.clone());
    let t = Task::from_parts(
        id,
        row.name.clone(),
        description,
        modification,
        term,
        task_state,
        priority,
    );
    Some(t)
}

/// Whether a task's dates lie in the ranges the parser accepts.
pub open spec fn date_in_range(d: Date) -> bool {
    1 <= d.day <= 31 && 1 <= d.month <= 12 && 0 <= d.year <= 9999
}

/// Whether a task survives serialisation unchanged: its dates lie in the
/// parser's ranges and its description does not collide with the sentinel.
pub open spec fn encodable(t: TaskV) -> bool {
    &&& date_in_range(t.modification)
    &&& match t.term {
        Some(d) => date_in_range(d),
        None => true,
    }
    &&& match t.description {
        Some(s) => s != "None"@,
        None => true,
    }
}

/// Law: an encodable task reconstructs from its own row unchanged.
pub proof fn lemma_encode_decode_round_trip(t: TaskV)
    requires
        encodable(t),
    ensures
        decode_row(dec_rep(t.id as nat), encode_task(t)) == Some(t),
{
    let k = dec_rep(t.id as nat);
    let row = encode_task(t);
    lemma_dec_rep_val(t.id as nat);
    lemma_none_not_date();
    lemma_date_text_denotes(t.modification);
    assert(valid_date_text(row.date));
    match t.term {
        Some(d) => {
            lemma_date_text_denotes(d);
            assert(row.term == date_text(d));
            assert(row.term != "None"@);
            assert(term_of_text(row.term) == Some(d));
        },
        None => {
            assert(row.term == "None"@);
        },
    }
    assert(decode_ok(k, row));
    assert(digits_val(k) as u64 == t.id);
    match t.task_state {
        Some(ts) => {
            crate::task_state::lemma_state_text_not_none(ts);
            assert(exists|x: TaskState| row.task_state == x.text());
            let x = choose|x: TaskState| row.task_state == x.text();
            crate::task_state::lemma_task_state_text_injective(x, ts);
        },
        None => {
            assert forall|x: TaskState| row.task_state != x.text() by {
                crate::task_state::lemma_state_text_not_none(x);
            }
        },
    }
    match t.priority {
        Some(ps) => {
            crate::priority::lemma_priority_text_not_none(ps);
            assert(exists|x: Priority| row.priority == x.text());
            let x = choose|x: Priority| row.priority == x.text();
            crate::priority::lemma_priority_text_injective(x, ps);
        },
        None => {
            assert forall|x: Priority| row.priority != x.text() by {
                crate::priority::lemma_priority_text_not_none(x);
            }
        },
    }
}


/// The map of a row sequence mirrors it: its domain is finite and is
/// exactly the keys of the rows, and under distinct keys each row's value
/// is found at its key.
pub proof fn lemma_row_map_of(rows: Seq<TaskRow>)
    ensures
        row_map_of(rows).dom().finite(),
        forall|k: Seq<char>| #[trigger] row_map_of(rows).contains_key(k) ==> exists|i: int|
            0 <= i < rows.len() && rows[i].key() == k,
        forall|i: int| 0 <= i < rows.len() ==> row_map_of(rows).contains_key(#[trigger] rows[i].key()),
        distinct_keys(rows) ==> forall|i: int|
            0 <= i < rows.len() ==> row_map_of(rows)[#[trigger] rows[i].key()] == rows[i].val(),
    decreases rows.len(),
{
    if rows.len() > 0 {
        let sub = rows.drop_last();
        lemma_row_map_of(sub);
        assert(forall|i: int| 0 <= i < sub.len() ==> sub[i] == rows[i]);
        if distinct_keys(rows) {
            assert(distinct_keys(sub));
            assert forall|i: int| 0 <= i < rows.len() implies row_map_of(rows)[#[trigger] rows[i].key()]
                == rows[i].val() by {
                if i < rows.len() - 1 {
                    assert(rows[i].key() != rows.last().key());
                }
            }
        }
    }
}

/// Reconstructs every row, in order; a row that does not decode makes the
/// whole query count as failed.
pub fn decode_rows(rows: &Vec<TaskRow>) -> (r: Option<Vec<Task>>)
    ensures
        match r {
            Some(v) => v@.len() == rows@.len() && forall|i: int|
                0 <= i < rows@.len() ==> decode_row(rows@[i].key(), rows@[i].val()) == Some(
                    (#[trigger] v@[i])@,
                ),
            None => exists|i: int|
                0 <= i < rows@.len() && decode_row((#[trigger] rows@[i]).key(), rows@[i].val())
                    is None,
        },
{
    let mut v: Vec<Task> = Vec::new();
    let mut i: usize = 0;
    while i < rows.len()
        invariant
            0 <= i <= rows@.len(),
            v@.len() == i,
            forall|j: int| 0 <= j < i ==> decode_row(rows@[j].key(), rows@[j].val()) == Some(
                (#[trigger] v@[j])@,
            ),
        decreases rows@.len() - i,
    {
        match decode_task_row(&rows[i]) {
            Some(t) => v.push(t),
            None => {
                return None;
            },
        }
        i += 1;
    }
    Some(v)
}

/// Finds the one row carrying the id and reconstructs it.
pub fn find_task_by_id(rows: &Vec<TaskRow>, task_id: u64) -> (r: Option<Task>)
    requires
        distinct_keys(rows@),
    ensures
        match r {
            Some(t) => exists|i: int|
                0 <= i < rows@.len() && (#[trigger] rows@[i]).key() == dec_rep(task_id as nat)
                    && decode_row(rows@[i].key(), rows@[i].val()) == Some(t@),
            None => forall|i: int|
                0 <= i < rows@.len() && (#[trigger] rows@[i]).key() == dec_rep(task_id as nat)
                    ==> decode_row(rows@[i].key(), rows@[i].val()) is None,
        },
{
    let key = u64_to_string(task_id);
    let mut i: usize = 0;
    while i < rows.len()
        invariant
            0 <= i <= rows@.len(),
            key@ == dec_rep(task_id as nat),
            distinct_keys(rows@),
            forall|j: int| 0 <= j < i ==> (#[trigger] rows@[j]).key() != dec_rep(task_id as nat),
        decreases rows@.len() - i,
    {
        if str_eq(rows[i].id.as_str(), key.as_str()) {
            return decode_task_row(&rows[i]);
        }
        i += 1;
    }
    None
}

/// The reconstruction that a lookup by name yields: among the rows that
/// carry the name and decode, the one with the smallest id; the earliest
/// such row when ids repeat.
pub open spec fn best_match(rows: Seq<TaskRow>, name: Seq<char>) -> Option<TaskV>
    decreases rows.len(),
{
    if rows.len() == 0 {
        None
    } else {
        let prior = best_match(rows.drop_last(), name);
        let last = rows.last();
        if last.val().name == name {
            match decode_row(last.key(), last.val()) {
                Some(t) => match prior {
                    Some(t2) => if t.id < t2.id {
                        Some(t)
                    } else {
                        Some(t2)
                    },
                    None => Some(t),
                },
                None => prior,
            }
        } else {
            prior
        }
    }
}

/// Whether the row at `i`, if it decodes at all, decodes to an id at least
/// `bound`.
pub open spec fn decoded_id_ge(rows: Seq<TaskRow>, i: int, bound: u64) -> bool {
    match decode_row(rows[i].key(), rows[i].val()) {
        Some(t2) => t2.id >= bound,
        None => true,
    }
}

/// What the best match is: a decoded row carrying the name, with no
/// matching decodable row of smaller id; or nothing when no matching row
/// decodes.
pub proof fn lemma_best_match_props(rows: Seq<TaskRow>, name: Seq<char>)
    ensures
        match best_match(rows, name) {
            Some(t) => {
                &&& t.name == name
                &&& exists|i: int|
                    0 <= i < rows.len() && (#[trigger] rows[i]).val().name == name && decode_row(
                        rows[i].key(),
                        rows[i].val(),
                    ) == Some(t)
                &&& forall|i: int|
                    0 <= i < rows.len() && (#[trigger] rows[i]).val().name == name
                        ==> decoded_id_ge(rows, i, t.id)
            },
            None => forall|i: int|
                0 <= i < rows.len() && (#[trigger] rows[i]).val().name == name ==> decode_row(
                    rows[i].key(),
                    rows[i].val(),
                ) is None,
        },
    decreases rows.len(),
{
    if rows.len() > 0 {
        let sub = rows.drop_last();
        lemma_best_match_props(sub, name);
        assert(forall|i: int| 0 <= i < sub.len() ==> sub[i] == rows[i]);
    }
}

/// Finds the task a lookup by name yields, per `best_match`.
pub fn find_task_by_name(rows: &Vec<TaskRow>, task_name: &String) -> (r: Option<Task>)
    ensures
        match r {
            Some(t) => best_match(rows@, task_name@) == Some(t@),
            None => best_match(rows@, task_name@) is None,
        },
{
    let mut best: Option<Task> = None;
    let mut i: usize = 0;
    while i < rows.len()
        invariant
            0 <= i <= rows@.len(),
            match best {
                Some(t) => best_match(rows@.subrange(0, i as int), task_name@) == Some(t@),
                None => best_match(rows@.subrange(0, i as int), task_name@) is None,
            },
        decreases rows@.len() - i,
    {
        proof {
            assert(rows@.subrange(0, i + 1).drop_last() =~= rows@.subrange(0, i as int));
            assert(rows@.subrange(0, i + 1).last() == rows@[i as int]);
        }
        if str_eq(rows[i].name.as_str(), task_name.as_str()) {
            match decode_task_row(&rows[i]) {
                Some(t) => {
                    let replace = match &best {
                        Some(b) => t.get_id() < b.get_id(),
                        None => true,
                    };
                    if replace {
                        best = Some(t);
                    }
                },
                None => {},
            }
        }
        i += 1;
    }
    proof {
        assert(rows@.subrange(0, rows@.len() as int) =~= rows@);
    }
    best
}



/// Law: a successful delete by id leaves no row under that id, so a
/// following lookup of the same id finds nothing.
pub proof fn lemma_delete_then_get_absent(db: Map<Seq<char>, Row>, task_id: u64)
    ensures
        !db.remove(dec_rep(task_id as nat)).contains_key(dec_rep(task_id as nat)),
{
}

/// Law: after an insert of an encodable task, the row standing under the
/// task's id reconstructs into that very task, whatever the table held
/// before.
pub proof fn lemma_insert_then_get_by_id(db: Map<Seq<char>, Row>, t: TaskV)
    requires
        encodable(t),
    ensures
        db.insert(dec_rep(t.id as nat), encode_task(t)).contains_key(dec_rep(t.id as nat)),
        decode_row(
            dec_rep(t.id as nat),
            db.insert(dec_rep(t.id as nat), encode_task(t))[dec_rep(t.id as nat)],
        ) == Some(t),
{
    lemma_encode_decode_round_trip(t);
}

/// Law: a listing of a table holding exactly three encodable tasks with
/// distinct ids has exactly three entries, and each of the three tasks
/// stands in it unchanged.
pub proof fn lemma_three_inserts_listed(
    t1: TaskV,
    t2: TaskV,
    t3: TaskV,
    ks: Seq<Seq<char>>,
    v: Seq<Task>,
)
    requires
        encodable(t1),
        encodable(t2),
        encodable(t3),
        t1.id != t2.id,
        t1.id != t3.id,
        t2.id != t3.id,
        lists_decoded_db(
            Map::<Seq<char>, Row>::empty().insert(dec_rep(t1.id as nat), encode_task(t1)).insert(
                dec_rep(t2.id as nat),
                encode_task(t2),
            ).insert(dec_rep(t3.id as nat), encode_task(t3)),
            ks,
            v,
        ),
    ensures
        v.len() == 3,
        exists|i: int| 0 <= i < v.len() && (#[trigger] v[i])@ == t1,
        exists|i: int| 0 <= i < v.len() && (#[trigger] v[i])@ == t2,
        exists|i: int| 0 <= i < v.len() && (#[trigger] v[i])@ == t3,
{
    broadcast use vstd::set::group_set_axioms;

    let k1 = dec_rep(t1.id as nat);
    let k2 = dec_rep(t2.id as nat);
    let k3 = dec_rep(t3.id as nat);
    lemma_dec_rep_val(t1.id as nat);
    lemma_dec_rep_val(t2.id as nat);
    lemma_dec_rep_val(t3.id as nat);
    assert(k1 != k2 && k1 != k3 && k2 != k3);
    let db = Map::<Seq<char>, Row>::empty().insert(k1, encode_task(t1)).insert(
        k2,
        encode_task(t2),
    ).insert(k3, encode_task(t3));
    lemma_encode_decode_round_trip(t1);
    lemma_encode_decode_round_trip(t2);
    lemma_encode_decode_round_trip(t3);
    assert(db.contains_key(k1) && db[k1] == encode_task(t1));
    assert(db.contains_key(k2) && db[k2] == encode_task(t2));
    assert(db.contains_key(k3) && db[k3] == encode_task(t3));
    assert(db.dom() =~= Set::empty().insert(k1).insert(k2).insert(k3));
    assert(db.dom().len() == 3);
    assert(db.dom().finite());
    assert(ks.contains(k1));
    let i1 = choose|i: int| 0 <= i < ks.len() && ks[i] == k1;
    assert(v[i1]@ == t1);
    assert(ks.contains(k2));
    let i2 = choose|i: int| 0 <= i < ks.len() && ks[i] == k2;
    assert(v[i2]@ == t2);
    assert(ks.contains(k3));
    let i3 = choose|i: int| 0 <= i < ks.len() && ks[i] == k3;
    assert(v[i3]@ == t3);
    assert(ks.no_duplicates()) by {
        assert forall|i: int, j: int|
            0 <= i < ks.len() && 0 <= j < ks.len() && i != j implies ks[i] != ks[j] by {
            if i < j {
                assert(ks[i] != ks[j]);
            } else {
                assert(ks[j] != ks[i]);
            }
        }
    }
    ks.unique_seq_to_set();
    vstd::seq_lib::seq_to_set_is_finite::<Seq<char>>(ks);
    assert(ks.to_set() <= db.dom()) by {
        assert forall|k: Seq<char>| ks.to_set().contains(k) implies db.dom().contains(k) by {
            let i = choose|i: int| 0 <= i < ks.len() && ks[i] == k;
            assert(db.contains_key(ks[i]));
        }
    }
    lemma_len_subset(ks.to_set(), db.dom());
    assert(db.dom() <= ks.to_set()) by {
        assert(ks.to_set().contains(k1) && ks.to_set().contains(k2) && ks.to_set().contains(k3));
        assert forall|k: Seq<char>| db.dom().contains(k) implies ks.to_set().contains(k) by {}
    }
    lemma_len_subset(db.dom(), ks.to_set());
    assert(ks.len() == 3);
}

/// Whether the entry at key `k`, if it decodes at all, decodes to an id at
/// least `bound`.
pub open spec fn entry_id_ge(m: Map<Seq<char>, Row>, k: Seq<char>, bound: u64) -> bool {
    match decode_row(k, m[k]) {
        Some(t2) => t2.id >= bound,
        None => true,
    }
}

/// Whether the task list `v` lists exactly the decodings of the table
/// `db`: some duplicate-free ordering `ks` of all of the table's keys, each
/// entry decoded.
pub open spec fn lists_decoded_db(db: Map<Seq<char>, Row>, ks: Seq<Seq<char>>, v: Seq<Task>) -> bool {
    &&& ks.len() == v.len()
    &&& (forall|i: int, j: int| 0 <= i < j < ks.len() ==> ks[i] != ks[j])
    &&& (forall|i: int|
        0 <= i < ks.len() ==> db.contains_key(#[trigger] ks[i]) && decode_row(ks[i], db[ks[i]])
            == Some(v[i]@))
    &&& (forall|k: Seq<char>| #[trigger] db.contains_key(k) ==> ks.contains(k))
}

/// The store's CRUD surface.  A lookup that finds nothing is absence, not
/// an error; a delete that affects no row is an error, indistinguishable
/// from an execution failure.
pub trait TaskRelationalManager: Sized {
    /// Whether the store is ready for use: the table exists and its
    /// contents are finite.
    spec fn ready(&self) -> bool;

    /// The stored table, keyed by the text of the id column.
    spec fn db(&self) -> Map<Seq<char>, Row>;

    /// Appends one row holding the task's canonical field encodings.
    /// Success means the id was free and exactly that row was added;
    /// failure — an occupied id among the causes — leaves the table as it
    /// was.
    fn insert_task(&mut self, task: &Task) -> (r: Result<(), PersistenceError>)
        requires
            old(self).ready(),
        ensures
            final(self).ready(),
            match r {
                Ok(()) => !old(self).db().contains_key(dec_rep(task@.id as nat)) && final(self).db() == old(self).db().insert(dec_rep(task@.id as nat), encode_task(task@)),
                Err(_) => final(self).db() == old(self).db(),
            },
            old(self).db().contains_key(dec_rep(task@.id as nat)) ==> r is Err,
    ;

    /// Returns every row reconstructed into a task: some order of the
    /// table's keys, each decoded.  An empty table gives the empty vector,
    /// not a failure; a failed query, or a row whose id or date column
    /// does not parse, gives nothing.
    fn get_tasks(&self) -> (r: Option<Vec<Task>>)
        requires
            self.ready(),
        ensures
            match r {
                Some(v) => exists|ks: Seq<Seq<char>>| #[trigger] lists_decoded_db(
                    self.db(),
                    ks,
                    v@,
                ),
                None => true,
            },
    ;

    /// Point lookup by id: a found task is the decoding of the row keyed by
    /// the id's decimal text, and an absent row is absence.  A deliberate
    /// narrowing: a row whose id or date column does not parse also reads
    /// as absence here, since the optional result cannot carry the
    /// distinction — the whole-table query is the operation that reports
    /// such a row as a failure.
    fn get_task_by_id(&self, task_id: u64) -> (r: Option<Task>)
        requires
            self.ready(),
        ensures
            match r {
                Some(t) => self.db().contains_key(dec_rep(task_id as nat)) && decode_row(
                    dec_rep(task_id as nat),
                    self.db()[dec_rep(task_id as nat)],
                ) == Some(t@) && t@.id == task_id,
                None => true,
            },
            !self.db().contains_key(dec_rep(task_id as nat)) ==> r is None,
    ;

    /// Point lookup by name.  Names are not unique, so the tie-break is
    /// fixed: among the rows carrying the name that decode, the one with
    /// the smallest id wins.  No matching row means absence; as with the
    /// lookup by id, a matching row whose id or date column does not parse
    /// reads as absence rather than as a failure.
    fn get_task_by_name(&self, task_name: &String) -> (r: Option<Task>)
        requires
            self.ready(),
        ensures
            match r {
                Some(t) => {
                    &&& t@.name == task_name@
                    &&& exists|k: Seq<char>|
                        #[trigger] self.db().contains_key(k) && self.db()[k].name == task_name@
                            && decode_row(k, self.db()[k]) == Some(t@)
                    &&& forall|k: Seq<char>|
                        #[trigger] self.db().contains_key(k) && self.db()[k].name == task_name@
                            ==> entry_id_ge(self.db(), k, t@.id)
                },
                None => true,
            },
            (forall|k: Seq<char>| #[trigger] self.db().contains_key(k) ==> self.db()[k].name
                != task_name@) ==> r is None,
    ;

    /// Deletes every row carrying the name.  Success means at least one row
    /// went; failure — no such row among the causes — leaves the table as
    /// it was.
    fn delete_task_by_name(&mut self, task_name: &String) -> (r: Result<(), PersistenceError>)
        requires
            old(self).ready(),
        ensures
            final(self).ready(),
            match r {
                Ok(()) => keys_with_name(old(self).db(), task_name@).len() > 0 && final(self).db() == old(self).db().remove_keys(
                    keys_with_name(old(self).db(), task_name@),
                ),
                Err(_) => final(self).db() == old(self).db(),
            },
    ;

    /// Deletes the row keyed by the id.  Success means the row was there
    /// and went; failure — an absent id among the causes — leaves the
    /// table as it was.
    fn delete_task_by_id(&mut self, task_id: u64) -> (r: Result<(), PersistenceError>)
        requires
            old(self).ready(),
        ensures
            final(self).ready(),
            match r {
                Ok(()) => old(self).db().contains_key(dec_rep(task_id as nat)) && final(self).db() == old(self).db().remove(dec_rep(task_id as nat)),
                Err(_) => final(self).db() == old(self).db(),
            },
    ;
}

/// The number of times a failed connection open is retried before the
/// store reports the path unusable.
pub const OPEN_RETRY_LIMIT: u64 = 100;

/// The task store over one SQLite connection.
pub struct ConcreteTaskRelationalManager {
    conn: rusqlite::Connection,
}

impl TaskRelationalManager for ConcreteTaskRelationalManager {
    closed spec fn ready(&self) -> bool {
        table_ready(self.conn) && db_map(self.conn).dom().finite()
    }

    closed spec fn db(&self) -> Map<Seq<char>, Row> {
        db_map(self.conn)
    }

    fn insert_task(&mut self, task: &Task) -> (r: Result<(), PersistenceError>) {
        let row = encode_task_row(task);
        match insert_row(&mut self.conn, &row) {
            Ok(()) => Ok(()),
            Err(()) => Err(PersistenceError),
        }
    }

    fn get_tasks(&self) -> (r: Option<Vec<Task>>) {
        let rows = match select_rows(&self.conn) {
            Ok(r) => r,
            Err(()) => return None,
        };
        let v = match decode_rows(&rows) {
            Some(v) => v,
            None => return None,
        };
        proof {
            lemma_row_map_of(rows@);
            let ks = rows@.map_values(|row: TaskRow| row.key());
            assert(ks.len() == v@.len());
            assert forall|i: int, j: int| 0 <= i < j < ks.len() implies ks[i] != ks[j] by {
                assert(rows@[i].key() != rows@[j].key());
            }
            assert forall|i: int| 0 <= i < ks.len() implies self.db().contains_key(
                #[trigger] ks[i],
            ) && decode_row(ks[i], self.db()[ks[i]]) == Some(v@[i]@) by {
                assert(ks[i] == rows@[i].key());
            }
            assert forall|k: Seq<char>| #[trigger] self.db().contains_key(k) implies ks.contains(
                k,
            ) by {
                let i = choose|i: int| 0 <= i < rows@.len() && rows@[i].key() == k;
                assert(ks[i] == k);
            }
            assert(lists_decoded_db(self.db(), ks, v@));
        }
        Some(v)
    }

    fn get_task_by_id(&self, task_id: u64) -> (r: Option<Task>) {
        let rows = match select_rows(&self.conn) {
            Ok(r) => r,
            Err(()) => return None,
        };
        let r = find_task_by_id(&rows, task_id);
        proof {
            lemma_row_map_of(rows@);
            lemma_dec_rep_val(task_id as nat);
            match &r {
                Some(t) => {
                    let i = choose|i: int|
                        0 <= i < rows@.len() && (#[trigger] rows@[i]).key() == dec_rep(
                            task_id as nat,
                        ) && decode_row(rows@[i].key(), rows@[i].val()) == Some(t@);
                    assert(self.db().contains_key(rows@[i].key()));
                },
                None => {},
            }
        }
        r
    }

    fn get_task_by_name(&self, task_name: &String) -> (r: Option<Task>) {
        let rows = match select_rows(&self.conn) {
            Ok(r) => r,
            Err(()) => return None,
        };
        let r = find_task_by_name(&rows, task_name);
        proof {
            lemma_row_map_of(rows@);
            lemma_best_match_props(rows@, task_name@);
            match &r {
                Some(t) => {
                    let i = choose|i: int|
                        0 <= i < rows@.len() && (#[trigger] rows@[i]).val().name == task_name@
                            && decode_row(rows@[i].key(), rows@[i].val()) == Some(t@);
                    assert(self.db().contains_key(rows@[i].key()));
                    assert(self.db()[rows@[i].key()] == rows@[i].val());
                    assert forall|k: Seq<char>|
                        #[trigger] self.db().contains_key(k) && self.db()[k].name == task_name@
                            implies entry_id_ge(self.db(), k, t@.id) by {
                        let j = choose|j: int| 0 <= j < rows@.len() && rows@[j].key() == k;
                        assert(self.db()[k] == rows@[j].val());
                        assert(decoded_id_ge(rows@, j, t@.id));
                    }
                },
                None => {},
            }
        }
        r
    }

    fn delete_task_by_name(&mut self, task_name: &String) -> (r: Result<(), PersistenceError>) {
        let n = match delete_rows_by_name(&mut self.conn, task_name) {
            Ok(n) => n,
            Err(()) => return Err(PersistenceError),
        };
        if n == 0 {
            proof {
                let m = db_map(old(self).conn);
                let keys = keys_with_name(m, task_name@);
                m.dom().lemma_len_filter(|k: Seq<char>| m[k].name == task_name@);
                keys.lemma_len0_is_empty();
                assert(m.remove_keys(keys) =~= m);
            }
            return Err(PersistenceError);
        }
        proof {
            let m = db_map(old(self).conn);
            let keys = keys_with_name(m, task_name@);
            lemma_len_subset(m.remove_keys(keys).dom(), m.dom());
        }
        Ok(())
    }

    fn delete_task_by_id(&mut self, task_id: u64) -> (r: Result<(), PersistenceError>) {
        let key = u64_to_string(task_id);
        let n = match delete_rows_by_id(&mut self.conn, &key) {
            Ok(n) => n,
            Err(()) => return Err(PersistenceError),
        };
        if n == 0 {
            proof {
                assert(db_map(old(self).conn).remove(key@) =~= db_map(old(self).conn));
            }
            return Err(PersistenceError);
        }
        Ok(())
    }
}

impl ConcreteTaskRelationalManager {
    /// Opens the store at `path`.  A failed open is treated as transient
    /// and retried, but only up to `OPEN_RETRY_LIMIT` attempts: exhaustion
    /// surfaces an error instead of spinning forever.
    pub fn new(path: &str) -> (r: Result<Self, PersistenceError>) {
        Self::new_with_retry(path, OPEN_RETRY_LIMIT)
    }

    /// Opens the store at `path` with a caller-chosen retry cap; an
    /// `attempts` of zero tries once.
    pub fn new_with_retry(path: &str, attempts: u64) -> (r: Result<Self, PersistenceError>) {
        let mut tried: u64 = 0;
        loop
            invariant
                tried <= attempts,
            decreases attempts - tried,
        {
            match open_connection(path) {
                Ok(c) => {
                    return Ok(ConcreteTaskRelationalManager { conn: c });
                },
                Err(()) => {},
            }
            if tried >= attempts {
                return Err(PersistenceError);
            }
            tried += 1;
        }
    }

    /// Idempotently ensures the `tasks` table exists with this library's
    /// schema: a table already there keeps its rows, and a fresh one starts
    /// empty.  A `tasks` table of any other shape makes the call fail.
    pub fn init_db(&mut self) -> (r: Result<(), PersistenceError>)
        ensures
            match r {
                Ok(()) => {
                    &&& final(self).ready()
                    &&& (old(self).ready() ==> final(self).db() == old(self).db())
                    &&& (final(self).db() == old(self).db() || final(self).db() == Map::<
                        Seq<char>,
                        Row,
                    >::empty())
                },
                Err(_) => {
                    &&& (old(self).ready() ==> final(self).ready() && final(self).db() == old(self).db())
                    &&& (final(self).db() == old(self).db() || final(self).db() == Map::<
                        Seq<char>,
                        Row,
                    >::empty())
                },
            },
    {
        match create_table(&mut self.conn) {
            Ok(()) => Ok(()),
            Err(()) => Err(PersistenceError),
        }
    }

    /// Counts the tables of the given name; a ready store counts its
    /// `tasks` table once.
    pub fn check_table(&self, table_name: &str) -> (r: Result<i64, PersistenceError>)
        ensures
            match r {
                Ok(n) => 0 <= n <= 1 && (table_name@ == "tasks"@ && self.ready() ==> n == 1),
                Err(_) => true,
            },
    {
        match count_tables(&self.conn, table_name) {
            Ok(n) => Ok(n),
            Err(()) => Err(PersistenceError),
        }
    }
}

} // verus!
