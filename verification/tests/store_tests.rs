use todo_list::ConcreteTaskBuilder;
use todo_list::ConcreteTaskRelationalManager;
use todo_list::Date;
use todo_list::Priority;
use todo_list::TaskBuilder;
use todo_list::TaskRelationalManager;
use todo_list::TaskState;

fn fresh_store() -> ConcreteTaskRelationalManager {
    let mut conn = ConcreteTaskRelationalManager::new(":memory:").unwrap();
    conn.init_db().unwrap();
    conn
}

#[test]
fn test_creation_database() {
    let conn = fresh_store();
    let count = conn.check_table("tasks");
    assert_eq!(count.unwrap(), 1, "The number of tables should be one");
}

#[test]
fn test_insertion() {
    let mut conn = fresh_store();

    let count_before = conn.get_tasks().unwrap().len();
    assert_eq!(count_before, 0, "The number of insertions should be zero");

    let task = ConcreteTaskBuilder::new().get_task();

    conn.insert_task(&task).expect("The insertion should be okay");

    let count_after = conn.get_tasks().unwrap().len();
    assert_eq!(count_after, 1, "The number of insertions should be zero");
}

#[test]
fn test_get_id() {
    let mut conn = fresh_store();
    let task = ConcreteTaskBuilder::new()
        .set_description(String::from("Nice"))
        .set_priority(Priority::High)
        .set_name(String::from("Name Nie"))
        .set_task_state(TaskState::Ended)
        .set_term(Date::get_local_date())
        .get_task();
    conn.insert_task(&task).expect("The insertion should be okay");
    let task_db = conn
        .get_task_by_id(task.get_id())
        .expect("Should exists a value with this id");
    assert_eq!(task_db, task, "Should be the same task");
}

#[test]
fn store_test_get_name() {
    let mut conn = fresh_store();
    let name = String::from("Teste Name");
    let task = ConcreteTaskBuilder::new()
        .set_name(name.clone())
        .set_description(String::from("Nice"))
        .set_priority(Priority::High)
        .set_task_state(TaskState::Ended)
        .set_term(Date::get_local_date())
        .get_task();
    conn.insert_task(&task).expect("The insertion should be okay");
    let task_db = conn
        .get_task_by_name(&name)
        .expect("Should exists a value with this id");

    assert_eq!(task_db, task, "Should be the same task");
}

#[test]
fn test_delete_by_id() {
    let mut conn = fresh_store();

    let task = ConcreteTaskBuilder::new().get_task();
    let task_id = task.get_id();

    conn.insert_task(&task).expect("Should be possible to insert");

    let result = conn
        .get_task_by_id(task_id)
        .expect("Should exist a inserted value");

    assert_eq!(result, task, "should be the same tasks");

    conn.delete_task_by_id(task_id)
        .expect("Should be possible to delete a value");

    let result = conn.get_task_by_id(task_id);
    match result {
        Some(_) => assert!(false, "Should not exist any element"),
        None => {}
    }
}

#[test]
fn test_delete_by_name() {
    let mut conn = fresh_store();
    let task_name = String::from("Task test");

    let task = ConcreteTaskBuilder::new().set_name(task_name.clone()).get_task();

    conn.insert_task(&task).expect("Should be possible to insert");

    let result = conn
        .get_task_by_name(&task_name)
        .expect("Should exist a inserted value");

    assert_eq!(result, task, "should be the same tasks");

    conn.delete_task_by_name(&task_name)
        .expect("Should be possible to delete a value");

    let result = conn.get_task_by_name(&task_name);
    match result {
        Some(_) => assert!(false, "Should not exist any element"),
        None => {}
    }
}

#[test]
fn test_get_tasks() {
    let mut conn = fresh_store();

    let task_1 = ConcreteTaskBuilder::new()
        .set_name(String::from("Task 1"))
        .set_priority(Priority::High)
        .set_term(Date::get_local_date())
        .get_task();

    let task_2 = ConcreteTaskBuilder::new()
        .set_name(String::from("Task 2"))
        .set_priority(Priority::High)
        .set_task_state(TaskState::Ended)
        .set_term(Date::get_local_date())
        .get_task();

    let task_3 = ConcreteTaskBuilder::new()
        .set_name(String::from("Task 3"))
        .set_priority(Priority::Low)
        .set_task_state(TaskState::Pending)
        .set_description(String::from("Big description"))
        .set_term(Date::get_local_date())
        .get_task();

    conn.insert_task(&task_1).unwrap();
    conn.insert_task(&task_2).unwrap();
    conn.insert_task(&task_3).unwrap();

    let mut tasks = vec![task_1, task_2, task_3];
    tasks.sort_by(|a, b| a.get_id().cmp(&b.get_id()));

    let mut db_tasks = conn.get_tasks().unwrap();
    db_tasks.sort_by(|a, b| a.get_id().cmp(&b.get_id()));

    assert_eq!(db_tasks.len(), tasks.len(), "The vectors should have the same size");

    for i in 0..db_tasks.len() {
        assert_eq!(tasks[i], db_tasks[i], "The tasks should be the same");
    }
}

#[test]
fn insert_then_get_round_trips_all_fields_set() {
    let mut conn = fresh_store();
    let task = ConcreteTaskBuilder::new()
        .set_name(String::from("full"))
        .set_description(String::from("all fields set"))
        .set_term(Date::from_string(String::from("28-2-2024")).unwrap().unwrap())
        .set_task_state(TaskState::InProgress)
        .set_priority(Priority::Urgent)
        .get_task();
    conn.insert_task(&task).unwrap();
    let back = conn.get_task_by_id(task.get_id()).unwrap();
    assert_eq!(back, task);
}

#[test]
fn insert_then_get_round_trips_no_field_set() {
    let mut conn = fresh_store();
    let task = ConcreteTaskBuilder::new().get_task();
    conn.insert_task(&task).unwrap();
    let back = conn.get_task_by_id(task.get_id()).unwrap();
    assert_eq!(back, task);
}

#[test]
fn delete_missing_id_reports_failure() {
    let mut conn = fresh_store();
    assert!(conn.delete_task_by_id(12345).is_err());
    assert!(conn.delete_task_by_name(&String::from("nobody")).is_err());
}

#[test]
fn duplicate_id_insert_fails_and_keeps_row() {
    let mut conn = fresh_store();
    let task = ConcreteTaskBuilder::new().set_name(String::from("kept")).get_task();
    conn.insert_task(&task).unwrap();
    assert!(conn.insert_task(&task).is_err());
    let back = conn.get_task_by_id(task.get_id()).unwrap();
    assert_eq!(back.get_name(), String::from("kept"));
    assert_eq!(conn.get_tasks().unwrap().len(), 1);
}

#[test]
fn get_by_name_prefers_smallest_id() {
    let mut conn = fresh_store();
    let shared = String::from("twin");
    let a = ConcreteTaskBuilder::new().set_name(shared.clone()).get_task();
    let b = ConcreteTaskBuilder::new().set_name(shared.clone()).get_task();
    conn.insert_task(&a).unwrap();
    conn.insert_task(&b).unwrap();
    let expected = if a.get_id() < b.get_id() { &a } else { &b };
    let found = conn.get_task_by_name(&shared).unwrap();
    assert_eq!(found.get_id(), expected.get_id());
}

#[test]
fn empty_table_is_success_with_empty_list() {
    let conn = fresh_store();
    let tasks = conn.get_tasks().unwrap();
    assert_eq!(tasks.len(), 0);
}

#[test]
fn init_db_is_idempotent_and_keeps_rows() {
    let mut conn = fresh_store();
    let task = ConcreteTaskBuilder::new().set_name(String::from("stays")).get_task();
    conn.insert_task(&task).unwrap();
    conn.init_db().unwrap();
    assert_eq!(conn.get_tasks().unwrap().len(), 1);
}

#[test]
fn open_with_custom_retry_cap() {
    let mut conn = ConcreteTaskRelationalManager::new_with_retry(":memory:", 0).unwrap();
    conn.init_db().unwrap();
    assert_eq!(conn.get_tasks().unwrap().len(), 0);
}

#[test]
fn init_db_rejects_foreign_schema() {
    let uri = "file:foreign_schema_db?mode=memory&cache=shared";
    let raw = rusqlite::Connection::open(uri).unwrap();
    raw.execute("CREATE TABLE tasks(id TEXT)", []).unwrap();
    let mut conn = ConcreteTaskRelationalManager::new(uri).unwrap();
    assert!(conn.init_db().is_err());
    drop(raw);
}

#[test]
fn unparseable_term_reads_as_absent() {
    let uri = "file:junk_term_db?mode=memory&cache=shared";
    let raw = rusqlite::Connection::open(uri).unwrap();
    let mut conn = ConcreteTaskRelationalManager::new(uri).unwrap();
    conn.init_db().unwrap();
    raw.execute(
        "INSERT INTO tasks(id, name, description, date, term, task_state, priority) \
         VALUES (?1, ?2, ?3, ?4, ?5, ?6, ?7)",
        ("77", "junky", "None", "1-1-2020", "12-13-2002", "None", "None"),
    )
    .unwrap();
    let t = conn.get_task_by_id(77).expect("the row should still reconstruct");
    assert_eq!(t.get_term(), String::from("None"));
    assert_eq!(t.get_name(), String::from("junky"));
    assert_eq!(t.get_modification(), String::from("1-1-2020"));
    assert_eq!(conn.get_tasks().unwrap().len(), 1);
    drop(raw);
}
