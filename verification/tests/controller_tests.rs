use todo_list::controller::delete;
use todo_list::controller::init;
use todo_list::controller::insert;
use todo_list::controller::modify;
use todo_list::controller::show;
use todo_list::controller::InsertError;
use todo_list::controller::ModifyError;
use todo_list::controller::ShowOutcome;
use todo_list::ConcreteTaskRelationalManager;
use todo_list::TaskRelationalManager;

fn fresh_store() -> ConcreteTaskRelationalManager {
    let mut conn = ConcreteTaskRelationalManager::new(":memory:").unwrap();
    init(&mut conn).unwrap();
    conn
}

#[test]
fn end_to_end_scenario() {
    let mut conn = fresh_store();

    insert(
        &mut conn,
        Some(String::from("Buy milk")),
        None,
        Some(String::from("01-01-2025")),
        Some(String::from("pending")),
        Some(String::from("low")),
    )
    .unwrap();

    let all = conn.get_tasks().unwrap();
    assert_eq!(all.len(), 1);

    let found = conn.get_task_by_name(&String::from("Buy milk")).unwrap();
    assert_eq!(found.get_term(), String::from("1-1-2025"));
    assert_eq!(found.get_priority(), String::from("low"));
    assert_eq!(found.get_state(), String::from("pending"));

    conn.delete_task_by_name(&String::from("Buy milk")).unwrap();
    assert!(conn.get_task_by_name(&String::from("Buy milk")).is_none());
}

#[test]
fn insert_rejects_malformed_date() {
    let mut conn = fresh_store();
    let r = insert(
        &mut conn,
        Some(String::from("x")),
        None,
        Some(String::from("12-13-2002")),
        None,
        None,
    );
    assert_eq!(r, Err(InsertError::InvalidDate));
    assert_eq!(conn.get_tasks().unwrap().len(), 0);
}

#[test]
fn insert_ignores_unknown_state_and_priority() {
    let mut conn = fresh_store();
    insert(
        &mut conn,
        Some(String::from("soft")),
        None,
        None,
        Some(String::from("paused")),
        Some(String::from("extreme")),
    )
    .unwrap();
    let found = conn.get_task_by_name(&String::from("soft")).unwrap();
    assert_eq!(found.get_state(), String::from("None"));
    assert_eq!(found.get_priority(), String::from("None"));
}

#[test]
fn show_finds_by_name_id_and_all() {
    let mut conn = fresh_store();
    insert(&mut conn, Some(String::from("a")), None, None, None, None).unwrap();
    insert(&mut conn, Some(String::from("b")), None, None, None, None).unwrap();

    match show(&conn, Some(String::from("a")), None) {
        ShowOutcome::Tasks(v) => {
            assert_eq!(v.len(), 1);
            assert_eq!(v[0].get_name(), String::from("a"));
        }
        _ => panic!("expected one task"),
    }

    let id = conn.get_task_by_name(&String::from("b")).unwrap().get_id();
    match show(&conn, None, Some(id)) {
        ShowOutcome::Tasks(v) => {
            assert_eq!(v.len(), 1);
            assert_eq!(v[0].get_name(), String::from("b"));
        }
        _ => panic!("expected one task"),
    }

    match show(&conn, None, None) {
        ShowOutcome::Tasks(v) => assert_eq!(v.len(), 2),
        _ => panic!("expected both tasks"),
    }

    match show(&conn, Some(String::from("missing")), None) {
        ShowOutcome::NotFound => {}
        _ => panic!("expected not found"),
    }
}

#[test]
fn modify_replaces_fields_and_keeps_id() {
    let mut conn = fresh_store();
    insert(
        &mut conn,
        Some(String::from("old name")),
        Some(String::from("old description")),
        None,
        None,
        Some(String::from("low")),
    )
    .unwrap();
    let id = conn.get_task_by_name(&String::from("old name")).unwrap().get_id();

    modify(
        &mut conn,
        Some(String::from("old name")),
        None,
        Some(String::from("new name")),
        None,
        Some(String::from("2-3-2026")),
        Some(String::from("ended")),
        Some(String::from("urgent")),
    )
    .unwrap();

    assert!(conn.get_task_by_name(&String::from("old name")).is_none());
    let edited = conn.get_task_by_name(&String::from("new name")).unwrap();
    assert_eq!(edited.get_id(), id);
    assert_eq!(edited.get_description(), String::from("old description"));
    assert_eq!(edited.get_term(), String::from("2-3-2026"));
    assert_eq!(edited.get_state(), String::from("ended"));
    assert_eq!(edited.get_priority(), String::from("urgent"));
    assert_eq!(conn.get_tasks().unwrap().len(), 1);
}

#[test]
fn modify_errors() {
    let mut conn = fresh_store();
    insert(&mut conn, Some(String::from("kept")), None, None, None, None).unwrap();

    let r = modify(&mut conn, None, None, Some(String::from("x")), None, None, None, None);
    assert_eq!(r, Err(ModifyError::MissingKey));

    let r = modify(
        &mut conn,
        Some(String::from("absent")),
        None,
        None,
        None,
        None,
        None,
        None,
    );
    assert_eq!(r, Err(ModifyError::NotFound));

    let r = modify(
        &mut conn,
        Some(String::from("kept")),
        None,
        None,
        None,
        Some(String::from("13-13-2002")),
        None,
        None,
    );
    assert_eq!(r, Err(ModifyError::InvalidDate));

    let r = modify(
        &mut conn,
        Some(String::from("kept")),
        None,
        None,
        None,
        None,
        Some(String::from("paused")),
        None,
    );
    assert_eq!(r, Err(ModifyError::InvalidTaskState));

    let r = modify(
        &mut conn,
        Some(String::from("kept")),
        None,
        None,
        None,
        None,
        None,
        Some(String::from("extreme")),
    );
    assert_eq!(r, Err(ModifyError::InvalidPriority));

    let still = conn.get_task_by_name(&String::from("kept")).unwrap();
    assert_eq!(still.get_name(), String::from("kept"));
}

#[test]
fn delete_flow_by_name_and_id() {
    let mut conn = fresh_store();
    insert(&mut conn, Some(String::from("a")), None, None, None, None).unwrap();
    insert(&mut conn, Some(String::from("b")), None, None, None, None).unwrap();
    let id = conn.get_task_by_name(&String::from("b")).unwrap().get_id();

    delete(&mut conn, Some(String::from("a")), None).unwrap();
    assert!(conn.get_task_by_name(&String::from("a")).is_none());

    delete(&mut conn, None, Some(id)).unwrap();
    assert_eq!(conn.get_tasks().unwrap().len(), 0);

    assert!(delete(&mut conn, Some(String::from("a")), None).is_err());
}
