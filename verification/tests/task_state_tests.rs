use todo_list::TaskState;

#[test]
fn task_state_test_to_str() {
    assert_eq!(TaskState::Pending.to_str(), "pending", "Pending should be equal to \"pending\"");
    assert_eq!(
        TaskState::InProgress.to_str(),
        "in progress",
        "InProgress should be equal to \"in progress\""
    );
    assert_eq!(TaskState::Ended.to_str(), "ended", "Ended should be equal to \"ended\"");
}

#[test]
fn task_state_test_to_string() {
    assert_eq!(
        TaskState::Pending.to_string(),
        String::from("pending"),
        "Pending should be equal to \"pending\""
    );
    assert_eq!(
        TaskState::InProgress.to_string(),
        String::from("in progress"),
        "InProgress should be equal to \"in progress\""
    );
    assert_eq!(
        TaskState::Ended.to_string(),
        String::from("ended"),
        "Ended should be equal to \"ended\""
    );
}

#[test]
fn task_state_text_round_trip() {
    let texts = ["pending", "in progress", "ended"];
    for text in texts {
        let parsed = TaskState::from_string(&String::from(text)).unwrap();
        assert_eq!(parsed.to_string(), String::from(text));
    }
    assert_eq!(TaskState::from_string(&String::from("done")), None);
    assert_eq!(TaskState::from_string(&String::from("None")), None);
}
