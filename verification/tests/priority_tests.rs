use todo_list::Priority;

#[test]
fn priority_test_to_str() {
    assert_eq!(Priority::Low.to_str(), "low", "Low should be equal to \"low\"");
    assert_eq!(Priority::Normal.to_str(), "normal", "Normal should be equal to \"normal\"");
    assert_eq!(Priority::High.to_str(), "high", "High should be equal to \"high\"");
    assert_eq!(Priority::Urgent.to_str(), "urgent", "Urgent should be equal to \"urgent\"");
}

#[test]
fn priority_test_to_string() {
    assert_eq!(Priority::Low.to_string(), String::from("low"), "Low should be equal to \"low\"");
    assert_eq!(
        Priority::Normal.to_string(),
        String::from("normal"),
        "Normal should be equal to \"normal\""
    );
    assert_eq!(
        Priority::High.to_string(),
        String::from("high"),
        "High should be equal to \"high\""
    );
    assert_eq!(
        Priority::Urgent.to_string(),
        String::from("urgent"),
        "Urgent should be equal to \"urgent\""
    );
}

#[test]
fn to_numeric_low() {
    let a = Priority::Low.to_numeric();
    assert_eq!(a, 1, "Low to numeric should be 1");
}

#[test]
fn to_numeric_normal() {
    let a = Priority::Normal.to_numeric();
    assert_eq!(a, 2, "Normal to numeric should be 2");
}

#[test]
fn to_numeric_high() {
    let a = Priority::High.to_numeric();
    assert_eq!(a, 3, "High to numeric should be 3");
}

#[test]
fn to_numeric_urgent() {
    let a = Priority::Urgent.to_numeric();
    assert_eq!(a, 4, "Urgent to numeric should be 4");
}

#[test]
fn test_ord_low() {
    let val = Priority::Low;

    assert!(!(val < Priority::Low), "Low should be not lower than lower");
    assert!(!(val > Priority::Low), "Low should be not lower than lower");

    assert!(val >= Priority::Low, "Low should be eqaul to lower");
    assert!(val <= Priority::Low, "Low should be eqaul to lower");

    assert!(val == Priority::Low, "Low should be eqaul to lower");

    assert!(val < Priority::Normal, "Low should be lower than normal");
    assert!(Priority::Normal > val, "Low should be lower than normal");
    assert!(!(Priority::Normal < val), "Low should be lower than normal");
    assert!(!(val > Priority::Normal), "Low should be lower than normal");

    assert!(val <= Priority::Normal, "Low should be lower than normal");
    assert!(Priority::Normal >= val, "Low should be lower than normal");
    assert!(!(Priority::Normal <= val), "Low should be lower than normal");
    assert!(!(val >= Priority::Normal), "Low should be lower than normal");

    assert_ne!(val, Priority::Normal, "Low should be different of normal");

    assert!(val < Priority::High, "Low should be lower than high");
    assert!(Priority::High > val, "Low should be lower than high");
    assert!(!(Priority::High < val), "Low should be lower than high");
    assert!(!(val > Priority::High), "Low should be lower than high");

    assert!(val <= Priority::High, "Low should be lower than high");
    assert!(Priority::High >= val, "Low should be lower than high");
    assert!(!(Priority::High <= val), "Low should be lower than high");
    assert!(!(val >= Priority::High), "Low should be lower than high");

    assert_ne!(val, Priority::High, "Low should be different of high");

    assert!(val < Priority::Urgent, "Low should be lower than urgent");
    assert!(Priority::Urgent > val, "Low should be lower than urgent");
    assert!(!(Priority::Urgent < val), "Low should be lower than urgent");
    assert!(!(val > Priority::Urgent), "Low should be lower than urgent");

    assert!(val <= Priority::Urgent, "Low should be lower than urgent");
    assert!(Priority::Urgent >= val, "Low should be lower than urgent");
    assert!(!(Priority::Urgent <= val), "Low should be lower than urgent");
    assert!(!(val >= Priority::Urgent), "Low should be lower than urgent");

    assert_ne!(val, Priority::Urgent, "Low should be different of urgent");
}

#[test]
fn test_ord_normal() {
    let val = Priority::Normal;

    assert!(!(val < Priority::Low), "Normal should be greater than low");
    assert!(!(Priority::Low > val), "Normal should be greater than low");
    assert!(Priority::Low < val, "Normal should be greater than low");
    assert!(val > Priority::Low, "Normal should be greater than low");

    assert!(!(val <= Priority::Low), "Normal should be greater than low");
    assert!(!(Priority::Low >= val), "Normal should be greater than low");
    assert!(Priority::Low <= val, "Normal should be greater than low");
    assert!(val >= Priority::Low, "Normal should be greater than low");

    assert_ne!(val, Priority::Low, "Normal should be different of low");

    assert!(!(val < Priority::Normal), "Normal should be not lower than normal");
    assert!(!(val > Priority::Normal), "Normal should be not lower than normal");

    assert!(val >= Priority::Normal, "Normal should be eqaul to normal");
    assert!(val <= Priority::Normal, "Normal should be eqaul to normal");

    assert!(val == Priority::Normal, "Normal should be eqaul to normal");

    assert!(val < Priority::High, "Normal should be lower than high");
    assert!(Priority::High > val, "Normal should be lower than high");
    assert!(!(Priority::High < val), "Normal should be lower than high");
    assert!(!(val > Priority::High), "Normal should be lower than high");

    assert!(val <= Priority::High, "Normal should be lower than high");
    assert!(Priority::High >= val, "Normal should be lower than high");
    assert!(!(Priority::High <= val), "Normal should be lower than high");
    assert!(!(val >= Priority::High), "Normal should be lower than high");

    assert_ne!(val, Priority::High, "Normal should be different of high");

    assert!(val < Priority::Urgent, "Normal should be lower than urgent");
    assert!(Priority::Urgent > val, "Normal should be lower than urgent");
    assert!(!(Priority::Urgent < val), "Normal should be lower than urgent");
    assert!(!(val > Priority::Urgent), "Normal should be lower than urgent");

    assert!(val <= Priority::Urgent, "Normal should be lower than urgent");
    assert!(Priority::Urgent >= val, "Normal should be lower than urgent");
    assert!(!(Priority::Urgent <= val), "Normal should be lower than urgent");
    assert!(!(val >= Priority::Urgent), "Normal should be lower than urgent");

    assert_ne!(val, Priority::Urgent, "Normal should be lower than urgent");
}

#[test]
fn test_ord_high() {
    let val = Priority::High;

    assert!(!(val < Priority::Low), "High should be greater than low");
    assert!(!(Priority::Low > val), "High should be greater than low");
    assert!(Priority::Low < val, "High should be greater than low");
    assert!(val > Priority::Low, "High should be greater than low");

    assert!(!(val <= Priority::Low), "High should be greater than low");
    assert!(!(Priority::Low >= val), "High should be greater than low");
    assert!(Priority::Low <= val, "High should be greater than low");
    assert!(val >= Priority::Low, "High should be greater than low");

    assert_ne!(val, Priority::Low, "High should be different of low");

    assert!(!(val < Priority::Normal), "High should be greater than normal");
    assert!(!(Priority::Normal > val), "High should be greater than normal");
    assert!(Priority::Normal < val, "High should be greater than normal");
    assert!(val > Priority::Normal, "High should be greater than normal");

    assert!(!(val <= Priority::Normal), "High should be greater than normal");
    assert!(!(Priority::Normal >= val), "High should be greater than normal");
    assert!(Priority::Normal <= val, "High should be greater than normal");
    assert!(val >= Priority::Normal, "High should be greater than normal");

    assert_ne!(val, Priority::Normal, "High should be different of normal");

    assert!(!(val < Priority::High), "High should be not lower than high");
    assert!(!(val > Priority::High), "High should be not lower than high");

    assert!(val >= Priority::High, "High should be eqaul to high");
    assert!(val <= Priority::High, "High should be eqaul to high");

    assert!(val == Priority::High, "High should be eqaul to high");

    assert!(val < Priority::Urgent, "High should be lower than urgent");
    assert!(Priority::Urgent > val, "High should be lower than urgent");
    assert!(!(Priority::Urgent < val), "High should be lower than urgent");
    assert!(!(val > Priority::Urgent), "High should be lower than urgent");

    assert!(val <= Priority::Urgent, "High should be lower than urgent");
    assert!(Priority::Urgent >= val, "High should be lower than urgent");
    assert!(!(Priority::Urgent <= val), "High should be lower than urgent");
    assert!(!(val >= Priority::Urgent), "High should be lower than urgent");

    assert_ne!(val, Priority::Urgent, "High should be lower than urgent");
}

#[test]
fn test_ord_urgent() {
    let val = Priority::Urgent;

    assert!(!(val < Priority::Low), "Urgent should be greater than low");
    assert!(!(Priority::Low > val), "Urgent should be greater than low");
    assert!(Priority::Low < val, "Urgent should be greater than low");
    assert!(val > Priority::Low, "Urgent should be greater than low");

    assert!(!(val <= Priority::Low), "Urgent should be greater than low");
    assert!(!(Priority::Low >= val), "Urgent should be greater than low");
    assert!(Priority::Low <= val, "Urgent should be greater than low");
    assert!(val >= Priority::Low, "Urgent should be greater than low");

    assert_ne!(val, Priority::Low, "Urgent should be different of low");

    assert!(!(val < Priority::Normal), "Urgent should be greater than normal");
    assert!(!(Priority::Normal > val), "Urgent should be greater than normal");
    assert!(Priority::Normal < val, "Urgent should be greater than normal");
    assert!(val > Priority::Normal, "Urgent should be greater than normal");

    assert!(!(val <= Priority::Normal), "Urgent should be greater than normal");
    assert!(!(Priority::Normal >= val), "Urgent should be greater than normal");
    assert!(Priority::Normal <= val, "Urgent should be greater than normal");
    assert!(val >= Priority::Normal, "Urgent should be greater than normal");

    assert_ne!(val, Priority::Normal, "Urgent should be different of normal");

    assert!(!(val < Priority::High), "Urgent should be greater than high");
    assert!(!(Priority::High > val), "Urgent should be greater than high");
    assert!(Priority::High < val, "Urgent should be greater than high");
    assert!(val > Priority::High, "Urgent should be greater than high");

    assert!(!(val <= Priority::High), "Urgent should be greater than high");
    assert!(!(Priority::High >= val), "Urgent should be greater than high");
    assert!(Priority::High <= val, "Urgent should be greater than high");
    assert!(val >= Priority::High, "Urgent should be greater than high");

    assert_ne!(val, Priority::High, "Urgent should be different of high");

    assert!(!(val < Priority::Urgent), "Urgent should be not lower than urgent");
    assert!(!(val > Priority::Urgent), "Urgent should be not lower than urgent");

    assert!(val >= Priority::Urgent, "Urgent should be eqaul to urgent");
    assert!(val <= Priority::Urgent, "Urgent should be eqaul to urgent");

    assert!(val == Priority::Urgent, "Urgent should be eqaul to urgent");
}

#[test]
fn canonical_text_round_trip() {
    let texts = ["low", "normal", "high", "urgent"];
    for text in texts {
        let parsed = Priority::from_string(&String::from(text)).unwrap();
        assert_eq!(parsed.to_string(), String::from(text));
    }
    assert_eq!(Priority::from_string(&String::from("urgent!")), None);
    assert_eq!(Priority::from_string(&String::from("")), None);
}
