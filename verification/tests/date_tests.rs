use todo_list::Date;

#[test]
fn test_equality() {
    let a = Date { day: 31, month: 12, year: 1999 };
    let b = Date { day: 31, month: 12, year: 1999 };
    let c = Date { day: 31, month: 12, year: 2000 };
    assert_eq!(a, b);
    assert_ne!(a, c);
}

#[test]
fn test_neq_day() {
    let a = Date { day: 31, month: 12, year: 1999 };
    let b = Date { day: 30, month: 12, year: 1999 };
    assert_ne!(a, b);
}

#[test]
fn test_neq_month() {
    let a = Date { day: 31, month: 12, year: 1999 };
    let b = Date { day: 31, month: 11, year: 1999 };
    assert_ne!(a, b);
}

#[test]
fn test_neq_year() {
    let a = Date { day: 31, month: 12, year: 1999 };
    let b = Date { day: 31, month: 12, year: 2000 };
    assert_ne!(a, b);
}

#[test]
fn test_neq_day_and_month() {
    let a = Date { day: 31, month: 12, year: 1999 };
    let b = Date { day: 29, month: 1, year: 1999 };
    assert_ne!(a, b);
}

#[test]
fn assert_neq_month_and_year() {
    let a = Date { day: 31, month: 12, year: 1999 };
    let b = Date { day: 31, month: 11, year: 2013 };
    assert_ne!(a, b);
}

#[test]
fn assert_neq_day_and_year() {
    let a = Date { day: 31, month: 12, year: 1999 };
    let b = Date { day: 18, month: 11, year: 2014 };
    assert_ne!(a, b);
}

#[test]
fn assert_neq_day_month_and_year() {
    let a = Date { day: 31, month: 12, year: 1999 };
    let b = Date { day: 18, month: 11, year: 2014 };
    assert_ne!(a, b);
}

#[test]
fn assert_partial_cmp() {
    let a = Date { day: 31, month: 12, year: 1999 };
    let b = Date { day: 31, month: 12, year: 1999 };
    assert!(!(a > b));
    assert!(!(b < a));
}

#[test]
fn assert_partial_cmp_greater_year() {
    let a = Date { day: 31, month: 12, year: 1999 };
    let b = Date { day: 31, month: 12, year: 2000 };
    assert!(b > a);
    assert!(a < b);
    assert_ne!(a, b);
}

#[test]
fn assert_partial_cmp_greater_month() {
    let a = Date { day: 31, month: 11, year: 2000 };
    let b = Date { day: 31, month: 12, year: 2000 };
    assert!(b > a);
    assert!(a < b);
    assert_ne!(a, b);
}

#[test]
fn assert_partial_cmp_greater_day() {
    let a = Date { day: 30, month: 12, year: 2000 };
    let b = Date { day: 31, month: 12, year: 2000 };
    assert!(b > a);
    assert!(a < b);
    assert_ne!(a, b);
}

#[test]
fn assert_partial_cmp_greater_eq_year() {
    let a = Date { day: 31, month: 12, year: 1999 };
    let b = Date { day: 31, month: 12, year: 2000 };
    assert!(b >= a);
    assert!(a <= b);
    assert_ne!(a, b);
}

#[test]
fn assert_partial_cmp_greater_eq_month() {
    let a = Date { day: 31, month: 11, year: 2000 };
    let b = Date { day: 31, month: 12, year: 2000 };
    assert!(b >= a);
    assert!(a <= b);
    assert_ne!(a, b);
}

#[test]
fn assert_partial_cmp_greater_eq_day() {
    let a = Date { day: 30, month: 12, year: 2000 };
    let b = Date { day: 31, month: 12, year: 2000 };
    assert!(b > a);
    assert!(a < b);
    assert_ne!(a, b);
}

#[test]
fn assert_partial_cmp_eq() {
    let a = Date { day: 31, month: 12, year: 1999 };
    let b = Date { day: 31, month: 12, year: 1999 };
    assert!(a >= b);
    assert!(b <= a);
    assert!(b >= a);
    assert!(a <= b);

    assert!(!(a > b));
    assert!(!(b > a));
    assert!(!(a < b));
    assert!(!(b < a));

    assert_eq!(a, b);
    assert!(!(a != b));
}

#[test]
fn create_valid_date() {
    let a = Date::from_string(String::from("12-1-2002"));
    let b = Date { day: 12, month: 1, year: 2002 };

    assert!(a.is_ok(), "Result should be a valid date");
    assert_eq!(a.unwrap().unwrap(), b);
}

#[test]
fn create_not_valid_date() {
    let a = Date::from_string(String::from("12-13-2002"));

    assert!(a.is_err(), "Result should be a error");
    if let Err(i) = a {
        assert_eq!(i.message(), "invalid date");
    }
}

#[test]
fn create_none_date() {
    let a = Date::from_string(String::from("None"));

    assert!(a.is_ok(), "Result should be not a error");
    assert_eq!(a.unwrap(), None);
}

#[test]
fn format_pads_year_only() {
    let a = Date { day: 1, month: 1, year: 1 };
    assert_eq!(a.to_string(), String::from("1-1-0001"));
    let b = Date { day: 31, month: 12, year: 1999 };
    assert_eq!(b.to_string(), String::from("31-12-1999"));
}

#[test]
fn format_negative_year_keeps_width() {
    let a = Date { day: 5, month: 6, year: -42 };
    assert_eq!(a.to_string(), String::from("5-6--042"));
}

#[test]
fn parse_then_format_round_trip() {
    let a = Date::from_string(String::from("07-04-1999")).unwrap().unwrap();
    assert_eq!(a, Date { day: 7, month: 4, year: 1999 });
    let text = a.to_string();
    assert_eq!(text, String::from("7-4-1999"));
    let b = Date::from_string(text).unwrap().unwrap();
    assert_eq!(a, b);
}

#[test]
fn parse_rejects_day_zero_and_out_of_range() {
    assert!(Date::from_string(String::from("0-1-2000")).is_err());
    assert!(Date::from_string(String::from("32-1-2000")).is_err());
    assert!(Date::from_string(String::from("1-0-2000")).is_err());
    assert!(Date::from_string(String::from("not a date")).is_err());
    assert!(Date::from_string(String::from("1-1-20")).is_err());
}

#[test]
fn parse_keeps_unreal_calendar_days() {
    let a = Date::from_string(String::from("30-2-2001")).unwrap().unwrap();
    assert_eq!(a, Date { day: 30, month: 2, year: 2001 });
}
