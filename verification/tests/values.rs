use rust_api::calendar::{Date, MAX_YEAR, MIN_YEAR};
use rust_api::canonical::{list_to_text, push_value, record_to_text};
use rust_api::employees::Employee;
use rust_api::record::{
    choose_values, duplicate_values, pin_values, same_values, values_conform, Record, Value,
};
use rust_api::schema::{schema, FieldKind, RecordType};
use rust_api::text::{push_decimal, push_decimal_digits};

fn date(year: i32, month: u32, day: u32) -> Date {
    Date::new(year, month, day).expect("a day of the calendar")
}

fn decimal(n: i32) -> String {
    let mut out = String::new();
    push_decimal(&mut out, n);
    out
}

fn value_text(value: &Value) -> String {
    let mut out = String::new();
    push_value(&mut out, value);
    out
}

#[test]
fn decimal_numerals() {
    assert_eq!(decimal(0), "0");
    assert_eq!(decimal(7), "7");
    assert_eq!(decimal(10), "10");
    assert_eq!(decimal(50000), "50000");
    assert_eq!(decimal(-1), "-1");
    assert_eq!(decimal(-120), "-120");
    assert_eq!(decimal(i32::MAX), "2147483647");
    assert_eq!(decimal(i32::MIN), "-2147483648");
    let mut out = String::from("n=");
    push_decimal_digits(&mut out, 4294967295);
    assert_eq!(out, "n=4294967295");
}

#[test]
fn the_calendar_knows_its_days() {
    assert!(Date::new(2020, 2, 29).is_some());
    assert!(Date::new(2019, 2, 29).is_none());
    assert!(Date::new(1900, 2, 29).is_none());
    assert!(Date::new(2000, 2, 29).is_some());
    assert!(Date::new(-4, 2, 29).is_some());
    assert!(Date::new(-100, 2, 29).is_none());
    assert!(Date::new(-400, 2, 29).is_some());
    assert!(Date::new(2023, 4, 31).is_none());
    assert!(Date::new(2023, 4, 30).is_some());
    assert!(Date::new(2023, 12, 31).is_some());
    assert!(Date::new(2023, 13, 1).is_none());
    assert!(Date::new(2023, 0, 1).is_none());
    assert!(Date::new(2023, 1, 0).is_none());
    assert!(Date::new(2023, 1, 32).is_none());
    assert!(Date::new(MAX_YEAR, 12, 31).is_some());
    assert!(Date::new(MAX_YEAR + 1, 1, 1).is_none());
    assert!(Date::new(MIN_YEAR, 1, 1).is_some());
    assert!(Date::new(MIN_YEAR - 1, 12, 31).is_none());
    assert!(Date::new(i32::MAX, 1, 1).is_none());
    assert!(Date::new(i32::MIN, 1, 1).is_none());
}

#[test]
fn a_date_keeps_year_month_and_day() {
    let day = date(1986, 6, 26);
    assert_eq!((day.year(), day.month(), day.day()), (1986, 6, 26));
    assert_eq!(day, date(1986, 6, 26));
    assert_ne!(day, date(1986, 6, 27));
}

#[test]
fn the_text_of_a_date() {
    assert_eq!(date(2020, 1, 1).to_text(), "2020-01-01");
    assert_eq!(date(9999, 12, 31).to_text(), "9999-12-31");
    assert_eq!(date(0, 1, 1).to_text(), "0000-01-01");
    assert_eq!(date(33, 10, 9).to_text(), "0033-10-09");
    assert_eq!(date(10000, 12, 31).to_text(), "+10000-12-31");
    assert_eq!(date(MAX_YEAR, 1, 1).to_text(), "+262142-01-01");
    assert_eq!(date(-1, 1, 1).to_text(), "-0001-01-01");
    assert_eq!(date(-12345, 2, 3).to_text(), "-12345-02-03");
    assert_eq!(date(MIN_YEAR, 1, 1).to_text(), "-262143-01-01");
}

#[test]
fn dates_are_read_from_text() {
    assert_eq!(Date::parse("2020-01-01"), Some(date(2020, 1, 1)));
    assert_eq!(Date::parse("9999-01-01"), Some(date(9999, 1, 1)));
    assert_eq!(Date::parse("1953-09-02"), Some(date(1953, 9, 2)));
    assert_eq!(Date::parse("2020-02-29"), Some(date(2020, 2, 29)));
    assert_eq!(Date::parse("2019-02-29"), None);
    assert_eq!(Date::parse("2020-13-01"), None);
    assert_eq!(Date::parse("2020/01/01"), None);
    assert_eq!(Date::parse("2020-01"), None);
    assert_eq!(Date::parse("2020-01-01T00:00:00"), None);
    assert_eq!(Date::parse(""), None);
    assert_eq!(Date::parse("today"), None);
}

#[test]
fn a_parsed_date_is_taken_where_it_is_on_the_calendar() {
    assert_eq!(Date::from_parsed(Some((2020, 2, 29))), Some(date(2020, 2, 29)));
    assert_eq!(Date::from_parsed(Some((2019, 2, 29))), None);
    assert_eq!(Date::from_parsed(Some((2019, 0, 1))), None);
    assert_eq!(Date::from_parsed(None), None);
}

#[test]
fn the_text_of_a_value() {
    assert_eq!(value_text(&Value::Int(-42)), "-42");
    assert_eq!(value_text(&Value::Null), "null");
    assert_eq!(value_text(&Value::Day(date(2020, 1, 1))), "\"2020-01-01\"");
    assert_eq!(value_text(&Value::Text("QA".to_string())), "\"QA\"");
    assert_eq!(value_text(&Value::Text(String::new())), "\"\"");
}

#[test]
fn quoted_text_escapes_what_it_must() {
    let quoted = |text: &str| value_text(&Value::Text(text.to_string()));
    assert_eq!(quoted("a\"b"), r#""a\"b""#);
    assert_eq!(quoted("a\\b"), r#""a\\b""#);
    assert_eq!(quoted("\u{8}\t\n\u{c}\r"), r#""\b\t\n\f\r""#);
    assert_eq!(quoted("\u{0}\u{1}\u{b}\u{1f}"), r#""\u0000\u0001\u000b\u001f""#);
    assert_eq!(quoted("\u{7f}/ é✓𝄞"), "\"\u{7f}/ é✓𝄞\"");
}

#[test]
fn the_text_of_a_record_follows_the_columns() {
    let columns = schema(RecordType::Title).columns;
    let record = Record {
        values: vec![
            Value::Int(10001),
            Value::Text("Staff".to_string()),
            Value::Day(date(1986, 6, 26)),
            Value::Null,
        ],
    };
    assert_eq!(
        record_to_text(&columns, &record),
        r#"{"emp_no":10001,"title":"Staff","from_date":"1986-06-26","to_date":null}"#
    );
    let none: Vec<Record> = vec![];
    assert_eq!(list_to_text(&columns, &none), "[]");
    let one = vec![Record { values: duplicate_values(&record.values) }];
    assert_eq!(
        list_to_text(&columns, &one),
        r#"[{"emp_no":10001,"title":"Staff","from_date":"1986-06-26","to_date":null}]"#
    );
    let two = vec![
        Record { values: duplicate_values(&record.values) },
        Record { values: duplicate_values(&record.values) },
    ];
    let text = list_to_text(&columns, &two);
    assert_eq!(text.matches("},{").count(), 1);
    assert!(text.starts_with("[{") && text.ends_with("}]"));
}

#[test]
fn values_fit_the_kinds_of_columns() {
    assert!(Value::Int(-1).fits(FieldKind::Integer));
    assert!(!Value::Int(-1).fits(FieldKind::Amount));
    assert!(Value::Int(0).fits(FieldKind::Amount));
    assert!(!Value::Int(0).fits(FieldKind::Text));
    assert!(Value::Text(String::new()).fits(FieldKind::Text));
    assert!(!Value::Text(String::new()).fits(FieldKind::Day));
    assert!(Value::Day(date(2020, 1, 1)).fits(FieldKind::Day));
    assert!(Value::Day(date(2020, 1, 1)).fits(FieldKind::OptionalDay));
    assert!(Value::Null.fits(FieldKind::OptionalDay));
    assert!(!Value::Null.fits(FieldKind::Day));
    assert!(!Value::Null.fits(FieldKind::Integer));
    assert!(!Value::Null.fits(FieldKind::Text));
}

#[test]
fn rows_are_compared_copied_and_checked() {
    let columns = schema(RecordType::Compensation).columns;
    let row = vec![
        Value::Int(1001),
        Value::Int(50000),
        Value::Day(date(2020, 1, 1)),
        Value::Day(date(9999, 1, 1)),
    ];
    let copy = duplicate_values(&row);
    assert_eq!(copy, row);
    assert!(same_values(&row, &copy));
    assert!(!same_values(&row, &copy[..3].iter().map(Value::duplicate).collect()));
    let mut other = duplicate_values(&row);
    other[1] = Value::Int(50001);
    assert!(!same_values(&row, &other));
    assert!(Value::Null.same(&Value::Null));
    assert!(!Value::Null.same(&Value::Int(0)));
    assert!(!Value::Day(date(2020, 1, 1)).same(&Value::Day(date(2020, 1, 2))));
    assert!(values_conform(&columns, &row));
    assert!(!values_conform(&columns, &other[..3].iter().map(Value::duplicate).collect()));
    other[1] = Value::Int(-1);
    assert!(!values_conform(&columns, &other));
}

#[test]
fn a_key_is_taken_from_a_row_and_pinned_onto_one() {
    let columns = schema(RecordType::Compensation).columns;
    let row = vec![
        Value::Int(1001),
        Value::Int(50000),
        Value::Day(date(2020, 1, 1)),
        Value::Day(date(9999, 1, 1)),
    ];
    let key = choose_values(&columns, &row, true);
    assert_eq!(key, vec![Value::Int(1001), Value::Day(date(2020, 1, 1))]);
    let rest = choose_values(&columns, &row, false);
    assert_eq!(rest, vec![Value::Int(50000), Value::Day(date(9999, 1, 1))]);
    let other = vec![Value::Int(7), Value::Day(date(1999, 9, 9))];
    let pinned = pin_values(&columns, &other, &row);
    assert_eq!(
        pinned,
        vec![
            Value::Int(7),
            Value::Int(50000),
            Value::Day(date(1999, 9, 9)),
            Value::Day(date(9999, 1, 1)),
        ]
    );
    assert_eq!(choose_values(&columns, &pinned, true), other);
    assert_eq!(pin_values(&columns, &key, &row), row);
}

#[test]
fn an_employee_is_a_record_of_a_person() {
    let employee = Employee {
        emp_no: 10001,
        birth_date: date(1953, 9, 2),
        first_name: "Georgi".to_string(),
        last_name: "Facello".to_string(),
        gender: "M".to_string(),
        hire_date: date(1986, 6, 26),
    };
    let record = employee.to_record();
    assert_eq!(
        record.values,
        vec![
            Value::Int(10001),
            Value::Day(date(1953, 9, 2)),
            Value::Text("Georgi".to_string()),
            Value::Text("Facello".to_string()),
            Value::Text("M".to_string()),
            Value::Day(date(1986, 6, 26)),
        ]
    );
    assert!(values_conform(&schema(RecordType::Person).columns, &record.values));
    assert_eq!(Employee::from_record(&record), Some(employee));
    let short = Record { values: vec![Value::Int(10001)] };
    assert_eq!(Employee::from_record(&short), None);
    let mut mistyped = duplicate_values(&record.values);
    mistyped[4] = Value::Null;
    assert_eq!(Employee::from_record(&Record { values: mistyped }), None);
}
