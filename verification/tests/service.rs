use rust_api::envelope::unseal;
use rust_api::failure::Failure;
use rust_api::handlers::{
    department_crud_handler, dept_emp_crud_handler, dept_manager_crud_handler,
    employee_crud_handler, salary_crud_handler, serve, title_crud_handler,
};
use rust_api::json::JsonValue;
use rust_api::schema::RecordType;
use rust_api::store::MemoryStore;

fn text(value: &str) -> JsonValue {
    JsonValue::Text(value.to_string())
}

fn object(members: Vec<(&str, JsonValue)>) -> JsonValue {
    JsonValue::Object(members.into_iter().map(|(name, value)| (name.to_string(), value)).collect())
}

fn key() -> Vec<u8> {
    (0u8..32).collect()
}

fn opened(sealed: &str) -> String {
    String::from_utf8(unseal(sealed, &key()).expect("the response unseals")).expect("valid text")
}

fn unknown_action() -> JsonValue {
    object(vec![("action", text("foo"))])
}

fn names_action(outcome: Result<rust_api::handlers::Request, Failure>) -> bool {
    outcome == Err(Failure::Validation { field: "action".to_string() })
}

#[test]
fn org_unit_is_created_read_deleted_and_gone() {
    let mut store = MemoryStore::new(RecordType::OrgUnit);
    let unit = object(vec![("dept_no", text("d010")), ("dept_name", text("QA"))]);
    let create = object(vec![("action", text("create")), ("department", unit)]);
    let created = serve(&mut store, &create, &key()).expect("create is served");
    assert_eq!(opened(&created), r#"{"dept_no":"d010","dept_name":"QA"}"#);

    let read = object(vec![("action", text("read")), ("dept_no", text("d010"))]);
    let found = serve(&mut store, &read, &key()).expect("read is served");
    assert_eq!(opened(&found), r#"{"dept_no":"d010","dept_name":"QA"}"#);

    let delete = object(vec![("action", text("delete")), ("dept_no", text("d010"))]);
    let deleted = serve(&mut store, &delete, &key()).expect("delete is served");
    assert_eq!(deleted, "Department deleted successfully");
    assert_eq!(store.len(), 0);

    assert_eq!(serve(&mut store, &read, &key()), Err(Failure::NotFound));
}

#[test]
fn compensation_update_changes_amount_and_keeps_key() {
    let mut store = MemoryStore::new(RecordType::Compensation);
    let record = object(vec![
        ("emp_no", JsonValue::Integer(1001)),
        ("salary", JsonValue::Integer(50000)),
        ("from_date", text("2020-01-01")),
        ("to_date", text("9999-01-01")),
    ]);
    let create = object(vec![("action", text("create")), ("salary", record)]);
    let created = serve(&mut store, &create, &key()).expect("create is served");
    assert_eq!(
        opened(&created),
        r#"{"emp_no":1001,"salary":50000,"from_date":"2020-01-01","to_date":"9999-01-01"}"#
    );

    let change = object(vec![("salary", JsonValue::Integer(55000)), ("to_date", text("9999-01-01"))]);
    let update = object(vec![
        ("action", text("update")),
        ("emp_no", JsonValue::Integer(1001)),
        ("from_date", text("2020-01-01")),
        ("salary", change),
    ]);
    let updated = serve(&mut store, &update, &key()).expect("update is served");
    assert_eq!(
        opened(&updated),
        r#"{"emp_no":1001,"salary":55000,"from_date":"2020-01-01","to_date":"9999-01-01"}"#
    );

    let read = object(vec![
        ("action", text("read")),
        ("emp_no", JsonValue::Integer(1001)),
        ("from_date", text("2020-01-01")),
    ]);
    let found = serve(&mut store, &read, &key()).expect("read is served");
    assert_eq!(opened(&found), opened(&updated));
}

#[test]
fn update_ignores_key_fields_of_the_entity() {
    let mut store = MemoryStore::new(RecordType::OrgUnit);
    let unit = object(vec![("dept_no", text("d001")), ("dept_name", text("Sales"))]);
    serve(&mut store, &object(vec![("action", text("create")), ("department", unit)]), &key())
        .expect("create is served");
    let change = object(vec![("dept_no", JsonValue::Integer(7)), ("dept_name", text("Retail"))]);
    let update = object(vec![
        ("action", text("update")),
        ("dept_no", text("d001")),
        ("department", change),
    ]);
    let updated = serve(&mut store, &update, &key()).expect("update is served");
    assert_eq!(opened(&updated), r#"{"dept_no":"d001","dept_name":"Retail"}"#);
    assert_eq!(store.len(), 1);
}

#[test]
fn unknown_action_is_a_validation_failure_for_every_record_type() {
    let body = unknown_action();
    assert!(names_action(department_crud_handler(&body)));
    assert!(names_action(employee_crud_handler(&body)));
    assert!(names_action(dept_emp_crud_handler(&body)));
    assert!(names_action(dept_manager_crud_handler(&body)));
    assert!(names_action(salary_crud_handler(&body)));
    assert!(names_action(title_crud_handler(&body)));
}

#[test]
fn missing_action_is_a_validation_failure() {
    let body = object(vec![("dept_no", text("d010"))]);
    assert!(names_action(department_crud_handler(&body)));
    assert!(names_action(department_crud_handler(&JsonValue::Null)));
    let numbered = object(vec![("action", JsonValue::Integer(1))]);
    assert!(names_action(department_crud_handler(&numbered)));
}

#[test]
fn update_and_delete_without_a_matching_row_are_served() {
    let mut store = MemoryStore::new(RecordType::OrgUnit);
    let change = object(vec![("dept_name", text("Nowhere"))]);
    let update = object(vec![
        ("action", text("update")),
        ("dept_no", text("d999")),
        ("department", change),
    ]);
    let updated = serve(&mut store, &update, &key()).expect("update is served");
    assert_eq!(opened(&updated), r#"{"dept_no":"d999","dept_name":"Nowhere"}"#);
    assert_eq!(store.len(), 0);

    let delete = object(vec![("action", text("delete")), ("dept_no", text("d999"))]);
    assert_eq!(
        serve(&mut store, &delete, &key()),
        Ok("Department deleted successfully".to_string())
    );
}

#[test]
fn listing_returns_at_most_ten_records() {
    let mut store = MemoryStore::new(RecordType::OrgUnit);
    for number in 0..12 {
        let unit = object(vec![
            ("dept_no", text(&format!("d{:03}", number))),
            ("dept_name", text(&format!("Unit {}", number))),
        ]);
        let create = object(vec![("action", text("create")), ("department", unit)]);
        serve(&mut store, &create, &key()).expect("create is served");
    }
    assert_eq!(store.len(), 12);
    let listing = object(vec![("action", text("read_all"))]);
    let listed = opened(&serve(&mut store, &listing, &key()).expect("listing is served"));
    assert_eq!(listed.matches("dept_no").count(), 10);
    assert!(listed.starts_with(r#"[{"dept_no":"d000","dept_name":"Unit 0"},"#));
    assert!(listed.ends_with(r#"{"dept_no":"d009","dept_name":"Unit 9"}]"#));
}

#[test]
fn listing_of_an_empty_store_is_an_empty_list() {
    let mut store = MemoryStore::new(RecordType::Title);
    let listing = object(vec![("action", text("read_all"))]);
    let listed = serve(&mut store, &listing, &key()).expect("listing is served");
    assert_eq!(opened(&listed), "[]");
}

#[test]
fn creating_a_key_twice_is_a_persistence_failure() {
    let mut store = MemoryStore::new(RecordType::OrgUnit);
    let first = object(vec![("dept_no", text("d010")), ("dept_name", text("QA"))]);
    let second = object(vec![("dept_no", text("d010")), ("dept_name", text("Other"))]);
    serve(&mut store, &object(vec![("action", text("create")), ("department", first)]), &key())
        .expect("create is served");
    let again = serve(
        &mut store,
        &object(vec![("action", text("create")), ("department", second)]),
        &key(),
    );
    assert_eq!(again, Err(Failure::Persistence));
    assert_eq!(store.len(), 1);
}

#[test]
fn person_round_trips_through_create_and_read() {
    let mut store = MemoryStore::new(RecordType::Person);
    let person = object(vec![
        ("emp_no", JsonValue::Integer(10001)),
        ("birth_date", text("1953-09-02")),
        ("first_name", text("Georgi")),
        ("last_name", text("Facello")),
        ("gender", text("M")),
        ("hire_date", text("1986-06-26")),
        ("nickname", text("ignored")),
    ]);
    let create = object(vec![("action", text("create")), ("employee", person)]);
    let created = opened(&serve(&mut store, &create, &key()).expect("create is served"));
    assert_eq!(
        created,
        r#"{"emp_no":10001,"birth_date":"1953-09-02","first_name":"Georgi","last_name":"Facello","gender":"M","hire_date":"1986-06-26"}"#
    );
    let read = object(vec![("action", text("read")), ("emp_no", JsonValue::Integer(10001))]);
    let found = opened(&serve(&mut store, &read, &key()).expect("read is served"));
    assert_eq!(found, created);
}

#[test]
fn title_without_end_date_is_open() {
    let mut store = MemoryStore::new(RecordType::Title);
    let title = object(vec![
        ("emp_no", JsonValue::Integer(10001)),
        ("title", text("Senior \"Staff\"")),
        ("from_date", text("1986-06-26")),
        ("to_date", JsonValue::Null),
    ]);
    let create = object(vec![("action", text("create")), ("title", title)]);
    let created = opened(&serve(&mut store, &create, &key()).expect("create is served"));
    assert_eq!(
        created,
        r#"{"emp_no":10001,"title":"Senior \"Staff\"","from_date":"1986-06-26","to_date":null}"#
    );
    let read = object(vec![
        ("action", text("read")),
        ("emp_no", JsonValue::Integer(10001)),
        ("title_name", text("Senior \"Staff\"")),
        ("from_date", text("1986-06-26")),
    ]);
    assert_eq!(opened(&serve(&mut store, &read, &key()).expect("read is served")), created);
}

#[test]
fn a_key_of_the_wrong_length_is_a_sealing_failure() {
    let mut store = MemoryStore::new(RecordType::OrgUnit);
    let listing = object(vec![("action", text("read_all"))]);
    assert_eq!(serve(&mut store, &listing, &vec![0u8; 31]), Err(Failure::Sealing));
    let delete = object(vec![("action", text("delete")), ("dept_no", text("d010"))]);
    assert_eq!(
        serve(&mut store, &delete, &vec![0u8; 31]),
        Ok("Department deleted successfully".to_string())
    );
}
