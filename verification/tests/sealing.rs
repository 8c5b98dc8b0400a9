use rust_api::calendar::Date;
use rust_api::decoder::Operation;
use rust_api::envelope::{seal, seal_with_nonce, unseal, KEY_LENGTH, NONCE_LENGTH, TAG_LENGTH};
use rust_api::failure::Failure;
use rust_api::handlers::{reply_bytes, respond, respond_with_nonce};
use rust_api::record::{Key, Record, Value};
use rust_api::repository::{conclude, Reply, StoreOutcome};
use rust_api::schema::RecordType;
use rust_api::text::{digit_of, digit_str, push_hex, read_hex};

fn key() -> Vec<u8> {
    (0u8..32).collect()
}

fn nonce() -> Vec<u8> {
    (100u8..124).collect()
}

fn unit(code: &str, name: &str) -> Record {
    Record { values: vec![Value::Text(code.to_string()), Value::Text(name.to_string())] }
}

fn unit_key(code: &str) -> Key {
    Key { values: vec![Value::Text(code.to_string())] }
}

fn hex(bytes: &[u8]) -> String {
    let mut out = String::new();
    push_hex(&mut out, &bytes.to_vec());
    out
}

#[test]
fn hex_text_has_two_lowercase_digits_per_byte() {
    assert_eq!(hex(&[]), "");
    assert_eq!(hex(&[0x00, 0x0f, 0xa0, 0xff, 0x7b]), "000fa0ff7b");
    let mut out = String::from("x");
    push_hex(&mut out, &vec![0xde, 0xad]);
    assert_eq!(out, "xdead");
}

#[test]
fn hex_text_reads_back() {
    assert_eq!(read_hex(""), Some(vec![]));
    assert_eq!(read_hex("000fa0ff7b"), Some(vec![0x00, 0x0f, 0xa0, 0xff, 0x7b]));
    let all: Vec<u8> = (0..=255).collect();
    assert_eq!(read_hex(&hex(&all)), Some(all));
}

#[test]
fn hex_reading_rejects_what_is_no_hex_text() {
    assert_eq!(read_hex("abc"), None);
    assert_eq!(read_hex("AB"), None);
    assert_eq!(read_hex("0g"), None);
    assert_eq!(read_hex("0 "), None);
    assert_eq!(read_hex("é0"), None);
    assert_eq!(read_hex("00zz00"), None);
}

#[test]
fn digits_and_their_values() {
    assert_eq!(digit_str(0), "0");
    assert_eq!(digit_str(9), "9");
    assert_eq!(digit_str(10), "a");
    assert_eq!(digit_str(15), "f");
    assert_eq!(digit_of(b'0'), Some(0));
    assert_eq!(digit_of(b'9'), Some(9));
    assert_eq!(digit_of(b'a'), Some(10));
    assert_eq!(digit_of(b'f'), Some(15));
    assert_eq!(digit_of(b'g'), None);
    assert_eq!(digit_of(b'A'), None);
    assert_eq!(digit_of(b'/'), None);
    assert_eq!(digit_of(b':'), None);
    assert_eq!(digit_of(b'`'), None);
}

#[test]
fn a_sealed_text_holds_nonce_tag_and_message_in_hex() {
    let message = b"{\"dept_no\":\"d010\"}".to_vec();
    let sealed = seal_with_nonce(&message, &key(), &nonce()).expect("seals");
    assert_eq!(sealed.len(), 2 * (NONCE_LENGTH + TAG_LENGTH + message.len()));
    assert!(sealed.starts_with(&hex(&nonce())));
    assert!(!sealed.contains(&hex(&message)));
    assert!(sealed.chars().all(|c| c.is_ascii_digit() || ('a'..='f').contains(&c)));
}

#[test]
fn sealing_is_decided_by_key_nonce_and_message() {
    let message = b"same message".to_vec();
    let first = seal_with_nonce(&message, &key(), &nonce()).expect("seals");
    let second = seal_with_nonce(&message, &key(), &nonce()).expect("seals");
    assert_eq!(first, second);
    let other_nonce: Vec<u8> = (1u8..25).collect();
    assert_ne!(seal_with_nonce(&message, &key(), &other_nonce).expect("seals"), first);
    let other_key = vec![9u8; KEY_LENGTH];
    assert_ne!(seal_with_nonce(&message, &other_key, &nonce()).expect("seals"), first);
    assert_ne!(seal_with_nonce(&b"other message".to_vec(), &key(), &nonce()).expect("seals"), first);
}

#[test]
fn sealing_matches_the_known_answer_of_the_cipher() {
    let key: Vec<u8> = vec![
        0x1b, 0x27, 0x55, 0x64, 0x73, 0xe9, 0x85, 0xd4, 0x62, 0xcd, 0x51, 0x19, 0x7a, 0x9a, 0x46,
        0xc7, 0x60, 0x09, 0x54, 0x9e, 0xac, 0x64, 0x74, 0xf2, 0x06, 0xc4, 0xee, 0x08, 0x44, 0xf6,
        0x83, 0x89,
    ];
    let nonce: Vec<u8> = vec![
        0x69, 0x69, 0x6e, 0xe9, 0x55, 0xb6, 0x2b, 0x73, 0xcd, 0x62, 0xbd, 0xa8, 0x75, 0xfc, 0x73,
        0xd6, 0x82, 0x19, 0xe0, 0x03, 0x6b, 0x7a, 0x0b, 0x37,
    ];
    let message: Vec<u8> = vec![
        0xbe, 0x07, 0x5f, 0xc5, 0x3c, 0x81, 0xf2, 0xd5, 0xcf, 0x14, 0x13, 0x16, 0xeb, 0xeb, 0x0c,
        0x7b,
    ];
    let sealed = seal_with_nonce(&message, &key, &nonce).expect("seals");
    let bytes = read_hex(&sealed).expect("hex");
    assert_eq!(&bytes[..24], &nonce[..]);
    assert_eq!(
        hex(&bytes[40..]),
        "8e993b9f48681273c29650ba32fc76ce"
    );
    assert_eq!(unseal(&sealed, &key), Ok(message));
}

#[test]
fn unsealing_gives_the_message_back() {
    for message in [b"".to_vec(), b"x".to_vec(), vec![0u8; 1000], "héllo ✓".as_bytes().to_vec()] {
        let sealed = seal_with_nonce(&message, &key(), &nonce()).expect("seals");
        assert_eq!(unseal(&sealed, &key()), Ok(message.clone()));
        let fresh = seal(&message, &key()).expect("seals");
        assert_eq!(unseal(&fresh, &key()), Ok(message));
    }
}

#[test]
fn each_sealing_takes_a_fresh_nonce() {
    let message = b"twice".to_vec();
    let first = seal(&message, &key()).expect("seals");
    let second = seal(&message, &key()).expect("seals");
    assert_ne!(first, second);
    assert_ne!(first[..2 * NONCE_LENGTH], second[..2 * NONCE_LENGTH]);
}

#[test]
fn unsealing_with_another_key_fails() {
    let sealed = seal(&b"secret".to_vec(), &key()).expect("seals");
    let mut other = key();
    other[31] ^= 1;
    assert_eq!(unseal(&sealed, &other), Err(Failure::Sealing));
}

#[test]
fn unsealing_a_changed_text_fails() {
    let sealed = seal(&b"secret".to_vec(), &key()).expect("seals");
    for at in 0..sealed.len() {
        let mut changed: Vec<char> = sealed.chars().collect();
        changed[at] = if changed[at] == '0' { '1' } else { '0' };
        let changed: String = changed.into_iter().collect();
        assert_eq!(unseal(&changed, &key()), Err(Failure::Sealing), "position {}", at);
    }
    let mut upper = sealed.clone();
    upper.make_ascii_uppercase();
    if upper != sealed {
        assert_eq!(unseal(&upper, &key()), Err(Failure::Sealing));
    }
}

#[test]
fn unsealing_rejects_what_is_no_envelope() {
    assert_eq!(unseal("", &key()), Err(Failure::Sealing));
    assert_eq!(unseal("not hex", &key()), Err(Failure::Sealing));
    assert_eq!(unseal(&hex(&nonce()), &key()), Err(Failure::Sealing));
    assert_eq!(unseal(&hex(&[0u8; 23]), &key()), Err(Failure::Sealing));
    assert_eq!(unseal(&hex(&[0u8; 39]), &key()), Err(Failure::Sealing));
    assert_eq!(unseal(&hex(&[0u8; 40]), &key()), Err(Failure::Sealing));
    let sealed = seal(&b"secret".to_vec(), &key()).expect("seals");
    assert_eq!(unseal(&sealed[..sealed.len() - 2], &key()), Err(Failure::Sealing));
    assert_eq!(unseal(&sealed[..sealed.len() - 1], &key()), Err(Failure::Sealing));
}

#[test]
fn key_and_nonce_must_have_their_lengths() {
    let message = b"m".to_vec();
    assert_eq!(seal_with_nonce(&message, &vec![0u8; 31], &nonce()), Err(Failure::Sealing));
    assert_eq!(seal_with_nonce(&message, &vec![0u8; 33], &nonce()), Err(Failure::Sealing));
    assert_eq!(seal_with_nonce(&message, &key(), &vec![0u8; 23]), Err(Failure::Sealing));
    assert_eq!(seal_with_nonce(&message, &key(), &vec![0u8; 25]), Err(Failure::Sealing));
    assert_eq!(seal(&message, &vec![]), Err(Failure::Sealing));
    let sealed = seal(&message, &key()).expect("seals");
    assert_eq!(unseal(&sealed, &vec![0u8; 16]), Err(Failure::Sealing));
}

#[test]
fn a_created_record_is_sealed_as_it_was_given() {
    let operation = Operation::Create(unit("d010", "QA"));
    let sealed = respond(RecordType::OrgUnit, operation, StoreOutcome::Executed, &key())
        .expect("responds");
    assert_eq!(unseal(&sealed, &key()), Ok(br#"{"dept_no":"d010","dept_name":"QA"}"#.to_vec()));
}

#[test]
fn a_response_under_a_given_nonce_is_the_sealed_canonical_text() {
    let operation = Operation::Create(unit("d010", "QA"));
    let sealed =
        respond_with_nonce(RecordType::OrgUnit, operation, StoreOutcome::Executed, &key(), &nonce())
            .expect("responds");
    let reply = Reply::One(unit("d010", "QA"));
    let message = reply_bytes(RecordType::OrgUnit, &reply);
    assert_eq!(message, br#"{"dept_no":"d010","dept_name":"QA"}"#.to_vec());
    assert_eq!(Ok(sealed), seal_with_nonce(&message, &key(), &nonce()));
}

#[test]
fn a_deletion_is_confirmed_in_plain_text() {
    let kinds = [
        (RecordType::OrgUnit, "Department deleted successfully"),
        (RecordType::Person, "Employee deleted successfully"),
        (RecordType::UnitAssignment, "DeptEmp deleted successfully"),
        (RecordType::ManagerAssignment, "DeptManager deleted successfully"),
        (RecordType::Compensation, "Salary deleted successfully"),
        (RecordType::Title, "Title deleted successfully"),
    ];
    let start = || Value::Day(Date::new(2020, 1, 1).expect("a day of the calendar"));
    let key_of = |kind: RecordType| -> Key {
        let values = match kind {
            RecordType::OrgUnit => vec![Value::Text("d010".to_string())],
            RecordType::Person => vec![Value::Int(10001)],
            RecordType::UnitAssignment | RecordType::ManagerAssignment => {
                vec![Value::Int(10001), Value::Text("d010".to_string()), start()]
            }
            RecordType::Compensation => vec![Value::Int(10001), start()],
            RecordType::Title => vec![Value::Int(10001), Value::Text("Staff".to_string()), start()],
        };
        Key { values }
    };
    for (kind, confirmation) in kinds {
        let operation = Operation::Delete(key_of(kind));
        assert!(operation.conforms_to(kind));
        let answer = respond_with_nonce(kind, operation, StoreOutcome::Executed, &key(), &nonce());
        assert_eq!(answer, Ok(confirmation.to_string()));
        let answer = respond(kind, Operation::Delete(key_of(kind)), StoreOutcome::Executed, &vec![]);
        assert_eq!(answer, Ok(confirmation.to_string()));
    }
}

#[test]
fn an_error_of_the_store_is_a_persistence_failure() {
    let kind = RecordType::OrgUnit;
    assert_eq!(
        conclude(kind, Operation::Create(unit("d010", "QA")), StoreOutcome::Failed),
        Err(Failure::Persistence)
    );
    assert_eq!(conclude(kind, Operation::ReadAll, StoreOutcome::Failed), Err(Failure::Persistence));
    assert_eq!(
        conclude(kind, Operation::Read(unit_key("d010")), StoreOutcome::Failed),
        Err(Failure::Persistence)
    );
    assert_eq!(
        conclude(kind, Operation::Update(unit_key("d010"), unit("d010", "QA")), StoreOutcome::Failed),
        Err(Failure::Persistence)
    );
    assert_eq!(
        conclude(kind, Operation::Delete(unit_key("d010")), StoreOutcome::Failed),
        Err(Failure::Persistence)
    );
    assert_eq!(
        respond(kind, Operation::ReadAll, StoreOutcome::Failed, &key()),
        Err(Failure::Persistence)
    );
}

#[test]
fn an_answer_of_the_wrong_form_is_a_persistence_failure() {
    let kind = RecordType::OrgUnit;
    assert_eq!(
        conclude(kind, Operation::Create(unit("d010", "QA")), StoreOutcome::Rows(vec![])),
        Err(Failure::Persistence)
    );
    assert_eq!(conclude(kind, Operation::ReadAll, StoreOutcome::Executed), Err(Failure::Persistence));
    assert_eq!(
        conclude(kind, Operation::Read(unit_key("d010")), StoreOutcome::Executed),
        Err(Failure::Persistence)
    );
    assert_eq!(
        conclude(kind, Operation::Delete(unit_key("d010")), StoreOutcome::Rows(vec![])),
        Err(Failure::Persistence)
    );
}

#[test]
fn a_row_of_the_wrong_shape_is_a_persistence_failure() {
    let kind = RecordType::OrgUnit;
    let short = Record { values: vec![Value::Text("d010".to_string())] };
    assert_eq!(
        conclude(kind, Operation::Read(unit_key("d010")), StoreOutcome::Rows(vec![short])),
        Err(Failure::Persistence)
    );
    let mistyped = Record { values: vec![Value::Int(10), Value::Text("QA".to_string())] };
    assert_eq!(
        conclude(kind, Operation::ReadAll, StoreOutcome::Rows(vec![unit("d001", "A"), mistyped])),
        Err(Failure::Persistence)
    );
}

#[test]
fn a_read_is_not_found_only_where_no_row_came() {
    let kind = RecordType::OrgUnit;
    assert_eq!(
        conclude(kind, Operation::Read(unit_key("d010")), StoreOutcome::Rows(vec![])),
        Err(Failure::NotFound)
    );
    assert_eq!(
        conclude(kind, Operation::Read(unit_key("d010")), StoreOutcome::Rows(vec![unit("d010", "QA")])),
        Ok(Reply::One(unit("d010", "QA")))
    );
    assert_eq!(
        conclude(
            kind,
            Operation::Read(unit_key("d010")),
            StoreOutcome::Rows(vec![unit("d010", "QA"), unit("d011", "QB")])
        ),
        Ok(Reply::One(unit("d010", "QA")))
    );
}

#[test]
fn a_listing_is_cut_to_ten_rows() {
    let kind = RecordType::OrgUnit;
    let rows = |count: usize| -> Vec<Record> {
        (0..count).map(|n| unit(&format!("d{:03}", n), "unit")).collect()
    };
    assert_eq!(conclude(kind, Operation::ReadAll, StoreOutcome::Rows(rows(0))), Ok(Reply::Many(rows(0))));
    assert_eq!(conclude(kind, Operation::ReadAll, StoreOutcome::Rows(rows(9))), Ok(Reply::Many(rows(9))));
    assert_eq!(conclude(kind, Operation::ReadAll, StoreOutcome::Rows(rows(10))), Ok(Reply::Many(rows(10))));
    assert_eq!(conclude(kind, Operation::ReadAll, StoreOutcome::Rows(rows(11))), Ok(Reply::Many(rows(10))));
    assert_eq!(conclude(kind, Operation::ReadAll, StoreOutcome::Rows(rows(50))), Ok(Reply::Many(rows(10))));
}

#[test]
fn an_update_hands_back_the_record_with_the_key_of_the_request() {
    let day = |y, m, d| Value::Day(Date::new(y, m, d).expect("a day of the calendar"));
    let key = Key { values: vec![Value::Int(1001), day(2020, 1, 1)] };
    let record = Record {
        values: vec![Value::Int(7), Value::Int(55000), day(1999, 9, 9), day(9999, 1, 1)],
    };
    let expected = Record {
        values: vec![Value::Int(1001), Value::Int(55000), day(2020, 1, 1), day(9999, 1, 1)],
    };
    assert_eq!(
        conclude(RecordType::Compensation, Operation::Update(key, record), StoreOutcome::Executed),
        Ok(Reply::One(expected))
    );
}

#[test]
fn failures_have_their_status() {
    assert_eq!(Failure::validation("emp_no"), Failure::Validation { field: "emp_no".to_string() });
    assert_eq!(Failure::validation("emp_no").status_code(), 400);
    assert_eq!(Failure::NotFound.status_code(), 404);
    assert_eq!(Failure::Persistence.status_code(), 500);
    assert_eq!(Failure::Sealing.status_code(), 500);
}
