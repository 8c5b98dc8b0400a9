//! From a request body to a typed operation.

use crate::calendar::{parsed_ymd, read_date, Date};
use crate::failure::{Failure, FailureView};
use crate::json::{member, member_text, JsonValue};
use crate::record::{
    conforms, fits, key_conforms, key_of, lemma_chosen_len, lemma_key_column_at, values_conform, Key, Record,
    Value, ValueView, views,
};
use crate::schema::{
    chosen, columns_of, entity_name, key_columns, key_rank, schema, select_columns, Column,
    FieldKind, RecordType,
};
use vstd::prelude::*;

verus! {

/// What a request asks for.
#[derive(Debug, PartialEq, Eq)]
pub enum Operation {
    /// Store a new record.
    Create(Record),
    /// List records.
    ReadAll,
    /// Fetch the record with a key.
    Read(Key),
    /// Replace the values outside the key of the record with a key.
    Update(Key, Record),
    /// Remove the record with a key.
    Delete(Key),
}

/// An operation as contracts speak of it.
pub enum OperationView {
    Create(Seq<ValueView>),
    ReadAll,
    Read(Seq<ValueView>),
    Update(Seq<ValueView>, Seq<ValueView>),
    Delete(Seq<ValueView>),
}

impl View for Operation {
    type V = OperationView;

    open spec fn view(&self) -> OperationView {
        match *self {
            Operation::Create(record) => OperationView::Create(record@),
            Operation::ReadAll => OperationView::ReadAll,
            Operation::Read(key) => OperationView::Read(key@),
            Operation::Update(key, record) => OperationView::Update(key@, record@),
            Operation::Delete(key) => OperationView::Delete(key@),
        }
    }
}

/// Whether the keys and records of an operation are keys and records of the
/// given columns.
pub open spec fn operation_conforms(columns: Seq<Column>, operation: OperationView) -> bool {
    match operation {
        OperationView::Create(record) => conforms(columns, record),
        OperationView::ReadAll => true,
        OperationView::Read(key) => key_conforms(columns, key),
        OperationView::Update(key, record) => key_conforms(columns, key) && conforms(
            columns,
            record,
        ),
        OperationView::Delete(key) => key_conforms(columns, key),
    }
}

impl Operation {
    /// Whether the store answers the operation with rows: a listing and a
    /// read do, the others do not.
    pub fn returns_rows(&self) -> (out: bool)
        ensures
            out == (self@ is ReadAll || self@ is Read),
    {
        match self {
            Operation::ReadAll => true,
            Operation::Read(_) => true,
            _ => false,
        }
    }

    /// Whether the keys and records of the operation are keys and records
    /// of a record type.
    pub fn conforms_to(&self, record_type: RecordType) -> (out: bool)
        ensures
            out == operation_conforms(columns_of(record_type), self@),
    {
        let described = schema(record_type);
        let keys = select_columns(&described.columns, true);
        match self {
            Operation::Create(record) => values_conform(&described.columns, &record.values),
            Operation::ReadAll => true,
            Operation::Read(key) => values_conform(&keys, &key.values),
            Operation::Update(key, record) => values_conform(&keys, &key.values)
                && values_conform(&described.columns, &record.values),
            Operation::Delete(key) => values_conform(&keys, &key.values),
        }
    }
}

/// The date that a text stands for, as a field value: what the date parser
/// reads from it, where that is a day of the calendar.
pub open spec fn day_value(text: Seq<char>) -> Option<ValueView> {
    match read_date(parsed_ymd(text)) {
        Some(date) => Some(ValueView::Day(date)),
        None => None,
    }
}

/// The value that member `name` of an entity, or of a request body for a
/// key parameter, gives to a column of the given kind, or nothing where the
/// member is missing or has the wrong shape. An
/// integer has to fit in 32 bits, an amount must not be negative, a date is
/// a text that the date parser accepts, and an optional date may also be
/// null or missing.
pub open spec fn field_value(kind: FieldKind, entity: JsonValue, name: Seq<char>) -> Option<
    ValueView,
> {
    match kind {
        FieldKind::Integer => match member(entity, name) {
            Some(JsonValue::Integer(n)) => if i32::MIN <= n <= i32::MAX {
                Some(ValueView::Int(n as int))
            } else {
                None
            },
            _ => None,
        },
        FieldKind::Amount => match member(entity, name) {
            Some(JsonValue::Integer(n)) => if 0 <= n <= i32::MAX {
                Some(ValueView::Int(n as int))
            } else {
                None
            },
            _ => None,
        },
        FieldKind::Text => match member(entity, name) {
            Some(JsonValue::Text(text)) => Some(ValueView::Text(text@)),
            _ => None,
        },
        FieldKind::Day => match member(entity, name) {
            Some(JsonValue::Text(text)) => day_value(text@),
            _ => None,
        },
        FieldKind::OptionalDay => match member(entity, name) {
            None => Some(ValueView::Null),
            Some(JsonValue::Null) => Some(ValueView::Null),
            Some(JsonValue::Text(text)) => day_value(text@),
            _ => None,
        },
    }
}

/// The key that the first `upto` columns read from a request body, or the
/// name of the first key parameter that is missing or malformed.
pub open spec fn key_parameters(columns: Seq<Column>, body: JsonValue, upto: int) -> Result<
    Seq<ValueView>,
    Seq<char>,
>
    decreases upto,
{
    if upto <= 0 {
        Ok(Seq::empty())
    } else {
        let column = columns[upto - 1];
        match key_parameters(columns, body, upto - 1) {
            Err(field) => Err(field),
            Ok(front) => if !column.key {
                Ok(front)
            } else {
                match field_value(column.kind, body, column.parameter@) {
                    Some(value) => Ok(front.push(value)),
                    None => Err(column.parameter@),
                }
            },
        }
    }
}

/// The values that the first `upto` columns read from an entity, or the name
/// of the first column whose member is missing or malformed. Where a key is
/// given, the key columns take their values from it and the entity's
/// members of those names are not looked at.
pub open spec fn entity_values(
    columns: Seq<Column>,
    entity: JsonValue,
    key: Option<Seq<ValueView>>,
    upto: int,
) -> Result<Seq<ValueView>, Seq<char>>
    decreases upto,
{
    if upto <= 0 {
        Ok(Seq::empty())
    } else {
        let column = columns[upto - 1];
        match entity_values(columns, entity, key, upto - 1) {
            Err(field) => Err(field),
            Ok(front) => if column.key && key is Some {
                Ok(front.push(key->0[key_rank(columns, upto - 1)]))
            } else {
                match field_value(column.kind, entity, column.name@) {
                    Some(value) => Ok(front.push(value)),
                    None => Err(column.name@),
                }
            },
        }
    }
}

/// The record that a request body holds under the entity's name, or the
/// name of what is missing or malformed: the entity's own name where the
/// body has no object under it, else the first such column.
pub open spec fn decoded_entity(
    record_type: RecordType,
    body: JsonValue,
    key: Option<Seq<ValueView>>,
) -> Result<Seq<ValueView>, Seq<char>> {
    let columns = columns_of(record_type);
    match member(body, entity_name(record_type)@) {
        Some(JsonValue::Object(members)) => entity_values(
            columns,
            JsonValue::Object(members),
            key,
            columns.len() as int,
        ),
        _ => Err(entity_name(record_type)@),
    }
}

/// The key that a request body holds for a record type.
pub open spec fn decoded_key(record_type: RecordType, body: JsonValue) -> Result<
    Seq<ValueView>,
    Seq<char>,
> {
    let columns = columns_of(record_type);
    key_parameters(columns, body, columns.len() as int)
}

/// The operation that a request body asks for, or the validation failure
/// that it meets. The member `action` selects among `create`, `read_all`,
/// `read`, `update` and `delete`; a key is read before an entity.
pub open spec fn decoded(record_type: RecordType, body: JsonValue) -> Result<
    OperationView,
    FailureView,
> {
    match member_text(body, "action"@) {
        None => Err(FailureView::Validation("action"@)),
        Some(action) => if action == "create"@ {
            match decoded_entity(record_type, body, None) {
                Ok(record) => Ok(OperationView::Create(record)),
                Err(field) => Err(FailureView::Validation(field)),
            }
        } else if action == "read_all"@ {
            Ok(OperationView::ReadAll)
        } else if action == "read"@ {
            match decoded_key(record_type, body) {
                Ok(key) => Ok(OperationView::Read(key)),
                Err(field) => Err(FailureView::Validation(field)),
            }
        } else if action == "update"@ {
            match decoded_key(record_type, body) {
                Ok(key) => match decoded_entity(record_type, body, Some(key)) {
                    Ok(record) => Ok(OperationView::Update(key, record)),
                    Err(field) => Err(FailureView::Validation(field)),
                },
                Err(field) => Err(FailureView::Validation(field)),
            }
        } else if action == "delete"@ {
            match decoded_key(record_type, body) {
                Ok(key) => Ok(OperationView::Delete(key)),
                Err(field) => Err(FailureView::Validation(field)),
            }
        } else {
            Err(FailureView::Validation("action"@))
        },
    }
}

/// Once a key parameter has failed, the key fails with its name.
pub proof fn lemma_key_failure_stays(columns: Seq<Column>, body: JsonValue, at: int, upto: int)
    requires
        0 <= at <= upto,
        key_parameters(columns, body, at) is Err,
    ensures
        key_parameters(columns, body, upto) == key_parameters(columns, body, at),
    decreases upto,
{
    if at < upto {
        lemma_key_failure_stays(columns, body, at, upto - 1);
    }
}

/// Once a column of an entity has failed, the entity fails with its name.
pub proof fn lemma_entity_failure_stays(
    columns: Seq<Column>,
    entity: JsonValue,
    key: Option<Seq<ValueView>>,
    at: int,
    upto: int,
)
    requires
        0 <= at <= upto,
        entity_values(columns, entity, key, at) is Err,
    ensures
        entity_values(columns, entity, key, upto) == entity_values(columns, entity, key, at),
    decreases upto,
{
    if at < upto {
        lemma_entity_failure_stays(columns, entity, key, at, upto - 1);
    }
}

/// Reads the date that a text stands for.
fn read_day(text: &str) -> (out: Option<Value>)
    ensures
        out is Some == day_value(text@) is Some,
        out is Some ==> out->0@ == day_value(text@)->0,
{
    match Date::parse(text) {
        Some(date) => Some(Value::Day(date)),
        None => None,
    }
}

/// Reads member `name` of an entity, or of a request body for a key
/// parameter, as the value of a column of the given kind.
pub fn read_field(kind: FieldKind, entity: &JsonValue, name: &str) -> (out: Option<Value>)
    ensures
        out is Some == field_value(kind, *entity, name@) is Some,
        out is Some ==> out->0@ == field_value(kind, *entity, name@)->0,
        out is Some ==> fits(kind, out->0@),
{
    let found = entity.get(name);
    match kind {
        FieldKind::Integer => match found {
            Some(JsonValue::Integer(n)) => if -2147483648 <= *n && *n <= 2147483647 {
                Some(Value::Int(*n as i32))
            } else {
                None
            },
            _ => None,
        },
        FieldKind::Amount => match found {
            Some(JsonValue::Integer(n)) => if 0 <= *n && *n <= 2147483647 {
                Some(Value::Int(*n as i32))
            } else {
                None
            },
            _ => None,
        },
        FieldKind::Text => match found {
            Some(JsonValue::Text(text)) => Some(Value::Text(text.clone())),
            _ => None,
        },
        FieldKind::Day => match found {
            Some(JsonValue::Text(text)) => read_day(text.as_str()),
            _ => None,
        },
        FieldKind::OptionalDay => match found {
            None => Some(Value::Null),
            Some(JsonValue::Null) => Some(Value::Null),
            Some(JsonValue::Text(text)) => read_day(text.as_str()),
            _ => None,
        },
    }
}

/// Reads the key of a request from its body.
pub fn read_key(columns: &Vec<Column>, body: &JsonValue) -> (out: Result<Key, Failure>)
    ensures
        match out {
            Ok(key) => key_parameters(columns@, *body, columns.len() as int) == Ok::<
                Seq<ValueView>,
                Seq<char>,
            >(key@) && key_conforms(columns@, key@),
            Err(failure) => failure@ is Validation && key_parameters(
                columns@,
                *body,
                columns.len() as int,
            ) == Err::<Seq<ValueView>, Seq<char>>(failure@->Validation_0),
        },
{
    let mut values: Vec<Value> = Vec::new();
    let mut i: usize = 0;
    assert(views(values@) =~= Seq::empty());
    while i < columns.len()
        invariant
            i <= columns.len(),
            key_parameters(columns@, *body, i as int) == Ok::<Seq<ValueView>, Seq<char>>(
                views(values@),
            ),
            conforms(chosen(columns@, columns@, true, i as int), views(values@)),
        decreases columns.len() - i,
    {
        let column = columns[i];
        if column.key {
            match read_field(column.kind, body, column.parameter) {
                Some(value) => {
                    let ghost before = views(values@);
                    values.push(value);
                    assert(views(values@) =~= before.push(value@));
                },
                None => {
                    proof {
                        lemma_key_failure_stays(columns@, *body, i + 1, columns.len() as int);
                    }
                    return Err(Failure::validation(column.parameter));
                },
            }
        }
        i += 1;
    }
    Ok(Key { values })
}

/// Reads a record from an entity. Where a key is given, the key columns
/// take their values from it.
pub fn read_entity(columns: &Vec<Column>, entity: &JsonValue, key: Option<&Key>) -> (out: Result<
    Record,
    Failure,
>)
    requires
        key is Some ==> key_conforms(columns@, key->0@),
    ensures
        match out {
            Ok(record) => entity_values(
                columns@,
                *entity,
                key_view(key),
                columns.len() as int,
            ) == Ok::<Seq<ValueView>, Seq<char>>(record@) && conforms(columns@, record@),
            Err(failure) => failure@ is Validation && entity_values(
                columns@,
                *entity,
                key_view(key),
                columns.len() as int,
            ) == Err::<Seq<ValueView>, Seq<char>>(failure@->Validation_0),
        },
{
    let mut values: Vec<Value> = Vec::new();
    let mut i: usize = 0;
    let mut rank: usize = 0;
    assert(views(values@) =~= Seq::empty());
    while i < columns.len()
        invariant
            i <= columns.len(),
            key is Some ==> key_conforms(columns@, key->0@),
            rank == key_rank(columns@, i as int),
            values.len() == i,
            entity_values(columns@, *entity, key_view(key), i as int) == Ok::<
                Seq<ValueView>,
                Seq<char>,
            >(views(values@)),
            forall|j: int| 0 <= j < i ==> fits(columns[j].kind, #[trigger] views(values@)[j]),
        decreases columns.len() - i,
    {
        let column = columns[i];
        let ghost before = views(values@);
        proof {
            lemma_chosen_len(columns@, columns@, true, i as int);
            lemma_chosen_len(columns@, columns@, true, i + 1);
        }
        if column.key {
            rank += 1;
        }
        match key {
            Some(given) if column.key => {
                values.push(given.values[rank - 1].duplicate());
                assert(views(given.values@)[rank - 1] == key_view(key)->0[rank - 1]);
                assert(fits(
                    key_columns(columns@)[rank - 1].kind,
                    views(given.values@)[rank - 1],
                ));
                proof {
                    lemma_key_column_at(columns@, i as int, columns.len() as int);
                }
            },
            _ => {
                match read_field(column.kind, entity, column.name) {
                    Some(value) => {
                        values.push(value);
                    },
                    None => {
                        proof {
                            lemma_entity_failure_stays(
                                columns@,
                                *entity,
                                key_view(key),
                                i + 1,
                                columns.len() as int,
                            );
                        }
                        return Err(Failure::validation(column.name));
                    },
                }
            },
        }
        assert(views(values@) =~= before.push(views(values@)[i as int]));
        i += 1;
    }
    Ok(Record { values })
}

/// A key as contracts speak of it, where there is one.
pub open spec fn key_view(key: Option<&Key>) -> Option<Seq<ValueView>> {
    match key {
        Some(given) => Some(given@),
        None => None,
    }
}

/// Reads the record that a request body holds under the entity's name.
pub fn decode_entity(record_type: RecordType, body: &JsonValue, key: Option<&Key>) -> (out: Result<
    Record,
    Failure,
>)
    requires
        key is Some ==> key_conforms(columns_of(record_type), key->0@),
    ensures
        match out {
            Ok(record) => decoded_entity(record_type, *body, key_view(key)) == Ok::<
                Seq<ValueView>,
                Seq<char>,
            >(record@) && conforms(columns_of(record_type), record@),
            Err(failure) => failure@ is Validation && decoded_entity(
                record_type,
                *body,
                key_view(key),
            ) == Err::<Seq<ValueView>, Seq<char>>(failure@->Validation_0),
        },
{
    let described = schema(record_type);
    match body.get(described.entity) {
        Some(entity) => match entity {
            JsonValue::Object(_) => read_entity(&described.columns, entity, key),
            _ => Err(Failure::validation(described.entity)),
        },
        None => Err(Failure::validation(described.entity)),
    }
}

/// Reads the key that a request body holds for a record type.
pub fn decode_key(record_type: RecordType, body: &JsonValue) -> (out: Result<Key, Failure>)
    ensures
        match out {
            Ok(key) => decoded_key(record_type, *body) == Ok::<Seq<ValueView>, Seq<char>>(key@)
                && key_conforms(columns_of(record_type), key@),
            Err(failure) => failure@ is Validation && decoded_key(record_type, *body) == Err::<
                Seq<ValueView>,
                Seq<char>,
            >(failure@->Validation_0),
        },
{
    let described = schema(record_type);
    read_key(&described.columns, body)
}

/// Turns a request body into the operation it asks for. A body without a
/// known action, a key parameter or an entity member that is missing or
/// malformed, each ends in a validation failure that names the member.
pub fn decode(record_type: RecordType, body: &JsonValue) -> (out: Result<Operation, Failure>)
    ensures
        match out {
            Ok(operation) => decoded(record_type, *body) == Ok::<OperationView, FailureView>(
                operation@,
            ) && operation_conforms(columns_of(record_type), operation@),
            Err(failure) => decoded(record_type, *body) == Err::<OperationView, FailureView>(
                failure@,
            ),
        },
{
    let action = match body.get_text("action") {
        Some(action) => action,
        None => {
            return Err(Failure::validation("action"));
        },
    };
    if *action == String::from_str("create") {
        match decode_entity(record_type, body, None) {
            Ok(record) => Ok(Operation::Create(record)),
            Err(failure) => Err(failure),
        }
    } else if *action == String::from_str("read_all") {
        Ok(Operation::ReadAll)
    } else if *action == String::from_str("read") {
        match decode_key(record_type, body) {
            Ok(key) => Ok(Operation::Read(key)),
            Err(failure) => Err(failure),
        }
    } else if *action == String::from_str("update") {
        match decode_key(record_type, body) {
            Ok(key) => match decode_entity(record_type, body, Some(&key)) {
                Ok(record) => Ok(Operation::Update(key, record)),
                Err(failure) => Err(failure),
            },
            Err(failure) => Err(failure),
        }
    } else if *action == String::from_str("delete") {
        match decode_key(record_type, body) {
            Ok(key) => Ok(Operation::Delete(key)),
            Err(failure) => Err(failure),
        }
    } else {
        Err(Failure::validation("action"))
    }
}

/// A body whose action is missing, is no text, or is none of the five
/// actions is refused for every record type, with a validation failure that
/// names the action.
pub proof fn lemma_unknown_action_is_refused(record_type: RecordType, body: JsonValue)
    requires
        member_text(body, "action"@) matches Some(action) ==> action != "create"@ && action
            != "read_all"@ && action != "read"@ && action != "update"@ && action != "delete"@,
    ensures
        decoded(record_type, body) == Err::<OperationView, FailureView>(
            FailureView::Validation("action"@),
        ),
{
}

/// A key that was read has one value for each key column seen.
pub proof fn lemma_key_parameters_len(columns: Seq<Column>, body: JsonValue, upto: int)
    requires
        0 <= upto,
        key_parameters(columns, body, upto) is Ok,
    ensures
        key_parameters(columns, body, upto)->Ok_0.len() == key_rank(columns, upto),
    decreases upto,
{
    if upto > 0 {
        lemma_key_parameters_len(columns, body, upto - 1);
    }
}

/// A record that was read with a key holds, in each key column, the key's
/// value for that column.
pub proof fn lemma_entity_values_at(
    columns: Seq<Column>,
    entity: JsonValue,
    key: Seq<ValueView>,
    upto: int,
)
    requires
        0 <= upto,
        entity_values(columns, entity, Some(key), upto) is Ok,
    ensures
        entity_values(columns, entity, Some(key), upto)->Ok_0.len() == upto,
        forall|j: int|
            0 <= j < upto && columns[j].key ==> #[trigger] entity_values(
                columns,
                entity,
                Some(key),
                upto,
            )->Ok_0[j] == key[key_rank(columns, j)],
    decreases upto,
{
    if upto > 0 {
        lemma_entity_values_at(columns, entity, key, upto - 1);
        let front = entity_values(columns, entity, Some(key), upto - 1)->Ok_0;
        let all = entity_values(columns, entity, Some(key), upto)->Ok_0;
        assert forall|j: int| 0 <= j < upto && columns[j].key implies #[trigger] all[j]
            == key[key_rank(columns, j)] by {
            if j < upto - 1 {
                assert(all[j] == front[j]);
            }
        }
    }
}

/// An update never moves a record to another key: whatever the entity of
/// the request holds under the names of key columns, the record that is
/// decoded has the key that the request names.
pub proof fn lemma_update_keeps_key(record_type: RecordType, body: JsonValue)
    requires
        decoded(record_type, body) is Ok,
        decoded(record_type, body)->Ok_0 is Update,
    ensures
        key_of(columns_of(record_type), decoded(record_type, body)->Ok_0->Update_1) == decoded(
            record_type,
            body,
        )->Ok_0->Update_0,
{
    let columns = columns_of(record_type);
    let key = decoded(record_type, body)->Ok_0->Update_0;
    let record = decoded(record_type, body)->Ok_0->Update_1;
    let entity = member(body, entity_name(record_type)@)->0;
    lemma_key_parameters_len(columns, body, columns.len() as int);
    lemma_entity_values_at(columns, entity, key, columns.len() as int);
    assert(record =~= crate::record::pinned(columns, key, record));
    crate::record::lemma_pinned_key(columns, key, record);
}

} // verus!
