//! The statement that carries out an operation: its text, with one mark for
//! each parameter, and the parameters in the order of the marks.

use crate::decoder::{operation_conforms, Operation, OperationView};
use crate::record::{
    choose_values, duplicate_values, rest_of, Value, ValueView, views,
};
use crate::schema::{
    columns_of, key_columns, schema, select_columns, table_name, value_columns, Column,
    RecordType, LISTING_LIMIT,
};
use crate::text::{decimal_digits, push_decimal_digits};
use vstd::prelude::*;

verus! {

/// A statement for the store.
#[derive(Debug, PartialEq, Eq)]
pub struct Statement {
    /// The text, with a question mark in place of each parameter.
    pub text: String,
    /// The parameters, in the order of their marks.
    pub parameters: Vec<Value>,
}

/// How a column stands in a list of a statement.
#[derive(Clone, Copy, Debug, PartialEq, Eq, Structural)]
pub enum Form {
    /// By its name.
    Name,
    /// As a parameter mark.
    Mark,
    /// As a comparison or assignment: the name, an equals sign and a mark.
    Pair,
}

/// One column in the given form.
pub open spec fn piece(form: Form, column: Column) -> Seq<char> {
    match form {
        Form::Name => column.name@,
        Form::Mark => "?"@,
        Form::Pair => column.name@ + " = ?"@,
    }
}

/// The first `upto` columns in the given form, with the separator between
/// each two.
pub open spec fn listed(columns: Seq<Column>, form: Form, separator: Seq<char>, upto: int) -> Seq<
    char,
>
    decreases upto,
{
    if upto <= 0 {
        Seq::empty()
    } else if upto == 1 {
        piece(form, columns[0])
    } else {
        listed(columns, form, separator, upto - 1) + separator + piece(form, columns[upto - 1])
    }
}

/// All columns in the given form, with the separator between each two.
pub open spec fn list_of(columns: Seq<Column>, form: Form, separator: Seq<char>) -> Seq<char> {
    listed(columns, form, separator, columns.len() as int)
}

/// The condition that selects the row with a key.
pub open spec fn key_condition(columns: Seq<Column>) -> Seq<char> {
    " WHERE "@ + list_of(key_columns(columns), Form::Pair, " AND "@)
}

/// The text of the statement that inserts a record.
pub open spec fn insert_text(record_type: RecordType) -> Seq<char> {
    let columns = columns_of(record_type);
    "INSERT INTO "@ + table_name(record_type)@ + " ("@ + list_of(columns, Form::Name, ", "@)
        + ") VALUES ("@ + list_of(columns, Form::Mark, ", "@) + ")"@
}

/// The text of the statement that lists records: it asks for no more rows
/// than the listing limit.
pub open spec fn listing_text(record_type: RecordType) -> Seq<char> {
    "SELECT * FROM "@ + table_name(record_type)@ + " LIMIT "@ + decimal_digits(
        LISTING_LIMIT as nat,
    )
}

/// The text of the statement that fetches the record with a key.
pub open spec fn select_text(record_type: RecordType) -> Seq<char> {
    "SELECT * FROM "@ + table_name(record_type)@ + key_condition(columns_of(record_type))
}

/// The text of the statement that replaces the values outside the key of
/// the record with a key.
pub open spec fn update_text(record_type: RecordType) -> Seq<char> {
    let columns = columns_of(record_type);
    "UPDATE "@ + table_name(record_type)@ + " SET "@ + list_of(
        value_columns(columns),
        Form::Pair,
        ", "@,
    ) + key_condition(columns)
}

/// The text of the statement that removes the record with a key.
pub open spec fn delete_text(record_type: RecordType) -> Seq<char> {
    "DELETE FROM "@ + table_name(record_type)@ + key_condition(columns_of(record_type))
}

/// The text of the statement that carries out an operation.
pub open spec fn planned_text(record_type: RecordType, operation: OperationView) -> Seq<char> {
    match operation {
        OperationView::Create(_) => insert_text(record_type),
        OperationView::ReadAll => listing_text(record_type),
        OperationView::Read(_) => select_text(record_type),
        OperationView::Update(_, _) => update_text(record_type),
        OperationView::Delete(_) => delete_text(record_type),
    }
}

/// The parameters of the statement that carries out an operation. An
/// insertion binds every value of the record, in column order. An update
/// binds the record's values outside the key and then the key: what the
/// record holds in its key columns is bound nowhere.
pub open spec fn planned_parameters(record_type: RecordType, operation: OperationView) -> Seq<
    ValueView,
> {
    match operation {
        OperationView::Create(record) => record,
        OperationView::ReadAll => Seq::empty(),
        OperationView::Read(key) => key,
        OperationView::Update(key, record) => rest_of(columns_of(record_type), record) + key,
        OperationView::Delete(key) => key,
    }
}

/// Appends one column in the given form.
fn push_piece(out: &mut String, form: Form, column: &Column)
    ensures
        final(out)@ == old(out)@ + piece(form, *column),
{
    match form {
        Form::Name => {
            out.append(column.name);
        },
        Form::Mark => {
            out.append("?");
        },
        Form::Pair => {
            out.append(column.name);
            out.append(" = ?");
            assert(final(out)@ =~= old(out)@ + piece(form, *column));
        },
    }
}

/// Appends the columns in the given form, with the separator between each
/// two.
pub fn push_list(out: &mut String, columns: &Vec<Column>, form: Form, separator: &str)
    ensures
        final(out)@ == old(out)@ + list_of(columns@, form, separator@),
{
    let mut i: usize = 0;
    assert(out@ =~= old(out)@ + listed(columns@, form, separator@, 0));
    while i < columns.len()
        invariant
            i <= columns.len(),
            out@ == old(out)@ + listed(columns@, form, separator@, i as int),
        decreases columns.len() - i,
    {
        if i > 0 {
            out.append(separator);
        }
        push_piece(out, form, &columns[i]);
        assert(out@ =~= old(out)@ + listed(columns@, form, separator@, i + 1));
        i += 1;
    }
}

/// Appends the condition that selects the row with a key.
fn push_key_condition(out: &mut String, columns: &Vec<Column>)
    ensures
        final(out)@ == old(out)@ + key_condition(columns@),
{
    out.append(" WHERE ");
    let keys = select_columns(columns, true);
    push_list(out, &keys, Form::Pair, " AND ");
    assert(final(out)@ =~= old(out)@ + key_condition(columns@));
}

/// The text of the statement that carries out an operation on a record
/// type.
pub fn statement_text(record_type: RecordType, operation: &Operation) -> (out: String)
    ensures
        out@ == planned_text(record_type, operation@),
{
    let described = schema(record_type);
    match operation {
        Operation::Create(_) => {
            let mut out = String::from_str("INSERT INTO ");
            out.append(described.table);
            out.append(" (");
            push_list(&mut out, &described.columns, Form::Name, ", ");
            out.append(") VALUES (");
            push_list(&mut out, &described.columns, Form::Mark, ", ");
            out.append(")");
            assert(out@ =~= insert_text(record_type));
            out
        },
        Operation::ReadAll => {
            let mut out = String::from_str("SELECT * FROM ");
            out.append(described.table);
            out.append(" LIMIT ");
            push_decimal_digits(&mut out, LISTING_LIMIT as u32);
            assert(out@ =~= listing_text(record_type));
            out
        },
        Operation::Read(_) => {
            let mut out = String::from_str("SELECT * FROM ");
            out.append(described.table);
            push_key_condition(&mut out, &described.columns);
            assert(out@ =~= select_text(record_type));
            out
        },
        Operation::Update(_, _) => {
            let mut out = String::from_str("UPDATE ");
            out.append(described.table);
            out.append(" SET ");
            let rest = select_columns(&described.columns, false);
            push_list(&mut out, &rest, Form::Pair, ", ");
            push_key_condition(&mut out, &described.columns);
            assert(out@ =~= update_text(record_type));
            out
        },
        Operation::Delete(_) => {
            let mut out = String::from_str("DELETE FROM ");
            out.append(described.table);
            push_key_condition(&mut out, &described.columns);
            assert(out@ =~= delete_text(record_type));
            out
        },
    }
}

/// The statement that carries out an operation on a record type.
pub fn plan(record_type: RecordType, operation: &Operation) -> (out: Statement)
    requires
        operation_conforms(columns_of(record_type), operation@),
    ensures
        out.text@ == planned_text(record_type, operation@),
        views(out.parameters@) == planned_parameters(record_type, operation@),
{
    let text = statement_text(record_type, operation);
    let parameters = match operation {
        Operation::Create(record) => duplicate_values(&record.values),
        Operation::ReadAll => {
            let none: Vec<Value> = Vec::new();
            assert(views(none@) =~= Seq::empty());
            none
        },
        Operation::Read(key) => duplicate_values(&key.values),
        Operation::Update(key, record) => {
            let described = schema(record_type);
            let mut bound = choose_values(&described.columns, &record.values, false);
            let ghost rest = views(bound@);
            let mut tail = duplicate_values(&key.values);
            bound.append(&mut tail);
            assert(views(bound@) =~= rest + views(key.values@));
            bound
        },
        Operation::Delete(key) => duplicate_values(&key.values),
    };
    Statement { text, parameters }
}

} // verus!
