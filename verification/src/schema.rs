//! The six record types and what is fixed of each: its table, the name of
//! its entity in a request, its columns in order, and which of them form the
//! key.

use vstd::prelude::*;

verus! {

/// The most rows a listing returns.
pub const LISTING_LIMIT: usize = 10;

/// One of the six kinds of record.
#[derive(Clone, Copy, Debug, PartialEq, Eq, Structural)]
pub enum RecordType {
    /// An organizational unit, keyed by its code.
    OrgUnit,
    /// A member of staff, keyed by a number.
    Person,
    /// A person's membership in a unit from a start date on.
    UnitAssignment,
    /// A person's management of a unit from a start date on.
    ManagerAssignment,
    /// What a person is paid from a start date on.
    Compensation,
    /// A title a person holds from a start date on.
    Title,
}

/// What a column holds.
#[derive(Clone, Copy, Debug, PartialEq, Eq, Structural)]
pub enum FieldKind {
    /// An integer of 32 bits.
    Integer,
    /// An integer of 32 bits that is not negative.
    Amount,
    /// A text.
    Text,
    /// A calendar date.
    Day,
    /// A calendar date, or nothing.
    OptionalDay,
}

/// A column of a table.
#[derive(Clone, Copy, Debug)]
pub struct Column {
    /// The column's name in the table and in an entity.
    pub name: &'static str,
    /// The name under which a request gives the column's value as part of a
    /// key.
    pub parameter: &'static str,
    /// What the column holds.
    pub kind: FieldKind,
    /// Whether the column is part of the key.
    pub key: bool,
}

/// The description of a record type.
#[derive(Debug)]
pub struct Schema {
    /// The record type described.
    pub record_type: RecordType,
    /// The table's name.
    pub table: &'static str,
    /// The name of the request member that holds an entity.
    pub entity: &'static str,
    /// The text that confirms a deletion.
    pub confirmation: &'static str,
    /// The columns, in the order of the table.
    pub columns: Vec<Column>,
}

/// A column that is part of the key and is named alike in table and request.
pub open spec fn key_column(name: &'static str, kind: FieldKind) -> Column {
    Column { name, parameter: name, kind, key: true }
}

/// A column that is no part of the key.
pub open spec fn plain_column(name: &'static str, kind: FieldKind) -> Column {
    Column { name, parameter: name, kind, key: false }
}

/// The table of a record type.
pub open spec fn table_name(record_type: RecordType) -> &'static str {
    match record_type {
        RecordType::OrgUnit => "departments",
        RecordType::Person => "employees",
        RecordType::UnitAssignment => "dept_emp",
        RecordType::ManagerAssignment => "dept_manager",
        RecordType::Compensation => "salaries",
        RecordType::Title => "titles",
    }
}

/// The request member that holds an entity of a record type.
pub open spec fn entity_name(record_type: RecordType) -> &'static str {
    match record_type {
        RecordType::OrgUnit => "department",
        RecordType::Person => "employee",
        RecordType::UnitAssignment => "dept_emp",
        RecordType::ManagerAssignment => "dept_manager",
        RecordType::Compensation => "salary",
        RecordType::Title => "title",
    }
}

/// The text that confirms the deletion of a record of a record type.
pub open spec fn confirmation_text(record_type: RecordType) -> &'static str {
    match record_type {
        RecordType::OrgUnit => "Department deleted successfully",
        RecordType::Person => "Employee deleted successfully",
        RecordType::UnitAssignment => "DeptEmp deleted successfully",
        RecordType::ManagerAssignment => "DeptManager deleted successfully",
        RecordType::Compensation => "Salary deleted successfully",
        RecordType::Title => "Title deleted successfully",
    }
}

/// The columns of an assignment of a person to a unit.
pub open spec fn assignment_columns() -> Seq<Column> {
    seq![
        key_column("emp_no", FieldKind::Integer),
        key_column("dept_no", FieldKind::Text),
        key_column("from_date", FieldKind::Day),
        plain_column("to_date", FieldKind::Day),
    ]
}

/// The columns of a record type, in the order of its table.
pub open spec fn columns_of(record_type: RecordType) -> Seq<Column> {
    match record_type {
        RecordType::OrgUnit => seq![
            key_column("dept_no", FieldKind::Text),
            plain_column("dept_name", FieldKind::Text),
        ],
        RecordType::Person => seq![
            key_column("emp_no", FieldKind::Integer),
            plain_column("birth_date", FieldKind::Day),
            plain_column("first_name", FieldKind::Text),
            plain_column("last_name", FieldKind::Text),
            plain_column("gender", FieldKind::Text),
            plain_column("hire_date", FieldKind::Day),
        ],
        RecordType::UnitAssignment => assignment_columns(),
        RecordType::ManagerAssignment => assignment_columns(),
        RecordType::Compensation => seq![
            key_column("emp_no", FieldKind::Integer),
            plain_column("salary", FieldKind::Amount),
            key_column("from_date", FieldKind::Day),
            plain_column("to_date", FieldKind::Day),
        ],
        RecordType::Title => seq![
            key_column("emp_no", FieldKind::Integer),
            Column { name: "title", parameter: "title_name", kind: FieldKind::Text, key: true },
            key_column("from_date", FieldKind::Day),
            plain_column("to_date", FieldKind::OptionalDay),
        ],
    }
}

/// Of the first `upto` items, those whose column is a key column (`key`
/// true) or is none (`key` false), in order. `items` runs beside `columns`.
pub open spec fn chosen<T>(columns: Seq<Column>, items: Seq<T>, key: bool, upto: int) -> Seq<T>
    decreases upto,
{
    if upto <= 0 {
        Seq::empty()
    } else if columns[upto - 1].key == key {
        chosen(columns, items, key, upto - 1).push(items[upto - 1])
    } else {
        chosen(columns, items, key, upto - 1)
    }
}

/// The key columns, in order.
pub open spec fn key_columns(columns: Seq<Column>) -> Seq<Column> {
    chosen(columns, columns, true, columns.len() as int)
}

/// The columns outside the key, in order.
pub open spec fn value_columns(columns: Seq<Column>) -> Seq<Column> {
    chosen(columns, columns, false, columns.len() as int)
}

/// How many key columns stand before column `index`.
pub open spec fn key_rank(columns: Seq<Column>, index: int) -> int {
    chosen(columns, columns, true, index).len() as int
}

/// The columns that are key columns (`key` true) or are none (`key` false).
pub fn select_columns(columns: &Vec<Column>, key: bool) -> (out: Vec<Column>)
    ensures
        out@ == chosen(columns@, columns@, key, columns.len() as int),
{
    let mut out: Vec<Column> = Vec::new();
    let mut i: usize = 0;
    while i < columns.len()
        invariant
            i <= columns.len(),
            out@ == chosen(columns@, columns@, key, i as int),
        decreases columns.len() - i,
    {
        if columns[i].key == key {
            out.push(columns[i]);
        }
        i += 1;
    }
    out
}

fn key_of(name: &'static str, kind: FieldKind) -> (out: Column)
    ensures
        out == key_column(name, kind),
{
    Column { name, parameter: name, kind, key: true }
}

fn plain_of(name: &'static str, kind: FieldKind) -> (out: Column)
    ensures
        out == plain_column(name, kind),
{
    Column { name, parameter: name, kind, key: false }
}

fn assignment() -> (out: Vec<Column>)
    ensures
        out@ == assignment_columns(),
{
    let mut columns: Vec<Column> = Vec::new();
    columns.push(key_of("emp_no", FieldKind::Integer));
    columns.push(key_of("dept_no", FieldKind::Text));
    columns.push(key_of("from_date", FieldKind::Day));
    columns.push(plain_of("to_date", FieldKind::Day));
    assert(columns@ =~= assignment_columns());
    columns
}

/// The description of a record type.
pub fn schema(record_type: RecordType) -> (out: Schema)
    ensures
        out.record_type == record_type,
        out.table == table_name(record_type),
        out.entity == entity_name(record_type),
        out.confirmation == confirmation_text(record_type),
        out.columns@ == columns_of(record_type),
{
    let mut columns: Vec<Column> = Vec::new();
    match record_type {
        RecordType::OrgUnit => {
            columns.push(key_of("dept_no", FieldKind::Text));
            columns.push(plain_of("dept_name", FieldKind::Text));
            assert(columns@ =~= columns_of(record_type));
            Schema {
                record_type,
                table: "departments",
                entity: "department",
                confirmation: "Department deleted successfully",
                columns,
            }
        },
        RecordType::Person => {
            columns.push(key_of("emp_no", FieldKind::Integer));
            columns.push(plain_of("birth_date", FieldKind::Day));
            columns.push(plain_of("first_name", FieldKind::Text));
            columns.push(plain_of("last_name", FieldKind::Text));
            columns.push(plain_of("gender", FieldKind::Text));
            columns.push(plain_of("hire_date", FieldKind::Day));
            assert(columns@ =~= columns_of(record_type));
            Schema {
                record_type,
                table: "employees",
                entity: "employee",
                confirmation: "Employee deleted successfully",
                columns,
            }
        },
        RecordType::UnitAssignment => Schema {
            record_type,
            table: "dept_emp",
            entity: "dept_emp",
            confirmation: "DeptEmp deleted successfully",
            columns: assignment(),
        },
        RecordType::ManagerAssignment => Schema {
            record_type,
            table: "dept_manager",
            entity: "dept_manager",
            confirmation: "DeptManager deleted successfully",
            columns: assignment(),
        },
        RecordType::Compensation => {
            columns.push(key_of("emp_no", FieldKind::Integer));
            columns.push(plain_of("salary", FieldKind::Amount));
            columns.push(key_of("from_date", FieldKind::Day));
            columns.push(plain_of("to_date", FieldKind::Day));
            assert(columns@ =~= columns_of(record_type));
            Schema {
                record_type,
                table: "salaries",
                entity: "salary",
                confirmation: "Salary deleted successfully",
                columns,
            }
        },
        RecordType::Title => {
            columns.push(key_of("emp_no", FieldKind::Integer));
            columns.push(
                Column { name: "title", parameter: "title_name", kind: FieldKind::Text, key: true },
            );
            columns.push(key_of("from_date", FieldKind::Day));
            columns.push(plain_of("to_date", FieldKind::OptionalDay));
            assert(columns@ =~= columns_of(record_type));
            Schema {
                record_type,
                table: "titles",
                entity: "title",
                confirmation: "Title deleted successfully",
                columns,
            }
        },
    }
}

} // verus!
