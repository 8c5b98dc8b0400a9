//! The canonical text of records: one object per record, its members in
//! column order, with nothing between the tokens.

use crate::calendar::date_text;
use crate::json::{quote, quoted};
use crate::record::{Record, Value, ValueView};
use crate::schema::Column;
use crate::text::{decimal_text, push_decimal};
use vstd::prelude::*;

verus! {

/// The text of one value: a decimal numeral, a quoted string, a date as a
/// quoted string, or `null`.
pub open spec fn value_text(value: ValueView) -> Seq<char> {
    match value {
        ValueView::Int(n) => decimal_text(n),
        ValueView::Text(text) => quoted(text),
        ValueView::Day(date) => quoted(date_text(date.0, date.1, date.2)),
        ValueView::Null => "null"@,
    }
}

/// One member of an object: the quoted name of the column, a colon and the
/// value.
pub open spec fn member_text(column: Column, value: ValueView) -> Seq<char> {
    quoted(column.name@) + ":"@ + value_text(value)
}

/// The first `upto` members of a record, with a comma between each two.
pub open spec fn members_text(columns: Seq<Column>, record: Seq<ValueView>, upto: int) -> Seq<
    char,
>
    decreases upto,
{
    if upto <= 0 {
        Seq::empty()
    } else if upto == 1 {
        member_text(columns[0], record[0])
    } else {
        members_text(columns, record, upto - 1) + ","@ + member_text(
            columns[upto - 1],
            record[upto - 1],
        )
    }
}

/// The text of a record: its members in column order between braces.
pub open spec fn record_text(columns: Seq<Column>, record: Seq<ValueView>) -> Seq<char> {
    "{"@ + members_text(columns, record, columns.len() as int) + "}"@
}

/// The first `upto` records of a list, with a comma between each two.
pub open spec fn records_text(columns: Seq<Column>, records: Seq<Seq<ValueView>>, upto: int) -> Seq<
    char,
>
    decreases upto,
{
    if upto <= 0 {
        Seq::empty()
    } else if upto == 1 {
        record_text(columns, records[0])
    } else {
        records_text(columns, records, upto - 1) + ","@ + record_text(columns, records[upto - 1])
    }
}

/// The text of a list of records: the records in order between brackets.
pub open spec fn list_text(columns: Seq<Column>, records: Seq<Seq<ValueView>>) -> Seq<char> {
    "["@ + records_text(columns, records, records.len() as int) + "]"@
}

/// The records of a list as contracts speak of them.
pub open spec fn record_views(records: Seq<Record>) -> Seq<Seq<ValueView>> {
    Seq::new(records.len(), |i: int| records[i]@)
}

/// Appends the text of one value.
pub fn push_value(out: &mut String, value: &Value)
    ensures
        final(out)@ == old(out)@ + value_text(value@),
{
    match value {
        Value::Int(n) => {
            push_decimal(out, *n);
        },
        Value::Text(text) => {
            let literal = quote(text.as_str());
            out.append(literal.as_str());
        },
        Value::Day(date) => {
            let plain = date.to_text();
            let literal = quote(plain.as_str());
            out.append(literal.as_str());
        },
        Value::Null => {
            out.append("null");
        },
    }
}

/// Appends the text of a record.
pub fn push_record(out: &mut String, columns: &Vec<Column>, record: &Record)
    requires
        record.values.len() == columns.len(),
    ensures
        final(out)@ == old(out)@ + record_text(columns@, record@),
{
    out.append("{");
    let ghost start = out@;
    let mut i: usize = 0;
    assert(out@ =~= start + members_text(columns@, record@, 0));
    while i < columns.len()
        invariant
            i <= columns.len(),
            record.values.len() == columns.len(),
            out@ == start + members_text(columns@, record@, i as int),
        decreases columns.len() - i,
    {
        if i > 0 {
            out.append(",");
        }
        let name = quote(columns[i].name);
        out.append(name.as_str());
        out.append(":");
        push_value(out, &record.values[i]);
        assert(record@[i as int] == record.values[i as int]@);
        assert(out@ =~= start + members_text(columns@, record@, i + 1));
        i += 1;
    }
    out.append("}");
    assert(final(out)@ =~= old(out)@ + record_text(columns@, record@));
}

/// The canonical text of a record.
pub fn record_to_text(columns: &Vec<Column>, record: &Record) -> (out: String)
    requires
        record.values.len() == columns.len(),
    ensures
        out@ == record_text(columns@, record@),
{
    let mut out = String::new();
    push_record(&mut out, columns, record);
    assert(out@ =~= record_text(columns@, record@));
    out
}

/// The canonical text of a list of records.
pub fn list_to_text(columns: &Vec<Column>, records: &Vec<Record>) -> (out: String)
    requires
        forall|i: int| 0 <= i < records.len() ==> (#[trigger] records[i]).values.len() == columns.len(),
    ensures
        out@ == list_text(columns@, record_views(records@)),
{
    let mut out = String::from_str("[");
    let ghost rows = record_views(records@);
    let mut i: usize = 0;
    assert(out@ =~= "["@ + records_text(columns@, rows, 0));
    while i < records.len()
        invariant
            i <= records.len(),
            rows == record_views(records@),
            forall|j: int|
                0 <= j < records.len() ==> (#[trigger] records[j]).values.len() == columns.len(),
            out@ == "["@ + records_text(columns@, rows, i as int),
        decreases records.len() - i,
    {
        if i > 0 {
            out.append(",");
        }
        push_record(&mut out, columns, &records[i]);
        assert(rows[i as int] == records[i as int]@);
        assert(out@ =~= "["@ + records_text(columns@, rows, i + 1));
        i += 1;
    }
    out.append("]");
    assert(out@ =~= list_text(columns@, rows));
    out
}

} // verus!
