//! Field values, records and keys, and how a key is read from a record and
//! pinned onto one.

use crate::calendar::Date;
use crate::schema::{chosen, key_columns, key_rank, Column, FieldKind};
use vstd::prelude::*;

verus! {

/// The value of one field.
#[derive(Debug, PartialEq, Eq)]
pub enum Value {
    /// An integer.
    Int(i32),
    /// A text.
    Text(String),
    /// A calendar date.
    Day(Date),
    /// No value.
    Null,
}

/// A field value as contracts speak of it.
pub enum ValueView {
    Int(int),
    Text(Seq<char>),
    Day((int, int, int)),
    Null,
}

impl View for Value {
    type V = ValueView;

    open spec fn view(&self) -> ValueView {
        match *self {
            Value::Int(n) => ValueView::Int(n as int),
            Value::Text(text) => ValueView::Text(text@),
            Value::Day(date) => ValueView::Day(date@),
            Value::Null => ValueView::Null,
        }
    }
}

/// The values of a row as contracts speak of them.
pub open spec fn views(values: Seq<Value>) -> Seq<ValueView> {
    Seq::new(values.len(), |i: int| values[i]@)
}

/// A record: one value for each column of its record type, in column order.
#[derive(Debug, PartialEq, Eq)]
pub struct Record {
    pub values: Vec<Value>,
}

/// A key: one value for each key column of a record type, in column order.
#[derive(Debug, PartialEq, Eq)]
pub struct Key {
    pub values: Vec<Value>,
}

impl View for Record {
    type V = Seq<ValueView>;

    open spec fn view(&self) -> Seq<ValueView> {
        views(self.values@)
    }
}

impl View for Key {
    type V = Seq<ValueView>;

    open spec fn view(&self) -> Seq<ValueView> {
        views(self.values@)
    }
}

/// Whether a value is one that a column of the given kind holds.
pub open spec fn fits(kind: FieldKind, value: ValueView) -> bool {
    match kind {
        FieldKind::Integer => value is Int,
        FieldKind::Amount => value is Int && value->Int_0 >= 0,
        FieldKind::Text => value is Text,
        FieldKind::Day => value is Day,
        FieldKind::OptionalDay => value is Day || value is Null,
    }
}

/// Whether `values` holds one fitting value for each of `columns`.
pub open spec fn conforms(columns: Seq<Column>, values: Seq<ValueView>) -> bool {
    &&& values.len() == columns.len()
    &&& forall|i: int| 0 <= i < columns.len() ==> fits(columns[i].kind, #[trigger] values[i])
}

/// Whether `key` holds one fitting value for each key column of `columns`.
pub open spec fn key_conforms(columns: Seq<Column>, key: Seq<ValueView>) -> bool {
    conforms(key_columns(columns), key)
}

/// The key of a record: its values in the key columns, in order.
pub open spec fn key_of(columns: Seq<Column>, record: Seq<ValueView>) -> Seq<ValueView> {
    chosen(columns, record, true, columns.len() as int)
}

/// A record's values outside the key, in order.
pub open spec fn rest_of(columns: Seq<Column>, record: Seq<ValueView>) -> Seq<ValueView> {
    chosen(columns, record, false, columns.len() as int)
}

/// A record with `key` written over its key columns: every other value
/// stays.
pub open spec fn pinned(columns: Seq<Column>, key: Seq<ValueView>, record: Seq<ValueView>) -> Seq<
    ValueView,
> {
    Seq::new(
        columns.len(),
        |i: int|
            if columns[i].key {
                key[key_rank(columns, i)]
            } else {
                record[i]
            },
    )
}

/// Among the first `upto` columns there are at most `upto` key columns, and
/// no more than among all of them.
pub proof fn lemma_chosen_len<T>(columns: Seq<Column>, items: Seq<T>, key: bool, upto: int)
    requires
        0 <= upto <= columns.len(),
    ensures
        chosen(columns, items, key, upto).len() <= upto,
        chosen(columns, items, key, upto).len() <= chosen(
            columns,
            items,
            key,
            columns.len() as int,
        ).len(),
        chosen(columns, items, key, upto).len() == chosen(columns, columns, key, upto).len(),
    decreases columns.len() - upto,
{
    lemma_chosen_count(columns, items, key, upto);
    if upto < columns.len() {
        lemma_chosen_len(columns, items, key, upto + 1);
    }
}

/// How many items are chosen depends on the columns alone.
pub proof fn lemma_chosen_count<T>(columns: Seq<Column>, items: Seq<T>, key: bool, upto: int)
    requires
        0 <= upto <= columns.len(),
    ensures
        chosen(columns, items, key, upto).len() <= upto,
        chosen(columns, items, key, upto).len() == chosen(columns, columns, key, upto).len(),
    decreases upto,
{
    if upto > 0 {
        lemma_chosen_count(columns, items, key, upto - 1);
    }
}

/// The key of a pinned record is the key it was pinned with, up to any
/// column.
proof fn lemma_pinned_key_upto(
    columns: Seq<Column>,
    key: Seq<ValueView>,
    record: Seq<ValueView>,
    upto: int,
)
    requires
        0 <= upto <= columns.len(),
        key.len() == key_columns(columns).len(),
    ensures
        chosen(columns, pinned(columns, key, record), true, upto) == key.take(
            key_rank(columns, upto),
        ),
    decreases upto,
{
    lemma_chosen_len(columns, columns, true, upto);
    if upto > 0 {
        lemma_pinned_key_upto(columns, key, record, upto - 1);
        lemma_chosen_count(columns, pinned(columns, key, record), true, upto - 1);
        lemma_chosen_len(columns, columns, true, upto - 1);
        if columns[upto - 1].key {
            let rank = key_rank(columns, upto - 1);
            assert(key.take(rank).push(key[rank]) =~= key.take(rank + 1));
        }
    } else {
        assert(key.take(0) =~= Seq::<ValueView>::empty());
    }
}

/// Pinning decides the key: whatever a record held in its key columns, the
/// key of the pinned record is the key it was pinned with.
pub proof fn lemma_pinned_key(columns: Seq<Column>, key: Seq<ValueView>, record: Seq<ValueView>)
    requires
        key.len() == key_columns(columns).len(),
    ensures
        key_of(columns, pinned(columns, key, record)) == key,
{
    lemma_pinned_key_upto(columns, key, record, columns.len() as int);
    assert(key.take(key.len() as int) =~= key);
}

/// Pinning leaves every value outside the key as it was.
pub proof fn lemma_pinned_rest(columns: Seq<Column>, key: Seq<ValueView>, record: Seq<ValueView>)
    requires
        record.len() == columns.len(),
    ensures
        rest_of(columns, pinned(columns, key, record)) == rest_of(columns, record),
{
    lemma_pinned_rest_upto(columns, key, record, columns.len() as int);
}

proof fn lemma_pinned_rest_upto(
    columns: Seq<Column>,
    key: Seq<ValueView>,
    record: Seq<ValueView>,
    upto: int,
)
    requires
        0 <= upto <= columns.len(),
        record.len() == columns.len(),
    ensures
        chosen(columns, pinned(columns, key, record), false, upto) == chosen(
            columns,
            record,
            false,
            upto,
        ),
    decreases upto,
{
    if upto > 0 {
        lemma_pinned_rest_upto(columns, key, record, upto - 1);
    }
}

/// The key column of a given rank is that one of the key columns.
pub proof fn lemma_key_column_at(columns: Seq<Column>, index: int, upto: int)
    requires
        0 <= index < upto <= columns.len(),
        columns[index].key,
    ensures
        key_rank(columns, index) < chosen(columns, columns, true, upto).len(),
        chosen(columns, columns, true, upto)[key_rank(columns, index)] == columns[index],
    decreases upto,
{
    lemma_chosen_count(columns, columns, true, index);
    if upto - 1 > index {
        lemma_key_column_at(columns, index, upto - 1);
    }
}

/// A record pinned with a key of its columns is a record of its columns.
pub proof fn lemma_pinned_conforms(
    columns: Seq<Column>,
    key: Seq<ValueView>,
    record: Seq<ValueView>,
)
    requires
        conforms(columns, record),
        key_conforms(columns, key),
    ensures
        conforms(columns, pinned(columns, key, record)),
{
    let out = pinned(columns, key, record);
    assert forall|i: int| 0 <= i < columns.len() implies fits(columns[i].kind, #[trigger] out[i]) by {
        if columns[i].key {
            lemma_key_column_at(columns, i, columns.len() as int);
            assert(fits(key_columns(columns)[key_rank(columns, i)].kind, key[key_rank(columns, i)]));
        } else {
            assert(fits(columns[i].kind, record[i]));
        }
    }
}

/// The key of a record of some columns is a key of those columns.
pub proof fn lemma_key_of_conforms(columns: Seq<Column>, record: Seq<ValueView>)
    requires
        conforms(columns, record),
    ensures
        key_conforms(columns, key_of(columns, record)),
{
    lemma_chosen_conforms(columns, record, columns.len() as int);
}

proof fn lemma_chosen_conforms(columns: Seq<Column>, record: Seq<ValueView>, upto: int)
    requires
        conforms(columns, record),
        0 <= upto <= columns.len(),
    ensures
        conforms(chosen(columns, columns, true, upto), chosen(columns, record, true, upto)),
    decreases upto,
{
    if upto > 0 {
        lemma_chosen_conforms(columns, record, upto - 1);
        assert(fits(columns[upto - 1].kind, record[upto - 1]));
    }
}

impl Value {
    /// A copy of the value.
    pub fn duplicate(&self) -> (out: Value)
        ensures
            out@ == self@,
    {
        match self {
            Value::Int(n) => Value::Int(*n),
            Value::Text(text) => Value::Text(text.clone()),
            Value::Day(date) => Value::Day(*date),
            Value::Null => Value::Null,
        }
    }

    /// Whether the value is one that a column of the given kind holds.
    pub fn fits(&self, kind: FieldKind) -> (out: bool)
        ensures
            out == fits(kind, self@),
    {
        match kind {
            FieldKind::Integer => matches!(self, Value::Int(_)),
            FieldKind::Amount => match self {
                Value::Int(n) => *n >= 0,
                _ => false,
            },
            FieldKind::Text => matches!(self, Value::Text(_)),
            FieldKind::Day => matches!(self, Value::Day(_)),
            FieldKind::OptionalDay => matches!(self, Value::Day(_) | Value::Null),
        }
    }

    /// Whether two values are the same.
    pub fn same(&self, other: &Value) -> (out: bool)
        ensures
            out == (self@ == other@),
    {
        match (self, other) {
            (Value::Int(a), Value::Int(b)) => *a == *b,
            (Value::Text(a), Value::Text(b)) => *a == *b,
            (Value::Day(a), Value::Day(b)) => a.year() == b.year() && a.month() == b.month()
                && a.day() == b.day(),
            (Value::Null, Value::Null) => true,
            _ => false,
        }
    }
}

/// A copy of a row of values.
pub fn duplicate_values(values: &Vec<Value>) -> (out: Vec<Value>)
    ensures
        views(out@) == views(values@),
{
    let mut out: Vec<Value> = Vec::new();
    let mut i: usize = 0;
    while i < values.len()
        invariant
            i <= values.len(),
            out.len() == i,
            forall|j: int| 0 <= j < i ==> out[j]@ == values[j]@,
        decreases values.len() - i,
    {
        out.push(values[i].duplicate());
        i += 1;
    }
    assert(views(out@) =~= views(values@));
    out
}

/// Whether two rows hold the same values.
pub fn same_values(left: &Vec<Value>, right: &Vec<Value>) -> (out: bool)
    ensures
        out == (views(left@) == views(right@)),
{
    if left.len() != right.len() {
        assert(views(left@).len() != views(right@).len());
        return false;
    }
    let mut i: usize = 0;
    while i < left.len()
        invariant
            i <= left.len(),
            left.len() == right.len(),
            forall|j: int| 0 <= j < i ==> left[j]@ == right[j]@,
        decreases left.len() - i,
    {
        if !left[i].same(&right[i]) {
            assert(views(left@)[i as int] != views(right@)[i as int]);
            return false;
        }
        i += 1;
    }
    assert(views(left@) =~= views(right@));
    true
}

/// Whether a row holds one fitting value for each column.
pub fn values_conform(columns: &Vec<Column>, values: &Vec<Value>) -> (out: bool)
    ensures
        out == conforms(columns@, views(values@)),
{
    if values.len() != columns.len() {
        return false;
    }
    let mut i: usize = 0;
    while i < columns.len()
        invariant
            i <= columns.len(),
            values.len() == columns.len(),
            forall|j: int| 0 <= j < i ==> fits(columns[j].kind, #[trigger] views(values@)[j]),
        decreases columns.len() - i,
    {
        if !values[i].fits(columns[i].kind) {
            assert(!fits(columns[i as int].kind, views(values@)[i as int]));
            return false;
        }
        i += 1;
    }
    true
}

/// The values of a row in the key columns (`key` true) or outside them
/// (`key` false), in order.
pub fn choose_values(columns: &Vec<Column>, values: &Vec<Value>, key: bool) -> (out: Vec<Value>)
    requires
        values.len() == columns.len(),
    ensures
        views(out@) == chosen(columns@, views(values@), key, columns.len() as int),
{
    let mut out: Vec<Value> = Vec::new();
    let mut i: usize = 0;
    while i < columns.len()
        invariant
            i <= columns.len(),
            values.len() == columns.len(),
            views(out@) == chosen(columns@, views(values@), key, i as int),
        decreases columns.len() - i,
    {
        if columns[i].key == key {
            let ghost before = views(out@);
            out.push(values[i].duplicate());
            assert(views(out@) =~= before.push(views(values@)[i as int]));
        }
        i += 1;
    }
    out
}

/// A row with `key` written over its key columns.
pub fn pin_values(columns: &Vec<Column>, key: &Vec<Value>, values: &Vec<Value>) -> (out: Vec<Value>)
    requires
        values.len() == columns.len(),
        key.len() == key_columns(columns@).len(),
    ensures
        views(out@) == pinned(columns@, views(key@), views(values@)),
{
    let mut out: Vec<Value> = Vec::new();
    let mut i: usize = 0;
    let mut rank: usize = 0;
    while i < columns.len()
        invariant
            i <= columns.len(),
            values.len() == columns.len(),
            key.len() == key_columns(columns@).len(),
            rank == key_rank(columns@, i as int),
            out.len() == i,
            forall|j: int|
                0 <= j < i ==> out[j]@ == #[trigger] pinned(
                    columns@,
                    views(key@),
                    views(values@),
                )[j],
        decreases columns.len() - i,
    {
        proof {
            lemma_chosen_len(columns@, columns@, true, i as int);
            lemma_chosen_len(columns@, columns@, true, i + 1);
        }
        if columns[i].key {
            out.push(key[rank].duplicate());
            rank += 1;
        } else {
            out.push(values[i].duplicate());
        }
        i += 1;
    }
    assert(views(out@) =~= pinned(columns@, views(key@), views(values@)));
    out
}

} // verus!
