//! What a store does with the six operations, as a model on rows, and a
//! store in memory that behaves so.

use crate::canonical::record_views;
use crate::decoder::{operation_conforms, Operation, OperationView};
use crate::failure::FailureView;
use crate::record::{
    choose_values, conforms, duplicate_values, key_of, lemma_key_of_conforms,
    lemma_pinned_conforms, lemma_pinned_key, pin_values, pinned, same_values, Record, Value,
    ValueView, views,
};
use crate::repository::{
    all_conform, concluded, listed_rows, ReplyView, StoreOutcome, StoreOutcomeView,
};
use crate::schema::{columns_of, schema, Column, RecordType, LISTING_LIMIT};
use vstd::prelude::*;

verus! {

/// The first row at or after `from` that has the key, if there is one.
pub open spec fn first_with_key(
    columns: Seq<Column>,
    rows: Seq<Seq<ValueView>>,
    key: Seq<ValueView>,
    from: int,
) -> Option<int>
    decreases rows.len() - from,
{
    if from < 0 || from >= rows.len() {
        None
    } else if key_of(columns, rows[from]) == key {
        Some(from)
    } else {
        first_with_key(columns, rows, key, from + 1)
    }
}

/// Where the row with a key stands, if the rows hold one.
pub open spec fn position(columns: Seq<Column>, rows: Seq<Seq<ValueView>>, key: Seq<ValueView>)
    -> Option<int> {
    first_with_key(columns, rows, key, 0)
}

/// Whether no two rows have the same key.
pub open spec fn distinct_keys(columns: Seq<Column>, rows: Seq<Seq<ValueView>>) -> bool {
    forall|i: int, j: int|
        0 <= i < j < rows.len() ==> key_of(columns, #[trigger] rows[i]) != key_of(
            columns,
            #[trigger] rows[j],
        )
}

/// Whether the rows are what a table of a record type can hold: records of
/// its columns, no two with the same key.
pub open spec fn is_table(record_type: RecordType, rows: Seq<Seq<ValueView>>) -> bool {
    all_conform(columns_of(record_type), rows) && distinct_keys(columns_of(record_type), rows)
}

/// How a store with the given rows answers an operation. It refuses to
/// insert a record whose key it holds already. It lists its first rows up
/// to the listing limit, in its own order. It reads the row with a key, or
/// no row. It executes an update or a deletion whether or not it holds a
/// row with the key.
pub open spec fn store_answer(
    record_type: RecordType,
    rows: Seq<Seq<ValueView>>,
    operation: OperationView,
) -> StoreOutcomeView {
    let columns = columns_of(record_type);
    match operation {
        OperationView::Create(record) => if position(columns, rows, key_of(columns, record))
            is Some {
            StoreOutcomeView::Failed
        } else {
            StoreOutcomeView::Executed
        },
        OperationView::ReadAll => StoreOutcomeView::Rows(listed_rows(rows)),
        OperationView::Read(key) => match position(columns, rows, key) {
            Some(at) => StoreOutcomeView::Rows(seq![rows[at]]),
            None => StoreOutcomeView::Rows(Seq::empty()),
        },
        OperationView::Update(_, _) => StoreOutcomeView::Executed,
        OperationView::Delete(_) => StoreOutcomeView::Executed,
    }
}

/// The rows of a store after an operation. An insertion adds the record
/// behind the others. An update writes the record, pinned with the key,
/// over the row with the key. A deletion takes the row with the key out.
/// Nothing else changes the rows.
pub open spec fn store_after(
    record_type: RecordType,
    rows: Seq<Seq<ValueView>>,
    operation: OperationView,
) -> Seq<Seq<ValueView>> {
    let columns = columns_of(record_type);
    match operation {
        OperationView::Create(record) => if position(columns, rows, key_of(columns, record))
            is Some {
            rows
        } else {
            rows.push(record)
        },
        OperationView::ReadAll => rows,
        OperationView::Read(_) => rows,
        OperationView::Update(key, record) => match position(columns, rows, key) {
            Some(at) => rows.update(at, pinned(columns, key, record)),
            None => rows,
        },
        OperationView::Delete(key) => match position(columns, rows, key) {
            Some(at) => rows.remove(at),
            None => rows,
        },
    }
}

/// What a search for a key finds: the first row with the key, or that no
/// row from the start of the search on has it.
pub proof fn lemma_first_with_key(
    columns: Seq<Column>,
    rows: Seq<Seq<ValueView>>,
    key: Seq<ValueView>,
    from: int,
)
    requires
        0 <= from,
    ensures
        match first_with_key(columns, rows, key, from) {
            Some(at) => from <= at < rows.len() && key_of(columns, rows[at]) == key,
            None => forall|j: int| from <= j < rows.len() ==> key_of(columns, #[trigger] rows[j]) != key,
        },
    decreases rows.len() - from,
{
    if from < rows.len() && key_of(columns, rows[from]) != key {
        lemma_first_with_key(columns, rows, key, from + 1);
    }
}

/// A search finds a row where one has the key.
pub proof fn lemma_found_where_held(
    columns: Seq<Column>,
    rows: Seq<Seq<ValueView>>,
    key: Seq<ValueView>,
    from: int,
    at: int,
)
    requires
        0 <= from <= at < rows.len(),
        key_of(columns, rows[at]) == key,
    ensures
        first_with_key(columns, rows, key, from) is Some,
        first_with_key(columns, rows, key, from)->0 <= at,
    decreases rows.len() - from,
{
    if key_of(columns, rows[from]) != key {
        lemma_found_where_held(columns, rows, key, from + 1, at);
    }
}

/// Every operation leaves a table a table.
pub proof fn lemma_table_stays(
    record_type: RecordType,
    rows: Seq<Seq<ValueView>>,
    operation: OperationView,
)
    requires
        is_table(record_type, rows),
        operation_conforms(columns_of(record_type), operation),
    ensures
        is_table(record_type, store_after(record_type, rows, operation)),
{
    let columns = columns_of(record_type);
    let after = store_after(record_type, rows, operation);
    match operation {
        OperationView::Create(record) => {
            lemma_first_with_key(columns, rows, key_of(columns, record), 0);
        },
        OperationView::Update(key, record) => {
            lemma_first_with_key(columns, rows, key, 0);
            lemma_pinned_conforms(columns, key, record);
            lemma_pinned_key(columns, key, record);
        },
        OperationView::Delete(key) => {
            lemma_first_with_key(columns, rows, key, 0);
            if position(columns, rows, key) is Some {
                let at = position(columns, rows, key)->0;
                assert forall|i: int| 0 <= i < after.len() implies conforms(
                    columns,
                    #[trigger] after[i],
                ) by {
                    if i < at {
                        assert(after[i] == rows[i]);
                    } else {
                        assert(after[i] == rows[i + 1]);
                    }
                }
                assert forall|i: int, j: int| 0 <= i < j < after.len() implies key_of(
                    columns,
                    #[trigger] after[i],
                ) != key_of(columns, #[trigger] after[j]) by {
                    let from_i = if i < at {
                        i
                    } else {
                        i + 1
                    };
                    let from_j = if j < at {
                        j
                    } else {
                        j + 1
                    };
                    assert(after[i] == rows[from_i]);
                    assert(after[j] == rows[from_j]);
                }
            }
        },
        _ => {},
    }
}

/// A record that was created is read back as it was given: where a table
/// holds no row with the record's key, the creation is served, and a read
/// of the record's key is then served with the record.
pub proof fn lemma_create_then_read(
    record_type: RecordType,
    rows: Seq<Seq<ValueView>>,
    record: Seq<ValueView>,
)
    requires
        is_table(record_type, rows),
        conforms(columns_of(record_type), record),
        position(columns_of(record_type), rows, key_of(columns_of(record_type), record)) is None,
    ensures
        operation_conforms(
            columns_of(record_type),
            OperationView::Read(key_of(columns_of(record_type), record)),
        ),
        concluded(
            record_type,
            OperationView::Create(record),
            store_answer(record_type, rows, OperationView::Create(record)),
        ) == Ok::<ReplyView, FailureView>(ReplyView::One(record)),
        concluded(
            record_type,
            OperationView::Read(key_of(columns_of(record_type), record)),
            store_answer(
                record_type,
                store_after(record_type, rows, OperationView::Create(record)),
                OperationView::Read(key_of(columns_of(record_type), record)),
            ),
        ) == Ok::<ReplyView, FailureView>(ReplyView::One(record)),
{
    let columns = columns_of(record_type);
    let key = key_of(columns, record);
    let after = rows.push(record);
    lemma_key_of_conforms(columns, record);
    lemma_first_with_key(columns, rows, key, 0);
    lemma_found_where_held(columns, after, key, 0, rows.len() as int);
    lemma_first_with_key(columns, after, key, 0);
    let at = position(columns, after, key)->0;
    if at < rows.len() {
        assert(after[at] == rows[at]);
    }
}

/// A record that was deleted is not found: after the deletion of a key
/// from a table, a read of that key is not found.
pub proof fn lemma_delete_then_read(
    record_type: RecordType,
    rows: Seq<Seq<ValueView>>,
    key: Seq<ValueView>,
)
    requires
        is_table(record_type, rows),
    ensures
        concluded(
            record_type,
            OperationView::Read(key),
            store_answer(
                record_type,
                store_after(record_type, rows, OperationView::Delete(key)),
                OperationView::Read(key),
            ),
        ) == Err::<ReplyView, FailureView>(FailureView::NotFound),
{
    let columns = columns_of(record_type);
    let after = store_after(record_type, rows, OperationView::Delete(key));
    lemma_first_with_key(columns, rows, key, 0);
    lemma_first_with_key(columns, after, key, 0);
    if position(columns, after, key) is Some {
        let found = position(columns, after, key)->0;
        if position(columns, rows, key) is Some {
            let at = position(columns, rows, key)->0;
            let origin = if found < at {
                found
            } else {
                found + 1
            };
            assert(after[found] == rows[origin]);
            assert(key_of(columns, rows[origin]) == key_of(columns, rows[at]));
            if origin < at {
                assert(key_of(columns, rows[origin]) != key_of(columns, rows[at]));
            } else {
                assert(key_of(columns, rows[at]) != key_of(columns, rows[origin]));
            }
        }
    }
}

/// A record that was updated is read back as it was written: after the
/// update of a key that a table holds, a read of that key is served with
/// the record of the request, pinned with the key.
pub proof fn lemma_update_then_read(
    record_type: RecordType,
    rows: Seq<Seq<ValueView>>,
    key: Seq<ValueView>,
    record: Seq<ValueView>,
)
    requires
        is_table(record_type, rows),
        operation_conforms(columns_of(record_type), OperationView::Update(key, record)),
        position(columns_of(record_type), rows, key) is Some,
    ensures
        concluded(
            record_type,
            OperationView::Read(key),
            store_answer(
                record_type,
                store_after(record_type, rows, OperationView::Update(key, record)),
                OperationView::Read(key),
            ),
        ) == Ok::<ReplyView, FailureView>(
            ReplyView::One(pinned(columns_of(record_type), key, record)),
        ),
{
    let columns = columns_of(record_type);
    let at = position(columns, rows, key)->0;
    let after = rows.update(at, pinned(columns, key, record));
    lemma_first_with_key(columns, rows, key, 0);
    lemma_pinned_key(columns, key, record);
    lemma_pinned_conforms(columns, key, record);
    lemma_found_where_held(columns, after, key, 0, at);
    lemma_first_with_key(columns, after, key, 0);
    let found = position(columns, after, key)->0;
    if found < at {
        assert(after[found] == rows[found]);
        assert(key_of(columns, rows[found]) != key_of(columns, rows[at]));
    }
}

/// An update or a deletion is served whether or not a row has the key: the
/// store executes it, and the caller gets the pinned record or the
/// confirmation.
pub proof fn lemma_unmatched_key_is_served(
    record_type: RecordType,
    rows: Seq<Seq<ValueView>>,
    key: Seq<ValueView>,
    record: Seq<ValueView>,
)
    ensures
        concluded(
            record_type,
            OperationView::Update(key, record),
            store_answer(record_type, rows, OperationView::Update(key, record)),
        ) is Ok,
        concluded(
            record_type,
            OperationView::Delete(key),
            store_answer(record_type, rows, OperationView::Delete(key)),
        ) is Ok,
{
}

/// A store that keeps its rows in memory.
pub struct MemoryStore {
    record_type: RecordType,
    rows: Vec<Record>,
}

impl View for MemoryStore {
    type V = Seq<Seq<ValueView>>;

    closed spec fn view(&self) -> Seq<Seq<ValueView>> {
        record_views(self.rows@)
    }
}

impl MemoryStore {
    /// Whether the rows are a table of the store's record type. Every
    /// store that `new` made and `execute` changed holds such rows.
    pub closed spec fn wf(&self) -> bool {
        is_table(self.record_type, record_views(self.rows@))
    }

    /// The record type whose rows the store holds.
    pub closed spec fn kind(&self) -> RecordType {
        self.record_type
    }

    /// The rows of a well-formed store are a table of its record type, so
    /// what holds of tables holds of the store.
    pub proof fn lemma_wf_is_table(&self)
        requires
            self.wf(),
        ensures
            is_table(self.kind(), self@),
    {
    }

    /// A store without rows.
    pub fn new(record_type: RecordType) -> (out: MemoryStore)
        ensures
            out.wf(),
            out.kind() == record_type,
            out@ == Seq::<Seq<ValueView>>::empty(),
    {
        let out = MemoryStore { record_type, rows: Vec::new() };
        assert(out@ =~= Seq::<Seq<ValueView>>::empty());
        out
    }

    /// The record type whose rows the store holds.
    pub fn record_type(&self) -> (out: RecordType)
        ensures
            out == self.kind(),
    {
        self.record_type
    }

    /// How many rows the store holds.
    pub fn len(&self) -> (out: usize)
        ensures
            out == self@.len(),
    {
        self.rows.len()
    }

    /// Where the row with a key stands.
    fn find(&self, columns: &Vec<Column>, key: &Vec<Value>) -> (out: Option<usize>)
        requires
            self.wf(),
            columns@ == columns_of(self.record_type),
        ensures
            out is Some == position(columns@, self@, views(key@)) is Some,
            out is Some ==> out->0 == position(columns@, self@, views(key@))->0,
            out is Some ==> out->0 < self.rows.len(),
    {
        let mut i: usize = 0;
        while i < self.rows.len()
            invariant
                i <= self.rows.len(),
                columns@ == columns_of(self.record_type),
                is_table(self.record_type, record_views(self.rows@)),
                position(columns@, self@, views(key@)) == first_with_key(
                    columns@,
                    self@,
                    views(key@),
                    i as int,
                ),
            decreases self.rows.len() - i,
        {
            assert(conforms(columns@, record_views(self.rows@)[i as int]));
            let own = choose_values(columns, &self.rows[i].values, true);
            if same_values(&own, key) {
                return Some(i);
            }
            i += 1;
        }
        None
    }

    /// Carries out an operation as `store_answer` and `store_after` say.
    pub fn execute(&mut self, operation: &Operation) -> (out: StoreOutcome)
        requires
            old(self).wf(),
            operation_conforms(columns_of(old(self).kind()), operation@),
        ensures
            final(self).wf(),
            final(self).kind() == old(self).kind(),
            out@ == store_answer(old(self).kind(), old(self)@, operation@),
            final(self)@ == store_after(old(self).kind(), old(self)@, operation@),
    {
        proof {
            lemma_table_stays(self.record_type, self@, operation@);
        }
        let described = schema(self.record_type);
        let ghost before = self@;
        match operation {
            Operation::Create(record) => {
                let key = choose_values(&described.columns, &record.values, true);
                match self.find(&described.columns, &key) {
                    Some(_) => StoreOutcome::Failed,
                    None => {
                        let row = Record { values: duplicate_values(&record.values) };
                        assert(row@ == record@);
                        self.rows.push(row);
                        assert(record_views(self.rows@) =~= before.push(record@));
                        StoreOutcome::Executed
                    },
                }
            },
            Operation::ReadAll => {
                let mut rows: Vec<Record> = Vec::new();
                let mut i: usize = 0;
                while i < self.rows.len() && i < LISTING_LIMIT
                    invariant
                        i <= self.rows.len(),
                        i <= LISTING_LIMIT,
                        rows.len() == i,
                        forall|j: int| 0 <= j < i ==> rows[j]@ == self.rows[j]@,
                    decreases self.rows.len() - i,
                {
                    rows.push(Record { values: duplicate_values(&self.rows[i].values) });
                    i += 1;
                }
                assert(record_views(rows@) =~= listed_rows(self@));
                StoreOutcome::Rows(rows)
            },
            Operation::Read(key) => {
                let mut rows: Vec<Record> = Vec::new();
                match self.find(&described.columns, &key.values) {
                    Some(at) => {
                        rows.push(Record { values: duplicate_values(&self.rows[at].values) });
                        assert(record_views(rows@) =~= seq![self@[at as int]]);
                    },
                    None => {
                        assert(record_views(rows@) =~= Seq::empty());
                    },
                }
                StoreOutcome::Rows(rows)
            },
            Operation::Update(key, record) => {
                match self.find(&described.columns, &key.values) {
                    Some(at) => {
                        let values = pin_values(&described.columns, &key.values, &record.values);
                        let row = Record { values };
                        self.rows.set(at, row);
                        assert(record_views(self.rows@) =~= before.update(
                            at as int,
                            pinned(described.columns@, key@, record@),
                        ));
                    },
                    None => {},
                }
                StoreOutcome::Executed
            },
            Operation::Delete(key) => {
                match self.find(&described.columns, &key.values) {
                    Some(at) => {
                        self.rows.remove(at);
                        assert(record_views(self.rows@) =~= before.remove(at as int));
                    },
                    None => {},
                }
                StoreOutcome::Executed
            },
        }
    }
}

} // verus!
