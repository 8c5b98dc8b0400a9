//! What the answer of the store means for the caller of an operation.

use crate::canonical::record_views;
use crate::decoder::{operation_conforms, Operation, OperationView};
use crate::failure::{Failure, FailureView};
use crate::record::{
    conforms, lemma_pinned_conforms, pin_values, pinned, values_conform, Record, ValueView,
};
use crate::schema::{
    columns_of, confirmation_text, schema, Column, RecordType, LISTING_LIMIT,
};
use vstd::prelude::*;

verus! {

/// How the store answered a statement.
#[derive(Debug, PartialEq, Eq)]
pub enum StoreOutcome {
    /// It executed a statement that returns no rows.
    Executed,
    /// It executed a query and returned these rows.
    Rows(Vec<Record>),
    /// It reported an error.
    Failed,
}

/// An answer of the store as contracts speak of it.
pub enum StoreOutcomeView {
    Executed,
    Rows(Seq<Seq<ValueView>>),
    Failed,
}

impl View for StoreOutcome {
    type V = StoreOutcomeView;

    open spec fn view(&self) -> StoreOutcomeView {
        match *self {
            StoreOutcome::Executed => StoreOutcomeView::Executed,
            StoreOutcome::Rows(rows) => StoreOutcomeView::Rows(record_views(rows@)),
            StoreOutcome::Failed => StoreOutcomeView::Failed,
        }
    }
}

/// What a served operation hands back.
#[derive(Debug, PartialEq, Eq)]
pub enum Reply {
    /// One record.
    One(Record),
    /// A list of records.
    Many(Vec<Record>),
    /// The text that confirms a deletion.
    Confirmation(String),
}

/// A reply as contracts speak of it.
pub enum ReplyView {
    One(Seq<ValueView>),
    Many(Seq<Seq<ValueView>>),
    Confirmation(Seq<char>),
}

impl View for Reply {
    type V = ReplyView;

    open spec fn view(&self) -> ReplyView {
        match *self {
            Reply::One(record) => ReplyView::One(record@),
            Reply::Many(records) => ReplyView::Many(record_views(records@)),
            Reply::Confirmation(text) => ReplyView::Confirmation(text@),
        }
    }
}

/// The first rows of a listing, up to the listing limit.
pub open spec fn listed_rows(rows: Seq<Seq<ValueView>>) -> Seq<Seq<ValueView>> {
    if rows.len() <= LISTING_LIMIT {
        rows
    } else {
        rows.take(LISTING_LIMIT as int)
    }
}

/// Whether each of the rows is a record of the columns.
pub open spec fn all_conform(columns: Seq<Column>, rows: Seq<Seq<ValueView>>) -> bool {
    forall|i: int| 0 <= i < rows.len() ==> conforms(columns, #[trigger] rows[i])
}

/// Whether the records of a reply are records of the columns, and a list
/// is no longer than the listing limit.
pub open spec fn reply_conforms(columns: Seq<Column>, reply: ReplyView) -> bool {
    match reply {
        ReplyView::One(record) => conforms(columns, record),
        ReplyView::Many(records) => records.len() <= LISTING_LIMIT && all_conform(
            columns,
            records,
        ),
        ReplyView::Confirmation(_) => true,
    }
}

/// What the caller of an operation gets once the store has answered.
///
/// A creation hands back the record as it was given. A listing hands back
/// the rows that came, cut to the listing limit. A read hands back the
/// first row, and is not found where no row came. An update hands back the
/// record pinned with the key of the request. A deletion hands back a
/// confirmation. Update and deletion do not ask whether a row was matched.
/// An error of the store, an answer of the wrong form, and a row that is no
/// record of the record type are persistence failures.
pub open spec fn concluded(
    record_type: RecordType,
    operation: OperationView,
    outcome: StoreOutcomeView,
) -> Result<ReplyView, FailureView> {
    let columns = columns_of(record_type);
    match operation {
        OperationView::Create(record) => match outcome {
            StoreOutcomeView::Executed => Ok(ReplyView::One(record)),
            _ => Err(FailureView::Persistence),
        },
        OperationView::ReadAll => match outcome {
            StoreOutcomeView::Rows(rows) => if all_conform(columns, listed_rows(rows)) {
                Ok(ReplyView::Many(listed_rows(rows)))
            } else {
                Err(FailureView::Persistence)
            },
            _ => Err(FailureView::Persistence),
        },
        OperationView::Read(_) => match outcome {
            StoreOutcomeView::Rows(rows) => if rows.len() == 0 {
                Err(FailureView::NotFound)
            } else if conforms(columns, rows[0]) {
                Ok(ReplyView::One(rows[0]))
            } else {
                Err(FailureView::Persistence)
            },
            _ => Err(FailureView::Persistence),
        },
        OperationView::Update(key, record) => match outcome {
            StoreOutcomeView::Executed => Ok(ReplyView::One(pinned(columns, key, record))),
            _ => Err(FailureView::Persistence),
        },
        OperationView::Delete(_) => match outcome {
            StoreOutcomeView::Executed => Ok(
                ReplyView::Confirmation(confirmation_text(record_type)@),
            ),
            _ => Err(FailureView::Persistence),
        },
    }
}

/// Whether each of the rows is a record of the columns.
pub fn rows_conform(columns: &Vec<Column>, rows: &Vec<Record>) -> (out: bool)
    ensures
        out == all_conform(columns@, record_views(rows@)),
{
    let mut i: usize = 0;
    while i < rows.len()
        invariant
            i <= rows.len(),
            forall|j: int| 0 <= j < i ==> conforms(columns@, #[trigger] record_views(rows@)[j]),
        decreases rows.len() - i,
    {
        if !values_conform(columns, &rows[i].values) {
            assert(!conforms(columns@, record_views(rows@)[i as int]));
            return false;
        }
        i += 1;
    }
    true
}

/// Decides what the caller of an operation gets, from the answer of the
/// store.
pub fn conclude(record_type: RecordType, operation: Operation, outcome: StoreOutcome) -> (out:
    Result<Reply, Failure>)
    requires
        operation_conforms(columns_of(record_type), operation@),
    ensures
        match out {
            Ok(reply) => concluded(record_type, operation@, outcome@) == Ok::<
                ReplyView,
                FailureView,
            >(reply@) && reply_conforms(columns_of(record_type), reply@),
            Err(failure) => concluded(record_type, operation@, outcome@) == Err::<
                ReplyView,
                FailureView,
            >(failure@),
        },
{
    let described = schema(record_type);
    match operation {
        Operation::Create(record) => match outcome {
            StoreOutcome::Executed => Ok(Reply::One(record)),
            _ => Err(Failure::Persistence),
        },
        Operation::ReadAll => match outcome {
            StoreOutcome::Rows(rows) => {
                let mut rows = rows;
                let ghost all = record_views(rows@);
                if rows.len() > LISTING_LIMIT {
                    rows.truncate(LISTING_LIMIT);
                }
                assert(record_views(rows@) =~= listed_rows(all));
                if rows_conform(&described.columns, &rows) {
                    Ok(Reply::Many(rows))
                } else {
                    Err(Failure::Persistence)
                }
            },
            _ => Err(Failure::Persistence),
        },
        Operation::Read(_) => match outcome {
            StoreOutcome::Rows(rows) => {
                let mut rows = rows;
                let ghost all = record_views(rows@);
                if rows.len() == 0 {
                    return Err(Failure::NotFound);
                }
                rows.truncate(1);
                let first = rows.pop().unwrap();
                assert(first@ == all[0]);
                if values_conform(&described.columns, &first.values) {
                    Ok(Reply::One(first))
                } else {
                    Err(Failure::Persistence)
                }
            },
            _ => Err(Failure::Persistence),
        },
        Operation::Update(key, record) => match outcome {
            StoreOutcome::Executed => {
                proof {
                    lemma_pinned_conforms(columns_of(record_type), key@, record@);
                }
                let values = pin_values(&described.columns, &key.values, &record.values);
                Ok(Reply::One(Record { values }))
            },
            _ => Err(Failure::Persistence),
        },
        Operation::Delete(_) => match outcome {
            StoreOutcome::Executed => Ok(
                Reply::Confirmation(String::from_str(described.confirmation)),
            ),
            _ => Err(Failure::Persistence),
        },
    }
}

/// A listing never hands back more records than the listing limit, whatever
/// the store returned.
pub proof fn lemma_listing_is_bounded(record_type: RecordType, outcome: StoreOutcomeView)
    requires
        concluded(record_type, OperationView::ReadAll, outcome) is Ok,
    ensures
        concluded(record_type, OperationView::ReadAll, outcome)->Ok_0 is Many,
        concluded(record_type, OperationView::ReadAll, outcome)->Ok_0->Many_0.len()
            <= LISTING_LIMIT,
{
}

/// An update hands back a record with the key of the request, whatever the
/// record of the request held in its key columns.
pub proof fn lemma_update_result_has_key(
    record_type: RecordType,
    key: Seq<ValueView>,
    record: Seq<ValueView>,
)
    requires
        operation_conforms(columns_of(record_type), OperationView::Update(key, record)),
    ensures
        concluded(record_type, OperationView::Update(key, record), StoreOutcomeView::Executed)
            is Ok,
        concluded(
            record_type,
            OperationView::Update(key, record),
            StoreOutcomeView::Executed,
        )->Ok_0 is One,
        crate::record::key_of(
            columns_of(record_type),
            concluded(
                record_type,
                OperationView::Update(key, record),
                StoreOutcomeView::Executed,
            )->Ok_0->One_0,
        ) == key,
{
    crate::record::lemma_pinned_key(columns_of(record_type), key, record);
}

} // verus!
