//! The entry points: one per record type. Each turns a request body into
//! the request for the store; once the store has answered, `respond` turns
//! the answer into the response.

use crate::canonical::{list_text, list_to_text, record_text, record_to_text};
use crate::decoder::{decode, decoded, operation_conforms, Operation, OperationView};
use crate::envelope::{seal, seal_with_nonce, sealed_text, unsealed};
use crate::failure::{Failure, FailureView};
use crate::json::JsonValue;
use crate::record::views;
use crate::repository::{
    conclude, concluded, reply_conforms, Reply, ReplyView, StoreOutcome, StoreOutcomeView,
};
use crate::schema::{columns_of, schema, RecordType};
use crate::statement::{plan, planned_parameters, planned_text, Statement};
use crate::store::{store_after, store_answer, MemoryStore};
use vstd::prelude::*;
use vstd::utf8::encode_utf8;

verus! {

/// What an entry point asks of the store.
#[derive(Debug, PartialEq, Eq)]
pub struct Request {
    /// The record type of the entry point.
    pub record_type: RecordType,
    /// The operation that the request body asked for.
    pub operation: Operation,
    /// The statement that carries the operation out.
    pub statement: Statement,
}

/// Whether a request is the one that a body asks of a record type: the
/// decoded operation and the statement planned for it.
pub open spec fn is_request_for(request: Request, record_type: RecordType, body: JsonValue) -> bool {
    &&& request.record_type == record_type
    &&& decoded(record_type, body) == Ok::<OperationView, FailureView>(request.operation@)
    &&& operation_conforms(columns_of(record_type), request.operation@)
    &&& request.statement.text@ == planned_text(record_type, request.operation@)
    &&& views(request.statement.parameters@) == planned_parameters(
        record_type,
        request.operation@,
    )
}

/// The canonical text of a reply: the text of its record or of its list,
/// or the confirmation as it is.
pub open spec fn reply_text(record_type: RecordType, reply: ReplyView) -> Seq<char> {
    match reply {
        ReplyView::One(record) => record_text(columns_of(record_type), record),
        ReplyView::Many(records) => list_text(columns_of(record_type), records),
        ReplyView::Confirmation(text) => text,
    }
}

/// The response to an operation that the store has answered, under a key
/// and a nonce: the failure where the operation was not served, the
/// confirmation as plain text for a deletion, and for every other reply the
/// sealed text of its canonical text in UTF-8.
pub open spec fn responded(
    record_type: RecordType,
    operation: OperationView,
    outcome: StoreOutcomeView,
    key: Seq<u8>,
    nonce: Seq<u8>,
) -> Result<Seq<char>, FailureView> {
    match concluded(record_type, operation, outcome) {
        Err(failure) => Err(failure),
        Ok(ReplyView::Confirmation(text)) => Ok(text),
        Ok(reply) => sealed_text(key, nonce, encode_utf8(reply_text(record_type, reply))),
    }
}

/// Decodes the body of a request for a record type and plans its
/// statement.
pub fn handle(record_type: RecordType, payload: &JsonValue) -> (out: Result<Request, Failure>)
    ensures
        match out {
            Ok(request) => is_request_for(request, record_type, *payload),
            Err(failure) => decoded(record_type, *payload) == Err::<OperationView, FailureView>(
                failure@,
            ),
        },
{
    match decode(record_type, payload) {
        Ok(operation) => {
            let statement = plan(record_type, &operation);
            Ok(Request { record_type, operation, statement })
        },
        Err(failure) => Err(failure),
    }
}

/// The entry point for organizational units.
pub fn department_crud_handler(payload: &JsonValue) -> (out: Result<Request, Failure>)
    ensures
        match out {
            Ok(request) => is_request_for(request, RecordType::OrgUnit, *payload),
            Err(failure) => decoded(RecordType::OrgUnit, *payload) == Err::<
                OperationView,
                FailureView,
            >(failure@),
        },
{
    handle(RecordType::OrgUnit, payload)
}

/// The entry point for members of staff.
pub fn employee_crud_handler(payload: &JsonValue) -> (out: Result<Request, Failure>)
    ensures
        match out {
            Ok(request) => is_request_for(request, RecordType::Person, *payload),
            Err(failure) => decoded(RecordType::Person, *payload) == Err::<
                OperationView,
                FailureView,
            >(failure@),
        },
{
    handle(RecordType::Person, payload)
}

/// The entry point for assignments of persons to units.
pub fn dept_emp_crud_handler(payload: &JsonValue) -> (out: Result<Request, Failure>)
    ensures
        match out {
            Ok(request) => is_request_for(request, RecordType::UnitAssignment, *payload),
            Err(failure) => decoded(RecordType::UnitAssignment, *payload) == Err::<
                OperationView,
                FailureView,
            >(failure@),
        },
{
    handle(RecordType::UnitAssignment, payload)
}

/// The entry point for assignments of managers to units.
pub fn dept_manager_crud_handler(payload: &JsonValue) -> (out: Result<Request, Failure>)
    ensures
        match out {
            Ok(request) => is_request_for(request, RecordType::ManagerAssignment, *payload),
            Err(failure) => decoded(RecordType::ManagerAssignment, *payload) == Err::<
                OperationView,
                FailureView,
            >(failure@),
        },
{
    handle(RecordType::ManagerAssignment, payload)
}

/// The entry point for compensation records.
pub fn salary_crud_handler(payload: &JsonValue) -> (out: Result<Request, Failure>)
    ensures
        match out {
            Ok(request) => is_request_for(request, RecordType::Compensation, *payload),
            Err(failure) => decoded(RecordType::Compensation, *payload) == Err::<
                OperationView,
                FailureView,
            >(failure@),
        },
{
    handle(RecordType::Compensation, payload)
}

/// The entry point for title records.
pub fn title_crud_handler(payload: &JsonValue) -> (out: Result<Request, Failure>)
    ensures
        match out {
            Ok(request) => is_request_for(request, RecordType::Title, *payload),
            Err(failure) => decoded(RecordType::Title, *payload) == Err::<
                OperationView,
                FailureView,
            >(failure@),
        },
{
    handle(RecordType::Title, payload)
}

/// The canonical text of a reply, in UTF-8.
pub fn reply_bytes(record_type: RecordType, reply: &Reply) -> (out: Vec<u8>)
    requires
        reply_conforms(columns_of(record_type), reply@),
    ensures
        out@ == encode_utf8(reply_text(record_type, reply@)),
{
    let described = schema(record_type);
    let text = match reply {
        Reply::One(record) => record_to_text(&described.columns, record),
        Reply::Many(records) => {
            assert forall|i: int| 0 <= i < records.len() implies (#[trigger] records[i]).values.len()
                == described.columns.len() by {
                assert(crate::record::conforms(
                    columns_of(record_type),
                    crate::canonical::record_views(records@)[i],
                ));
            }
            list_to_text(&described.columns, records)
        },
        Reply::Confirmation(text) => text.clone(),
    };
    text.as_str().as_bytes_vec()
}

/// Turns the answer of the store into the response, sealing under the given
/// nonce. The nonce must be used for one response only.
pub fn respond_with_nonce(
    record_type: RecordType,
    operation: Operation,
    outcome: StoreOutcome,
    key: &Vec<u8>,
    nonce: &Vec<u8>,
) -> (out: Result<String, Failure>)
    requires
        operation_conforms(columns_of(record_type), operation@),
    ensures
        match out {
            Ok(text) => responded(record_type, operation@, outcome@, key@, nonce@) == Ok::<
                Seq<char>,
                FailureView,
            >(text@),
            Err(failure) => responded(record_type, operation@, outcome@, key@, nonce@) == Err::<
                Seq<char>,
                FailureView,
            >(failure@),
        },
        match concluded(record_type, operation@, outcome@) {
            Ok(ReplyView::Confirmation(_)) => true,
            Ok(reply) => out is Ok ==> unsealed(key@, out->Ok_0@) == Ok::<Seq<u8>, FailureView>(
                encode_utf8(reply_text(record_type, reply)),
            ),
            Err(_) => true,
        },
{
    match conclude(record_type, operation, outcome) {
        Ok(Reply::Confirmation(text)) => Ok(text),
        Ok(reply) => {
            let message = reply_bytes(record_type, &reply);
            seal_with_nonce(&message, key, nonce)
        },
        Err(failure) => Err(failure),
    }
}

/// Turns the answer of the store into the response, sealing under a fresh
/// random nonce.
///
/// Where the operation was not served, the response is its failure. A
/// deletion is answered with its confirmation, unsealed. Every other reply
/// is sealed: the response unseals, under the same key, to the canonical
/// text of the reply, or it is a sealing failure.
pub fn respond(record_type: RecordType, operation: Operation, outcome: StoreOutcome, key: &Vec<u8>)
    -> (out: Result<String, Failure>)
    requires
        operation_conforms(columns_of(record_type), operation@),
    ensures
        match concluded(record_type, operation@, outcome@) {
            Err(failure) => out is Err && out->Err_0@ == failure,
            Ok(ReplyView::Confirmation(text)) => out is Ok && out->Ok_0@ == text,
            Ok(reply) => match out {
                Ok(text) => unsealed(key@, text@) == Ok::<Seq<u8>, FailureView>(
                    encode_utf8(reply_text(record_type, reply)),
                ) && exists|nonce: Seq<u8>| #[trigger]
                    responded(record_type, operation@, outcome@, key@, nonce) == Ok::<
                        Seq<char>,
                        FailureView,
                    >(text@),
                Err(failure) => failure@ == FailureView::Sealing,
            },
        },
{
    match conclude(record_type, operation, outcome) {
        Ok(Reply::Confirmation(text)) => Ok(text),
        Ok(reply) => {
            let message = reply_bytes(record_type, &reply);
            let out = seal(&message, key);
            proof {
                if out is Ok {
                    let text = out->Ok_0@;
                    let nonce = choose|nonce: Seq<u8>| #[trigger]
                        sealed_text(key@, nonce, message@) == Ok::<Seq<char>, FailureView>(text);
                    assert(responded(record_type, operation@, outcome@, key@, nonce) == Ok::<
                        Seq<char>,
                        FailureView,
                    >(text));
                }
            }
            out
        },
        Err(failure) => Err(failure),
    }
}

/// Serves a request against a store in memory: decodes the body, lets the
/// store carry the operation out, and responds.
pub fn serve(store: &mut MemoryStore, payload: &JsonValue, key: &Vec<u8>) -> (out: Result<
    String,
    Failure,
>)
    requires
        old(store).wf(),
    ensures
        final(store).wf(),
        final(store).kind() == old(store).kind(),
        match decoded(old(store).kind(), *payload) {
            Err(failure) => out is Err && out->Err_0@ == failure && final(store)@ == old(store)@,
            Ok(operation) => {
                let outcome = store_answer(old(store).kind(), old(store)@, operation);
                &&& final(store)@ == store_after(old(store).kind(), old(store)@, operation)
                &&& match concluded(old(store).kind(), operation, outcome) {
                    Err(failure) => out is Err && out->Err_0@ == failure,
                    Ok(ReplyView::Confirmation(text)) => out is Ok && out->Ok_0@ == text,
                    Ok(reply) => match out {
                        Ok(text) => unsealed(key@, text@) == Ok::<Seq<u8>, FailureView>(
                            encode_utf8(reply_text(old(store).kind(), reply)),
                        ),
                        Err(failure) => failure@ == FailureView::Sealing,
                    },
                }
            },
        },
{
    let record_type = store.record_type();
    match decode(record_type, payload) {
        Ok(operation) => {
            let outcome = store.execute(&operation);
            respond(record_type, operation, outcome, key)
        },
        Err(failure) => Err(failure),
    }
}

} // verus!
