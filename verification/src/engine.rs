//! The action engine: one decoded request becomes at most two operations on
//! the store.
//!
//! The engine never touches the store. `start` says which operation a
//! request begins with; whoever owns the store performs it and reports the
//! answer to `after_get`, `after_put` or `after_delete`, which say how the
//! request goes on or ends. Errors of the store, the cipher and the codec are
//! handed up unchanged; nothing is retried.

use vstd::prelude::*;
use tezos_smart_rollup::storage::path::OwnedPath;
use crate::codec::decoded_record;
use crate::codec::record_wire;
use crate::crypt::open_result;
use crate::crypt::sealed_bytes;
use crate::crypt::CryptoError;
use crate::path::create_todo_path;
use crate::path::path_text;
use crate::path::todo_path;
use crate::store::StoreError;
use crate::todo::Action;
use crate::todo::Todo;
use crate::todo::TodoActions;
use crate::todo::TodoActionsView;
use crate::todo::TodoView;
use crate::wire::DecodeError;

verus! {

/// Why a message did not do what it asked for.
#[derive(Clone, Copy, Debug, PartialEq, Eq, Structural)]
pub enum EngineError {
    /// The message, or the stored record, is not a well-formed encoding.
    Decode(DecodeError),
    /// The stored record could not be opened under the user's name.
    Crypto(CryptoError),
    /// The store failed, or holds no such record.
    Store(StoreError),
}

/// What a finished message has done.
#[derive(Debug, Clone, PartialEq, Eq)]
pub enum Outcome {
    /// A message of the kernel itself: nothing was done.
    Internal,
    /// A message with an unknown leading byte, or an empty one: it was
    /// dropped.
    Unrecognized,
    /// The record was stored.
    Created(Todo),
    /// The record was read; here it is.
    Found(Todo),
    /// The record is gone, or never was there.
    Deleted,
    /// The record was stored again, marked complete.
    Completed(Todo),
}

/// What an `Outcome` holds, as mathematical values.
pub ghost enum OutcomeView {
    Internal,
    Unrecognized,
    Created(TodoView),
    Found(TodoView),
    Deleted,
    Completed(TodoView),
}

impl View for Outcome {
    type V = OutcomeView;

    open spec fn view(&self) -> OutcomeView {
        match self {
            Outcome::Internal => OutcomeView::Internal,
            Outcome::Unrecognized => OutcomeView::Unrecognized,
            Outcome::Created(t) => OutcomeView::Created(t@),
            Outcome::Found(t) => OutcomeView::Found(t@),
            Outcome::Deleted => OutcomeView::Deleted,
            Outcome::Completed(t) => OutcomeView::Completed(t@),
        }
    }
}

/// What a request that reads first still has to do once the value is there.
#[derive(Debug, Clone, PartialEq, Eq)]
pub struct Pending {
    /// The record that was asked for.
    pub id: i64,
    /// The user who asked, under whose name the value is opened.
    pub user: String,
    /// Whether the record is to be marked complete and stored again, or only
    /// read.
    pub complete: bool,
}

/// What a `Pending` holds, as mathematical values.
pub ghost struct PendingView {
    pub id: i64,
    pub user: Seq<char>,
    pub complete: bool,
}

impl View for Pending {
    type V = PendingView;

    open spec fn view(&self) -> PendingView {
        PendingView { id: self.id, user: self.user@, complete: self.complete }
    }
}

/// How a message goes on: it is finished, or one operation on the store is
/// due.
#[derive(Debug, PartialEq, Eq)]
pub enum Step {
    /// The message is finished.
    Done(Result<Outcome, EngineError>),
    /// Read the value at `path` and hand the answer to `after_get`.
    Get { path: OwnedPath, then: Pending },
    /// Write `value` at `path`, replacing what is there, and hand the answer
    /// to `after_put`. `record` is what `value` holds; `marked` tells a
    /// completion from a creation.
    Put { path: OwnedPath, value: Vec<u8>, record: Todo, marked: bool },
    /// Delete `path` and hand the answer to `after_delete`.
    Delete { path: OwnedPath },
}

/// What a `Step` holds, as mathematical values.
pub ghost enum StepView {
    Done(Result<OutcomeView, EngineError>),
    Get { path: Seq<u8>, then: PendingView },
    Put { path: Seq<u8>, value: Seq<u8>, record: TodoView, marked: bool },
    Delete { path: Seq<u8> },
}

impl View for Step {
    type V = StepView;

    open spec fn view(&self) -> StepView {
        match self {
            Step::Done(Ok(o)) => StepView::Done(Ok(o@)),
            Step::Done(Err(e)) => StepView::Done(Err(*e)),
            Step::Get { path, then } => StepView::Get { path: path_text(*path), then: then@ },
            Step::Put { path, value, record, marked } => StepView::Put {
                path: path_text(*path),
                value: value@,
                record: record@,
                marked: *marked,
            },
            Step::Delete { path } => StepView::Delete { path: path_text(*path) },
        }
    }
}

/// What a reader named `user` gets from the stored value `blob`: it is
/// opened under the user's name, and what comes out is decoded.
pub open spec fn stored_record(blob: Seq<u8>, user: Seq<char>) -> Result<TodoView, EngineError> {
    match open_result(blob, user) {
        Err(e) => Err(EngineError::Crypto(e)),
        Ok(plain) => match decoded_record(plain) {
            Ok(record) => Ok(record),
            Err(e) => Err(EngineError::Decode(e)),
        },
    }
}

/// The stored value of `record`: its encoding, sealed under its owner.
pub open spec fn sealed_record(record: TodoView) -> Seq<u8>
    recommends
        record.valid(),
{
    sealed_bytes(record_wire(record), record.owner)
}

/// The record that a `Create` stores: the request's record, and where that
/// names no owner, the requesting user as its owner.
pub open spec fn claimed(request: TodoActionsView) -> TodoView {
    if request.todo.owner.len() == 0 {
        request.todo.owned_by(request.user)
    } else {
        request.todo
    }
}

/// Whether `start` can take the request: what a `Create` stores must fit the
/// wire format. The other actions store nothing of the request.
pub open spec fn startable(request: TodoActionsView) -> bool {
    request.action == Action::Create ==> claimed(request).valid()
}

/// The operation that a request begins with.
pub open spec fn started(request: TodoActionsView) -> StepView {
    let path = todo_path(request.id);
    match request.action {
        Action::Create => StepView::Put {
            path,
            value: sealed_record(claimed(request)),
            record: claimed(request),
            marked: false,
        },
        Action::Read => StepView::Get {
            path,
            then: PendingView { id: request.id, user: request.user, complete: false },
        },
        Action::Delete => StepView::Delete { path },
        Action::MarkComplete => StepView::Get {
            path,
            then: PendingView { id: request.id, user: request.user, complete: true },
        },
    }
}

/// How a request that read first goes on with the store's answer.
pub open spec fn got(then: PendingView, reply: Result<Seq<u8>, StoreError>) -> StepView {
    match reply {
        Err(e) => StepView::Done(Err(EngineError::Store(e))),
        Ok(blob) => match stored_record(blob, then.user) {
            Err(e) => StepView::Done(Err(e)),
            Ok(record) => if then.complete {
                StepView::Put {
                    path: todo_path(then.id),
                    value: sealed_record(record.complete()),
                    record: record.complete(),
                    marked: true,
                }
            } else {
                StepView::Done(Ok(OutcomeView::Found(record)))
            },
        },
    }
}

/// How a request ends with the store's answer to its write.
pub open spec fn put_settled(record: TodoView, marked: bool, reply: Result<(), StoreError>) -> Result<
    OutcomeView,
    EngineError,
> {
    match reply {
        Err(e) => Err(EngineError::Store(e)),
        Ok(_) => if marked {
            Ok(OutcomeView::Completed(record))
        } else {
            Ok(OutcomeView::Created(record))
        },
    }
}

/// How a request ends with the store's answer to its delete: that there was
/// nothing to delete is no error.
pub open spec fn delete_settled(reply: Result<(), StoreError>) -> Result<OutcomeView, EngineError> {
    match reply {
        Ok(_) => Ok(OutcomeView::Deleted),
        Err(StoreError::NotFound) => Ok(OutcomeView::Deleted),
        Err(e) => Err(EngineError::Store(e)),
    }
}

/// The view of an answer to a read.
pub open spec fn reply_view(reply: Result<Vec<u8>, StoreError>) -> Result<Seq<u8>, StoreError> {
    match reply {
        Ok(blob) => Ok(blob@),
        Err(e) => Err(e),
    }
}

/// The view of how a request ended.
pub open spec fn ended_view(ended: Result<Outcome, EngineError>) -> Result<OutcomeView, EngineError> {
    match ended {
        Ok(o) => Ok(o@),
        Err(e) => Err(e),
    }
}

/// Only a `Create` reads the record that a request carries: two requests
/// that differ in nothing else begin alike under every other action.
pub proof fn law_record_is_read_by_create_only(a: TodoActionsView, b: TodoActionsView)
    requires
        a.id == b.id,
        a.action == b.action,
        a.user == b.user,
        a.action != Action::Create,
    ensures
        started(a) == started(b),
{
}

/// A record that is marked complete keeps its title, its times and its
/// owner.
pub proof fn law_completion_keeps_the_rest(record: TodoView)
    ensures
        record.complete().completed,
        record.complete().title == record.title,
        record.complete().created_time == record.created_time,
        record.complete().due_time == record.due_time,
        record.complete().owner == record.owner,
        record.complete().complete() == record.complete(),
        record.valid() ==> record.complete().valid(),
{
}

/// The owner of the record that a `Create` stores is the owner that the
/// request's record names, or the requesting user where it names none; the
/// record differs from the request's in the owner at most. A request that
/// can be encoded can be started.
pub proof fn law_first_writer_claims(request: TodoActionsView)
    ensures
        claimed(request).owner == (if request.todo.owner.len() == 0 {
            request.user
        } else {
            request.todo.owner
        }),
        claimed(request) == request.todo.owned_by(claimed(request).owner),
        request.valid() ==> claimed(request).valid() && startable(request),
{
}

/// Begins a request. A `Create` claims the record for the user where it
/// names no owner, and asks for it to be written, whatever is stored under
/// the id; a `Delete` asks for the delete, whoever asks; a `Read` and a
/// `MarkComplete` ask for the stored value first.
///
/// What a `Create` asks to write gives, read by the record's owner, the
/// record back.
pub fn start(request: TodoActions) -> (step: Step)
    requires
        startable(request@),
    ensures
        step@ == started(request@),
        step@ matches StepView::Put { value, record, .. } ==> stored_record(value, record.owner)
            == Ok::<TodoView, EngineError>(record),
{
    let TodoActions { id, action, user, todo } = request;
    let path = create_todo_path(id);
    match action {
        Action::Create => {
            let record = if todo.owner.as_str().is_empty() {
                Todo { owner: user, ..todo }
            } else {
                todo
            };
            let value = record.encrypt();
            Step::Put { path, value, record, marked: false }
        },
        Action::Read => Step::Get { path, then: Pending { id, user, complete: false } },
        Action::Delete => Step::Delete { path },
        Action::MarkComplete => Step::Get { path, then: Pending { id, user, complete: true } },
    }
}

/// Goes on with the store's answer to a read. A failed read ends the
/// request with the store's error, a value that the user cannot open or that
/// holds no record ends it with that error. A `Read` then ends with the
/// record; a `MarkComplete` sets the completion flag, leaves every other
/// field as it was, and asks for the record to be written back, sealed under
/// its owner.
///
/// What a `MarkComplete` asks to write gives, read by the record's owner,
/// the marked record back.
pub fn after_get(then: Pending, reply: Result<Vec<u8>, StoreError>) -> (step: Step)
    ensures
        step@ == got(then@, reply_view(reply)),
        step@ matches StepView::Put { value, record, .. } ==> stored_record(value, record.owner)
            == Ok::<TodoView, EngineError>(record),
{
    let blob = match reply {
        Ok(blob) => blob,
        Err(e) => {
            return Step::Done(Err(EngineError::Store(e)));
        },
    };
    let mut record = match Todo::decrypt(blob.as_slice(), then.user.as_str()) {
        Ok(record) => record,
        Err(e) => {
            return Step::Done(Err(e));
        },
    };
    if then.complete {
        record.set_completed(true);
        let value = record.encrypt();
        Step::Put { path: create_todo_path(then.id), value, record, marked: true }
    } else {
        Step::Done(Ok(Outcome::Found(record)))
    }
}

/// Ends a request with the store's answer to its write.
pub fn after_put(record: Todo, marked: bool, reply: Result<(), StoreError>) -> (ended: Result<
    Outcome,
    EngineError,
>)
    ensures
        ended_view(ended) == put_settled(record@, marked, reply),
{
    match reply {
        Err(e) => Err(EngineError::Store(e)),
        Ok(_) => if marked {
            Ok(Outcome::Completed(record))
        } else {
            Ok(Outcome::Created(record))
        },
    }
}

/// Ends a request with the store's answer to its delete. Deleting what is
/// not there succeeds.
pub fn after_delete(reply: Result<(), StoreError>) -> (ended: Result<Outcome, EngineError>)
    ensures
        ended_view(ended) == delete_settled(reply),
{
    match reply {
        Ok(_) => Ok(Outcome::Deleted),
        Err(StoreError::NotFound) => Ok(Outcome::Deleted),
        Err(e) => Err(EngineError::Store(e)),
    }
}

} // verus!
