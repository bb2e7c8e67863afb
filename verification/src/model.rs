//! What messages do to a faithful store.
//!
//! The functions that handle a message say, step by step, which operation
//! is due. Here the steps are put together: `handled` is one message
//! against a store that answers as `crate::store` says, `drained` a whole
//! inbox. Nothing in this file runs; it states what a loop around
//! `dispatch` and the `after_` functions does when the store is faithful,
//! and proves what follows from that.

use vstd::prelude::*;
use crate::dispatch::dispatched;
use crate::dispatch::TAG_USER;
use crate::engine::claimed;
use crate::engine::delete_settled;
use crate::engine::got;
use crate::engine::put_settled;
use crate::engine::sealed_record;
use crate::engine::started;
use crate::engine::stored_record;
use crate::engine::EngineError;
use crate::engine::OutcomeView;
use crate::engine::PendingView;
use crate::engine::StepView;
use crate::path::law_paths_distinct;
use crate::path::todo_path;
use crate::store::kv_delete;
use crate::store::kv_delete_reply;
use crate::store::kv_get;
use crate::store::kv_put;
use crate::store::Contents;
use crate::store::StoreError;
use crate::todo::Action;
use crate::todo::TodoActionsView;
use crate::todo::TodoView;

verus! {

/// A store and what a message ended with.
pub type Ended = (Contents, Result<OutcomeView, EngineError>);

/// A store and what each message of an inbox ended with, in order.
pub type Drained = (Contents, Seq<Result<OutcomeView, EngineError>>);

/// The store after the one operation that `step` asks for, and how the
/// request ends with the store's answer. This is for the last step of a
/// request, which is never a read (`law_reads_once`); for a read it says
/// that nothing was found and nothing done.
pub open spec fn concluded(store: Contents, step: StepView) -> Ended {
    match step {
        StepView::Done(ended) => (store, ended),
        StepView::Put { path, value, record, marked } => (
            kv_put(store, path, value),
            put_settled(record, marked, Ok(())),
        ),
        StepView::Delete { path } => (
            kv_delete(store, path),
            delete_settled(kv_delete_reply(store, path)),
        ),
        StepView::Get { .. } => (store, Err(EngineError::Store(StoreError::NotFound))),
    }
}

/// The store after all that `step` leads to, and how the request ends: a
/// read is answered from the store and followed by what `got` asks for.
pub open spec fn settled(store: Contents, step: StepView) -> Ended {
    match step {
        StepView::Get { path, then } => concluded(store, got(then, kv_get(store, path))),
        _ => concluded(store, step),
    }
}

/// One request against the store.
pub open spec fn requested(store: Contents, request: TodoActionsView) -> Ended {
    settled(store, started(request))
}

/// One inbound message against the store.
#[verifier::opaque]
pub open spec fn handled(store: Contents, message: Seq<u8>) -> Ended {
    settled(store, dispatched(message))
}

/// A whole inbox against the store, message by message: each one meets the
/// store that the ones before it left, however they ended.
pub open spec fn drained(store: Contents, inbox: Seq<Seq<u8>>) -> Drained
    decreases inbox.len(),
{
    if inbox.len() == 0 {
        (store, Seq::empty())
    } else {
        let (before, ended) = drained(store, inbox.drop_last());
        let (after, last) = handled(before, inbox.last());
        (after, ended.push(last))
    }
}

/// No request reads twice: what follows a read is a write or the end.
pub proof fn law_reads_once(then: PendingView, reply: Result<Seq<u8>, StoreError>)
    ensures
        !(got(then, reply) is Get),
        got(then, reply) is Put ==> then.complete,
{
}

/// Every message of an inbox is answered, whatever became of the others.
pub proof fn law_every_message_is_answered(store: Contents, inbox: Seq<Seq<u8>>)
    ensures
        drained(store, inbox).1.len() == inbox.len(),
    decreases inbox.len(),
{
    if inbox.len() > 0 {
        law_every_message_is_answered(store, inbox.drop_last());
    }
}

/// A request that fails leaves the store as it was.
pub proof fn law_failure_changes_nothing(store: Contents, step: StepView)
    requires
        settled(store, step).1 is Err,
    ensures
        settled(store, step).0 == store,
{
}

/// A message that fails leaves the store as it was.
pub proof fn law_failed_message_changes_nothing(store: Contents, message: Seq<u8>)
    requires
        handled(store, message).1 is Err,
    ensures
        handled(store, message).0 == store,
{
    reveal(handled);
}

/// A message that fails is skipped: the messages around it leave the same
/// store, and end the same way, as if it had never been in the inbox.
pub proof fn law_failed_message_is_skipped(
    store: Contents,
    before: Seq<Seq<u8>>,
    bad: Seq<u8>,
    after: Seq<Seq<u8>>,
)
    requires
        handled(drained(store, before).0, bad).1 is Err,
    ensures
        drained(store, before.push(bad) + after).0 == drained(store, before + after).0,
        drained(store, before.push(bad) + after).1.remove(before.len() as int) == drained(
            store,
            before + after,
        ).1,
        drained(store, before.push(bad) + after).1[before.len() as int] == handled(
            drained(store, before).0,
            bad,
        ).1,
    decreases after.len(),
{
    let with_bad = before.push(bad) + after;
    let without = before + after;
    law_every_message_is_answered(store, before);
    if after.len() == 0 {
        assert(with_bad =~= before.push(bad));
        assert(without =~= before);
        assert(with_bad.drop_last() =~= before);
        law_failed_message_changes_nothing(drained(store, before).0, bad);
        assert(drained(store, with_bad).1.remove(before.len() as int) =~= drained(store, before).1);
    } else {
        let head = after.drop_last();
        law_failed_message_is_skipped(store, before, bad, head);
        law_every_message_is_answered(store, before.push(bad) + head);
        law_every_message_is_answered(store, before + head);
        assert(with_bad.drop_last() =~= before.push(bad) + head);
        assert(without.drop_last() =~= before + head);
        assert(with_bad.last() == after.last());
        assert(without.last() == after.last());
        let shorter = drained(store, before.push(bad) + head).1;
        let last = handled(drained(store, before + head).0, after.last()).1;
        assert(shorter.push(last).remove(before.len() as int) =~= shorter.remove(
            before.len() as int,
        ).push(last));
    }
}

/// A message that is not a user message ends well and leaves the store as
/// it was.
pub proof fn law_foreign_message_is_dropped(store: Contents, message: Seq<u8>)
    requires
        message.len() == 0 || message[0] != TAG_USER,
    ensures
        handled(store, message).0 == store,
        handled(store, message).1 == Ok::<OutcomeView, EngineError>(OutcomeView::Internal)
            || handled(store, message).1 == Ok::<OutcomeView, EngineError>(
            OutcomeView::Unrecognized,
        ),
{
    reveal(handled);
}

/// A request changes nothing under the path of another record.
pub proof fn law_other_records_untouched(store: Contents, request: TodoActionsView, other: i64)
    requires
        request.id != other,
    ensures
        kv_get(requested(store, request).0, todo_path(other)) == kv_get(store, todo_path(other)),
{
    if todo_path(request.id) == todo_path(other) {
        law_paths_distinct(request.id, other);
    }
}

/// A `Create` writes its record whatever the store holds under the id: it
/// is not guarded against replacing a record, whoever owns that.
pub proof fn law_create_replaces(store: Contents, request: TodoActionsView)
    requires
        request.action == Action::Create,
    ensures
        requested(store, request) == (
            kv_put(store, todo_path(request.id), sealed_record(claimed(request))),
            Ok::<OutcomeView, EngineError>(OutcomeView::Created(claimed(request))),
        ),
{
}

/// Once a value is written that `user` can read as `record`, a read of that
/// record by `user` finds `record`, and leaves the store as it is.
pub proof fn law_read_after_write(
    store: Contents,
    id: i64,
    value: Seq<u8>,
    user: Seq<char>,
    record: TodoView,
    todo: TodoView,
)
    requires
        stored_record(value, user) == Ok::<TodoView, EngineError>(record),
    ensures
        requested(
            kv_put(store, todo_path(id), value),
            TodoActionsView { id, action: Action::Read, user, todo },
        ) == (kv_put(store, todo_path(id), value), Ok::<OutcomeView, EngineError>(OutcomeView::Found(record))),
{
}

/// Marking a record complete changes its completion flag and nothing else,
/// and fails exactly as a read of it fails, then leaving the store as it
/// was.
pub proof fn law_mark_complete(store: Contents, id: i64, user: Seq<char>, todo: TodoView)
    ensures
        ({
            let read = requested(store, TodoActionsView { id, action: Action::Read, user, todo });
            let mark = requested(
                store,
                TodoActionsView { id, action: Action::MarkComplete, user, todo },
            );
            match read.1 {
                Ok(OutcomeView::Found(record)) => {
                    &&& mark.1 == Ok::<OutcomeView, EngineError>(
                        OutcomeView::Completed(record.complete()),
                    )
                    &&& record.complete().completed
                    &&& record.complete().title == record.title
                    &&& record.complete().created_time == record.created_time
                    &&& record.complete().due_time == record.due_time
                    &&& record.complete().owner == record.owner
                },
                _ => mark == read,
            }
        }),
{
}

/// Deleting succeeds whether or not the record is there, whoever asks; a
/// read of the deleted record finds nothing; and deleting once more changes
/// nothing.
pub proof fn law_delete_then_read(
    store: Contents,
    id: i64,
    user: Seq<char>,
    reader: Seq<char>,
    todo: TodoView,
)
    ensures
        ({
            let delete = TodoActionsView { id, action: Action::Delete, user, todo };
            let read = TodoActionsView { id, action: Action::Read, user: reader, todo };
            let deleted = requested(store, delete);
            &&& deleted.1 == Ok::<OutcomeView, EngineError>(OutcomeView::Deleted)
            &&& requested(deleted.0, read).1 == Err::<OutcomeView, EngineError>(
                EngineError::Store(StoreError::NotFound),
            )
            &&& requested(deleted.0, delete) == deleted
        }),
{
    let path = todo_path(id);
    assert(kv_delete(kv_delete(store, path), path) =~= kv_delete(store, path));
}

} // verus!
