//! The routing of one inbound message by its leading byte.
//!
//! The loop that drains the inbox is not here: it pulls a message, calls
//! `dispatch`, performs the operation that comes back, reports the answer to
//! the engine, and takes the next message whatever the outcome was. Every
//! function on that path is total, so no message can stop it.

use vstd::prelude::*;
use vstd::slice::*;
use crate::codec::decode_request;
use crate::codec::decoded_request;
use crate::engine::start;
use crate::engine::started;
use crate::engine::stored_record;
use crate::engine::EngineError;
use crate::engine::Outcome;
use crate::engine::OutcomeView;
use crate::engine::Step;
use crate::engine::StepView;
use crate::todo::TodoView;

verus! {

/// The leading byte of a message of the kernel itself.
pub const TAG_INTERNAL: u8 = 0x00;

/// The leading byte of a message of a user.
pub const TAG_USER: u8 = 0x01;

/// How a message begins: only a user message with a well-formed request
/// reaches the engine. An internal message does nothing, a message with
/// another leading byte, or with none, is dropped.
pub open spec fn dispatched(message: Seq<u8>) -> StepView {
    if message.len() == 0 {
        StepView::Done(Ok(OutcomeView::Unrecognized))
    } else if message[0] == TAG_INTERNAL {
        StepView::Done(Ok(OutcomeView::Internal))
    } else if message[0] == TAG_USER {
        match decoded_request(message.subrange(1, message.len() as int)) {
            Err(e) => StepView::Done(Err(EngineError::Decode(e))),
            Ok(request) => started(request),
        }
    } else {
        StepView::Done(Ok(OutcomeView::Unrecognized))
    }
}

/// Routes one inbound message. It never fails: a message that cannot be
/// handled ends in a `Done` that says why.
///
/// What a step asks to write gives, read by the record's owner, the record
/// back.
pub fn dispatch(message: &[u8]) -> (step: Step)
    ensures
        step@ == dispatched(message@),
        step@ matches StepView::Put { value, record, .. } ==> stored_record(value, record.owner)
            == Ok::<TodoView, EngineError>(record),
{
    if message.len() == 0 {
        return Step::Done(Ok(Outcome::Unrecognized));
    }
    let tag = message[0];
    if tag == TAG_INTERNAL {
        Step::Done(Ok(Outcome::Internal))
    } else if tag == TAG_USER {
        match decode_request(slice_subrange(message, 1, message.len())) {
            Err(e) => Step::Done(Err(EngineError::Decode(e))),
            Ok(request) => start(request),
        }
    } else {
        Step::Done(Ok(Outcome::Unrecognized))
    }
}

} // verus!
