//! The binary layout of a record and of a request, and the proof that
//! decoding undoes encoding.
//!
//! A record is its title, its two times, its completion flag and its owner,
//! in that order. A request is the record's id, a one-byte action
//! discriminant, the user's name and a record. Whatever follows a complete
//! value in the input is left unread.

use vstd::prelude::*;
use crate::todo::Action;
use crate::todo::Todo;
use crate::todo::TodoActions;
use crate::todo::TodoActionsView;
use crate::todo::TodoView;
use crate::wire::bool_wire;
use crate::wire::i64_wire;
use crate::wire::lemma_i64_wire_len;
use crate::wire::lemma_parse_i64_wire;
use crate::wire::lemma_parse_text_wire;
use crate::wire::lemma_parsed_i64;
use crate::wire::lemma_parsed_text_fits;
use crate::wire::parse_bool;
use crate::wire::parse_i64;
use crate::wire::parse_text;
use crate::wire::put_bool;
use crate::wire::put_i64;
use crate::wire::put_text;
use crate::wire::read_bool;
use crate::wire::read_i64;
use crate::wire::read_text;
use crate::wire::text_wire;
use crate::wire::DecodeError;

verus! {

/// The discriminant of an action on the wire.
pub open spec fn action_tag(a: Action) -> u8 {
    match a {
        Action::Create => 0,
        Action::Read => 1,
        Action::Delete => 2,
        Action::MarkComplete => 3,
    }
}

/// The action that a discriminant stands for, if any.
pub open spec fn tag_action(tag: u8) -> Option<Action> {
    if tag == 0 {
        Some(Action::Create)
    } else if tag == 1 {
        Some(Action::Read)
    } else if tag == 2 {
        Some(Action::Delete)
    } else if tag == 3 {
        Some(Action::MarkComplete)
    } else {
        None
    }
}

/// The encoding of a record.
pub open spec fn record_wire(v: TodoView) -> Seq<u8>
    recommends
        v.valid(),
{
    text_wire(v.title) + i64_wire(v.created_time) + i64_wire(v.due_time) + bool_wire(v.completed)
        + text_wire(v.owner)
}

/// The encoding of a request.
pub open spec fn request_wire(v: TodoActionsView) -> Seq<u8>
    recommends
        v.valid(),
{
    i64_wire(v.id) + seq![action_tag(v.action)] + text_wire(v.user) + record_wire(v.todo)
}

/// Reads an action discriminant at `pos`.
pub open spec fn parse_action(b: Seq<u8>, pos: int) -> Result<(Action, int), DecodeError> {
    if !(0 <= pos < b.len()) {
        Err(DecodeError::Truncated)
    } else {
        match tag_action(b[pos]) {
            Some(a) => Ok((a, pos + 1)),
            None => Err(DecodeError::UnknownAction),
        }
    }
}

/// Reads a record at `pos`, field by field; the first field that cannot be
/// read decides the error.
pub open spec fn parse_record(b: Seq<u8>, pos: int) -> Result<(TodoView, int), DecodeError> {
    match parse_text(b, pos) {
        Err(e) => Err(e),
        Ok((title, at1)) => match parse_i64(b, at1) {
            Err(e) => Err(e),
            Ok((created_time, at2)) => match parse_i64(b, at2) {
                Err(e) => Err(e),
                Ok((due_time, at3)) => match parse_bool(b, at3) {
                    Err(e) => Err(e),
                    Ok((completed, at4)) => match parse_text(b, at4) {
                        Err(e) => Err(e),
                        Ok((owner, at5)) => Ok(
                            (TodoView { title, created_time, due_time, completed, owner }, at5),
                        ),
                    },
                },
            },
        },
    }
}

/// Reads a request at `pos`, field by field; the first field that cannot be
/// read decides the error.
pub open spec fn parse_request(b: Seq<u8>, pos: int) -> Result<(TodoActionsView, int), DecodeError> {
    match parse_i64(b, pos) {
        Err(e) => Err(e),
        Ok((id, at1)) => match parse_action(b, at1) {
            Err(e) => Err(e),
            Ok((action, at2)) => match parse_text(b, at2) {
                Err(e) => Err(e),
                Ok((user, at3)) => match parse_record(b, at3) {
                    Err(e) => Err(e),
                    Ok((todo, at4)) => Ok((TodoActionsView { id, action, user, todo }, at4)),
                },
            },
        },
    }
}

/// The record that `b` begins with, or why it begins with none.
pub open spec fn decoded_record(b: Seq<u8>) -> Result<TodoView, DecodeError> {
    match parse_record(b, 0) {
        Ok((v, _)) => Ok(v),
        Err(e) => Err(e),
    }
}

/// The request that `b` begins with, or why it begins with none.
pub open spec fn decoded_request(b: Seq<u8>) -> Result<TodoActionsView, DecodeError> {
    match parse_request(b, 0) {
        Ok((v, _)) => Ok(v),
        Err(e) => Err(e),
    }
}

/// The four actions and the discriminants `0` to `3` stand for each other,
/// one to one.
pub proof fn law_action_tags(a: Action, tag: u8)
    ensures
        tag_action(action_tag(a)) == Some(a),
        tag_action(tag) is Some <==> tag <= 3,
        tag_action(tag) is Some ==> action_tag(tag_action(tag)->Some_0) == tag,
{
}

/// Where `b` holds `x + y` from `pos` on, it holds `x` at `pos` and `y` right
/// behind it.
proof fn lemma_split(b: Seq<u8>, pos: int, x: Seq<u8>, y: Seq<u8>)
    requires
        0 <= pos,
        pos + x.len() + y.len() <= b.len(),
        b.subrange(pos, pos + x.len() + y.len()) == x + y,
    ensures
        b.subrange(pos, pos + x.len()) == x,
        b.subrange(pos + x.len(), pos + x.len() + y.len()) == y,
{
    let whole = b.subrange(pos, pos + x.len() + y.len());
    assert(b.subrange(pos, pos + x.len()) =~= whole.subrange(0, x.len() as int));
    assert(whole.subrange(0, x.len() as int) =~= x);
    assert(b.subrange(pos + x.len(), pos + x.len() + y.len()) =~= whole.subrange(
        x.len() as int,
        (x.len() + y.len()) as int,
    ));
    assert(whole.subrange(x.len() as int, (x.len() + y.len()) as int) =~= y);
}

/// Where `b` holds `x` from `p` to `q` and `y` from `q` to `r`, it holds
/// `x + y` from `p` to `r`.
proof fn lemma_join(b: Seq<u8>, p: int, q: int, r: int, x: Seq<u8>, y: Seq<u8>)
    requires
        0 <= p <= q <= r <= b.len(),
        b.subrange(p, q) == x,
        b.subrange(q, r) == y,
    ensures
        b.subrange(p, r) == x + y,
{
    assert(b.subrange(p, r) =~= b.subrange(p, q) + b.subrange(q, r));
}

/// Reading at the place where a record was written gives the record back,
/// whatever stands before and behind it.
pub proof fn lemma_parse_record_wire(b: Seq<u8>, pos: int, v: TodoView)
    requires
        v.valid(),
        0 <= pos,
        pos + record_wire(v).len() <= b.len(),
        b.subrange(pos, pos + record_wire(v).len()) == record_wire(v),
    ensures
        parse_record(b, pos) == Ok::<(TodoView, int), DecodeError>(
            (v, pos + record_wire(v).len()),
        ),
{
    let f1 = text_wire(v.title);
    let f2 = i64_wire(v.created_time);
    let f3 = i64_wire(v.due_time);
    let f4 = bool_wire(v.completed);
    let f5 = text_wire(v.owner);
    lemma_i64_wire_len(v.created_time);
    lemma_i64_wire_len(v.due_time);
    let at1 = pos + f1.len();
    let at2 = at1 + 8;
    let at3 = at2 + 8;
    let at4 = at3 + 1;
    assert(record_wire(v) =~= f1 + (f2 + (f3 + (f4 + f5))));
    lemma_split(b, pos, f1, f2 + (f3 + (f4 + f5)));
    lemma_split(b, at1, f2, f3 + (f4 + f5));
    lemma_split(b, at2, f3, f4 + f5);
    lemma_split(b, at3, f4, f5);
    lemma_parse_text_wire(b, pos, v.title);
    lemma_parse_i64_wire(b, at1, v.created_time);
    lemma_parse_i64_wire(b, at2, v.due_time);
    assert(b[at3] == b.subrange(at3, at3 + 1)[0]);
    lemma_parse_text_wire(b, at4, v.owner);
}

/// A record that was read can be encoded, and is spelled by the bytes it
/// was read from.
pub proof fn lemma_parsed_record(b: Seq<u8>, pos: int)
    requires
        parse_record(b, pos) is Ok,
    ensures
        parse_record(b, pos)->Ok_0.0.valid(),
        pos < parse_record(b, pos)->Ok_0.1 <= b.len(),
        b.subrange(pos, parse_record(b, pos)->Ok_0.1) == record_wire(
            parse_record(b, pos)->Ok_0.0,
        ),
{
    let v = parse_record(b, pos)->Ok_0.0;
    let at1 = parse_text(b, pos)->Ok_0.1;
    let at2 = at1 + 8;
    let at3 = at2 + 8;
    let at4 = at3 + 1;
    let at5 = parse_text(b, at4)->Ok_0.1;
    lemma_parsed_text_fits(b, pos);
    lemma_parsed_i64(b, at1);
    lemma_parsed_i64(b, at2);
    assert(b.subrange(at3, at4) =~= bool_wire(v.completed));
    lemma_parsed_text_fits(b, at4);
    lemma_join(b, at3, at4, at5, bool_wire(v.completed), text_wire(v.owner));
    lemma_join(b, at2, at3, at5, i64_wire(v.due_time), bool_wire(v.completed) + text_wire(v.owner));
    lemma_join(
        b,
        at1,
        at2,
        at5,
        i64_wire(v.created_time),
        i64_wire(v.due_time) + (bool_wire(v.completed) + text_wire(v.owner)),
    );
    lemma_join(
        b,
        pos,
        at1,
        at5,
        text_wire(v.title),
        i64_wire(v.created_time) + (i64_wire(v.due_time) + (bool_wire(v.completed) + text_wire(
            v.owner,
        ))),
    );
    assert(record_wire(v) =~= text_wire(v.title) + (i64_wire(v.created_time) + (i64_wire(
        v.due_time,
    ) + (bool_wire(v.completed) + text_wire(v.owner)))));
}

/// Reading at the place where a request was written gives the request back,
/// whatever stands before and behind it.
pub proof fn lemma_parse_request_wire(b: Seq<u8>, pos: int, v: TodoActionsView)
    requires
        v.valid(),
        0 <= pos,
        pos + request_wire(v).len() <= b.len(),
        b.subrange(pos, pos + request_wire(v).len()) == request_wire(v),
    ensures
        parse_request(b, pos) == Ok::<(TodoActionsView, int), DecodeError>(
            (v, pos + request_wire(v).len()),
        ),
{
    let f1 = i64_wire(v.id);
    let f2 = seq![action_tag(v.action)];
    let f3 = text_wire(v.user);
    let f4 = record_wire(v.todo);
    lemma_i64_wire_len(v.id);
    let at1 = pos + 8;
    let at2 = at1 + 1;
    let at3 = at2 + f3.len();
    assert(request_wire(v) =~= f1 + (f2 + (f3 + f4)));
    lemma_split(b, pos, f1, f2 + (f3 + f4));
    lemma_split(b, at1, f2, f3 + f4);
    lemma_split(b, at2, f3, f4);
    lemma_parse_i64_wire(b, pos, v.id);
    assert(b[at1] == b.subrange(at1, at1 + 1)[0]);
    lemma_parse_text_wire(b, at2, v.user);
    lemma_parse_record_wire(b, at3, v.todo);
}

/// A request that was read can be encoded, and is spelled by the bytes it
/// was read from.
pub proof fn lemma_parsed_request(b: Seq<u8>, pos: int)
    requires
        parse_request(b, pos) is Ok,
    ensures
        parse_request(b, pos)->Ok_0.0.valid(),
        pos < parse_request(b, pos)->Ok_0.1 <= b.len(),
        b.subrange(pos, parse_request(b, pos)->Ok_0.1) == request_wire(
            parse_request(b, pos)->Ok_0.0,
        ),
{
    let v = parse_request(b, pos)->Ok_0.0;
    let at1 = pos + 8;
    let at2 = at1 + 1;
    let at3 = parse_text(b, at2)->Ok_0.1;
    let at4 = parse_record(b, at3)->Ok_0.1;
    lemma_parsed_i64(b, pos);
    assert(b.subrange(at1, at2) =~= seq![action_tag(v.action)]);
    lemma_parsed_text_fits(b, at2);
    lemma_parsed_record(b, at3);
    lemma_join(b, at2, at3, at4, text_wire(v.user), record_wire(v.todo));
    lemma_join(b, at1, at2, at4, seq![action_tag(v.action)], text_wire(v.user) + record_wire(v.todo));
    lemma_join(
        b,
        pos,
        at1,
        at4,
        i64_wire(v.id),
        seq![action_tag(v.action)] + (text_wire(v.user) + record_wire(v.todo)),
    );
    assert(request_wire(v) =~= i64_wire(v.id) + (seq![action_tag(v.action)] + (text_wire(v.user)
        + record_wire(v.todo))));
}

/// Decoding the encoding of a record gives the record, also when more bytes
/// follow it.
pub proof fn law_record_round_trip(v: TodoView, rest: Seq<u8>)
    requires
        v.valid(),
    ensures
        decoded_record(record_wire(v) + rest) == Ok::<TodoView, DecodeError>(v),
{
    let b = record_wire(v) + rest;
    assert(b.subrange(0, record_wire(v).len() as int) =~= record_wire(v));
    lemma_parse_record_wire(b, 0, v);
}

/// Decoding the encoding of a request gives the request, also when more
/// bytes follow it.
pub proof fn law_request_round_trip(v: TodoActionsView, rest: Seq<u8>)
    requires
        v.valid(),
    ensures
        decoded_request(request_wire(v) + rest) == Ok::<TodoActionsView, DecodeError>(v),
{
    let b = request_wire(v) + rest;
    assert(b.subrange(0, request_wire(v).len() as int) =~= request_wire(v));
    lemma_parse_request_wire(b, 0, v);
}

/// Only the encoding of a record decodes to it: an input that decodes to `v`
/// begins with the encoding of `v`, and `v` can be encoded.
pub proof fn law_decoded_record_is_prefix(b: Seq<u8>, v: TodoView)
    requires
        decoded_record(b) == Ok::<TodoView, DecodeError>(v),
    ensures
        v.valid(),
        record_wire(v).len() <= b.len(),
        b.subrange(0, record_wire(v).len() as int) == record_wire(v),
{
    lemma_parsed_record(b, 0);
}

/// Only the encoding of a request decodes to it: an input that decodes to
/// `v` begins with the encoding of `v`, and `v` can be encoded.
pub proof fn law_decoded_request_is_prefix(b: Seq<u8>, v: TodoActionsView)
    requires
        decoded_request(b) == Ok::<TodoActionsView, DecodeError>(v),
    ensures
        v.valid(),
        request_wire(v).len() <= b.len(),
        b.subrange(0, request_wire(v).len() as int) == request_wire(v),
{
    lemma_parsed_request(b, 0);
}

/// Appends the encoding of `t` to `out`.
pub fn put_record(out: &mut Vec<u8>, t: &Todo)
    requires
        t@.valid(),
    ensures
        final(out)@ == old(out)@ + record_wire(t@),
{
    put_text(out, t.title.as_str());
    put_i64(out, t.created_time);
    put_i64(out, t.due_time);
    put_bool(out, t.completed);
    put_text(out, t.owner.as_str());
    assert(out@ =~= old(out)@ + record_wire(t@));
}

/// Encodes a record.
pub fn encode_record(t: &Todo) -> (bytes: Vec<u8>)
    requires
        t@.valid(),
    ensures
        bytes@ == record_wire(t@),
        decoded_record(bytes@) == Ok::<TodoView, DecodeError>(t@),
{
    let mut out: Vec<u8> = Vec::new();
    put_record(&mut out, t);
    proof {
        assert(out@ =~= record_wire(t@));
        law_record_round_trip(t@, Seq::empty());
        assert(record_wire(t@) + Seq::<u8>::empty() =~= record_wire(t@));
    }
    out
}

/// Encodes a request.
pub fn encode_request(r: &TodoActions) -> (bytes: Vec<u8>)
    requires
        r@.valid(),
    ensures
        bytes@ == request_wire(r@),
        decoded_request(bytes@) == Ok::<TodoActionsView, DecodeError>(r@),
{
    let mut out: Vec<u8> = Vec::new();
    put_i64(&mut out, r.id);
    out.push(
        match r.action {
            Action::Create => 0,
            Action::Read => 1,
            Action::Delete => 2,
            Action::MarkComplete => 3,
        },
    );
    put_text(&mut out, r.user.as_str());
    put_record(&mut out, &r.todo);
    proof {
        assert(out@ =~= request_wire(r@));
        law_request_round_trip(r@, Seq::empty());
        assert(request_wire(r@) + Seq::<u8>::empty() =~= request_wire(r@));
    }
    out
}

/// Reads an action discriminant at `pos`.
pub fn read_action(bytes: &[u8], pos: usize) -> (r: Result<(Action, usize), DecodeError>)
    ensures
        match r {
            Ok((a, next)) => parse_action(bytes@, pos as int) == Ok::<(Action, int), DecodeError>(
                (a, next as int),
            ),
            Err(e) => parse_action(bytes@, pos as int) == Err::<(Action, int), DecodeError>(e),
        },
{
    if pos >= bytes.len() {
        return Err(DecodeError::Truncated);
    }
    let tag = bytes[pos];
    if tag == 0 {
        Ok((Action::Create, pos + 1))
    } else if tag == 1 {
        Ok((Action::Read, pos + 1))
    } else if tag == 2 {
        Ok((Action::Delete, pos + 1))
    } else if tag == 3 {
        Ok((Action::MarkComplete, pos + 1))
    } else {
        Err(DecodeError::UnknownAction)
    }
}

/// Reads a record at `pos`.
pub fn read_record(bytes: &[u8], pos: usize) -> (r: Result<(Todo, usize), DecodeError>)
    ensures
        match r {
            Ok((t, next)) => parse_record(bytes@, pos as int) == Ok::<(TodoView, int), DecodeError>(
                (t@, next as int),
            ),
            Err(e) => parse_record(bytes@, pos as int) == Err::<(TodoView, int), DecodeError>(e),
        },
{
    let (title, at1) = match read_text(bytes, pos) {
        Ok(pair) => pair,
        Err(e) => {
            return Err(e);
        },
    };
    let (created_time, at2) = match read_i64(bytes, at1) {
        Ok(pair) => pair,
        Err(e) => {
            return Err(e);
        },
    };
    let (due_time, at3) = match read_i64(bytes, at2) {
        Ok(pair) => pair,
        Err(e) => {
            return Err(e);
        },
    };
    let (completed, at4) = match read_bool(bytes, at3) {
        Ok(pair) => pair,
        Err(e) => {
            return Err(e);
        },
    };
    let (owner, at5) = match read_text(bytes, at4) {
        Ok(pair) => pair,
        Err(e) => {
            return Err(e);
        },
    };
    Ok((Todo { title, created_time, due_time, completed, owner }, at5))
}

/// Decodes the record that `bytes` begins with. It succeeds exactly on the
/// inputs that begin with the encoding of a record.
pub fn decode_record(bytes: &[u8]) -> (r: Result<Todo, DecodeError>)
    ensures
        match r {
            Ok(t) => decoded_record(bytes@) == Ok::<TodoView, DecodeError>(t@) && t@.valid(),
            Err(e) => decoded_record(bytes@) == Err::<TodoView, DecodeError>(e),
        },
{
    match read_record(bytes, 0) {
        Ok((t, _)) => {
            proof {
                lemma_parsed_record(bytes@, 0);
            }
            Ok(t)
        },
        Err(e) => Err(e),
    }
}

/// Decodes the request that `bytes` begins with. It succeeds exactly on the
/// inputs that begin with the encoding of a request.
pub fn decode_request(bytes: &[u8]) -> (r: Result<TodoActions, DecodeError>)
    ensures
        match r {
            Ok(t) => decoded_request(bytes@) == Ok::<TodoActionsView, DecodeError>(t@)
                && t@.valid(),
            Err(e) => decoded_request(bytes@) == Err::<TodoActionsView, DecodeError>(e),
        },
{
    let (id, at1) = match read_i64(bytes, 0) {
        Ok(pair) => pair,
        Err(e) => {
            return Err(e);
        },
    };
    let (action, at2) = match read_action(bytes, at1) {
        Ok(pair) => pair,
        Err(e) => {
            return Err(e);
        },
    };
    let (user, at3) = match read_text(bytes, at2) {
        Ok(pair) => pair,
        Err(e) => {
            return Err(e);
        },
    };
    let (todo, _) = match read_record(bytes, at3) {
        Ok(pair) => pair,
        Err(e) => {
            return Err(e);
        },
    };
    proof {
        lemma_parsed_request(bytes@, 0);
    }
    Ok(TodoActions { id, action, user, todo })
}

} // verus!
