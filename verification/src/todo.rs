//! The record, the actions on it, and the request that names one of them.

use vstd::prelude::*;
use crate::codec::decode_record;
use crate::codec::encode_record;
use crate::crypt::open;
use crate::crypt::seal;
use crate::engine::sealed_record;
use crate::engine::stored_record;
use crate::engine::EngineError;
use crate::wire::text_fits;
use crate::wire::text_is_encodable;

verus! {

/// The largest inbound message that carries a request, tag byte included.
pub const MAX_TODO_PAYLOAD_SIZE: usize = 2048;

/// The largest encoded request, the tag byte left out.
pub const MAX_TODO_SIZE: usize = MAX_TODO_PAYLOAD_SIZE - 1;

/// A to-do item as it is stored.
#[derive(Debug, Clone, PartialEq, Eq)]
pub struct Todo {
    pub title: String,
    pub created_time: i64,
    pub due_time: i64,
    pub completed: bool,
    /// The user who controls the record; empty means unassigned.
    pub owner: String,
}

/// What a `Todo` holds, as mathematical values.
pub ghost struct TodoView {
    pub title: Seq<char>,
    pub created_time: i64,
    pub due_time: i64,
    pub completed: bool,
    pub owner: Seq<char>,
}

impl TodoView {
    /// Both texts are short enough for the wire format.
    pub open spec fn valid(self) -> bool {
        text_fits(self.title) && text_fits(self.owner)
    }

    /// The same record, marked complete.
    pub open spec fn complete(self) -> TodoView {
        TodoView { completed: true, ..self }
    }

    /// The same record under `owner`.
    pub open spec fn owned_by(self, owner: Seq<char>) -> TodoView {
        TodoView { owner, ..self }
    }
}

impl View for Todo {
    type V = TodoView;

    open spec fn view(&self) -> TodoView {
        TodoView {
            title: self.title@,
            created_time: self.created_time,
            due_time: self.due_time,
            completed: self.completed,
            owner: self.owner@,
        }
    }
}

impl Default for Todo {
    /// The empty record: no title, both times zero, not completed, no owner.
    fn default() -> (t: Todo)
        ensures
            t@ == (TodoView {
                title: Seq::<char>::empty(),
                created_time: 0,
                due_time: 0,
                completed: false,
                owner: Seq::<char>::empty(),
            }),
    {
        Todo::new(String::new(), 0, 0, false, String::new())
    }
}

impl Todo {
    /// A record of the given fields.
    pub fn new(
        title: String,
        created_time: i64,
        due_time: i64,
        completed: bool,
        owner: String,
    ) -> (t: Todo)
        ensures
            t.title == title,
            t.created_time == created_time,
            t.due_time == due_time,
            t.completed == completed,
            t.owner == owner,
    {
        Todo { title, created_time, due_time, completed, owner }
    }

    /// Whether the record can be encoded: see `TodoView::valid`.
    pub fn is_valid(&self) -> (b: bool)
        ensures
            b == self@.valid(),
    {
        text_is_encodable(self.title.as_str()) && text_is_encodable(self.owner.as_str())
    }

    /// Sets the completion flag and nothing else.
    pub fn set_completed(&mut self, completed: bool)
        ensures
            final(self)@ == (TodoView { completed, ..old(self)@ }),
    {
        self.completed = completed;
    }

    /// The completion flag.
    pub fn is_completed(&self) -> (b: bool)
        ensures
            b == self.completed,
    {
        self.completed
    }

    /// Whether a due time is set and lies before the time of creation.
    pub fn is_due(&self) -> (b: bool)
        ensures
            b == (self.due_time > 0 && self.due_time < self.created_time),
    {
        self.due_time > 0 && self.due_time < self.created_time
    }

    /// Whether `user` is the owner of the record.
    pub fn accessible_by(&self, user: &str) -> (b: bool)
        ensures
            b == (self.owner@ == user@),
    {
        self.owner == user.to_owned()
    }

    /// The stored value of the record: its encoding, sealed under its owner.
    /// Read by the owner, the value gives the record back.
    pub fn encrypt(&self) -> (sealed: Vec<u8>)
        requires
            self@.valid(),
        ensures
            sealed@ == sealed_record(self@),
            stored_record(sealed@, self@.owner) == Ok::<TodoView, EngineError>(self@),
    {
        let plain = encode_record(self);
        seal(plain.as_slice(), self.owner.as_str())
    }

    /// The record that the stored value `bytes` holds for a reader named
    /// `owner`. It fails where the value cannot be opened under that name,
    /// and where what comes out is no record.
    pub fn decrypt(bytes: &[u8], owner: &str) -> (r: Result<Todo, EngineError>)
        ensures
            match r {
                Ok(t) => stored_record(bytes@, owner@) == Ok::<TodoView, EngineError>(t@)
                    && t@.valid(),
                Err(e) => stored_record(bytes@, owner@) == Err::<TodoView, EngineError>(e),
            },
    {
        let plain = match open(bytes, owner) {
            Ok(plain) => plain,
            Err(e) => {
                return Err(EngineError::Crypto(e));
            },
        };
        match decode_record(plain.as_slice()) {
            Ok(t) => Ok(t),
            Err(e) => Err(EngineError::Decode(e)),
        }
    }
}

/// What a request asks for.
#[derive(Debug, Clone, Copy, PartialEq, Eq, Structural)]
pub enum Action {
    Create,
    Read,
    Delete,
    MarkComplete,
}

/// A decoded inbound user message: an action by `user` on the record `id`.
#[derive(Debug, Clone, PartialEq, Eq)]
pub struct TodoActions {
    pub id: i64,
    pub action: Action,
    pub user: String,
    /// The record to store; only `Create` reads it.
    pub todo: Todo,
}

/// What a `TodoActions` holds, as mathematical values.
pub ghost struct TodoActionsView {
    pub id: i64,
    pub action: Action,
    pub user: Seq<char>,
    pub todo: TodoView,
}

impl TodoActionsView {
    /// The user's name and the record are short enough for the wire format.
    pub open spec fn valid(self) -> bool {
        text_fits(self.user) && self.todo.valid()
    }
}

impl View for TodoActions {
    type V = TodoActionsView;

    open spec fn view(&self) -> TodoActionsView {
        TodoActionsView { id: self.id, action: self.action, user: self.user@, todo: self.todo@ }
    }
}

impl TodoActions {
    /// Whether the request can be encoded: see `TodoActionsView::valid`.
    pub fn is_valid(&self) -> (b: bool)
        ensures
            b == self@.valid(),
    {
        text_is_encodable(self.user.as_str()) && self.todo.is_valid()
    }
}

} // verus!
