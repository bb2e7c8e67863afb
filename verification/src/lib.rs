//! A message-driven store of to-do records.
//!
//! - `wire` and `codec`: the binary layout of records and requests.
//! - `crypt`: sealing of stored records under a key derived from the owner's
//!   name.
//! - `path` and `store`: where a record is kept, and what a faithful store
//!   answers.
//! - `engine` and `dispatch`: the state machine that turns one inbound
//!   message into operations on the store.
//! - `model`: what a whole inbox does to a faithful store.
//! - `todo`: the record and the request themselves.

pub mod codec;
pub mod crypt;
pub mod dispatch;
pub mod engine;
pub mod model;
pub mod path;
pub mod store;
pub mod todo;
pub mod wire;
