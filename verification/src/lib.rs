//! A small in-memory todo-list library.
//!
//! The heart of the crate is [`store::Store`]: an ordered list of text items
//! with append, remove-first-occurrence, clear and read-all operations, each
//! specified over a mathematical view of the list as a sequence of character
//! sequences. Submitted text has every literal `"` character removed before
//! it is stored or compared.
//!
//! Around the store sit the pieces a two-tier todo application needs:
//! [`codec`] renders a list as a JSON array of strings for the wire,
//! [`server`] maps the four HTTP operations onto store calls, and
//! [`client`] is the browser-side state machine that turns user events into
//! requests and server responses into new UI state.

pub mod client;
pub mod codec;
pub mod server;
pub mod store;
