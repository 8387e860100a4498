//! An in-memory to-do service: task records, the store that holds them,
//! and the request handlers that map requests onto store operations.
//!
//! Every handler is a function from the store and the decoded request to a
//! status code and a body, so a server only has to guard the store, decode
//! the request and encode what comes back. A handler that reads takes the
//! store by `&`, one that writes by `&mut`: whoever calls it has the store
//! to itself for the whole operation.
//!
//! - [`todo`]: the task record and the request bodies.
//! - [`store`]: the store and its five operations.
//! - [`ident`]: identifiers, drawn as random UUIDs.
//! - [`status`]: the status codes of the responses.
//! - [`handlers`]: the handler of each route, and the response to a request
//!   that failed in the middleware.
//! - [`config`]: listen address and request timeout.
//! - [`laws`]: what holds of the operations taken together.

pub mod config;
pub mod handlers;
pub mod ident;
pub mod laws;
pub mod status;
pub mod store;
pub mod todo;
