//! A verified core for a minimal task-list service.
//!
//! The library models the one table of the service (`tasks`), the five
//! request handlers that operate on it, the route matching of the HTTP
//! layer, and the JSON rendering of a task.  Every function here carries a
//! contract that pins its result down; the surrounding process (HTTP and
//! database I/O) lives outside the library and hands it plain values.

pub mod error;
pub mod todo;
pub mod store;
pub mod laws;
pub mod text;
pub mod json;
pub mod handlers;
pub mod router;
pub mod form;
