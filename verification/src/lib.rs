//! A typed relationship graph between tasks, with blocking constraints.
//!
//! Tasks are linked by directed, typed edges. An edge type may forbid the
//! target task from entering certain statuses while the source task is in
//! a blocking status.
//!
//! - [`database`] holds the store: the tables and their invariant.
//! - [`models`] holds the rows and the operations on them: relationship
//!   types, relationships, tasks, task templates and their groups.
//! - [`blocking`] decides whether a task may enter a status.
//! - [`routes`] and [`mcp`] hold what the HTTP handlers and the tool
//!   server decide between reading a request and writing an answer.
//! - [`laws`] states what holds of the engine as a whole.
//! - [`status`], [`error`], [`timestamp`], [`ids`], [`codec`], [`text`]
//!   and [`table`] are what the others stand on.

pub mod blocking;
pub mod codec;
pub mod database;
pub mod error;
pub mod ids;
pub mod laws;
pub mod mcp;
pub mod models;
pub mod routes;
pub mod status;
pub mod table;
pub mod text;
pub mod timestamp;
