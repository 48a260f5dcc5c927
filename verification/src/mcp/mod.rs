//! What the tool server computes between its calls to the HTTP API.

pub mod task_server;
