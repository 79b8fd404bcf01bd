//! The request/response engine: frames, request identifiers and the table
//! of calls that wait for their response.

pub mod connection;
pub mod frame;
