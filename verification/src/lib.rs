//! Incremental retrieval of log events from a remote backend, in the manner of
//! `tail -f`: the start of the time window, the query of each cycle, the
//! cursor that leads from one answer to the next query, and the poll cycle
//! that strings the queries together.

pub mod span;
pub mod window;
pub mod request;
pub mod event;
pub mod cursor;
pub mod emit;
pub mod fetch;
pub mod cli;
pub mod config;
pub mod poll;
pub mod groups;
