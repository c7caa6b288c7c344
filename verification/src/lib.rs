//! The rules of a code search tool, verified: what a command line asks for,
//! when an index entry is stale, how files are cut into chunks, how results
//! are ranked, fused and cut, and what is said to the user. Reading files,
//! waiting and printing are left to the caller.

pub mod commands;
pub mod dispatcher;
pub mod download;
pub mod engine;
pub mod error;
pub mod models;
pub mod retry;
pub mod text;
