//! The command line of the client.
pub mod args;
pub mod output;
pub mod repl;
pub mod sql;
