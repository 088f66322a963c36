//! Building blocks for line-oriented command interpreters.
//!
//! - [`cmd`]: the registry of named handlers and the dispatch loop.
//! - [`tokenizer`]: splits an input line into a command name and its arguments.
//! - [`command_handler`]: the capability every command implements.
//! - [`handlers`]: ready-made handlers.
pub mod cmd;
pub mod command_handler;
pub mod handlers;
pub mod tokenizer;
