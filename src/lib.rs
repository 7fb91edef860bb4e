//! The core of a small line-oriented shell: splitting a command line into
//! tokens (quotes, comments, brace expansion, operators), resolving each
//! segment's redirections and pipe, parsing the built-in commands' arguments,
//! the built-ins' line logic, and the order in which the segments of a line
//! run and are logged. Reading lines, opening files and pipes, and running
//! jobs on threads are left to the caller.
pub mod brace;
pub mod builtins;
pub mod command;
pub mod dispatch;
pub mod job;
pub mod redirect;
pub mod text;
pub mod tokenize;
