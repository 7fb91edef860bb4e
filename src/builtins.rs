//! The argument parsers of the built-in commands.
pub mod cat;
pub mod grep;
pub mod head_tail;
pub mod ls;
pub mod mkdir;
pub mod rm;
