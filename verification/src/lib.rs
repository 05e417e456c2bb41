//! The core of a small interactive shell: the tokenizer that turns a line of
//! input into a command plan, and the decisions of the loop that walks it.
//! Reading lines, launching programs and changing directory are left to the
//! program that uses this library.

pub mod colors;
pub mod control;
pub mod executor;
pub mod line;
pub mod prompt;
pub mod tokens;
pub mod words;
