//! Automation of interactive terminal programs.
//!
//! The crate drives a child process attached to a pseudo-terminal: bytes the
//! child writes are collected in a retention buffer, needles search that
//! buffer, and a line-oriented script language describes whole interactive
//! sessions.  The operating-system binding is abstract: a session works over
//! any [`stream::SessionStream`], so the matching and parsing logic here is
//! independent of the concrete terminal.

pub mod captures;
pub mod clock;
pub mod command;
pub mod control;
pub mod env;
pub mod error;
pub mod interpreter;
pub mod log;
pub mod matching;
pub mod needle;
pub mod parser;
pub mod repl;
pub mod script;
pub mod session;
pub mod stream;
pub mod text;
pub mod typing;

pub use captures::Captures;
pub use error::Error;
pub use error::LexError;
pub use needle::{Any, Eof, NBytes, Needle, Regex};
pub use session::Session;
