//! The rendering and cursor-tracking engine of a terminal typing-speed tester.
//!
//! The library turns words into length-aware, stylable text, wraps a word list
//! into a centred block that fits the terminal, and tracks a caret through the
//! wrapped lines. It never touches the terminal itself: every operation returns
//! the characters to send, and takes what the terminal reported as arguments.

pub mod config;
pub mod cursor;
pub mod decimal;
pub mod error;
pub mod escape;
pub mod layout;
pub mod text;
pub mod tui;
pub mod wordlists;

pub use error::TypeingError;
