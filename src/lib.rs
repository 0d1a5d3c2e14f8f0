//! Collects one value from a user at a terminal: a line of text or a selection from a
//! list, checked by a chain of rules while it is typed and when it is submitted.
//!
//! The rules and the engine that runs them, the sorted summary of a run, the line editor
//! and the choice menu (as key-by-key state machines) and the screen layout are verified;
//! reading keys and drawing are left to the caller.

pub mod priority;
pub mod text;
pub mod result;
pub mod summary;
pub mod matching;
pub mod basic;
pub mod choice;
pub mod format;
pub mod numeric;
pub mod filesystem;
pub mod datetime;
pub mod engine;
pub mod laws;
pub mod setup;
pub mod editor;
pub mod layout;
pub mod terminal;
pub mod config;
pub mod output;
