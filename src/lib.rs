//! A persisted, deduplicated list of file references, and the rules that
//! decide how it is loaded, extended, listed and printed.

pub mod commands;
pub mod error;
pub mod laws;
pub mod state;
pub mod walk;

pub use error::AppError;
pub use state::{FileEntry, State};
