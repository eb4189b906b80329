//! What holds of every audit.

pub mod checks;
pub mod input;
pub mod lease;
pub mod operations;
pub mod outcome;
pub mod report;
pub mod source;
pub mod stream;
pub mod wording;
