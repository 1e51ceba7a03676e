pub mod error;
pub mod source;
pub mod span;
