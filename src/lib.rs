//! Decorates byte output with ANSI foreground colors.
//!
//! The library holds a writer's color selection and computes the exact bytes
//! that a print sends; binding a writer to a live standard stream is left to
//! the caller.
pub mod color;
pub mod escape;
pub mod writer;

pub use color::SupportedColors;
pub use writer::{ColorWriter, StandardStreamTypes};
