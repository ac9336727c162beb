//! Shared helpers: errors, text handling, username validation.

pub mod error;
pub mod text;
pub mod validation;
