//! What the command line hands to the library, and what it prints.

pub mod args;
pub mod output;

pub use args::Args;
