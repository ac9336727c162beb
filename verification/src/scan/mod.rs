//! The scan itself: results, the two-pass protocol and the engine.

pub mod engine;
pub mod model;
pub mod probe;
pub mod protocol;
pub mod result;
pub mod scanner;

pub use engine::Engine;
pub use result::SearchResult;
pub use scanner::scan_username;
