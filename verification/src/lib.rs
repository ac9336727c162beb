//! Sleuth looks a username up on many sites.
//!
//! The library holds what can be decided without the network:
//!
//! - `sites`: the description of a site, the sites that the library knows
//!   with their rules for reading a response, and the registry that filters
//!   them;
//! - `scan`: the two-pass scan as a state machine, the rules of one probe,
//!   a driver that sends one probe after the other, and what the results of
//!   a scan amount to;
//! - `request`: responses, the interface of a transport and the settings of
//!   the transports;
//! - `cli`: the arguments of a search and the lines of its output;
//! - `data`, `utils`: categories, errors, text handling, validation.
//!
//! Transports that reach the network, and a driver that sends the probes of
//! a pass at once, live with the caller.

pub mod cli;
pub mod data;
pub mod request;
pub mod scan;
pub mod sites;
pub mod utils;

pub use data::site_info::{SiteInfo, SiteType};
pub use scan::result::SearchResult;
pub use sites::Site;
pub use utils::error::SleuthError;
