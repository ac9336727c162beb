//! Plain data about sites.

pub mod site_info;

pub use site_info::{SiteInfo, SiteType};
