//! The plain state of the list, filter, info and map widgets, and how messages change
//! it. Drawing them is left to the front end.
pub mod country_filter;
pub mod country_info;
pub mod country_list;
pub mod world_map;

pub use country_info::{CountryInfo, CountryInfoMessage};
