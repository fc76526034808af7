//! Merging of RSS feeds: the entries of several feeds are united into one
//! feed, without repeating an identifier, and the result may be capped.

pub mod entry;
pub mod feed;
pub mod model;
pub mod merge;
pub mod guarantees;
pub mod combine;
