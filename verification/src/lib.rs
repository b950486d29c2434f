//! Session and query control for browsing the rows of a time-series database.

pub mod config;
pub mod host;
pub mod message;
pub mod td;
pub mod text;
pub mod widths;
