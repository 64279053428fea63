//! Line-oriented text search: select the lines of a text that contain a
//! query, with or without regard to letter case.
pub mod config;
pub mod laws;
pub mod search;
pub mod text;
