pub mod config;
pub mod lines;
pub mod search;
pub mod laws;
