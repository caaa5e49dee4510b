//! Parsing, checking and planning the expansion of declarative API endpoint
//! specifications.
pub mod token;
pub mod grammar;
pub mod parse;
pub mod api;
pub mod capability;
pub mod descriptor;
pub mod expand;
pub mod laws;
