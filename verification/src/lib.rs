//! Keeps configuration files in a project directory and links them back to
//! the places where programs look for them, with a separate managed copy for
//! each named system where one is wanted.

pub mod actions;
pub mod config;
pub mod error;
pub mod laws;
pub mod link;
pub mod name_map;
pub mod path;
pub mod plan;
pub mod snapshot;
pub mod source;
pub mod text;
pub mod variable_path;
