//! Look up and render the items of a crate's rustdoc JSON.
pub mod model;
pub mod strings;
pub mod render;
pub mod fetch;
pub mod lookup;
pub mod query;
pub mod cli;
pub mod workspace;
