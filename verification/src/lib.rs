//! `bmo`: a local-first issue tracker. This crate holds its verified core:
//! the domain model and its textual forms, the filter and query description
//! used to list issues, the decisions taken around database reads and
//! writes (claims, parent and dependency cycle checks, grouping of file
//! conflicts), and the pure parts of the command-line front end.

pub mod text;
pub mod errors;
pub mod model;
pub mod graph;
pub mod hierarchy;
pub mod cli;
pub mod filter;
pub mod db;
pub mod output;
pub mod config;
