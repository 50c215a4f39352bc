//! Domain model types: issues, their status, priority and kind, relations
//! between issues, labels and the records derived from them.

pub mod activity;
pub mod comment;
pub mod conflict;
pub mod export;
pub mod file;
pub mod issue;
pub mod label;
pub mod priority_order;
pub mod relation;
