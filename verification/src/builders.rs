//! Fluent builders for ontology definitions.

pub mod action;
pub mod agent;
pub mod datasource;
pub mod role;
pub mod link;
pub mod property;
pub mod operations;
