//! Core of a GraphQL-to-graph-database API server: compiles client field
//! selections into graph queries and resolves the database's JSON answers
//! back into typed field values.

pub mod engine;
pub mod error;
pub mod fingerprint;
pub mod json;
pub mod person;
pub mod query;
pub mod resolve;
pub mod response;
pub mod selection;
pub mod translate;
pub mod validate;
