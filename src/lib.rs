//! A feedback record service: the record model, request schemas, an ordered
//! in-memory feedback table, and the list / create / get / update / delete
//! operations with the rules that map store outcomes to service errors.

pub mod laws;
pub mod model;
pub mod schema;
pub mod service;
pub mod store;
