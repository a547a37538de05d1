//! The database model and the queries the library builds.
pub mod models;
pub mod queries;
