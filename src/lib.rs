//! Persistence and credential layer of a reading-progress synchronisation server.
//!
//! - [`model`]: users, progress records and their keys.
//! - [`codec`]: the byte form of each record, and the order of progress keys.
//! - [`config`]: server settings from the values of environment variables.
//! - [`credential`]: salted memory-hard password hashing and verification.
//! - [`schema`]: the two tables and what each service operation reads and writes.
//! - [`error`]: errors of the service and of the model.
pub mod codec;
pub mod config;
pub mod credential;
pub mod error;
pub mod model;
pub mod schema;
