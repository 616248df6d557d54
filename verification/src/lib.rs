//! A schema-driven gateway in front of an analytical column store.
//!
//! Operators declare blocks (fact tables) with typed dimensions and measures;
//! clients ask for some of those fields by name. The gateway checks the names
//! against the schema, compiles the selection into one aggregate SQL
//! statement, narrows it by a row filter drawn from the caller's claims, and
//! strips the envelope from the store's answer.
//!
//! - [`schema`]: blocks, dimensions and measures.
//! - [`store`]: schema snapshots and the store that holds the current one.
//! - [`auth`]: bearer tokens, claims and the row-filter value.
//! - [`api`]: requests, their validation and the statement planned for them.
//! - [`query`]: the compiler from a validated selection to SQL.
//! - [`sanitize`]: the clean-up of the store's answer.
//! - [`response`]: how failures are reported.
//! - [`json`]: what is taken on trust of `serde_json`.
//! - [`text`]: string helpers.

pub mod api;
pub mod auth;
pub mod json;
pub mod query;
pub mod response;
pub mod sanitize;
pub mod schema;
pub mod store;
pub mod text;
