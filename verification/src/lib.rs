//! Verified core of a three-entity CRUD service: users, payment cards and
//! banks, each with validated creation, paginated browsing and hard deletion.
//!
//! The store is modelled by an in-memory table per entity; identifiers are
//! assigned by the table and never reused, and uniqueness conflicts are
//! classified and translated into the domain error taxonomy.

pub mod bank;
pub mod browse;
pub mod card;
pub mod date;
pub mod errors;
pub mod tags;
pub mod user;
pub mod patterns;
pub mod store;
pub mod text;
pub mod validate;

pub use browse::Browse;
pub use errors::ValidationError;
pub use errors::ValidationErrorBody;
