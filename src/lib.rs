//! Read-only proxy core for a hosted tabular record store.
//!
//! - [`cache`]: raw responses memoised by canonical request URL, with hit and
//!   miss counters.
//! - [`fetch`]: the fetch context, which builds request URLs, reads through
//!   the cache, and stops a computation when a response is still to be fetched.
//! - [`request`]: lookups by id or by an equality filter, resolved to records.
//! - [`schema`]: tables, fields and the transform chain of each field.
//! - [`transform`]: the steps of a chain.
//! - [`hydrate`]: records built field by field, linked records nested in.
//! - [`record`], [`json`], [`error`]: the data the others share.

pub mod cache;
pub mod error;
pub mod fetch;
pub mod hydrate;
pub mod json;
pub mod record;
pub mod request;
pub mod schema;
pub mod transform;
