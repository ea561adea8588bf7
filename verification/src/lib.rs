//! Schema-aggregation and request-routing engine for a set of
//! independently-configured backend servers.
//!
//! Each backend exposes readable resources and invocable tools; this crate
//! builds the merged virtual schema over all backends (collections from
//! resources, functions from read-only tools, procedures from mutating
//! tools) and resolves incoming qualified names back to the backend and
//! operation they came from.  Transports and wire formats live outside the
//! library; the library works on plain values.

pub mod capability;
pub mod classify;
pub mod config;
pub mod input_schema;
pub mod names;
pub mod ndc;
pub mod router;
pub mod schema;
pub mod state;
pub mod translate;
