//! Read-only query layer over a blogging schema: posts, per-post metadata,
//! terms, term taxonomies and the relationships between posts and taxonomies.
//!
//! The library validates requests, builds post predicates, orders and pages
//! results, resolves categories through the taxonomy join tables and
//! aggregates post types. An in-memory `Store` evaluates every query exactly,
//! so the semantics of each operation is stated and proved over plain data.

pub mod api;
pub mod config;
pub mod db;
pub mod error;
pub mod models;
pub mod query;
pub mod text;
