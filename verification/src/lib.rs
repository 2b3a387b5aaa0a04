//! Catalog ingestion and free-text search for a fixed set of storefronts:
//! record normalization, paged fetching with rate-limit backoff, the
//! replace-per-store write discipline, and filter matching in two renderings.

pub mod conditions;
pub mod config;
pub mod decimal;
pub mod error;
pub mod fetcher;
pub mod filters;
pub mod model;
pub mod normalizer;
pub mod orchestrator;
pub mod paginator;
pub mod persistence;
pub mod search;
pub mod sql;
pub mod text;
pub mod words;
