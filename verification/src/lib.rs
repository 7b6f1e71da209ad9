//! Core of a feed aggregation pipeline: ingest items from an external feed,
//! enrich each with a relevance judgment parsed from a language-model reply,
//! persist the enriched rows, and serve filtered/sorted views of them.
//!
//! The store is modeled as an in-memory table of rows with a unique external
//! identifier per row; every operation on it carries a full functional
//! contract. Network and clock effects stay outside: the cycle functions take
//! the outcome of each external call as an argument and are verified for every
//! possible outcome.

pub mod analysis;
pub mod cycle;
pub mod errors;
pub mod laws;
pub mod models;
pub mod config;
pub mod query;
pub mod repository;
pub mod sorting;
pub mod text;
