//! Verified core of the RawTree command-line client: configuration
//! resolution, request paths, authentication context selection, ingestion
//! stream accounting, log query building and query result rendering.
use vstd::prelude::*;

pub mod auth;
pub mod cluster;
pub mod config;
pub mod database;
pub mod insert;
pub mod keys;
pub mod logs;
pub mod text;
pub mod urlenc;
pub mod open;
pub mod org;
pub mod output;
pub mod query;
pub mod resolve;

verus! {

} // verus!
