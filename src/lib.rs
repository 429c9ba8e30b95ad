//! Client-side routing for a distributed database: resolving tables to the
//! endpoints that serve them, through a cache that is filled on misses.

pub mod cache;
pub mod config;
pub mod model;
pub mod raw;
pub mod router;
