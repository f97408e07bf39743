//! A personal media-catalog library: an in-memory document of movies, tags
//! and books, mutation operations that keep its nested sorted sequences
//! well-formed, and the two cache-fill protocols (metadata enrichment and
//! binary asset cache) that decide when an external provider must be called.
//!
//! Calendar dates are carried as plain `u64` day codes; any order-preserving
//! encoding (a day count, or a `yyyymmdd`-style code) works, as the library
//! only compares dates for order and equality. Floating-point provider scores
//! and watch speeds are carried opaquely as their IEEE-754 bit patterns.

pub mod assets;
pub mod assoc;
pub mod decimal;
pub mod enrich;
pub mod error;
pub mod olid;
pub mod openlib;
pub mod ratings;
pub mod readings;
pub mod schema;
pub mod sorted;
pub mod store;
