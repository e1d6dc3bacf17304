//! A small URL-shortening library: bearer tokens gate the registration of
//! short paths that redirect to target URLs, and both tokens and mappings may
//! carry an expiry instant.  The stores keep at most one row per key,
//! re-insertion replaces the old row, and every read treats an expired row as
//! absent.

pub mod serve;
pub mod shorter;
pub mod token;
pub mod ttl;
