//! A record/replay caching reverse proxy, as a verified core.
//!
//! The crate holds the request fingerprint, the body codec, the cache
//! store and the decision pipeline of the proxy. Transport, the upstream
//! client and process start-up live with the caller.

pub mod body;
pub mod cache;
pub mod cache_api;
pub mod config;
pub mod document;
pub mod fingerprint;
pub mod headers;
pub mod proxy;
pub mod transport;
