//! Presence aggregation: heartbeats from client agents, a fixed-record store
//! of per-bucket and per-country state, and a slowly drifting shared seed.
pub mod accounting;
pub mod bytes;
pub mod client;
pub mod country;
pub mod geo;
pub mod records;
pub mod region;
pub mod smoothing;
pub mod store;
pub mod wire;
