//! Weather lookup by city name or coordinates.
//!
//! The library is the pure core of a small weather service: it builds the
//! outbound requests for a geocoding endpoint and a forecast endpoint,
//! parses their JSON replies, sanitizes upstream responses to a hardened
//! header set, and renders the user-facing result strings. Performing the
//! actual HTTP calls is left to the embedding program, which drives the
//! request/response state machine in [`orchestrate`].

pub mod dec;
pub mod encoding;
pub mod geocode;
pub mod json;
pub mod orchestrate;
pub mod sanitize;
pub mod weather;

pub use dec::Dec;
pub use geocode::Coordinate;
