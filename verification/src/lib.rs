//! A verified core for a wireless-network controller exporter: session
//! lifecycle against the controller's REST API, filtered paginated queries,
//! null-tolerant decoding of its JSON telemetry schema, and projection of
//! the decoded records into a last-write-wins gauge registry.

pub mod ap;
pub mod client;
pub mod json;
pub mod metrics;
pub mod numfmt;
pub mod paging;
pub mod render;
pub mod smartzone;
