//! Measures HTTP(S) round-trip latency for a list of addresses.
//!
//! The verified core turns user-supplied addresses into fully qualified
//! `http` / `https` addresses (`canonical`) and packages measured round trips
//! into latency records (`probe`). Network access and the clock stay with the
//! caller, who hands what a probe came to in as a plain value.
pub mod canonical;
pub mod port;
pub mod probe;
pub mod url_model;

pub use canonical::{
    canonicalize_http_address, canonicalize_http_url, canonicalize_placeholder_url, port_is_https,
    valid_http_url,
};
pub use port::parse_i32;
pub use probe::{canonical_addresses, collect_latencies, get_latency, record_latency, Latency};
pub use url_model::ParsedUrl;
