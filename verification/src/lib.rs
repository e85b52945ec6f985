//! Watches a network interface's IPv4 addresses and keeps a proxy selector in
//! step with the address's zone.
//!
//! The crate holds the verified core of the monitor: decoding kernel address
//! notifications into typed events ([`decode`], [`event`]), matching an
//! address against an ordered list of zone rules ([`zone`]), and the state
//! machine that turns observations into proxy commands ([`control`]).
//! Transport and HTTP plumbing live outside the library and hand it plain
//! values.

pub mod addr;
pub mod control;
pub mod decode;
pub mod event;
pub mod zone;
