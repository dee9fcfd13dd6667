//! Core of a REST reverse proxy that centralizes Discord rate-limit
//! bookkeeping: path normalization and bucket-key derivation, a consistent
//! hash ring mapping bucket keys to rate-limiter replicas, the decision
//! logic of the remote rate-limiter client, and the request orchestration
//! state machine that drives ticket acquisition, header rewriting,
//! forwarding, and header reporting.

pub mod errors;
pub mod routing;
pub mod ring;
pub mod headers;
pub mod client;
pub mod orchestrator;
pub mod payloads;
