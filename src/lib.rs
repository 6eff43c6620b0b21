//! Control plane of a distributed dataflow runtime: frame transport, shared
//! memory region bookkeeping, node sessions, the daemon's core state and the
//! coordinator's spawn fan-out.
pub mod framing;
pub mod regions;
pub mod outside;
pub mod session;
pub mod daemon;
pub mod coordinator;

