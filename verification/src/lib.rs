//! Fan-out/fan-in broadcast of one RPC call to many endpoints.
//!
//! One already-formed RPC call is dispatched, concurrently, to every endpoint
//! of an immutable registry; each endpoint settles independently (success or
//! failure), and the outcomes are returned index-aligned with the registry,
//! whatever order the endpoints settled in. The network transport itself is a
//! collaborator supplied by the caller; this crate owns the registry, the
//! request template, and the dispatch/collection logic.

pub mod call;
pub mod dispatch;
pub mod endpoints;
pub mod laws;
pub mod outcome;

pub use call::RpcCall;
pub use dispatch::{dispatch_plan, fan_in, Collector, DispatchUnit};
pub use endpoints::{Endpoints, EndpointsBuilder};
pub use outcome::CallError;
