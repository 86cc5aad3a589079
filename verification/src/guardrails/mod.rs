//! Vehicle guardrails: rules on requests, Tool calls and responses, evaluated against the
//! state of the vehicle.
pub mod api;
pub mod engine;
pub mod policy;
pub mod streaming;
pub mod vehicle;
