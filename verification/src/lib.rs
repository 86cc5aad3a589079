use vstd::prelude::*;

pub mod adapter;
pub mod audit;
pub mod circuit;
pub mod composition;
pub mod config_watch;
pub mod contracts;
pub mod discovery;
pub mod engine;
pub mod guardrails;
pub mod ext;
pub mod integration;
pub mod json;
pub mod mcp;
pub mod pipeline;
pub mod policy;
pub mod text;

verus! {
} // verus!
