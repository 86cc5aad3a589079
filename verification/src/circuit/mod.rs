//! A policy-driven circuit breaker for cloud/backend unavailable fallback routing.
pub mod action;
pub mod config;
pub mod state;
pub mod window;
pub mod breaker;
pub mod registry;
