//! Core of a layer-4 load balancer: backend selection, token buckets,
//! rate-limited streams and the relay state machine, with machine-checked
//! contracts.

pub mod traffic;
pub mod common;
pub mod config;
pub mod balancer;
pub mod networking;
pub mod health;
pub mod cluster;
