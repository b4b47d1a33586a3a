//! Endpoint health-check controller core.
//!
//! The library holds the probe/decision/reconciliation logic of a
//! health-check controller for cluster service endpoints: the per-endpoint
//! hysteretic state machine, the service aggregate with its removal and
//! restoration policies, the registry refresh decision, the endpoint
//! document model and its codec glue, and the alert message model.
//! All I/O (cluster client, probing, alert delivery) lives outside, in the
//! binary around this crate; it hands the library plain values and performs
//! the actions the library decides on.

pub mod alert;
pub mod cmd;
pub mod codec;
pub mod endpoint;
pub mod error;
pub mod registry;
pub mod service;
pub mod strutil;
pub mod yaml;
