//! Policy service of a capability-based microkernel: identity, risk
//! classification, the grant store with its audit ring, name resolution,
//! rights attenuation, the IPC wire format and the per-request decision
//! machine that the service loop drives.

pub mod error;
pub mod auth;
pub mod names;
pub mod risk;
pub mod delegation;
pub mod store;
pub mod db;
pub mod wire;
pub mod service;
pub mod debug;
