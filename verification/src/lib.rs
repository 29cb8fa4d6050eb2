//! Telemetry core of a sump-pump monitor: debounced float-switch capture,
//! a bounded broadcast bus with lag detection, and the single-client
//! network service with its fixed 16-byte wire format.

pub mod bus;
pub mod display;
pub mod heartbeat;
pub mod monitor;
pub mod protocol;
pub mod service;
pub mod types;
