//! Verified core of a Prometheus exporter for the radar products of the
//! Italian Civil Protection Department (DPC).

pub mod dpc;
pub mod exporter;
pub mod float_bits;
pub mod grid;
pub mod metrics;
pub mod time;
