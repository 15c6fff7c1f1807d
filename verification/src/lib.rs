//! Data model and single-shot event detector for a multi-channel
//! serial-instrument monitor.
//!
//! The crate has two halves: plain value objects describing a monitoring
//! session (connection parameters, plot display settings, named input
//! channels, named plot views, and the root aggregate that is persisted as a
//! whole), and a pure single-shot event detector that scans one channel's
//! time-ordered samples for a transient deviation from a noise baseline.
//!
//! Time and sample values are carried as fixed-point integers (microseconds
//! for timestamps, micro-units for sample values), so every computation here
//! is exact integer arithmetic.

pub mod config;
pub mod detector;
pub mod plot;
pub mod session;
