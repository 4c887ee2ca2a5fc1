//! Control logic of a native audio engine: transport and render planning,
//! plug-in delay compensation, input and publish rings, monitoring, offline
//! export, and the device and recording decisions around them.
//!
//! Samples travel through this crate as the bit patterns of `f32` values.
//! Arithmetic on sample values belongs to the host; the crate decides which
//! samples go where, when, and in what order.

pub mod text;
pub mod engine;
pub mod latency_graph;
pub mod runtime;
pub mod transport;
pub mod ring;
pub mod jam_bus;
pub mod loopback;
pub mod error;
pub mod input_ring;
pub mod monitor;
pub mod export;
pub mod forensic_trace;
pub mod graph;
pub mod ipc;
pub mod native;
