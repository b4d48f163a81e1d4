//! Normalization and durable delivery of fleet telemetry.
//!
//! The library turns raw per-vehicle telemetry snapshots (heterogeneous JSON
//! trees) into flat [`record::TelemetryRecord`]s, buffers them in a
//! capacity-bounded queue that sheds its oldest entries under pressure, and
//! coordinates one drain-and-retry delivery cycle against an idempotent,
//! natural-key-upserting destination.  All I/O (the upstream fetch, the
//! destination connection, logging) lives outside the library; the functions
//! here work on plain values and carry contracts for what they compute.

pub mod coordinator;
pub mod json;
pub mod normalize;
pub mod queue;
pub mod record;
pub mod settings;
pub mod sink;
pub mod time;
mod text;
