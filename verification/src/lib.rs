//! Core of a live scoreboard-to-overlay forwarder: a declarative
//! field-mapping engine over a JSON-like value model, a composition
//! serializer that assembles keyed envelopes, a verified JSON renderer, and
//! the decision logic of the streaming pipeline (coalescing cell, wake-up
//! signals, telemetry store).

pub mod config;
pub mod configure;
pub mod header;
pub mod json;
pub mod latency_graph;
pub mod mapping;
pub mod mock;
pub mod profile;
pub mod serializer;
pub mod sports;
pub mod stream;
pub mod stream_running;
mod strutil;
pub mod text;
pub mod transform;
pub mod value;

pub use value::Record;
pub use value::Value;
