//! Connection-session and message-history logic for a multi-connection MQTT client.
//!
//! The crate holds the decisions that drive each connection (status transitions,
//! command outcomes, inbound batching), the per-connection message log with its
//! cursor pagination and export formats, and the resolution of connection
//! settings. Transport, storage files and timers are driven by the caller.

mod text;

pub mod models;
pub mod clock;
pub mod strings;
pub mod config;
pub mod payload;
pub mod history;
pub mod session;
pub mod batch;
pub mod registry;

pub use clock::now_millis;
