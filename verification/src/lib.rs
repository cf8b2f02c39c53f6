//! Bridge core between an E3/DC storage system and an MQTT telemetry sink:
//! decoding of tagged value trees, assembly of typed snapshots, change
//! tracking for publication and the poll schedule.
//!
//! The crate computes and decides; it does no input or output. Answers of
//! the device come in as trees of tagged values, what is to be published
//! goes out as a list of messages, and the clock is handed in.

pub mod arith;
pub mod config;
pub mod e3dc;
pub mod errors;
pub mod float;
pub mod mqtt;
pub mod natural;
pub mod numeral;
pub mod scheduler;
pub mod text;
pub mod time;

pub use config::Config;
pub use e3dc::client::E3dcClient;
pub use mqtt::publisher::MqttPublisher;
