//! The broker side of the bridge: what is published, under which topic,
//! and which fields of a snapshot changed since the one before.

pub mod context;
pub mod publisher;
pub mod types;

pub use publisher::MqttPublisher;
pub use types::{BatteryData, DailyStatistics, DcbData, Status, SystemInfo};
