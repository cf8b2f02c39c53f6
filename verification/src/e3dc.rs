//! The device side of the bridge: tagged values, their coercions, lookup by
//! tag, the requests, and the assembly of typed snapshots from the device's
//! answers.

pub mod client;
pub mod conversation;
pub mod lookup;
pub mod request;
pub mod tags;
pub mod types;
pub mod value;

pub use client::{BatteryIdentity, E3dcClient, Frame};
pub use types::{
    BatteryData, BatteryInfo, DailyStatistics, DcbData, Status, SystemInfo, SystemInfoStatic,
};
pub use value::{DynamicValue, TaggedItem};
