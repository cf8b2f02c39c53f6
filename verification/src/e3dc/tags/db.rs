//! Tags of the history database namespace.

use vstd::prelude::*;

verus! {

pub const BAT_POWER_IN: u32 = 0x0600_0002;

pub const BAT_POWER_OUT: u32 = 0x0600_0003;

pub const DC_POWER: u32 = 0x0600_0004;

pub const GRID_POWER_IN: u32 = 0x0600_0005;

pub const GRID_POWER_OUT: u32 = 0x0600_0006;

pub const CONSUMPTION: u32 = 0x0600_0007;

pub const BAT_CHARGE_LEVEL: u32 = 0x0600_000A;

pub const CONSUMED_PRODUCTION: u32 = 0x0600_000C;

pub const AUTARKY: u32 = 0x0600_000D;

pub const SUM_CONTAINER: u32 = 0x0600_0010;

pub const HISTORY_DATA_DAY: u32 = 0x0600_0100;

pub const HISTORY_TIME_START: u32 = 0x0600_0101;

pub const HISTORY_TIME_INTERVAL: u32 = 0x0600_0102;

pub const HISTORY_TIME_SPAN: u32 = 0x0600_0103;

} // verus!
