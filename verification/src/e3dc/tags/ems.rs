//! Tags of the energy management namespace.

use vstd::prelude::*;

verus! {

pub const POWER_PV: u32 = 0x0100_0001;

pub const POWER_BAT: u32 = 0x0100_0002;

pub const POWER_HOME: u32 = 0x0100_0003;

pub const POWER_GRID: u32 = 0x0100_0004;

pub const POWER_ADD: u32 = 0x0100_0005;

pub const AUTARKY: u32 = 0x0100_0006;

pub const SELF_CONSUMPTION: u32 = 0x0100_0007;

pub const BAT_SOC: u32 = 0x0100_0008;

pub const INSTALLED_PEAK_POWER: u32 = 0x0100_0013;

pub const DERATE_AT_PERCENT_VALUE: u32 = 0x0100_0014;

pub const DERATE_AT_POWER_VALUE: u32 = 0x0100_0015;

pub const POWER_WB_ALL: u32 = 0x0100_001F;

pub const EXT_SRC_AVAILABLE: u32 = 0x0100_0021;

pub const GET_POWER_SETTINGS: u32 = 0x0100_008B;

pub const REQ_GET_SYS_SPECS: u32 = 0x0100_0097;

pub const GET_SYS_SPECS: u32 = 0x0100_0098;

pub const SYS_SPEC: u32 = 0x0100_0099;

pub const SYS_SPEC_NAME: u32 = 0x0100_009B;

pub const SYS_SPEC_VALUE_INT: u32 = 0x0100_009C;

pub const POWER_LIMITS_USED: u32 = 0x0100_0100;

pub const MAX_CHARGE_POWER: u32 = 0x0100_0101;

pub const MAX_DISCHARGE_POWER: u32 = 0x0100_0102;

pub const DISCHARGE_START_POWER: u32 = 0x0100_0103;

pub const POWERSAVE_ENABLED: u32 = 0x0100_0104;

pub const WEATHER_REGULATED_CHARGE_ENABLED: u32 = 0x0100_0105;

pub const WEATHER_FORECAST_MODE: u32 = 0x0100_0106;

} // verus!
