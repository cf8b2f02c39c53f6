//! Tags of the battery namespace.

use vstd::prelude::*;

verus! {

pub const RSOC: u32 = 0x0300_0001;

pub const MODULE_VOLTAGE: u32 = 0x0300_0002;

pub const CURRENT: u32 = 0x0300_0003;

pub const MAX_BAT_VOLTAGE: u32 = 0x0300_0004;

pub const MAX_CHARGE_CURRENT: u32 = 0x0300_0005;

pub const EOD_VOLTAGE: u32 = 0x0300_0006;

pub const MAX_DISCHARGE_CURRENT: u32 = 0x0300_0007;

pub const CHARGE_CYCLES: u32 = 0x0300_0008;

pub const TERMINAL_VOLTAGE: u32 = 0x0300_0009;

pub const STATUS_CODE: u32 = 0x0300_000A;

pub const ERROR_CODE: u32 = 0x0300_000B;

pub const DEVICE_NAME: u32 = 0x0300_000C;

pub const DCB_COUNT: u32 = 0x0300_000D;

pub const RSOC_REAL: u32 = 0x0300_000E;

pub const ASOC: u32 = 0x0300_000F;

pub const FCC: u32 = 0x0300_0010;

pub const RC: u32 = 0x0300_0011;

pub const MAX_DCB_CELL_TEMPERATURE: u32 = 0x0300_0016;

pub const MIN_DCB_CELL_TEMPERATURE: u32 = 0x0300_0017;

pub const DCB_ALL_CELL_TEMPERATURES: u32 = 0x0300_0018;

pub const DCB_CELL_TEMPERATURE: u32 = 0x0300_0019;

pub const DCB_ALL_CELL_VOLTAGES: u32 = 0x0300_001A;

pub const DCB_CELL_VOLTAGE: u32 = 0x0300_001B;

pub const READY_FOR_SHUTDOWN: u32 = 0x0300_001E;

pub const TRAINING_MODE: u32 = 0x0300_0021;

pub const MANUFACTURER_NAME: u32 = 0x0300_0025;

pub const USABLE_CAPACITY: u32 = 0x0300_0026;

pub const USABLE_REMAINING_CAPACITY: u32 = 0x0300_0027;

pub const DCB_INFO: u32 = 0x0300_0042;

pub const DESIGN_CAPACITY: u32 = 0x0300_0045;

pub const SERIALNO: u32 = 0x0300_0050;

pub const TOTAL_USE_TIME: u32 = 0x0300_0054;

pub const TOTAL_DISCHARGE_TIME: u32 = 0x0300_0055;

pub const REQ_AVAILABLE_BATTERIES: u32 = 0x0300_0056;

pub const AVAILABLE_BATTERIES: u32 = 0x0300_0057;

pub const INSTANCE_DESCRIPTOR: u32 = 0x0300_0059;

pub const DCB_MAX_CHARGE_VOLTAGE: u32 = 0x0300_0102;

pub const DCB_MAX_CHARGE_CURRENT: u32 = 0x0300_0103;

pub const DCB_END_OF_DISCHARGE: u32 = 0x0300_0104;

pub const DCB_MAX_DISCHARGE_CURRENT: u32 = 0x0300_0105;

pub const DCB_FULL_CHARGE_CAPACITY: u32 = 0x0300_0106;

pub const DCB_REMAINING_CAPACITY: u32 = 0x0300_0107;

pub const DCB_SOC: u32 = 0x0300_0108;

pub const DCB_SOH: u32 = 0x0300_0109;

pub const DCB_CYCLE_COUNT: u32 = 0x0300_0110;

pub const DCB_CURRENT: u32 = 0x0300_0111;

pub const DCB_VOLTAGE: u32 = 0x0300_0112;

pub const DCB_CURRENT_AVG_30S: u32 = 0x0300_0113;

pub const DCB_VOLTAGE_AVG_30S: u32 = 0x0300_0114;

pub const DCB_DESIGN_CAPACITY: u32 = 0x0300_0115;

pub const DCB_DESIGN_VOLTAGE: u32 = 0x0300_0116;

pub const DCB_CHARGE_LOW_TEMPERATURE: u32 = 0x0300_0117;

pub const DCB_CHARGE_HIGH_TEMPERATURE: u32 = 0x0300_0118;

pub const DCB_MANUFACTURE_DATE: u32 = 0x0300_0119;

pub const DCB_SERIALNO: u32 = 0x0300_0120;

pub const DCB_PROTOCOL_VERSION: u32 = 0x0300_0121;

pub const DCB_FW_VERSION: u32 = 0x0300_0122;

pub const DCB_PCB_VERSION: u32 = 0x0300_0124;

pub const DCB_NR_SERIES_CELL: u32 = 0x0300_0300;

pub const DCB_NR_PARALLEL_CELL: u32 = 0x0300_0301;

pub const DCB_MANUFACTURE_NAME: u32 = 0x0300_0302;

pub const DCB_DEVICE_NAME: u32 = 0x0300_0303;

pub const DCB_SERIALCODE: u32 = 0x0300_0304;

pub const DCB_NR_SENSOR: u32 = 0x0300_0305;

pub const DCB_STATUS: u32 = 0x0300_0306;

pub const DCB_WARNING: u32 = 0x0300_0307;

pub const DCB_ERROR: u32 = 0x0300_0309;

pub const DATA: u32 = 0x0304_0000;

pub const INDEX: u32 = 0x0304_0001;

pub const PARAM_BAT_NUMBER: u32 = 0x0340_0006;

} // verus!
