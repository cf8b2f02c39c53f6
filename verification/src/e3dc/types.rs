//! Typed snapshots of the device: what one answer, or a few, say once
//! every field has been found and read.

use crate::float::Float64;
use crate::time::{TimeSpan, Timestamp};
use vstd::prelude::*;

verus! {

/// What the device says of itself, asked once at connect
#[derive(Debug, Clone, PartialEq)]
pub struct SystemInfoStatic {
    pub serial_number: String,
    pub model: &'static str,
    pub mac_address: String,
    pub installed_peak_power: u64,
    pub derate_at_percent_value: Float64,
    pub derate_at_power_value: u64,
    pub ext_source_available: bool,
}

/// System information (retrieved once at startup)
#[derive(Debug, Clone, PartialEq)]
pub struct SystemInfo {
    pub time_stamp: Timestamp,
    pub serial_number: String,
    pub mac_address: String,
    pub ip_address: String,
    pub model: &'static str,
    pub software_release: String,
    pub installed_peak_power: u64,  // W
    pub installed_battery_capacity: Option<u64>,  // Wh
    pub max_ac_power: Option<u64>,  // W
    pub max_battery_charge_power: Option<u64>,  // W
    pub max_battery_discharge_power: Option<u64>,  // W
    // Power management
    pub derate_percent: Float64,  // % (Derate at percent value)
    pub derate_power: u64,  // W (Derate at power value)
    pub max_charge_power: u64,  // W (EMS max charge power)
    pub max_discharge_power: u64,  // W (EMS max discharge power)
    pub discharge_start_power: u64,  // W
    pub power_limits_used: bool,
    pub power_save_enabled: bool,
    // Weather regulation
    pub weather_forecast_mode: u64,
    pub weather_regulated_charge_enabled: bool,
    // External source
    pub external_source_available: bool,
}

/// Current status (polled every interval, e.g., 5s)
#[derive(Debug, Clone, PartialEq)]
pub struct Status {
    pub time_stamp: Timestamp,
    pub power_battery: Float64,  // W (positive = charging, negative = discharging)
    pub power_wb: Float64,  // W (positive = charging, negative = discharging)
    pub power_home: Float64,  // W
    pub power_pv: Float64,  // W
    pub power_grid: Float64,  // W (positive = to grid, negative = from grid)
    pub power_add: Float64,  // W
    pub battery_soc: Float64,  // %
    pub autarky: Float64,  // %
    pub self_consumption: Float64,  // %
}

/// Battery data (polled at longer interval, e.g., 300s)
#[derive(Debug, Clone, PartialEq)]
pub struct BatteryData {
    pub index: u64,
    pub time_stamp: Timestamp,

    // State of Charge
    pub rsoc: Float64,  // Relative State of Charge %
    pub rsoc_real: Float64,  // Real Relative State of Charge %
    pub asoc: Float64,  // Absolute State of Charge %

    // Electrical measurements
    pub current: Float64,  // A
    pub module_voltage: Float64,  // V
    pub terminal_voltage: Float64,  // V
    pub max_bat_voltage: Float64,  // V
    pub eod_voltage: Float64,  // End of Discharge voltage (V)

    // Capacity
    pub fcc: Float64,  // Full Charge Capacity (Ah)
    pub rc: Float64,  // Remaining Capacity (Ah)
    pub design_capacity: Float64,  // Design Capacity (Ah)
    pub usable_capacity: Float64,  // Usable Capacity (Ah)
    pub usable_remaining_capacity: Float64,  // Usable Remaining Capacity (Ah)

    // Current limits
    pub max_charge_current: Float64,  // A
    pub max_discharge_current: Float64,  // A

    // Temperature
    pub max_dcb_cell_temp: Float64,  // °C
    pub min_dcb_cell_temp: Float64,  // °C

    // Status and errors
    pub status_code: Float64,
    pub error_code: Float64,

    // Cycles and usage
    pub charge_cycles: Float64,
    pub total_use_time: u64,  // seconds
    pub total_discharge_time: u64,  // seconds

    // Device info
    pub device_name: String,
    pub param_bat_number: u64,
    pub manufacturer_name: String,
    pub serialno: u64,
    pub instance_descriptor: String,

    // DCB info
    pub dcb_count: u64,
    pub dcbs: Vec<DcbData>,  // DCB modules (DC Battery Controllers) with detailed cell data

    // Operational state
    pub ready_for_shutdown: bool,
    pub training_mode: bool,
}

/// Daily statistics (polled at longer interval)
#[derive(Debug, Clone, PartialEq)]
pub struct DailyStatistics {
    pub time_stamp: Timestamp,
    pub autarky: Float64,  // %
    pub consumption: Float64,  // %
    pub solar_production: Float64,  // Wh
    pub consumed_production: Float64,  // Wh
    pub bat_power_in: Float64,  // Wh
    pub bat_power_out: Float64,  // Wh
    pub grid_power_in: Float64,  // Wh
    pub grid_power_out: Float64,  // Wh
    pub state_of_charge: Float64,  // %
    pub start: Timestamp,  // start of the window
    pub timespan: TimeSpan,  // length of the window
}

/// Battery info (index and DCB count)
#[derive(Debug, Clone, PartialEq)]
pub struct BatteryInfo {
    pub index: u64,
    pub device_name: String,
    pub param_bat_number: u64,
    pub manufacturer_name: String,
    pub serialno: u64,
    pub instance_descriptor: String,
    pub dcb_count: u64,
}

/// DCB (DC Battery Controller) detailed information
#[derive(Debug, Clone, PartialEq)]
pub struct DcbData {
    pub index: u64,
    // Current measurements
    pub current: Float64,  // A
    pub current_avg_30s: Float64,  // A
    pub voltage: Float64,  // V
    pub voltage_avg_30s: Float64,  // V
    // State
    pub soc: Float64,  // %
    pub soh: Float64,  // % State of Health
    pub cycle_count: Float64,
    // Capacity
    pub design_capacity: Float64,  // Ah
    pub design_voltage: Float64,  // V
    pub full_charge_capacity: Float64,  // Ah
    pub remaining_capacity: Float64,  // Ah
    // Limits
    pub max_charge_voltage: Float64,  // V
    pub max_charge_current: Float64,  // A
    pub max_discharge_current: Float64,  // A
    pub end_of_discharge: Float64,  // V
    pub max_charge_temperature: Float64,  // °C
    pub min_charge_temperature: Float64,  // °C
    // Device info
    pub device_name: String,
    pub manufacture_name: String,
    pub manufacture_date: Float64,  // Unix timestamp
    pub serial_code: String,
    pub serial_no: Float64,  // Serial number as integer
    pub fw_version: Float64,
    pub pcb_version: Float64,
    pub protocol_version: Float64,
    // Status
    pub error: Float64,
    pub warning: Float64,
    pub status: Float64,
    // Cell configuration
    // The reported count, or the length of `cell_voltages` where none is reported.
    pub series_cell_count: u64,
    pub parallel_cell_count: u64,  // as reported, often 0
    pub sensor_count: u64,
    // Cell data
    pub cell_temperatures: Vec<Float64>,  // °C (from BAT::DCB_ALL_CELL_TEMPERATURES)
    pub cell_voltages: Vec<Float64>,  // V (from BAT::DCB_ALL_CELL_VOLTAGES)
}

} // verus!
