//! Snapshots as they are published: which readings are rounded and to how
//! many decimals, which are split by direction, and which pass as they are.

use crate::e3dc;
use crate::float::Float64;
use crate::time::{TimeSpan, Timestamp};
use vstd::prelude::*;

verus! {

/// The numbers of a list, each rounded to so many decimals.
pub open spec fn rounded_each(values: Seq<Float64>, decimals: nat) -> Seq<Float64> {
    Seq::new(values.len(), |i: int| values[i].rounded_to(decimals))
}

/// A directed quantity in two parts: what flows one way and what flows the
/// other. A value that is at least zero is the first part and leaves zero
/// for the second; any other leaves zero for the first and its magnitude
/// for the second.
pub open spec fn split(value: Float64) -> (Float64, Float64) {
    if value.at_least(Float64 { bits: 0 }) {
        (value, Float64 { bits: 0 })
    } else {
        (Float64 { bits: 0 }, value.abs_value())
    }
}

/// Rounds a reading to so many decimals.
fn round(value: Float64, decimals: u32) -> (r: Float64)
    requires
        decimals <= 2,
    ensures
        r == value.rounded_to(decimals as nat),
{
    value.round_to(decimals)
}

/// Splits a directed quantity into its two directions.
pub fn split_val(value: Float64) -> (parts: (Float64, Float64))
    ensures
        parts == split(value),
{
    let zero = Float64 { bits: 0 };
    if value.ge(zero) {
        (value, zero)
    } else {
        (zero, value.abs())
    }
}

/// Of the two parts of a number that is not NaN, at most one is not zero,
/// and both are zero only for zero itself. Neither part is below zero, and
/// the first part less the second is the number: nothing is lost or
/// invented by the split.
pub proof fn lemma_split_val(value: Float64)
    requires
        !value.nan(),
    ensures
        split(value).0.zero() || split(value).1.zero(),
        (split(value).0.zero() && split(value).1.zero()) <==> value.zero(),
        !split(value).0.nan() && !split(value).1.nan(),
        split(value).0.zero() || !split(value).0.negative(),
        !split(value).1.negative(),
        split(value).0.difference(split(value).1) == value,
        value.finite() ==> {
            &&& split(value).0.finite()
            &&& split(value).1.finite()
            &&& split(value).0.scaled() - split(value).1.scaled() == value.scaled()
        },
{
    let zero = Float64 { bits: 0 };
    assert(zero.scaled() == 0) by {
        assert(zero.significand() == 0);
        vstd::arithmetic::mul::lemma_mul_basics(vstd::arithmetic::power2::pow2(0) as int);
    }
    if value.zero() && value.negative() {
        assert(value.significand() == 0);
        assert(value.scaled() == 0) by {
            vstd::arithmetic::mul::lemma_mul_basics(vstd::arithmetic::power2::pow2(0) as int);
        }
    }
    if !value.at_least(zero) {
        assert(value.abs_value().significand() == value.significand());
        assert(value.abs_value().exponent_field() == value.exponent_field());
        assert(value.abs_value().negated() == value);
    }
}

fn round_all(values: &Vec<Float64>, decimals: u32) -> (r: Vec<Float64>)
    requires
        decimals <= 2,
    ensures
        r@ == rounded_each(values@, decimals as nat),
{
    let mut r: Vec<Float64> = Vec::new();
    let mut i: usize = 0;
    while i < values.len()
        invariant
            i <= values.len(),
            decimals <= 2,
            r@ == rounded_each(values@.take(i as int), decimals as nat),
        decreases values.len() - i,
    {
        r.push(round(values[i], decimals));
        assert(r@ =~= rounded_each(values@.take(i + 1), decimals as nat));
        i += 1;
    }
    assert(values@.take(values.len() as int) =~= values@);
    r
}

/// The status as it is published.
#[derive(Debug, PartialEq)]
pub struct Status {
    pub time: Timestamp,
    pub additional: Float64,
    pub autarky: Float64,
    pub battery_charge: Float64,
    pub battery_discharge: Float64,
    pub battery_consumption: Float64,
    pub consumption_from_grid: Float64,
    pub export_to_grid: Float64,
    pub grid_production: Float64,
    pub house_consumption: Float64,
    pub self_consumption: Float64,
    pub solar_production: Float64,
    pub solar_production_excess: Float64,
    pub state_of_charge: Float64,
    pub wb_consumption: Float64,
}

/// `r` is what is published of `status`: the raw powers as they are, the
/// two directed powers each split into its two directions, the additional
/// power with its sign turned, the surplus of the sun over the house, and
/// the three percentages rounded to one decimal.
pub open spec fn is_published_status(r: Status, status: e3dc::Status) -> bool {
    &&& r.time == status.time_stamp
    &&& r.additional == status.power_add.negated()
    &&& r.autarky == status.autarky.rounded_to(1)
    &&& r.battery_charge == split(status.power_battery).0
    &&& r.battery_discharge == split(status.power_battery).1
    &&& r.battery_consumption == status.power_battery
    &&& r.consumption_from_grid == split(status.power_grid).0
    &&& r.export_to_grid == split(status.power_grid).1
    &&& r.grid_production == status.power_grid
    &&& r.house_consumption == status.power_home
    &&& r.self_consumption == status.self_consumption.rounded_to(1)
    &&& r.solar_production == status.power_pv
    &&& r.solar_production_excess == status.power_pv.difference(status.power_home)
    &&& r.state_of_charge == status.battery_soc.rounded_to(1)
    &&& r.wb_consumption == status.power_wb
}

impl Status {
    /// What is published of a status.
    pub fn from_e3dc(status: &e3dc::Status) -> (r: Status)
        ensures
            is_published_status(r, *status),
    {
        let (battery_charge, battery_discharge) = split_val(status.power_battery);
        let (consumption_from_grid, export_to_grid) = split_val(status.power_grid);
        let solar_production_excess = status.power_pv.minus(status.power_home);
        Status {
            time: status.time_stamp,
            additional: status.power_add.neg(),
            autarky: round(status.autarky, 1),
            battery_charge,
            battery_discharge,
            battery_consumption: status.power_battery,
            consumption_from_grid,
            export_to_grid,
            grid_production: status.power_grid,
            house_consumption: status.power_home,
            self_consumption: round(status.self_consumption, 1),
            solar_production: status.power_pv,
            solar_production_excess,
            state_of_charge: round(status.battery_soc, 1),
            wb_consumption: status.power_wb,
        }
    }
}

/// The system information as it is published, in one document.
#[derive(Debug, PartialEq)]
pub struct SystemInfo {
    pub time: Timestamp,
    pub derate_percent: Float64,
    pub derate_power: u64,
    pub external_source_available: bool,
    pub installed_battery_capacity: Option<u64>,
    pub installed_peak_power: u64,
    pub ip_address: String,
    pub max_ac_power: Option<u64>,
    pub mac_address: String,
    pub max_battery_charge_power: Option<u64>,
    pub max_battery_discharge_power: Option<u64>,
    pub model: &'static str,
    pub release: String,
    pub serial: String,
    pub discharge_start_power: u64,
    pub max_charge_power: u64,
    pub max_discharge_power: u64,
    pub power_limits_used: bool,
    pub power_save_enabled: bool,
    pub weather_forecast_mode: u64,
    pub weather_regulated_charge_enabled: bool,
}

/// `r` is what is published of `info`: everything as it is, but the
/// derating percentage rounded to one decimal.
pub open spec fn is_published_system_info(r: SystemInfo, info: e3dc::SystemInfo) -> bool {
    &&& r.time == info.time_stamp
    &&& r.derate_percent == info.derate_percent.rounded_to(1)
    &&& r.derate_power == info.derate_power
    &&& r.external_source_available == info.external_source_available
    &&& r.installed_battery_capacity == info.installed_battery_capacity
    &&& r.installed_peak_power == info.installed_peak_power
    &&& r.ip_address@ == info.ip_address@
    &&& r.max_ac_power == info.max_ac_power
    &&& r.mac_address@ == info.mac_address@
    &&& r.max_battery_charge_power == info.max_battery_charge_power
    &&& r.max_battery_discharge_power == info.max_battery_discharge_power
    &&& r.model == info.model
    &&& r.release@ == info.software_release@
    &&& r.serial@ == info.serial_number@
    &&& r.discharge_start_power == info.discharge_start_power
    &&& r.max_charge_power == info.max_charge_power
    &&& r.max_discharge_power == info.max_discharge_power
    &&& r.power_limits_used == info.power_limits_used
    &&& r.power_save_enabled == info.power_save_enabled
    &&& r.weather_forecast_mode == info.weather_forecast_mode
    &&& r.weather_regulated_charge_enabled == info.weather_regulated_charge_enabled
}

impl SystemInfo {
    /// What is published of the system information.
    pub fn from_e3dc(info: &e3dc::SystemInfo) -> (r: SystemInfo)
        ensures
            is_published_system_info(r, *info),
    {
        SystemInfo {
            time: info.time_stamp,
            derate_percent: round(info.derate_percent, 1),
            derate_power: info.derate_power,
            external_source_available: info.external_source_available,
            installed_battery_capacity: info.installed_battery_capacity,
            installed_peak_power: info.installed_peak_power,
            ip_address: info.ip_address.clone(),
            max_ac_power: info.max_ac_power,
            mac_address: info.mac_address.clone(),
            max_battery_charge_power: info.max_battery_charge_power,
            max_battery_discharge_power: info.max_battery_discharge_power,
            model: info.model,
            release: info.software_release.clone(),
            serial: info.serial_number.clone(),
            discharge_start_power: info.discharge_start_power,
            max_charge_power: info.max_charge_power,
            max_discharge_power: info.max_discharge_power,
            power_limits_used: info.power_limits_used,
            power_save_enabled: info.power_save_enabled,
            weather_forecast_mode: info.weather_forecast_mode,
            weather_regulated_charge_enabled: info.weather_regulated_charge_enabled,
        }
    }
}

/// One battery controller as it is published.
#[derive(Debug, PartialEq)]
pub struct DcbData {
    pub index: u64,
    pub current: Float64,
    pub current_avg_30s: Float64,
    pub voltage: Float64,
    pub voltage_avg_30s: Float64,
    pub soc: Float64,
    pub soh: Float64,
    pub cycle_count: Float64,
    pub design_capacity: Float64,
    pub design_voltage: Float64,
    pub full_charge_capacity: Float64,
    pub remaining_capacity: Float64,
    pub max_charge_voltage: Float64,
    pub max_charge_current: Float64,
    pub max_discharge_current: Float64,
    pub end_of_discharge: Float64,
    pub max_charge_temperature: Float64,
    pub min_charge_temperature: Float64,
    pub device_name: String,
    pub manufacture_name: String,
    pub manufacture_date: Float64,
    pub serial_code: String,
    pub serial_no: Float64,
    pub fw_version: Float64,
    pub pcb_version: Float64,
    pub protocol_version: Float64,
    pub error: Float64,
    pub warning: Float64,
    pub status: Float64,
    pub series_cell_count: u64,
    pub parallel_cell_count: u64,
    pub sensor_count: u64,
    pub temperatures: Vec<Float64>,
    pub voltages: Vec<Float64>,
}

/// `r` is what is published of a controller: the states of charge and of
/// health, which are percentages, rounded to one decimal; every voltage,
/// current, temperature and capacity, and every cell reading, rounded to
/// two decimals; counts, codes, versions and names as they are.
pub open spec fn is_published_dcb(r: DcbData, data: e3dc::DcbData) -> bool {
    &&& r.index == data.index
    &&& r.current == data.current.rounded_to(2)
    &&& r.current_avg_30s == data.current_avg_30s.rounded_to(2)
    &&& r.voltage == data.voltage.rounded_to(2)
    &&& r.voltage_avg_30s == data.voltage_avg_30s.rounded_to(2)
    &&& r.soc == data.soc.rounded_to(1)
    &&& r.soh == data.soh.rounded_to(1)
    &&& r.cycle_count == data.cycle_count
    &&& r.design_capacity == data.design_capacity.rounded_to(2)
    &&& r.design_voltage == data.design_voltage.rounded_to(2)
    &&& r.full_charge_capacity == data.full_charge_capacity.rounded_to(2)
    &&& r.remaining_capacity == data.remaining_capacity.rounded_to(2)
    &&& r.max_charge_voltage == data.max_charge_voltage.rounded_to(2)
    &&& r.max_charge_current == data.max_charge_current.rounded_to(2)
    &&& r.max_discharge_current == data.max_discharge_current.rounded_to(2)
    &&& r.end_of_discharge == data.end_of_discharge.rounded_to(2)
    &&& r.max_charge_temperature == data.max_charge_temperature.rounded_to(2)
    &&& r.min_charge_temperature == data.min_charge_temperature.rounded_to(2)
    &&& r.device_name@ == data.device_name@
    &&& r.manufacture_name@ == data.manufacture_name@
    &&& r.manufacture_date == data.manufacture_date
    &&& r.serial_code@ == data.serial_code@
    &&& r.serial_no == data.serial_no
    &&& r.fw_version == data.fw_version
    &&& r.pcb_version == data.pcb_version
    &&& r.protocol_version == data.protocol_version
    &&& r.error == data.error
    &&& r.warning == data.warning
    &&& r.status == data.status
    &&& r.series_cell_count == data.series_cell_count
    &&& r.parallel_cell_count == data.parallel_cell_count
    &&& r.sensor_count == data.sensor_count
    &&& r.temperatures@ == rounded_each(data.cell_temperatures@, 2)
    &&& r.voltages@ == rounded_each(data.cell_voltages@, 2)
}

impl DcbData {
    /// What is published of a controller.
    pub fn from_e3dc(data: &e3dc::DcbData) -> (r: DcbData)
        ensures
            is_published_dcb(r, *data),
    {
        DcbData {
            index: data.index,
            current: round(data.current, 2),
            current_avg_30s: round(data.current_avg_30s, 2),
            voltage: round(data.voltage, 2),
            voltage_avg_30s: round(data.voltage_avg_30s, 2),
            soc: round(data.soc, 1),
            soh: round(data.soh, 1),
            cycle_count: data.cycle_count,
            design_capacity: round(data.design_capacity, 2),
            design_voltage: round(data.design_voltage, 2),
            full_charge_capacity: round(data.full_charge_capacity, 2),
            remaining_capacity: round(data.remaining_capacity, 2),
            max_charge_voltage: round(data.max_charge_voltage, 2),
            max_charge_current: round(data.max_charge_current, 2),
            max_discharge_current: round(data.max_discharge_current, 2),
            end_of_discharge: round(data.end_of_discharge, 2),
            max_charge_temperature: round(data.max_charge_temperature, 2),
            min_charge_temperature: round(data.min_charge_temperature, 2),
            device_name: data.device_name.clone(),
            manufacture_name: data.manufacture_name.clone(),
            manufacture_date: data.manufacture_date,
            serial_code: data.serial_code.clone(),
            serial_no: data.serial_no,
            fw_version: data.fw_version,
            pcb_version: data.pcb_version,
            protocol_version: data.protocol_version,
            error: data.error,
            warning: data.warning,
            status: data.status,
            series_cell_count: data.series_cell_count,
            parallel_cell_count: data.parallel_cell_count,
            sensor_count: data.sensor_count,
            temperatures: round_all(&data.cell_temperatures, 2),
            voltages: round_all(&data.cell_voltages, 2),
        }
    }
}

/// One battery as it is published.
#[derive(Debug, PartialEq)]
pub struct BatteryData {
    pub index: u64,
    pub time: Timestamp,
    pub rsoc: Float64,
    pub rsoc_real: Float64,
    pub asoc: Float64,
    pub current: Float64,
    pub module_voltage: Float64,
    pub terminal_voltage: Float64,
    pub max_battery_voltage: Float64,
    pub eod_voltage: Float64,
    pub fcc: Float64,
    pub rc: Float64,
    pub design_capacity: Float64,
    pub usable_capacity: Float64,
    pub usable_remaining_capacity: Float64,
    pub max_charge_current: Float64,
    pub max_discharge_current: Float64,
    pub max_dcb_cell_temp: Float64,
    pub min_dcb_cell_temp: Float64,
    pub status_code: Float64,
    pub error_code: Float64,
    pub charge_cycles: Float64,
    pub total_use_time: u64,
    pub total_discharge_time: u64,
    pub device_name: String,
    pub dcb_count: u64,
    pub dcbs: Vec<DcbData>,
    pub ready_for_shutdown: bool,
    pub training_mode: bool,
}

/// `r` is what is published of a battery: the three states of charge,
/// which are percentages, rounded to one decimal; every voltage, current,
/// temperature and capacity rounded to two decimals; codes, cycles, times
/// and the name as they are; and each controller as it is published.
pub open spec fn is_published_battery(r: BatteryData, data: e3dc::BatteryData) -> bool {
    &&& r.index == data.index
    &&& r.time == data.time_stamp
    &&& r.rsoc == data.rsoc.rounded_to(1)
    &&& r.rsoc_real == data.rsoc_real.rounded_to(1)
    &&& r.asoc == data.asoc.rounded_to(1)
    &&& r.current == data.current.rounded_to(2)
    &&& r.module_voltage == data.module_voltage.rounded_to(2)
    &&& r.terminal_voltage == data.terminal_voltage.rounded_to(2)
    &&& r.max_battery_voltage == data.max_bat_voltage.rounded_to(2)
    &&& r.eod_voltage == data.eod_voltage.rounded_to(2)
    &&& r.fcc == data.fcc.rounded_to(2)
    &&& r.rc == data.rc.rounded_to(2)
    &&& r.design_capacity == data.design_capacity.rounded_to(2)
    &&& r.usable_capacity == data.usable_capacity.rounded_to(2)
    &&& r.usable_remaining_capacity == data.usable_remaining_capacity.rounded_to(2)
    &&& r.max_charge_current == data.max_charge_current.rounded_to(2)
    &&& r.max_discharge_current == data.max_discharge_current.rounded_to(2)
    &&& r.max_dcb_cell_temp == data.max_dcb_cell_temp.rounded_to(2)
    &&& r.min_dcb_cell_temp == data.min_dcb_cell_temp.rounded_to(2)
    &&& r.status_code == data.status_code
    &&& r.error_code == data.error_code
    &&& r.charge_cycles == data.charge_cycles
    &&& r.total_use_time == data.total_use_time
    &&& r.total_discharge_time == data.total_discharge_time
    &&& r.device_name@ == data.device_name@
    &&& r.dcb_count == data.dcb_count
    &&& r.dcbs.len() == data.dcbs.len()
    &&& forall|i: int|
        0 <= i < data.dcbs.len() ==> is_published_dcb(#[trigger] r.dcbs[i], data.dcbs[i])
    &&& r.ready_for_shutdown == data.ready_for_shutdown
    &&& r.training_mode == data.training_mode
}

impl BatteryData {
    /// What is published of a battery.
    pub fn from_e3dc(data: &e3dc::BatteryData) -> (r: BatteryData)
        ensures
            is_published_battery(r, *data),
    {
        let mut dcbs: Vec<DcbData> = Vec::new();
        let mut i: usize = 0;
        while i < data.dcbs.len()
            invariant
                i <= data.dcbs.len(),
                dcbs.len() == i,
                forall|j: int| 0 <= j < i ==> is_published_dcb(#[trigger] dcbs[j], data.dcbs[j]),
            decreases data.dcbs.len() - i,
        {
            dcbs.push(DcbData::from_e3dc(&data.dcbs[i]));
            i += 1;
        }
        BatteryData {
            index: data.index,
            time: data.time_stamp,
            rsoc: round(data.rsoc, 1),
            rsoc_real: round(data.rsoc_real, 1),
            asoc: round(data.asoc, 1),
            current: round(data.current, 2),
            module_voltage: round(data.module_voltage, 2),
            terminal_voltage: round(data.terminal_voltage, 2),
            max_battery_voltage: round(data.max_bat_voltage, 2),
            eod_voltage: round(data.eod_voltage, 2),
            fcc: round(data.fcc, 2),
            rc: round(data.rc, 2),
            design_capacity: round(data.design_capacity, 2),
            usable_capacity: round(data.usable_capacity, 2),
            usable_remaining_capacity: round(data.usable_remaining_capacity, 2),
            max_charge_current: round(data.max_charge_current, 2),
            max_discharge_current: round(data.max_discharge_current, 2),
            max_dcb_cell_temp: round(data.max_dcb_cell_temp, 2),
            min_dcb_cell_temp: round(data.min_dcb_cell_temp, 2),
            status_code: data.status_code,
            error_code: data.error_code,
            charge_cycles: data.charge_cycles,
            total_use_time: data.total_use_time,
            total_discharge_time: data.total_discharge_time,
            device_name: data.device_name.clone(),
            dcb_count: data.dcb_count,
            dcbs,
            ready_for_shutdown: data.ready_for_shutdown,
            training_mode: data.training_mode,
        }
    }
}

/// The sums of the day as they are published.
#[derive(Debug, PartialEq)]
pub struct DailyStatistics {
    pub time: Timestamp,
    pub autarky_today: Float64,
    pub self_consumption_today: Float64,
    pub solar_production_today: Float64,
    pub house_consumption_today: Float64,
    pub battery_charge_today: Float64,
    pub battery_discharge_today: Float64,
    pub export_to_grid_today: Float64,
    pub consumption_from_grid_today: Float64,
    pub state_of_charge_today: Float64,
    pub start: Timestamp,
    pub timespan: TimeSpan,
}

/// `r` is what is published of the day's sums: the percentages and the
/// energies alike rounded to one decimal.
pub open spec fn is_published_statistics(r: DailyStatistics, stat: e3dc::DailyStatistics) -> bool {
    &&& r.time == stat.time_stamp
    &&& r.autarky_today == stat.autarky.rounded_to(1)
    &&& r.self_consumption_today == stat.consumed_production.rounded_to(1)
    &&& r.solar_production_today == stat.solar_production.rounded_to(1)
    &&& r.house_consumption_today == stat.consumption.rounded_to(1)
    &&& r.battery_charge_today == stat.bat_power_in.rounded_to(1)
    &&& r.battery_discharge_today == stat.bat_power_out.rounded_to(1)
    &&& r.export_to_grid_today == stat.grid_power_in.rounded_to(1)
    &&& r.consumption_from_grid_today == stat.grid_power_out.rounded_to(1)
    &&& r.state_of_charge_today == stat.state_of_charge.rounded_to(1)
    &&& r.start == stat.start
    &&& r.timespan == stat.timespan
}

impl DailyStatistics {
    /// What is published of the day's sums.
    pub fn from_e3dc(stat: &e3dc::DailyStatistics) -> (r: DailyStatistics)
        ensures
            is_published_statistics(r, *stat),
    {
        DailyStatistics {
            time: stat.time_stamp,
            autarky_today: round(stat.autarky, 1),
            self_consumption_today: round(stat.consumed_production, 1),
            solar_production_today: round(stat.solar_production, 1),
            house_consumption_today: round(stat.consumption, 1),
            battery_charge_today: round(stat.bat_power_in, 1),
            battery_discharge_today: round(stat.bat_power_out, 1),
            export_to_grid_today: round(stat.grid_power_in, 1),
            consumption_from_grid_today: round(stat.grid_power_out, 1),
            state_of_charge_today: round(stat.state_of_charge, 1),
            start: stat.start,
            timespan: stat.timespan,
        }
    }
}

} // verus!
