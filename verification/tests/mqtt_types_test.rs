//! What is published of a snapshot: rounding, splitting and renaming.

use e3dc_mqtt_rs::e3dc;
use e3dc_mqtt_rs::float::Float64;
use e3dc_mqtt_rs::mqtt::types::split_val;
use e3dc_mqtt_rs::mqtt::{BatteryData, DailyStatistics, DcbData, Status, SystemInfo};
use e3dc_mqtt_rs::time::{TimeSpan, Timestamp};

fn f(value: f64) -> Float64 {
    Float64::from_bits(value.to_bits())
}

fn v(value: Float64) -> f64 {
    f64::from_bits(value.bits)
}

fn at(secs: i64) -> Timestamp {
    Timestamp { secs, nanos: 0 }
}

fn machine_round(value: f64, decimals: i32) -> f64 {
    let multiplier = 10_f64.powi(decimals);
    (value * multiplier).round() / multiplier
}

#[test]
fn a_directed_quantity_splits_into_its_two_directions() {
    assert_eq!(split_val(f(1_500.0)), (f(1_500.0), f(0.0)));
    assert_eq!(split_val(f(-1_500.0)), (f(0.0), f(1_500.0)));
    assert_eq!(split_val(f(0.0)), (f(0.0), f(0.0)));
    assert_eq!(split_val(f(-0.0)), (f(-0.0), f(0.0)));
    assert_eq!(split_val(f(f64::INFINITY)), (f(f64::INFINITY), f(0.0)));
    assert_eq!(split_val(f(f64::NEG_INFINITY)), (f(0.0), f(f64::INFINITY)));
    let (charge, discharge) = split_val(f(f64::NAN));
    assert_eq!(v(charge), 0.0);
    assert!(v(discharge).is_nan());
}

#[test]
fn the_parts_of_a_split_give_the_value_back() {
    let mut state: u64 = 0x2545_F491_4F6C_DD1D;
    let mut samples = vec![0.0, -0.0, 1.0, -1.0, 5e-324, -5e-324, f64::MAX, f64::MIN, 0.1, -0.1];
    for _ in 0..50_000 {
        state ^= state << 13;
        state ^= state >> 7;
        state ^= state << 17;
        let candidate = f64::from_bits(state);
        if candidate.is_finite() {
            samples.push(candidate);
        }
    }
    for x in samples {
        let (positive, negative) = split_val(f(x));
        let (p, n) = (v(positive), v(negative));
        assert_eq!(p - n, x, "{x:?}");
        assert!(p >= 0.0 && n >= 0.0, "{x:?}");
        assert_eq!((p != 0.0) as u8 + (n != 0.0) as u8, (x != 0.0) as u8, "{x:?}");
    }
}

fn device_status() -> e3dc::Status {
    e3dc::Status {
        time_stamp: at(1_700_000_000),
        power_battery: f(-1_500.0),
        power_wb: f(11.0),
        power_home: f(2_400.0),
        power_pv: f(4_200.5),
        power_grid: f(300.0),
        power_add: f(-20.0),
        battery_soc: f(87.456),
        autarky: f(93.25),
        self_consumption: f(61.149),
    }
}

#[test]
fn a_status_is_published_with_its_percentages_to_one_decimal() {
    let s = Status::from_e3dc(&device_status());
    assert_eq!(s.time, at(1_700_000_000));
    assert_eq!(v(s.additional), 20.0);
    assert_eq!(v(s.autarky), 93.3);
    assert_eq!(v(s.self_consumption), 61.1);
    assert_eq!(v(s.battery_charge), 0.0);
    assert_eq!(v(s.battery_discharge), 1_500.0);
    assert_eq!(v(s.battery_consumption), -1_500.0);
    assert_eq!(v(s.consumption_from_grid), 300.0);
    assert_eq!(v(s.export_to_grid), 0.0);
    assert_eq!(v(s.grid_production), 300.0);
    assert_eq!(v(s.house_consumption), 2_400.0);
    assert_eq!(v(s.solar_production), 4_200.5);
    assert_eq!(v(s.solar_production_excess), 1_800.5);
    assert_eq!(v(s.autarky), machine_round(93.25, 1));
    assert_eq!(v(s.self_consumption), machine_round(61.149, 1));
    assert_eq!(v(s.solar_production_excess), 4_200.5 - 2_400.0);
    // Raw readings are not rounded.
    assert_eq!(v(s.state_of_charge), 87.5);
    assert_eq!(v(s.state_of_charge), machine_round(87.456, 1));
    assert_eq!(v(s.wb_consumption), 11.0);
    // The sign of zero turns too.
    let still = e3dc::Status { power_add: f(0.0), ..device_status() };
    assert_eq!(Status::from_e3dc(&still).additional, f(-0.0));
}

#[test]
fn the_sums_of_the_day_are_published_to_one_decimal() {
    let stat = e3dc::DailyStatistics {
        time_stamp: at(1_700_000_000),
        autarky: f(95.449),
        consumption: f(5_500.123),
        solar_production: f(9_000.987),
        consumed_production: f(55.25),
        bat_power_in: f(1_500.5),
        bat_power_out: f(1_250.25),
        grid_power_in: f(4_000.125),
        grid_power_out: f(250.75),
        state_of_charge: f(75.55),
        start: at(1_699_920_000),
        timespan: TimeSpan { secs: 80_000 },
    };
    let s = DailyStatistics::from_e3dc(&stat);
    assert_eq!(s.time, at(1_700_000_000));
    assert_eq!(v(s.autarky_today), 95.4);
    assert_eq!(v(s.self_consumption_today), 55.3);
    assert_eq!(v(s.state_of_charge_today), 75.6);
    assert_eq!(v(s.solar_production_today), 9_001.0);
    assert_eq!(v(s.house_consumption_today), 5_500.1);
    assert_eq!(v(s.battery_charge_today), 1_500.5);
    assert_eq!(v(s.battery_discharge_today), 1_250.3);
    assert_eq!(v(s.export_to_grid_today), 4_000.1);
    assert_eq!(v(s.consumption_from_grid_today), 250.8);
    assert_eq!(v(s.solar_production_today), machine_round(9_000.987, 1));
    assert_eq!(v(s.battery_discharge_today), machine_round(1_250.25, 1));
    assert_eq!(v(s.export_to_grid_today), machine_round(4_000.125, 1));
    assert_eq!(v(s.consumption_from_grid_today), machine_round(250.75, 1));
    assert_eq!(s.start, at(1_699_920_000));
    assert_eq!(s.timespan, TimeSpan { secs: 80_000 });
}

fn device_dcb(index: u64) -> e3dc::DcbData {
    e3dc::DcbData {
        index,
        current: f(-1.2345),
        current_avg_30s: f(-1.5051),
        voltage: f(51.504),
        voltage_avg_30s: f(51.255),
        soc: f(88.888),
        soh: f(99.123),
        cycle_count: f(412.0),
        design_capacity: f(65.004),
        design_voltage: f(50.506),
        full_charge_capacity: f(64.001),
        remaining_capacity: f(56.499),
        max_charge_voltage: f(57.501),
        max_charge_current: f(30.001),
        max_discharge_current: f(40.001),
        end_of_discharge: f(42.001),
        max_charge_temperature: f(45.001),
        min_charge_temperature: f(5.001),
        device_name: "DCB-7".to_string(),
        manufacture_name: "ACME".to_string(),
        manufacture_date: f(1_600_000_000.0),
        serial_code: "SC-123".to_string(),
        serial_no: f(123.0),
        fw_version: f(512.0),
        pcb_version: f(3.0),
        protocol_version: f(2.0),
        error: f(0.0),
        warning: f(4.0),
        status: f(1.0),
        series_cell_count: 2,
        parallel_cell_count: 1,
        sensor_count: 3,
        cell_temperatures: vec![f(21.504), f(22.006), f(0.0)],
        cell_voltages: vec![f(3.5049), f(3.2551)],
    }
}

#[test]
fn a_controller_is_published_with_its_readings_rounded() {
    let d = DcbData::from_e3dc(&device_dcb(3));
    assert_eq!(d.index, 3);
    assert_eq!(v(d.current), -1.23);
    assert_eq!(v(d.current_avg_30s), -1.51);
    assert_eq!(v(d.voltage), 51.5);
    assert_eq!(v(d.voltage_avg_30s), 51.26);
    assert_eq!(v(d.soc), 88.9);
    assert_eq!(v(d.design_voltage), 50.51);
    assert_eq!(v(d.remaining_capacity), 56.5);
    assert_eq!(v(d.max_charge_voltage), 57.5);
    let temperatures: Vec<f64> = d.temperatures.iter().map(|t| v(*t)).collect();
    assert_eq!(temperatures, vec![21.5, 22.01, 0.0]);
    let voltages: Vec<f64> = d.voltages.iter().map(|t| v(*t)).collect();
    assert_eq!(voltages, vec![3.5, 3.26]);
    assert_eq!(v(d.voltage_avg_30s), machine_round(51.255, 2));
    assert_eq!(v(d.soc), machine_round(88.888, 1));
    // Everything else passes as it is.
    assert_eq!(v(d.soh), 99.1);
    assert_eq!(v(d.cycle_count), 412.0);
    assert_eq!(v(d.design_capacity), 65.0);
    assert_eq!(v(d.full_charge_capacity), 64.0);
    assert_eq!(v(d.max_charge_current), 30.0);
    assert_eq!(v(d.max_discharge_current), 40.0);
    assert_eq!(v(d.end_of_discharge), 42.0);
    assert_eq!(v(d.max_charge_temperature), 45.0);
    assert_eq!(v(d.min_charge_temperature), 5.0);
    let mut fine = device_dcb(3);
    fine.design_capacity = f(65.126);
    fine.full_charge_capacity = f(64.555);
    fine.max_charge_current = f(30.005);
    fine.max_discharge_current = f(-40.016);
    fine.end_of_discharge = f(42.994);
    fine.max_charge_temperature = f(45.449);
    fine.min_charge_temperature = f(-5.555);
    let d = DcbData::from_e3dc(&fine);
    assert_eq!(v(d.design_capacity), 65.13);
    assert_eq!(v(d.full_charge_capacity), machine_round(64.555, 2));
    assert_eq!(v(d.max_charge_current), machine_round(30.005, 2));
    assert_eq!(v(d.max_discharge_current), -40.02);
    assert_eq!(v(d.end_of_discharge), 42.99);
    assert_eq!(v(d.max_charge_temperature), 45.45);
    assert_eq!(v(d.min_charge_temperature), machine_round(-5.555, 2));
    assert_eq!(d.device_name, "DCB-7");
    assert_eq!(d.manufacture_name, "ACME");
    assert_eq!(v(d.manufacture_date), 1_600_000_000.0);
    assert_eq!(d.serial_code, "SC-123");
    assert_eq!(v(d.serial_no), 123.0);
    assert_eq!(v(d.fw_version), 512.0);
    assert_eq!(v(d.pcb_version), 3.0);
    assert_eq!(v(d.protocol_version), 2.0);
    assert_eq!(v(d.error), 0.0);
    assert_eq!(v(d.warning), 4.0);
    assert_eq!(v(d.status), 1.0);
    assert_eq!(d.series_cell_count, 2);
    assert_eq!(d.parallel_cell_count, 1);
    assert_eq!(d.sensor_count, 3);
}

#[test]
fn a_battery_is_published_with_its_readings_rounded() {
    let data = e3dc::BatteryData {
        index: 1,
        time_stamp: at(1_700_000_000),
        rsoc: f(87.504),
        rsoc_real: f(86.255),
        asoc: f(80.123),
        current: f(-3.456),
        module_voltage: f(51.504),
        terminal_voltage: f(51.255),
        max_bat_voltage: f(57.499),
        eod_voltage: f(42.001),
        fcc: f(128.001),
        rc: f(112.506),
        design_capacity: f(130.001),
        usable_capacity: f(120.004),
        usable_remaining_capacity: f(105.006),
        max_charge_current: f(60.001),
        max_discharge_current: f(80.001),
        max_dcb_cell_temp: f(24.506),
        min_dcb_cell_temp: f(21.004),
        status_code: f(3.0),
        error_code: f(0.0),
        charge_cycles: f(512.0),
        total_use_time: 86_400,
        total_discharge_time: 43_200,
        device_name: "BAT".to_string(),
        param_bat_number: 1,
        manufacturer_name: "ACME".to_string(),
        serialno: 99,
        instance_descriptor: "main".to_string(),
        dcb_count: 2,
        dcbs: vec![device_dcb(0), device_dcb(1)],
        ready_for_shutdown: true,
        training_mode: false,
    };
    let b = BatteryData::from_e3dc(&data);
    assert_eq!(b.index, 1);
    assert_eq!(b.time, at(1_700_000_000));
    assert_eq!(v(b.rsoc), 87.5);
    assert_eq!(v(b.rsoc_real), 86.3);
    assert_eq!(v(b.rsoc_real), machine_round(86.255, 1));
    assert_eq!(v(b.current), -3.46);
    assert_eq!(v(b.module_voltage), 51.5);
    assert_eq!(v(b.terminal_voltage), 51.26);
    assert_eq!(v(b.max_battery_voltage), 57.5);
    assert_eq!(v(b.rc), 112.51);
    assert_eq!(v(b.usable_capacity), 120.0);
    assert_eq!(v(b.usable_remaining_capacity), 105.01);
    assert_eq!(v(b.max_dcb_cell_temp), 24.51);
    assert_eq!(v(b.min_dcb_cell_temp), 21.0);
    assert_eq!(v(b.asoc), 80.1);
    assert_eq!(v(b.eod_voltage), 42.0);
    assert_eq!(v(b.fcc), 128.0);
    assert_eq!(v(b.design_capacity), 130.0);
    assert_eq!(v(b.max_charge_current), 60.0);
    assert_eq!(v(b.max_discharge_current), 80.0);
    assert_eq!(v(b.status_code), 3.0);
    assert_eq!(v(b.error_code), 0.0);
    assert_eq!(v(b.charge_cycles), 512.0);
    assert_eq!(b.total_use_time, 86_400);
    assert_eq!(b.total_discharge_time, 43_200);
    assert_eq!(b.device_name, "BAT");
    assert_eq!(b.dcb_count, 2);
    assert!(b.ready_for_shutdown);
    assert!(!b.training_mode);
    assert_eq!(b.dcbs, vec![DcbData::from_e3dc(&device_dcb(0)), DcbData::from_e3dc(&device_dcb(1))]);
}

#[test]
fn the_system_information_is_published_with_its_derating_to_one_decimal() {
    let info = e3dc::SystemInfo {
        time_stamp: at(1_700_000_000),
        serial_number: "720001".to_string(),
        mac_address: "00:11:22:33:44:55".to_string(),
        ip_address: "192.168.1.50".to_string(),
        model: "S10E",
        software_release: "S10_2024_02".to_string(),
        installed_peak_power: 9_900,
        installed_battery_capacity: Some(13_000),
        max_ac_power: Some(4_600),
        max_battery_charge_power: None,
        max_battery_discharge_power: Some(3_000),
        derate_percent: f(0.7_f32 as f64),
        derate_power: 6_930,
        max_charge_power: 3_000,
        max_discharge_power: 3_100,
        discharge_start_power: 65,
        power_limits_used: true,
        power_save_enabled: false,
        weather_forecast_mode: 2,
        weather_regulated_charge_enabled: true,
        external_source_available: false,
    };
    let s = SystemInfo::from_e3dc(&info);
    assert_eq!(v(s.derate_percent), 0.7);
    assert_eq!(s.time, at(1_700_000_000));
    assert_eq!(s.serial, "720001");
    assert_eq!(s.release, "S10_2024_02");
    assert_eq!(s.model, "S10E");
    assert_eq!(s.mac_address, "00:11:22:33:44:55");
    assert_eq!(s.ip_address, "192.168.1.50");
    assert_eq!(s.derate_power, 6_930);
    assert_eq!(s.installed_peak_power, 9_900);
    assert_eq!(s.installed_battery_capacity, Some(13_000));
    assert_eq!(s.max_ac_power, Some(4_600));
    assert_eq!(s.max_battery_charge_power, None);
    assert_eq!(s.max_battery_discharge_power, Some(3_000));
    assert_eq!(s.max_charge_power, 3_000);
    assert_eq!(s.max_discharge_power, 3_100);
    assert_eq!(s.discharge_start_power, 65);
    assert!(s.power_limits_used);
    assert!(!s.power_save_enabled);
    assert_eq!(s.weather_forecast_mode, 2);
    assert!(s.weather_regulated_charge_enabled);
    assert!(!s.external_source_available);
}
