//! Requests and the assembly of snapshots from answers.

use e3dc_mqtt_rs::e3dc::client::{
    empty_item, extract_dcb_cell_data, find_system_spec, identify_model, send_request,
};
use e3dc_mqtt_rs::e3dc::request::{
    available_batteries_request, battery_data_request, dcb_count_request, dcb_request,
    history_request, static_info_request, status_request, system_info_request,
};
use e3dc_mqtt_rs::e3dc::tags::{bat, db, ems, info};
use e3dc_mqtt_rs::e3dc::{
    BatteryInfo, DynamicValue, E3dcClient, Frame, SystemInfoStatic, TaggedItem,
};
use e3dc_mqtt_rs::errors::E3dcError;
use e3dc_mqtt_rs::float::{Float32, Float64};
use e3dc_mqtt_rs::time::{TimeSpan, Timestamp};

fn double(value: f64) -> DynamicValue {
    DynamicValue::Float64(Float64::from_bits(value.to_bits()))
}

fn single(value: f32) -> DynamicValue {
    DynamicValue::Float32(Float32::from_bits(value.to_bits()))
}

fn text(value: &str) -> DynamicValue {
    DynamicValue::Text(value.to_string())
}

fn item(tag: u32, value: DynamicValue) -> TaggedItem {
    TaggedItem { tag, value: Some(value) }
}

fn container(tag: u32, items: Vec<TaggedItem>) -> TaggedItem {
    item(tag, DynamicValue::Container(items))
}

fn at(secs: i64) -> Timestamp {
    Timestamp { secs, nanos: 0 }
}

fn frame(items: Vec<TaggedItem>) -> Frame {
    Frame { time_stamp: at(1_700_000_000), items: Some(items) }
}

fn values(list: &[Float64]) -> Vec<f64> {
    list.iter().map(|v| f64::from_bits(v.bits)).collect()
}

fn without(items: &[TaggedItem], tag: u32) -> Vec<TaggedItem> {
    items
        .iter()
        .filter(|i| i.tag != tag)
        .map(|i| match &i.value {
            Some(DynamicValue::Container(inner)) => container(i.tag, without(inner, tag)),
            Some(DynamicValue::Text(t)) => item(i.tag, text(t)),
            Some(DynamicValue::Float64(value)) => item(i.tag, DynamicValue::Float64(*value)),
            Some(DynamicValue::Float32(value)) => item(i.tag, DynamicValue::Float32(*value)),
            Some(DynamicValue::Bool(b)) => item(i.tag, DynamicValue::Bool(*b)),
            Some(DynamicValue::UInt8(v)) => item(i.tag, DynamicValue::UInt8(*v)),
            Some(DynamicValue::UInt16(v)) => item(i.tag, DynamicValue::UInt16(*v)),
            Some(DynamicValue::UInt32(v)) => item(i.tag, DynamicValue::UInt32(*v)),
            Some(DynamicValue::UInt64(v)) => item(i.tag, DynamicValue::UInt64(*v)),
            Some(DynamicValue::Int8(v)) => item(i.tag, DynamicValue::Int8(*v)),
            Some(DynamicValue::Int16(v)) => item(i.tag, DynamicValue::Int16(*v)),
            Some(DynamicValue::Int32(v)) => item(i.tag, DynamicValue::Int32(*v)),
            Some(DynamicValue::Int64(v)) => item(i.tag, DynamicValue::Int64(*v)),
            Some(DynamicValue::Unrecognized) => item(i.tag, DynamicValue::Unrecognized),
            None => empty_item(i.tag),
        })
        .collect()
}

fn known_device() -> SystemInfoStatic {
    SystemInfoStatic {
        serial_number: "720001".to_string(),
        model: "S10E",
        mac_address: "00:11:22:33:44:55".to_string(),
        installed_peak_power: 9_900,
        derate_at_percent_value: Float64::from_bits(0.7_f64.to_bits()),
        derate_at_power_value: 6_930,
        ext_source_available: false,
    }
}

fn battery(index: u64, dcb_count: u64) -> BatteryInfo {
    BatteryInfo {
        index,
        device_name: "BAT".to_string(),
        param_bat_number: 1,
        manufacturer_name: "ACME".to_string(),
        serialno: 99,
        instance_descriptor: "main".to_string(),
        dcb_count,
    }
}

fn client() -> E3dcClient {
    E3dcClient::new(vec![battery(0, 2)], known_device())
}

fn tags_of(items: &[TaggedItem]) -> Vec<u32> {
    items.iter().map(|i| i.tag).collect()
}

fn inner(request: &[TaggedItem]) -> &Vec<TaggedItem> {
    assert_eq!(request.len(), 1);
    match &request[0].value {
        Some(DynamicValue::Container(items)) => items,
        other => panic!("expected a container, got {:?}", other),
    }
}

#[test]
fn tags_are_those_of_the_protocol() {
    let pairs: Vec<(u32, u32)> = vec![
        (bat::DATA, rscp::tags::BAT::DATA.into()),
        (bat::INDEX, rscp::tags::BAT::INDEX.into()),
        (bat::RSOC, rscp::tags::BAT::RSOC.into()),
        (bat::RSOC_REAL, rscp::tags::BAT::RSOC_REAL.into()),
        (bat::ASOC, rscp::tags::BAT::ASOC.into()),
        (bat::CURRENT, rscp::tags::BAT::CURRENT.into()),
        (bat::MODULE_VOLTAGE, rscp::tags::BAT::MODULE_VOLTAGE.into()),
        (bat::TERMINAL_VOLTAGE, rscp::tags::BAT::TERMINAL_VOLTAGE.into()),
        (bat::MAX_BAT_VOLTAGE, rscp::tags::BAT::MAX_BAT_VOLTAGE.into()),
        (bat::EOD_VOLTAGE, rscp::tags::BAT::EOD_VOLTAGE.into()),
        (bat::FCC, rscp::tags::BAT::FCC.into()),
        (bat::RC, rscp::tags::BAT::RC.into()),
        (bat::DESIGN_CAPACITY, rscp::tags::BAT::DESIGN_CAPACITY.into()),
        (bat::USABLE_CAPACITY, rscp::tags::BAT::USABLE_CAPACITY.into()),
        (bat::USABLE_REMAINING_CAPACITY, rscp::tags::BAT::USABLE_REMAINING_CAPACITY.into()),
        (bat::MAX_CHARGE_CURRENT, rscp::tags::BAT::MAX_CHARGE_CURRENT.into()),
        (bat::MAX_DISCHARGE_CURRENT, rscp::tags::BAT::MAX_DISCHARGE_CURRENT.into()),
        (bat::MAX_DCB_CELL_TEMPERATURE, rscp::tags::BAT::MAX_DCB_CELL_TEMPERATURE.into()),
        (bat::MIN_DCB_CELL_TEMPERATURE, rscp::tags::BAT::MIN_DCB_CELL_TEMPERATURE.into()),
        (bat::STATUS_CODE, rscp::tags::BAT::STATUS_CODE.into()),
        (bat::ERROR_CODE, rscp::tags::BAT::ERROR_CODE.into()),
        (bat::CHARGE_CYCLES, rscp::tags::BAT::CHARGE_CYCLES.into()),
        (bat::TOTAL_USE_TIME, rscp::tags::BAT::TOTAL_USE_TIME.into()),
        (bat::TOTAL_DISCHARGE_TIME, rscp::tags::BAT::TOTAL_DISCHARGE_TIME.into()),
        (bat::DCB_COUNT, rscp::tags::BAT::DCB_COUNT.into()),
        (bat::READY_FOR_SHUTDOWN, rscp::tags::BAT::READY_FOR_SHUTDOWN.into()),
        (bat::TRAINING_MODE, rscp::tags::BAT::TRAINING_MODE.into()),
        (bat::REQ_AVAILABLE_BATTERIES, rscp::tags::BAT::REQ_AVAILABLE_BATTERIES.into()),
        (bat::AVAILABLE_BATTERIES, rscp::tags::BAT::AVAILABLE_BATTERIES.into()),
        (bat::PARAM_BAT_NUMBER, rscp::tags::BAT::PARAM_BAT_NUMBER.into()),
        (bat::DEVICE_NAME, rscp::tags::BAT::DEVICE_NAME.into()),
        (bat::MANUFACTURER_NAME, rscp::tags::BAT::MANUFACTURER_NAME.into()),
        (bat::SERIALNO, rscp::tags::BAT::SERIALNO.into()),
        (bat::INSTANCE_DESCRIPTOR, rscp::tags::BAT::INSTANCE_DESCRIPTOR.into()),
        (bat::DCB_INFO, rscp::tags::BAT::DCB_INFO.into()),
        (bat::DCB_ALL_CELL_TEMPERATURES, rscp::tags::BAT::DCB_ALL_CELL_TEMPERATURES.into()),
        (bat::DCB_ALL_CELL_VOLTAGES, rscp::tags::BAT::DCB_ALL_CELL_VOLTAGES.into()),
        (bat::DCB_CELL_TEMPERATURE, rscp::tags::BAT::DCB_CELL_TEMPERATURE.into()),
        (bat::DCB_CELL_VOLTAGE, rscp::tags::BAT::DCB_CELL_VOLTAGE.into()),
        (bat::DCB_NR_SENSOR, rscp::tags::BAT::DCB_NR_SENSOR.into()),
        (bat::DCB_NR_SERIES_CELL, rscp::tags::BAT::DCB_NR_SERIES_CELL.into()),
        (bat::DCB_NR_PARALLEL_CELL, rscp::tags::BAT::DCB_NR_PARALLEL_CELL.into()),
        (bat::DCB_CURRENT, rscp::tags::BAT::DCB_CURRENT.into()),
        (bat::DCB_CURRENT_AVG_30S, rscp::tags::BAT::DCB_CURRENT_AVG_30S.into()),
        (bat::DCB_VOLTAGE, rscp::tags::BAT::DCB_VOLTAGE.into()),
        (bat::DCB_VOLTAGE_AVG_30S, rscp::tags::BAT::DCB_VOLTAGE_AVG_30S.into()),
        (bat::DCB_SOC, rscp::tags::BAT::DCB_SOC.into()),
        (bat::DCB_SOH, rscp::tags::BAT::DCB_SOH.into()),
        (bat::DCB_CYCLE_COUNT, rscp::tags::BAT::DCB_CYCLE_COUNT.into()),
        (bat::DCB_DESIGN_CAPACITY, rscp::tags::BAT::DCB_DESIGN_CAPACITY.into()),
        (bat::DCB_DESIGN_VOLTAGE, rscp::tags::BAT::DCB_DESIGN_VOLTAGE.into()),
        (bat::DCB_FULL_CHARGE_CAPACITY, rscp::tags::BAT::DCB_FULL_CHARGE_CAPACITY.into()),
        (bat::DCB_REMAINING_CAPACITY, rscp::tags::BAT::DCB_REMAINING_CAPACITY.into()),
        (bat::DCB_MAX_CHARGE_VOLTAGE, rscp::tags::BAT::DCB_MAX_CHARGE_VOLTAGE.into()),
        (bat::DCB_MAX_CHARGE_CURRENT, rscp::tags::BAT::DCB_MAX_CHARGE_CURRENT.into()),
        (bat::DCB_MAX_DISCHARGE_CURRENT, rscp::tags::BAT::DCB_MAX_DISCHARGE_CURRENT.into()),
        (bat::DCB_END_OF_DISCHARGE, rscp::tags::BAT::DCB_END_OF_DISCHARGE.into()),
        (bat::DCB_CHARGE_HIGH_TEMPERATURE, rscp::tags::BAT::DCB_CHARGE_HIGH_TEMPERATURE.into()),
        (bat::DCB_CHARGE_LOW_TEMPERATURE, rscp::tags::BAT::DCB_CHARGE_LOW_TEMPERATURE.into()),
        (bat::DCB_DEVICE_NAME, rscp::tags::BAT::DCB_DEVICE_NAME.into()),
        (bat::DCB_MANUFACTURE_NAME, rscp::tags::BAT::DCB_MANUFACTURE_NAME.into()),
        (bat::DCB_MANUFACTURE_DATE, rscp::tags::BAT::DCB_MANUFACTURE_DATE.into()),
        (bat::DCB_SERIALCODE, rscp::tags::BAT::DCB_SERIALCODE.into()),
        (bat::DCB_SERIALNO, rscp::tags::BAT::DCB_SERIALNO.into()),
        (bat::DCB_FW_VERSION, rscp::tags::BAT::DCB_FW_VERSION.into()),
        (bat::DCB_PCB_VERSION, rscp::tags::BAT::DCB_PCB_VERSION.into()),
        (bat::DCB_PROTOCOL_VERSION, rscp::tags::BAT::DCB_PROTOCOL_VERSION.into()),
        (bat::DCB_ERROR, rscp::tags::BAT::DCB_ERROR.into()),
        (bat::DCB_WARNING, rscp::tags::BAT::DCB_WARNING.into()),
        (bat::DCB_STATUS, rscp::tags::BAT::DCB_STATUS.into()),
        (db::HISTORY_DATA_DAY, rscp::tags::DB::HISTORY_DATA_DAY.into()),
        (db::HISTORY_TIME_START, rscp::tags::DB::HISTORY_TIME_START.into()),
        (db::HISTORY_TIME_INTERVAL, rscp::tags::DB::HISTORY_TIME_INTERVAL.into()),
        (db::HISTORY_TIME_SPAN, rscp::tags::DB::HISTORY_TIME_SPAN.into()),
        (db::SUM_CONTAINER, rscp::tags::DB::SUM_CONTAINER.into()),
        (db::AUTARKY, rscp::tags::DB::AUTARKY.into()),
        (db::CONSUMED_PRODUCTION, rscp::tags::DB::CONSUMED_PRODUCTION.into()),
        (db::DC_POWER, rscp::tags::DB::DC_POWER.into()),
        (db::CONSUMPTION, rscp::tags::DB::CONSUMPTION.into()),
        (db::BAT_POWER_IN, rscp::tags::DB::BAT_POWER_IN.into()),
        (db::BAT_POWER_OUT, rscp::tags::DB::BAT_POWER_OUT.into()),
        (db::GRID_POWER_IN, rscp::tags::DB::GRID_POWER_IN.into()),
        (db::GRID_POWER_OUT, rscp::tags::DB::GRID_POWER_OUT.into()),
        (db::BAT_CHARGE_LEVEL, rscp::tags::DB::BAT_CHARGE_LEVEL.into()),
        (ems::POWER_PV, rscp::tags::EMS::POWER_PV.into()),
        (ems::POWER_BAT, rscp::tags::EMS::POWER_BAT.into()),
        (ems::POWER_HOME, rscp::tags::EMS::POWER_HOME.into()),
        (ems::POWER_GRID, rscp::tags::EMS::POWER_GRID.into()),
        (ems::POWER_ADD, rscp::tags::EMS::POWER_ADD.into()),
        (ems::POWER_WB_ALL, rscp::tags::EMS::POWER_WB_ALL.into()),
        (ems::AUTARKY, rscp::tags::EMS::AUTARKY.into()),
        (ems::SELF_CONSUMPTION, rscp::tags::EMS::SELF_CONSUMPTION.into()),
        (ems::BAT_SOC, rscp::tags::EMS::BAT_SOC.into()),
        (ems::DERATE_AT_PERCENT_VALUE, rscp::tags::EMS::DERATE_AT_PERCENT_VALUE.into()),
        (ems::DERATE_AT_POWER_VALUE, rscp::tags::EMS::DERATE_AT_POWER_VALUE.into()),
        (ems::INSTALLED_PEAK_POWER, rscp::tags::EMS::INSTALLED_PEAK_POWER.into()),
        (ems::EXT_SRC_AVAILABLE, rscp::tags::EMS::EXT_SRC_AVAILABLE.into()),
        (ems::GET_POWER_SETTINGS, rscp::tags::EMS::GET_POWER_SETTINGS.into()),
        (ems::REQ_GET_SYS_SPECS, rscp::tags::EMS::REQ_GET_SYS_SPECS.into()),
        (ems::GET_SYS_SPECS, rscp::tags::EMS::GET_SYS_SPECS.into()),
        (ems::SYS_SPEC, rscp::tags::EMS::SYS_SPEC.into()),
        (ems::SYS_SPEC_NAME, rscp::tags::EMS::SYS_SPEC_NAME.into()),
        (ems::SYS_SPEC_VALUE_INT, rscp::tags::EMS::SYS_SPEC_VALUE_INT.into()),
        (ems::MAX_CHARGE_POWER, rscp::tags::EMS::MAX_CHARGE_POWER.into()),
        (ems::MAX_DISCHARGE_POWER, rscp::tags::EMS::MAX_DISCHARGE_POWER.into()),
        (ems::DISCHARGE_START_POWER, rscp::tags::EMS::DISCHARGE_START_POWER.into()),
        (ems::POWER_LIMITS_USED, rscp::tags::EMS::POWER_LIMITS_USED.into()),
        (ems::POWERSAVE_ENABLED, rscp::tags::EMS::POWERSAVE_ENABLED.into()),
        (ems::WEATHER_FORECAST_MODE, rscp::tags::EMS::WEATHER_FORECAST_MODE.into()),
        (
            ems::WEATHER_REGULATED_CHARGE_ENABLED,
            rscp::tags::EMS::WEATHER_REGULATED_CHARGE_ENABLED.into(),
        ),
        (info::SERIAL_NUMBER, rscp::tags::INFO::SERIAL_NUMBER.into()),
        (info::MAC_ADDRESS, rscp::tags::INFO::MAC_ADDRESS.into()),
        (info::IP_ADDRESS, rscp::tags::INFO::IP_ADDRESS.into()),
        (info::SW_RELEASE, rscp::tags::INFO::SW_RELEASE.into()),
    ];
    assert_eq!(pairs.len(), 114);
    for (ours, theirs) in pairs {
        assert_eq!(ours, theirs, "{ours:#010x}");
    }
}

#[test]
fn requests_ask_for_the_fields_of_their_snapshot() {
    assert_eq!(empty_item(7), TaggedItem { tag: 7, value: None });
    let status = status_request();
    assert_eq!(
        tags_of(&status),
        vec![
            ems::POWER_PV,
            ems::POWER_BAT,
            ems::POWER_GRID,
            ems::POWER_HOME,
            ems::BAT_SOC,
            ems::AUTARKY,
            ems::SELF_CONSUMPTION,
            ems::POWER_WB_ALL,
            ems::POWER_ADD
        ]
    );
    assert!(status.iter().all(|i| i.value.is_none()));
    assert_eq!(
        tags_of(&static_info_request()),
        vec![
            ems::DERATE_AT_PERCENT_VALUE,
            ems::DERATE_AT_POWER_VALUE,
            ems::INSTALLED_PEAK_POWER,
            ems::EXT_SRC_AVAILABLE,
            info::SERIAL_NUMBER,
            info::MAC_ADDRESS
        ]
    );
    assert_eq!(
        tags_of(&system_info_request()),
        vec![info::SW_RELEASE, info::IP_ADDRESS, ems::GET_POWER_SETTINGS, ems::REQ_GET_SYS_SPECS]
    );
    assert_eq!(available_batteries_request(), vec![empty_item(bat::REQ_AVAILABLE_BATTERIES)]);
}

#[test]
fn battery_requests_carry_their_indices() {
    let count = dcb_count_request(3);
    assert_eq!(count[0].tag, bat::DATA);
    assert_eq!(
        inner(&count),
        &vec![item(bat::INDEX, DynamicValue::Int32(3)), empty_item(bat::DCB_COUNT)]
    );
    assert_eq!(inner(&dcb_count_request(u64::MAX))[0], item(bat::INDEX, DynamicValue::Int32(-1)));

    let data = battery_data_request(&battery(2, 4));
    assert_eq!(data[0].tag, bat::DATA);
    let asked = inner(&data);
    assert_eq!(asked.len(), 26);
    assert_eq!(asked[0], item(bat::INDEX, DynamicValue::UInt64(2)));
    assert_eq!(asked[1], empty_item(bat::RSOC));
    assert_eq!(asked[23], empty_item(bat::DCB_COUNT));
    assert_eq!(asked[25], empty_item(bat::TRAINING_MODE));
    assert!(asked[1..].iter().all(|i| i.value.is_none()));

    let dcb = dcb_request(1, 5);
    assert_eq!(
        inner(&dcb),
        &vec![
            item(bat::INDEX, DynamicValue::UInt16(1)),
            item(bat::DCB_ALL_CELL_TEMPERATURES, DynamicValue::UInt64(5)),
            item(bat::DCB_ALL_CELL_VOLTAGES, DynamicValue::UInt64(5)),
            item(bat::DCB_INFO, DynamicValue::UInt64(5)),
        ]
    );
    assert_eq!(inner(&dcb_request(65_537, 0))[0], item(bat::INDEX, DynamicValue::UInt16(1)));
}

#[test]
fn history_requests_name_their_window() {
    let request = history_request(at(1_700_000_000), TimeSpan { secs: 3_600 }).unwrap();
    assert_eq!(request[0].tag, db::HISTORY_DATA_DAY);
    assert_eq!(
        inner(&request),
        &vec![
            item(db::HISTORY_TIME_START, DynamicValue::UInt64(1_700_000_000)),
            item(db::HISTORY_TIME_INTERVAL, DynamicValue::Int64(3_600)),
            item(db::HISTORY_TIME_SPAN, DynamicValue::Int64(3_600)),
        ]
    );
    assert!(history_request(at(0), TimeSpan { secs: 0 }).is_ok());
    match history_request(at(-3_500), TimeSpan { secs: 3_600 }) {
        Err(E3dcError::ParseError(message)) => assert_eq!(message, "Invalid timestamp: -3500"),
        other => panic!("expected a parse error, got {:?}", other),
    }
}

#[test]
fn an_answer_without_data_is_no_answer() {
    let good = frame(vec![empty_item(1)]);
    assert_eq!(send_request(Ok(good)).unwrap(), frame(vec![empty_item(1)]));
    assert_eq!(send_request(Ok(frame(vec![]))).unwrap(), frame(vec![]));
    match send_request(Ok(Frame { time_stamp: at(0), items: None })) {
        Err(E3dcError::QueryFailed(reason)) => assert_eq!(reason, "Response has no data"),
        other => panic!("expected a failed query, got {:?}", other),
    }
    match send_request(Err("timed out".to_string())) {
        Err(E3dcError::QueryFailed(reason)) => assert_eq!(reason, "timed out"),
        other => panic!("expected a failed query, got {:?}", other),
    }
}

fn status_items() -> Vec<TaggedItem> {
    vec![
        item(ems::POWER_PV, DynamicValue::Int32(4_200)),
        item(ems::POWER_BAT, DynamicValue::Int32(-1_500)),
        item(ems::POWER_GRID, DynamicValue::Int32(300)),
        item(ems::POWER_HOME, DynamicValue::Int32(2_400)),
        item(ems::BAT_SOC, single(87.5)),
        item(ems::AUTARKY, single(93.25)),
        item(ems::SELF_CONSUMPTION, double(61.125)),
        item(ems::POWER_WB_ALL, DynamicValue::Int32(0)),
        item(ems::POWER_ADD, DynamicValue::Int32(-20)),
    ]
}

#[test]
fn a_status_is_read_field_by_field() {
    let status = client().get_status(&frame(status_items())).unwrap();
    assert_eq!(status.time_stamp, at(1_700_000_000));
    assert_eq!(f64::from_bits(status.power_pv.bits), 4_200.0);
    assert_eq!(f64::from_bits(status.power_battery.bits), -1_500.0);
    assert_eq!(f64::from_bits(status.power_grid.bits), 300.0);
    assert_eq!(f64::from_bits(status.power_home.bits), 2_400.0);
    assert_eq!(f64::from_bits(status.battery_soc.bits), 87.5);
    assert_eq!(f64::from_bits(status.autarky.bits), 93.25);
    assert_eq!(f64::from_bits(status.self_consumption.bits), 61.125);
    assert_eq!(f64::from_bits(status.power_wb.bits), 0.0);
    assert_eq!(f64::from_bits(status.power_add.bits), -20.0);
}

#[test]
fn a_status_with_a_missing_or_malformed_field_is_no_status() {
    for tag in tags_of(&status_items()) {
        let items = without(&status_items(), tag);
        match client().get_status(&frame(items)) {
            Err(E3dcError::MissingTag(missing)) => assert_eq!(missing, tag),
            other => panic!("expected a missing tag, got {:?}", other),
        }
    }
    // The first field in the order of reading decides which failure is reported.
    let two_missing = without(&without(&status_items(), ems::AUTARKY), ems::POWER_ADD);
    assert!(matches!(
        client().get_status(&frame(two_missing)),
        Err(E3dcError::MissingTag(ems::POWER_ADD))
    ));
    let mut malformed = status_items();
    malformed[4] = item(ems::BAT_SOC, text("full"));
    assert!(matches!(client().get_status(&frame(malformed)), Err(E3dcError::Type(_))));
    let mut unanswered = status_items();
    unanswered[0] = empty_item(ems::POWER_PV);
    assert!(matches!(
        client().get_status(&frame(unanswered)),
        Err(E3dcError::MissingData(ems::POWER_PV))
    ));
    assert!(client().get_status(&Frame { time_stamp: at(0), items: None }).is_err());
}

#[test]
fn model_table_order_matters() {
    assert_eq!(identify_model("720001"), "S10E");
    assert_eq!(identify_model("700001"), "S10E_Pro");
    assert_eq!(identify_model("750001"), "S10E_Pro_Compact");
    assert_eq!(identify_model("4"), "S10E");
    assert_eq!(identify_model("412345"), "S10E");
    assert_eq!(identify_model("740001"), "S10E_Compact");
    assert_eq!(identify_model("5"), "S10_Mini");
    assert_eq!(identify_model("60"), "Quattroporte");
    assert_eq!(identify_model("8123"), "S10X");
    assert_eq!(identify_model(""), "N/A");
    assert_eq!(identify_model("7"), "N/A");
    assert_eq!(identify_model("73"), "N/A");
    assert_eq!(identify_model("9"), "N/A");
    assert_eq!(identify_model("S10-72"), "N/A");
}

fn static_items(serial: &str) -> Vec<TaggedItem> {
    vec![
        item(ems::DERATE_AT_PERCENT_VALUE, single(0.7)),
        item(ems::DERATE_AT_POWER_VALUE, single(6930.0)),
        item(ems::INSTALLED_PEAK_POWER, DynamicValue::UInt32(9_900)),
        item(ems::EXT_SRC_AVAILABLE, DynamicValue::UInt8(0)),
        item(info::SERIAL_NUMBER, text(serial)),
        item(info::MAC_ADDRESS, text("00:11:22:33:44:55")),
    ]
}

#[test]
fn the_identity_strips_the_serial_and_names_the_model() {
    let known = E3dcClient::get_system_info_static(&frame(static_items("S10-720001"))).unwrap();
    assert_eq!(known.serial_number, "720001");
    assert_eq!(known.model, "S10E");
    assert_eq!(known.mac_address, "00:11:22:33:44:55");
    assert_eq!(known.installed_peak_power, 9_900);
    assert_eq!(known.derate_at_power_value, 6_930);
    assert_eq!(f64::from_bits(known.derate_at_percent_value.bits), 0.7_f32 as f64);
    assert!(!known.ext_source_available);

    let bare = E3dcClient::get_system_info_static(&frame(static_items("4711"))).unwrap();
    assert_eq!(bare.serial_number, "");
    assert_eq!(bare.model, "N/A");
    let short = E3dcClient::get_system_info_static(&frame(static_items("700"))).unwrap();
    assert_eq!(short.serial_number, "700");
    assert_eq!(short.model, "S10E_Pro");
    for (serial, model) in [("S10-710001", "N/A"), ("S10-910001", "N/A"), ("S10-740001", "S10E_Compact")] {
        let found = E3dcClient::get_system_info_static(&frame(static_items(serial))).unwrap();
        assert_eq!(found.model, model);
    }
    let wide = E3dcClient::get_system_info_static(&frame(static_items("äöü€5x"))).unwrap();
    assert_eq!(wide.serial_number, "5x");
    assert_eq!(wide.model, "S10_Mini");

    let missing = without(&static_items("S10-720001"), info::SERIAL_NUMBER);
    assert!(matches!(
        E3dcClient::get_system_info_static(&frame(missing)),
        Err(E3dcError::MissingTag(info::SERIAL_NUMBER))
    ));
    let client = E3dcClient::new(vec![], known);
    assert_eq!(client.device_id(), "S10E-720001");
    assert!(client.batteries().is_empty());
    assert_eq!(client.info().model, "S10E");
}

fn spec(name: &str, value: DynamicValue) -> TaggedItem {
    container(ems::SYS_SPEC, vec![item(ems::SYS_SPEC_NAME, text(name)), item(ems::SYS_SPEC_VALUE_INT, value)])
}

fn system_items() -> Vec<TaggedItem> {
    vec![
        item(info::SW_RELEASE, text("S10_2024_02")),
        item(info::IP_ADDRESS, text("192.168.1.50")),
        container(
            ems::GET_POWER_SETTINGS,
            vec![
                item(ems::POWER_LIMITS_USED, DynamicValue::Bool(true)),
                item(ems::MAX_CHARGE_POWER, DynamicValue::UInt32(3_000)),
                item(ems::MAX_DISCHARGE_POWER, DynamicValue::UInt32(3_100)),
                item(ems::DISCHARGE_START_POWER, DynamicValue::UInt32(65)),
                item(ems::POWERSAVE_ENABLED, DynamicValue::UInt8(1)),
                item(ems::WEATHER_REGULATED_CHARGE_ENABLED, DynamicValue::UInt8(0)),
                item(ems::WEATHER_FORECAST_MODE, DynamicValue::UInt8(2)),
            ],
        ),
        container(
            ems::GET_SYS_SPECS,
            vec![
                spec("installedBatteryCapacity", DynamicValue::Int32(13_000)),
                spec("maxAcPower", DynamicValue::Int32(4_600)),
                spec("maxBatChargePower", DynamicValue::Int32(-1)),
                spec("maxAcPower", DynamicValue::Int32(4_700)),
                item(ems::SYS_SPEC_NAME, text("maxBatDischargPower")),
                container(ems::SYS_SPEC, vec![item(ems::SYS_SPEC_NAME, text("nameless"))]),
            ],
        ),
    ]
}

#[test]
fn the_system_snapshot_joins_the_answer_with_what_is_known() {
    let client = client();
    let got = client.get_system_info(&frame(system_items())).unwrap();
    assert_eq!(got.time_stamp, at(1_700_000_000));
    assert_eq!(got.serial_number, "720001");
    assert_eq!(got.model, "S10E");
    assert_eq!(got.mac_address, "00:11:22:33:44:55");
    assert_eq!(got.ip_address, "192.168.1.50");
    assert_eq!(got.software_release, "S10_2024_02");
    assert_eq!(got.installed_peak_power, 9_900);
    assert_eq!(got.derate_power, 6_930);
    assert_eq!(f64::from_bits(got.derate_percent.bits), 0.7);
    assert_eq!(got.installed_battery_capacity, Some(13_000));
    // The last entry under a name counts.
    assert_eq!(got.max_ac_power, Some(4_700));
    // An entry whose number cannot be read says nothing.
    assert_eq!(got.max_battery_charge_power, None);
    assert_eq!(got.max_battery_discharge_power, None);
    assert_eq!(got.max_charge_power, 3_000);
    assert_eq!(got.max_discharge_power, 3_100);
    assert_eq!(got.discharge_start_power, 65);
    assert!(got.power_limits_used);
    assert!(got.power_save_enabled);
    assert_eq!(got.weather_forecast_mode, 2);
    assert!(!got.weather_regulated_charge_enabled);
    assert!(!got.external_source_available);
}

#[test]
fn the_system_snapshot_needs_its_containers() {
    let client = client();
    let no_settings = without(&system_items(), ems::GET_POWER_SETTINGS);
    assert!(matches!(
        client.get_system_info(&frame(no_settings)),
        Err(E3dcError::MissingTag(ems::GET_POWER_SETTINGS))
    ));
    let no_specs = without(&system_items(), ems::GET_SYS_SPECS);
    assert!(matches!(
        client.get_system_info(&frame(no_specs)),
        Err(E3dcError::MissingTag(ems::GET_SYS_SPECS))
    ));
    let mut flat_specs = without(&system_items(), ems::GET_SYS_SPECS);
    flat_specs.push(item(ems::GET_SYS_SPECS, DynamicValue::UInt8(1)));
    assert!(matches!(client.get_system_info(&frame(flat_specs)), Err(E3dcError::Type(_))));
    let mut flat_settings = without(&system_items(), ems::GET_POWER_SETTINGS);
    flat_settings.push(item(ems::GET_POWER_SETTINGS, DynamicValue::UInt8(1)));
    assert!(matches!(
        client.get_system_info(&frame(flat_settings)),
        Err(E3dcError::MissingTag(ems::MAX_CHARGE_POWER))
    ));
    assert_eq!(find_system_spec(&[], "maxAcPower"), None);
}

fn battery_entry(index: u8) -> TaggedItem {
    container(
        bat::DATA,
        vec![
            item(bat::INDEX, DynamicValue::UInt8(index)),
            item(bat::PARAM_BAT_NUMBER, DynamicValue::UInt8(1)),
            item(bat::DEVICE_NAME, text("BAT_TOWER")),
            item(bat::MANUFACTURER_NAME, text("ACME")),
            item(bat::SERIALNO, DynamicValue::UInt32(77_001)),
            item(bat::INSTANCE_DESCRIPTOR, text("main")),
        ],
    )
}

#[test]
fn batteries_are_found_one_request_each() {
    let list = frame(vec![container(bat::AVAILABLE_BATTERIES, vec![battery_entry(0), battery_entry(1)])]);
    let entries = E3dcClient::available_batteries(&list).unwrap();
    assert_eq!(entries.len(), 2);
    let mut found = Vec::new();
    let mut asked = Vec::new();
    for entry in entries {
        let identity = E3dcClient::battery_identity(entry).unwrap();
        asked.push(dcb_count_request(identity.index));
        let answer = frame(vec![container(
            bat::DATA,
            vec![
                item(bat::INDEX, DynamicValue::UInt16(identity.index as u16)),
                item(bat::DCB_COUNT, DynamicValue::UInt8(2 + identity.index as u8)),
            ],
        )]);
        found.push(E3dcClient::battery_info(identity, &answer).unwrap());
    }
    assert_eq!(asked.len(), 2);
    assert_eq!(inner(&asked[1])[0], item(bat::INDEX, DynamicValue::Int32(1)));
    assert_eq!(found[0].index, 0);
    assert_eq!(found[0].dcb_count, 2);
    assert_eq!(found[1].index, 1);
    assert_eq!(found[1].dcb_count, 3);
    assert_eq!(found[1].device_name, "BAT_TOWER");
    assert_eq!(found[1].manufacturer_name, "ACME");
    assert_eq!(found[1].serialno, 77_001);
    assert_eq!(found[1].param_bat_number, 1);
    assert_eq!(found[1].instance_descriptor, "main");

    assert!(matches!(
        E3dcClient::available_batteries(&frame(vec![])),
        Err(E3dcError::MissingTag(bat::AVAILABLE_BATTERIES))
    ));
    let nameless = container(bat::DATA, without(&[battery_entry(0)], bat::DEVICE_NAME));
    let nameless_entry = match &nameless.value {
        Some(DynamicValue::Container(items)) => &items[0],
        _ => unreachable!(),
    };
    assert!(matches!(
        E3dcClient::battery_identity(nameless_entry),
        Err(E3dcError::MissingTag(bat::DEVICE_NAME))
    ));
    let identity = E3dcClient::battery_identity(&battery_entry(0)).unwrap();
    assert!(matches!(
        E3dcClient::battery_info(identity, &frame(vec![container(bat::DATA, vec![])])),
        Err(E3dcError::MissingTag(bat::DCB_COUNT))
    ));
}

fn cells(tag: u32, readings: &[f32]) -> Vec<TaggedItem> {
    let mut entries = vec![item(0x0300_0100, DynamicValue::UInt16(0))];
    entries.push(container(bat::DATA, readings.iter().map(|r| item(tag, single(*r))).collect()));
    entries
}

fn dcb_items(sensors: u8, series: u8, temperatures: &[f32], voltages: &[f32]) -> Vec<TaggedItem> {
    vec![container(
        bat::DATA,
        vec![
            item(bat::INDEX, DynamicValue::UInt16(0)),
            container(bat::DCB_ALL_CELL_TEMPERATURES, cells(bat::DCB_CELL_TEMPERATURE, temperatures)),
            container(bat::DCB_ALL_CELL_VOLTAGES, cells(bat::DCB_CELL_VOLTAGE, voltages)),
            container(
                bat::DCB_INFO,
                vec![
                    item(bat::DCB_NR_SENSOR, DynamicValue::UInt8(sensors)),
                    item(bat::DCB_NR_SERIES_CELL, DynamicValue::UInt8(series)),
                    item(bat::DCB_NR_PARALLEL_CELL, DynamicValue::UInt8(0)),
                    item(bat::DCB_CURRENT, single(-1.25)),
                    item(bat::DCB_CURRENT_AVG_30S, single(-1.5)),
                    item(bat::DCB_VOLTAGE, single(51.5)),
                    item(bat::DCB_VOLTAGE_AVG_30S, single(51.25)),
                    item(bat::DCB_SOC, single(88.0)),
                    item(bat::DCB_SOH, single(99.0)),
                    item(bat::DCB_CYCLE_COUNT, DynamicValue::UInt32(412)),
                    item(bat::DCB_DESIGN_CAPACITY, single(65.0)),
                    item(bat::DCB_DESIGN_VOLTAGE, single(50.5)),
                    item(bat::DCB_FULL_CHARGE_CAPACITY, single(64.0)),
                    item(bat::DCB_REMAINING_CAPACITY, single(56.5)),
                    item(bat::DCB_MAX_CHARGE_VOLTAGE, single(57.5)),
                    item(bat::DCB_MAX_CHARGE_CURRENT, single(30.0)),
                    item(bat::DCB_MAX_DISCHARGE_CURRENT, single(40.0)),
                    item(bat::DCB_END_OF_DISCHARGE, single(42.0)),
                    item(bat::DCB_CHARGE_HIGH_TEMPERATURE, single(45.0)),
                    item(bat::DCB_CHARGE_LOW_TEMPERATURE, single(5.0)),
                    item(bat::DCB_DEVICE_NAME, text("DCB-7")),
                    item(bat::DCB_MANUFACTURE_NAME, text("ACME")),
                    item(bat::DCB_MANUFACTURE_DATE, DynamicValue::UInt32(1_600_000_000)),
                    item(bat::DCB_SERIALCODE, text("SC-123")),
                    item(bat::DCB_SERIALNO, DynamicValue::UInt32(123)),
                    item(bat::DCB_FW_VERSION, DynamicValue::UInt16(512)),
                    item(bat::DCB_PCB_VERSION, DynamicValue::UInt16(3)),
                    item(bat::DCB_PROTOCOL_VERSION, DynamicValue::UInt16(2)),
                    item(bat::DCB_ERROR, DynamicValue::UInt32(0)),
                    item(bat::DCB_WARNING, DynamicValue::UInt32(4)),
                    item(bat::DCB_STATUS, DynamicValue::UInt32(1)),
                ],
            ),
        ],
    )]
}

#[test]
fn cell_temperature_reconciliation() {
    let raw = [12.0, 0.0, 13.5, 9.9, 0.0];
    let counted = E3dcClient::get_dcb_data(&frame(dcb_items(3, 0, &raw, &[])), 0).unwrap();
    assert_eq!(values(&counted.cell_temperatures), vec![12.0, 0.0, 13.5]);
    assert_eq!(counted.sensor_count, 3);

    let uncounted = E3dcClient::get_dcb_data(&frame(dcb_items(0, 0, &raw, &[])), 0).unwrap();
    assert_eq!(values(&uncounted.cell_temperatures), vec![12.0, 13.5]);
    assert_eq!(uncounted.sensor_count, 0);

    let more_sensors_than_readings =
        E3dcClient::get_dcb_data(&frame(dcb_items(9, 0, &raw, &[])), 0).unwrap();
    assert_eq!(more_sensors_than_readings.cell_temperatures.len(), 5);
    let at_the_floor = E3dcClient::get_dcb_data(&frame(dcb_items(0, 0, &[10.0, 9.99], &[])), 0).unwrap();
    assert_eq!(values(&at_the_floor.cell_temperatures), vec![10.0]);
}

#[test]
fn cell_voltages_follow_the_reported_count_or_their_own() {
    let raw = [3.5, 3.25, 3.75, 0.0];
    let counted = E3dcClient::get_dcb_data(&frame(dcb_items(0, 2, &[], &raw)), 1).unwrap();
    assert_eq!(values(&counted.cell_voltages), vec![3.5, 3.25]);
    assert_eq!(counted.series_cell_count, 2);
    assert_eq!(counted.index, 1);

    let uncounted = E3dcClient::get_dcb_data(&frame(dcb_items(0, 0, &[], &raw)), 1).unwrap();
    assert_eq!(values(&uncounted.cell_voltages), vec![3.5, 3.25, 3.75, 0.0]);
    assert_eq!(uncounted.series_cell_count, 4);
    // The count of parallel cells is taken as reported.
    assert_eq!(uncounted.parallel_cell_count, 0);

    let short = E3dcClient::get_dcb_data(&frame(dcb_items(0, 14, &[], &raw)), 1).unwrap();
    assert_eq!(short.cell_voltages.len(), 4);
    assert_eq!(short.series_cell_count, 14);
}

#[test]
fn a_controller_is_read_field_by_field() {
    let d = E3dcClient::get_dcb_data(&frame(dcb_items(1, 1, &[21.5], &[3.5])), 4).unwrap();
    assert_eq!(d.index, 4);
    assert_eq!(f64::from_bits(d.current.bits), -1.25);
    assert_eq!(f64::from_bits(d.current_avg_30s.bits), -1.5);
    assert_eq!(f64::from_bits(d.voltage.bits), 51.5);
    assert_eq!(f64::from_bits(d.voltage_avg_30s.bits), 51.25);
    assert_eq!(f64::from_bits(d.soc.bits), 88.0);
    assert_eq!(f64::from_bits(d.soh.bits), 99.0);
    assert_eq!(f64::from_bits(d.cycle_count.bits), 412.0);
    assert_eq!(f64::from_bits(d.design_capacity.bits), 65.0);
    assert_eq!(f64::from_bits(d.design_voltage.bits), 50.5);
    assert_eq!(f64::from_bits(d.full_charge_capacity.bits), 64.0);
    assert_eq!(f64::from_bits(d.remaining_capacity.bits), 56.5);
    assert_eq!(f64::from_bits(d.max_charge_voltage.bits), 57.5);
    assert_eq!(f64::from_bits(d.max_charge_current.bits), 30.0);
    assert_eq!(f64::from_bits(d.max_discharge_current.bits), 40.0);
    assert_eq!(f64::from_bits(d.end_of_discharge.bits), 42.0);
    assert_eq!(f64::from_bits(d.max_charge_temperature.bits), 45.0);
    assert_eq!(f64::from_bits(d.min_charge_temperature.bits), 5.0);
    assert_eq!(d.device_name, "DCB-7");
    assert_eq!(d.manufacture_name, "ACME");
    assert_eq!(f64::from_bits(d.manufacture_date.bits), 1_600_000_000.0);
    assert_eq!(d.serial_code, "SC-123");
    assert_eq!(f64::from_bits(d.serial_no.bits), 123.0);
    assert_eq!(f64::from_bits(d.fw_version.bits), 512.0);
    assert_eq!(f64::from_bits(d.pcb_version.bits), 3.0);
    assert_eq!(f64::from_bits(d.protocol_version.bits), 2.0);
    assert_eq!(f64::from_bits(d.error.bits), 0.0);
    assert_eq!(f64::from_bits(d.warning.bits), 4.0);
    assert_eq!(f64::from_bits(d.status.bits), 1.0);
    assert_eq!(values(&d.cell_temperatures), vec![21.5]);
    assert_eq!(values(&d.cell_voltages), vec![3.5]);
}

#[test]
fn a_controller_with_a_gap_is_no_controller() {
    let whole = dcb_items(1, 1, &[21.5], &[3.5]);
    for tag in [bat::DCB_INFO, bat::DCB_ALL_CELL_TEMPERATURES, bat::DCB_SOC, bat::DCB_STATUS, bat::DCB_NR_SENSOR] {
        match E3dcClient::get_dcb_data(&frame(without(&whole, tag)), 0) {
            Err(E3dcError::MissingTag(missing)) => assert_eq!(missing, tag),
            other => panic!("expected a missing tag, got {:?}", other),
        }
    }
    assert!(matches!(
        E3dcClient::get_dcb_data(&frame(vec![]), 0),
        Err(E3dcError::MissingTag(bat::DATA))
    ));
    // A cell entry without a reading fails the list of cells.
    let list = vec![container(
        bat::DATA,
        vec![item(bat::DCB_CELL_VOLTAGE, single(3.5)), empty_item(bat::DCB_CELL_VOLTAGE)],
    )];
    assert!(matches!(
        extract_dcb_cell_data(&list, bat::DCB_CELL_VOLTAGE),
        Err(E3dcError::MissingData(bat::DCB_CELL_VOLTAGE))
    ));
    let mixed = vec![container(
        bat::DATA,
        vec![
            item(bat::DCB_CELL_VOLTAGE, single(3.5)),
            item(bat::DCB_CELL_TEMPERATURE, text("warm")),
            item(bat::DCB_CELL_VOLTAGE, DynamicValue::UInt8(4)),
        ],
    )];
    assert_eq!(values(&extract_dcb_cell_data(&mixed, bat::DCB_CELL_VOLTAGE).unwrap()), vec![3.5, 4.0]);
    assert!(matches!(
        extract_dcb_cell_data(&mixed, bat::DCB_CELL_TEMPERATURE),
        Err(E3dcError::Type(_))
    ));
    assert!(matches!(
        extract_dcb_cell_data(&[], bat::DCB_CELL_VOLTAGE),
        Err(E3dcError::MissingTag(bat::DATA))
    ));
}

fn battery_items() -> Vec<TaggedItem> {
    vec![container(
        bat::DATA,
        vec![
            item(bat::INDEX, DynamicValue::UInt16(0)),
            item(bat::RSOC, single(87.5)),
            item(bat::RSOC_REAL, single(86.25)),
            item(bat::ASOC, single(80.0)),
            item(bat::CURRENT, single(-3.5)),
            item(bat::MODULE_VOLTAGE, single(51.5)),
            item(bat::TERMINAL_VOLTAGE, single(51.25)),
            item(bat::MAX_BAT_VOLTAGE, single(57.5)),
            item(bat::EOD_VOLTAGE, single(42.0)),
            item(bat::FCC, single(128.0)),
            item(bat::RC, single(112.5)),
            item(bat::DESIGN_CAPACITY, single(130.0)),
            item(bat::USABLE_CAPACITY, single(120.0)),
            item(bat::USABLE_REMAINING_CAPACITY, single(105.0)),
            item(bat::MAX_CHARGE_CURRENT, single(60.0)),
            item(bat::MAX_DISCHARGE_CURRENT, single(80.0)),
            item(bat::MAX_DCB_CELL_TEMPERATURE, single(24.5)),
            item(bat::MIN_DCB_CELL_TEMPERATURE, single(21.0)),
            item(bat::STATUS_CODE, DynamicValue::UInt32(3)),
            item(bat::ERROR_CODE, DynamicValue::UInt32(0)),
            item(bat::CHARGE_CYCLES, DynamicValue::UInt32(512)),
            item(bat::TOTAL_USE_TIME, DynamicValue::UInt32(86_400)),
            item(bat::TOTAL_DISCHARGE_TIME, DynamicValue::UInt32(43_200)),
            item(bat::DCB_COUNT, DynamicValue::UInt8(0)),
            item(bat::READY_FOR_SHUTDOWN, DynamicValue::Bool(false)),
            item(bat::TRAINING_MODE, DynamicValue::UInt8(1)),
        ],
    )]
}

#[test]
fn a_battery_keeps_the_count_found_at_connect() {
    let dcbs = vec![
        E3dcClient::get_dcb_data(&frame(dcb_items(1, 1, &[21.5], &[3.5])), 0).unwrap(),
        E3dcClient::get_dcb_data(&frame(dcb_items(1, 1, &[22.5], &[3.25])), 1).unwrap(),
    ];
    let b = E3dcClient::get_battery_data_idx(&battery(0, 2), &frame(battery_items()), Ok(dcbs)).unwrap();
    assert_eq!(b.index, 0);
    assert_eq!(b.time_stamp, at(1_700_000_000));
    // The answer says 0; the count found at connect stands.
    assert_eq!(b.dcb_count, 2);
    assert_eq!(b.dcbs.len(), 2);
    assert_eq!(b.dcbs[1].index, 1);
    assert_eq!(b.device_name, "BAT");
    assert_eq!(b.manufacturer_name, "ACME");
    assert_eq!(b.instance_descriptor, "main");
    assert_eq!(b.param_bat_number, 1);
    assert_eq!(b.serialno, 99);
    assert_eq!(f64::from_bits(b.rsoc.bits), 87.5);
    assert_eq!(f64::from_bits(b.rsoc_real.bits), 86.25);
    assert_eq!(f64::from_bits(b.asoc.bits), 80.0);
    assert_eq!(f64::from_bits(b.current.bits), -3.5);
    assert_eq!(f64::from_bits(b.module_voltage.bits), 51.5);
    assert_eq!(f64::from_bits(b.terminal_voltage.bits), 51.25);
    assert_eq!(f64::from_bits(b.max_bat_voltage.bits), 57.5);
    assert_eq!(f64::from_bits(b.eod_voltage.bits), 42.0);
    assert_eq!(f64::from_bits(b.fcc.bits), 128.0);
    assert_eq!(f64::from_bits(b.rc.bits), 112.5);
    assert_eq!(f64::from_bits(b.design_capacity.bits), 130.0);
    assert_eq!(f64::from_bits(b.usable_capacity.bits), 120.0);
    assert_eq!(f64::from_bits(b.usable_remaining_capacity.bits), 105.0);
    assert_eq!(f64::from_bits(b.max_charge_current.bits), 60.0);
    assert_eq!(f64::from_bits(b.max_discharge_current.bits), 80.0);
    assert_eq!(f64::from_bits(b.max_dcb_cell_temp.bits), 24.5);
    assert_eq!(f64::from_bits(b.min_dcb_cell_temp.bits), 21.0);
    assert_eq!(f64::from_bits(b.status_code.bits), 3.0);
    assert_eq!(f64::from_bits(b.error_code.bits), 0.0);
    assert_eq!(f64::from_bits(b.charge_cycles.bits), 512.0);
    assert_eq!(b.total_use_time, 86_400);
    assert_eq!(b.total_discharge_time, 43_200);
    assert!(!b.ready_for_shutdown);
    assert!(b.training_mode);
}

#[test]
fn a_battery_fails_at_the_first_gap_in_the_order_of_its_fields() {
    let failed_dcb = || Err(E3dcError::QueryFailed("controller 1 is silent".to_string()));
    // A field before the controllers goes first.
    let early = without(&battery_items(), bat::TOTAL_USE_TIME);
    assert!(matches!(
        E3dcClient::get_battery_data_idx(&battery(0, 2), &frame(early), failed_dcb()),
        Err(E3dcError::MissingTag(bat::TOTAL_USE_TIME))
    ));
    // The controllers go before the fields after them.
    let late = without(&battery_items(), bat::TRAINING_MODE);
    assert!(matches!(
        E3dcClient::get_battery_data_idx(&battery(0, 2), &frame(late), failed_dcb()),
        Err(E3dcError::QueryFailed(_))
    ));
    let late = without(&battery_items(), bat::TRAINING_MODE);
    assert!(matches!(
        E3dcClient::get_battery_data_idx(&battery(0, 2), &frame(late), Ok(vec![])),
        Err(E3dcError::MissingTag(bat::TRAINING_MODE))
    ));
    // What the answer says of the controller count is not read at all.
    let uncounted = without(&battery_items(), bat::DCB_COUNT);
    assert!(E3dcClient::get_battery_data_idx(&battery(0, 2), &frame(uncounted), Ok(vec![])).is_ok());
}

fn history_items() -> Vec<TaggedItem> {
    vec![container(
        db::HISTORY_DATA_DAY,
        vec![container(
            db::SUM_CONTAINER,
            vec![
                item(db::BAT_POWER_IN, single(1_500.0)),
                item(db::BAT_POWER_OUT, single(1_250.0)),
                item(db::DC_POWER, single(9_000.0)),
                item(db::GRID_POWER_IN, single(4_000.0)),
                item(db::GRID_POWER_OUT, single(250.0)),
                item(db::CONSUMPTION, single(5_500.0)),
                item(db::BAT_CHARGE_LEVEL, single(75.5)),
                item(db::CONSUMED_PRODUCTION, single(55.25)),
                item(db::AUTARKY, single(95.5)),
            ],
        )],
    )]
}

#[test]
fn the_sums_of_a_window_are_read_field_by_field() {
    let start = at(1_699_920_000);
    let span = TimeSpan { secs: 80_000 };
    let s = E3dcClient::get_db_data_timestamp(&frame(history_items()), start, span).unwrap();
    assert_eq!(s.time_stamp, at(1_700_000_000));
    assert_eq!(s.start, start);
    assert_eq!(s.timespan, span);
    assert_eq!(f64::from_bits(s.autarky.bits), 95.5);
    assert_eq!(f64::from_bits(s.consumption.bits), 5_500.0);
    assert_eq!(f64::from_bits(s.solar_production.bits), 9_000.0);
    assert_eq!(f64::from_bits(s.consumed_production.bits), 55.25);
    assert_eq!(f64::from_bits(s.bat_power_in.bits), 1_500.0);
    assert_eq!(f64::from_bits(s.bat_power_out.bits), 1_250.0);
    assert_eq!(f64::from_bits(s.grid_power_in.bits), 4_000.0);
    assert_eq!(f64::from_bits(s.grid_power_out.bits), 250.0);
    assert_eq!(f64::from_bits(s.state_of_charge.bits), 75.5);

    assert!(matches!(
        E3dcClient::get_db_data_timestamp(&frame(without(&history_items(), db::SUM_CONTAINER)), start, span),
        Err(E3dcError::MissingTag(db::SUM_CONTAINER))
    ));
    assert!(matches!(
        E3dcClient::get_db_data_timestamp(&frame(without(&history_items(), db::DC_POWER)), start, span),
        Err(E3dcError::MissingTag(db::DC_POWER))
    ));
}
