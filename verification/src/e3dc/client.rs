//! The device client's rules: what an answer must hold to count as one, and
//! how each kind of snapshot is put together from an answer. A snapshot is
//! whole or it is not there: the first field that is missing or cannot be
//! read fails it.

use crate::e3dc::lookup::{
    any_to_items, children_at, children_of, container_at, finds_children, get_bool, get_container,
    get_integer, get_items, get_number, get_string, number_at, reads_number, reads_text,
    reads_truth, reads_unsigned, text_at, truth_at, unsigned_at,
};
use crate::e3dc::tags::{bat, db, ems, info};
use crate::e3dc::types::{
    BatteryData, BatteryInfo, DailyStatistics, DcbData, Status, SystemInfo, SystemInfoStatic,
};
use crate::e3dc::value::{any_to_f64, TaggedItem};
use crate::errors::{E3dcError, Failure};
use crate::float::{Float64, TEN_BITS};
use crate::text::{has_prefix, same_text, skip_chars, starts_with};
use crate::time::{daily_window, statistics_window, TimeSpan, Timestamp, Window};
use vstd::prelude::*;
use vstd::string::*;

verus! {

/// One message of the device protocol: when it was made and what it holds.
#[derive(Debug, PartialEq)]
pub struct Frame {
    pub time_stamp: Timestamp,
    pub items: Option<Vec<TaggedItem>>,
}

impl Frame {
    /// The items of the frame; a frame without data has none.
    pub open spec fn contents(&self) -> Seq<TaggedItem> {
        match self.items {
            Some(items) => items@,
            None => Seq::empty(),
        }
    }

    /// The items of the frame.
    pub fn items(&self) -> (r: &[TaggedItem])
        ensures
            r@ == self.contents(),
    {
        match &self.items {
            Some(items) => items.as_slice(),
            None => &[],
        }
    }
}

/// What a run of lookups has come to: the failure of the first one that
/// failed, if one did.
pub struct Checked {
    pub failure: Option<Failure>,
}

impl Checked {
    /// Before any lookup.
    pub open spec fn nothing() -> Checked {
        Checked { failure: None }
    }

    /// After one more lookup: an earlier failure stands, else this one's counts.
    pub open spec fn and<T>(self, r: Result<T, Failure>) -> Checked {
        if self.failure is Some {
            self
        } else {
            match r {
                Ok(_) => self,
                Err(f) => Checked { failure: Some(f) },
            }
        }
    }
}

/// The failure of an outcome, if it failed.
pub open spec fn failure_of<T>(r: Result<T, E3dcError>) -> Option<Failure> {
    match r {
        Ok(_) => None,
        Err(e) => Some(e@),
    }
}

/// An outcome that is good unless there is a failure.
pub open spec fn unless(failure: Option<Failure>) -> Result<(), Failure> {
    match failure {
        Some(f) => Err(f),
        None => Ok(()),
    }
}

/// A result is what a snapshot's rule asks for: the failure of the first
/// field that could not be had, or a value of which `holds` is true.
pub open spec fn outcome<T>(
    r: Result<T, E3dcError>,
    failure: Option<Failure>,
    holds: spec_fn(T) -> bool,
) -> bool {
    match failure {
        Some(f) => r matches Err(e) && e@ == f,
        None => r matches Ok(v) && holds(v),
    }
}

/// An item that asks for the value of `tag`.
pub fn empty_item(tag: u32) -> (item: TaggedItem)
    ensures
        item == (TaggedItem { tag, value: None }),
{
    TaggedItem { tag, value: None }
}

/// Judges what came back from the device for a request: a transport error,
/// given by its description, and an answer without data both fail the query.
pub fn send_request(answer: Result<Frame, String>) -> (r: Result<Frame, E3dcError>)
    ensures
        match answer {
            Ok(frame) => if frame.items is None {
                r matches Err(e) && e@ == Failure::QueryFailed("Response has no data"@)
            } else {
                r == Ok::<Frame, E3dcError>(frame)
            },
            Err(reason) => r matches Err(e) && e@ == Failure::QueryFailed(reason@),
        },
{
    match answer {
        Ok(frame) => {
            if frame.items.is_none() {
                Err(E3dcError::QueryFailed(String::from_str("Response has no data")))
            } else {
                Ok(frame)
            }
        },
        Err(reason) => Err(E3dcError::QueryFailed(reason)),
    }
}

/// The first field of a status answer that cannot be had, if there is one.
pub open spec fn status_failure(items: Seq<TaggedItem>) -> Option<Failure> {
    Checked::nothing()
        .and(number_at(items, ems::POWER_ADD))
        .and(number_at(items, ems::POWER_PV))
        .and(number_at(items, ems::POWER_BAT))
        .and(number_at(items, ems::POWER_GRID))
        .and(number_at(items, ems::POWER_HOME))
        .and(number_at(items, ems::POWER_WB_ALL))
        .and(number_at(items, ems::BAT_SOC))
        .and(number_at(items, ems::AUTARKY))
        .and(number_at(items, ems::SELF_CONSUMPTION))
        .failure
}

/// `s` is the status that an answer with these items, made at `time_stamp`, reports.
pub open spec fn is_status(s: Status, time_stamp: Timestamp, items: Seq<TaggedItem>) -> bool {
    &&& s.time_stamp == time_stamp
    &&& reads_number(items, ems::POWER_ADD, s.power_add)
    &&& reads_number(items, ems::POWER_PV, s.power_pv)
    &&& reads_number(items, ems::POWER_BAT, s.power_battery)
    &&& reads_number(items, ems::POWER_GRID, s.power_grid)
    &&& reads_number(items, ems::POWER_HOME, s.power_home)
    &&& reads_number(items, ems::POWER_WB_ALL, s.power_wb)
    &&& reads_number(items, ems::BAT_SOC, s.battery_soc)
    &&& reads_number(items, ems::AUTARKY, s.autarky)
    &&& reads_number(items, ems::SELF_CONSUMPTION, s.self_consumption)
}

/// The serial number without the four characters that lead it: of a serial
/// of four characters nothing is left. A serial of fewer than four
/// characters stays as it is.
pub open spec fn serial_without_prefix(serial: Seq<char>) -> Seq<char> {
    if serial.len() >= 4 {
        serial.skip(4)
    } else {
        serial
    }
}

/// The model that a serial number, without its leading characters, stands
/// for. The rules are tried in this order and the first that applies decides.
pub open spec fn model_name(serial_number: Seq<char>) -> Seq<char> {
    if has_prefix(serial_number, "4"@) || has_prefix(serial_number, "72"@) {
        "S10E"@
    } else if has_prefix(serial_number, "74"@) {
        "S10E_Compact"@
    } else if has_prefix(serial_number, "5"@) {
        "S10_Mini"@
    } else if has_prefix(serial_number, "6"@) {
        "Quattroporte"@
    } else if has_prefix(serial_number, "70"@) {
        "S10E_Pro"@
    } else if has_prefix(serial_number, "75"@) {
        "S10E_Pro_Compact"@
    } else if has_prefix(serial_number, "8"@) {
        "S10X"@
    } else {
        "N/A"@
    }
}

/// Names the model of a device by its serial number, taken without its
/// four leading characters.
pub fn identify_model(serial_number: &str) -> (model: &'static str)
    ensures
        model@ == model_name(serial_number@),
{
    if starts_with(serial_number, "4") || starts_with(serial_number, "72") {
        "S10E"
    } else if starts_with(serial_number, "74") {
        "S10E_Compact"
    } else if starts_with(serial_number, "5") {
        "S10_Mini"
    } else if starts_with(serial_number, "6") {
        "Quattroporte"
    } else if starts_with(serial_number, "70") {
        "S10E_Pro"
    } else if starts_with(serial_number, "75") {
        "S10E_Pro_Compact"
    } else if starts_with(serial_number, "8") {
        "S10X"
    } else {
        "N/A"
    }
}

/// What one entry of the system specifications says: a name and a whole
/// number. An entry under another tag, or one whose name or number cannot
/// be read, says nothing.
pub open spec fn spec_entry(item: TaggedItem) -> Option<(Seq<char>, u64)> {
    let fields = children_of(item.value);
    if item.tag != ems::SYS_SPEC {
        None
    } else {
        match (text_at(fields, ems::SYS_SPEC_NAME), unsigned_at(fields, ems::SYS_SPEC_VALUE_INT)) {
            (Ok(name), Ok(value)) => Some((name, value)),
            _ => None,
        }
    }
}

/// The number that the system specifications give under `name`: that of
/// the last entry with the name, if there is one.
pub open spec fn system_spec(specs: Seq<TaggedItem>, name: Seq<char>) -> Option<u64>
    decreases specs.len(),
{
    if specs.len() == 0 {
        None
    } else {
        match spec_entry(specs.last()) {
            Some((n, v)) => if n == name {
                Some(v)
            } else {
                system_spec(specs.drop_last(), name)
            },
            None => system_spec(specs.drop_last(), name),
        }
    }
}

/// Looks a name up in the system specifications.
pub fn find_system_spec(specs: &[TaggedItem], name: &str) -> (r: Option<u64>)
    ensures
        r == system_spec(specs@, name@),
{
    let mut found: Option<u64> = None;
    let mut i: usize = 0;
    while i < specs.len()
        invariant
            i <= specs.len(),
            found == system_spec(specs@.take(i as int), name@),
        decreases specs.len() - i,
    {
        proof {
            assert(specs@.take(i + 1).drop_last() =~= specs@.take(i as int));
            assert(specs@.take(i + 1).last() == specs@[i as int]);
        }
        let entry = &specs[i];
        if entry.tag == ems::SYS_SPEC {
            let fields = any_to_items(&entry.value);
            match get_string(fields, ems::SYS_SPEC_NAME) {
                Ok(entry_name) => match get_integer(fields, ems::SYS_SPEC_VALUE_INT) {
                    Ok(value) => {
                        if same_text(entry_name.as_str(), name) {
                            found = Some(value);
                        }
                    },
                    Err(_) => {},
                },
                Err(_) => {},
            }
        }
        i += 1;
    }
    assert(specs@.take(specs.len() as int) =~= specs@);
    found
}

/// The numbers of the entries under `cell_tag`, in their order. An entry
/// without a value fails as missing data, one that is no number as such.
pub open spec fn cell_values(entries: Seq<TaggedItem>, cell_tag: u32) -> Result<
    Seq<Float64>,
    Failure,
>
    decreases entries.len(),
{
    if entries.len() == 0 {
        Ok(Seq::empty())
    } else {
        match cell_values(entries.drop_last(), cell_tag) {
            Err(f) => Err(f),
            Ok(values) => {
                let entry = entries.last();
                if entry.tag != cell_tag {
                    Ok(values)
                } else {
                    match entry.value {
                        None => Err(Failure::MissingData(entry.tag)),
                        Some(v) => match v.as_number() {
                            Err(f) => Err(f),
                            Ok(x) => Ok(values.push(x)),
                        },
                    }
                }
            },
        }
    }
}

/// The cell readings of one kind that a controller answer holds: under the
/// reading's list there is a container of entries, one per cell.
pub open spec fn cell_data(list: Seq<TaggedItem>, cell_tag: u32) -> Result<Seq<Float64>, Failure> {
    match children_at(list, bat::DATA) {
        Err(f) => Err(f),
        Ok(entries) => cell_values(entries, cell_tag),
    }
}

/// The temperatures that count as measured, which are those of at least
/// 10 degrees: the firmware writes zero where a sensor is missing.
pub open spec fn measured_temperatures(all: Seq<Float64>) -> Seq<Float64>
    decreases all.len(),
{
    if all.len() == 0 {
        Seq::empty()
    } else if all.last().at_least(Float64 { bits: TEN_BITS }) {
        measured_temperatures(all.drop_last()).push(all.last())
    } else {
        measured_temperatures(all.drop_last())
    }
}

/// The first `count` readings, or all of them where there are fewer.
pub open spec fn leading(all: Seq<Float64>, count: u64) -> Seq<Float64> {
    if count < all.len() {
        all.take(count as int)
    } else {
        all
    }
}

/// The cell temperatures of a controller: as many leading readings as it
/// reports sensors; where it reports none, the readings that count as measured.
pub open spec fn reconciled_temperatures(all: Seq<Float64>, sensor_count: u64) -> Seq<Float64> {
    if sensor_count > 0 {
        leading(all, sensor_count)
    } else {
        measured_temperatures(all)
    }
}

/// The cell voltages of a controller: as many leading readings as it
/// reports cells in series; where it reports none, all readings.
pub open spec fn reconciled_voltages(all: Seq<Float64>, series_cell_count: u64) -> Seq<Float64> {
    if series_cell_count > 0 {
        leading(all, series_cell_count)
    } else {
        all
    }
}

/// The number of cells in series that a snapshot states: the reported
/// number, or the number of voltages where none is reported.
pub open spec fn effective_series_count(all: Seq<Float64>, series_cell_count: u64) -> u64 {
    if series_cell_count > 0 {
        series_cell_count
    } else {
        all.len() as u64
    }
}

fn take_leading(all: Vec<Float64>, count: u64) -> (r: Vec<Float64>)
    ensures
        r@ == leading(all@, count),
{
    if count >= all.len() as u64 {
        return all;
    }
    let n = count as usize;
    let mut r: Vec<Float64> = Vec::new();
    let mut i: usize = 0;
    while i < n
        invariant
            i <= n < all.len(),
            r@ == all@.take(i as int),
        decreases n - i,
    {
        r.push(all[i]);
        assert(r@ =~= all@.take(i + 1));
        i += 1;
    }
    r
}

fn keep_measured(all: &Vec<Float64>) -> (r: Vec<Float64>)
    ensures
        r@ == measured_temperatures(all@),
{
    let floor = Float64 { bits: TEN_BITS };
    let mut r: Vec<Float64> = Vec::new();
    let mut i: usize = 0;
    while i < all.len()
        invariant
            i <= all.len(),
            floor == (Float64 { bits: TEN_BITS }),
            r@ == measured_temperatures(all@.take(i as int)),
        decreases all.len() - i,
    {
        proof {
            assert(all@.take(i + 1).drop_last() =~= all@.take(i as int));
            assert(all@.take(i + 1).last() == all@[i as int]);
        }
        if all[i].ge(floor) {
            r.push(all[i]);
        }
        i += 1;
    }
    assert(all@.take(all.len() as int) =~= all@);
    r
}

/// Reads the cell readings under `cell_tag` out of a reading's list.
pub fn extract_dcb_cell_data(list: &[TaggedItem], cell_tag: u32) -> (r: Result<
    Vec<Float64>,
    E3dcError,
>)
    ensures
        match cell_data(list@, cell_tag) {
            Ok(values) => r matches Ok(got) && got@ == values,
            Err(f) => r matches Err(e) && e@ == f,
        },
{
    let entries = get_items(list, bat::DATA)?;
    let mut values: Vec<Float64> = Vec::new();
    let mut i: usize = 0;
    while i < entries.len()
        invariant
            i <= entries.len(),
            children_at(list@, bat::DATA) == Ok::<Seq<TaggedItem>, Failure>(entries@),
            cell_values(entries@.take(i as int), cell_tag) == Ok::<Seq<Float64>, Failure>(
                values@,
            ),
        decreases entries.len() - i,
    {
        proof {
            assert(entries@.take(i + 1).drop_last() =~= entries@.take(i as int));
            assert(entries@.take(i + 1).last() == entries@[i as int]);
        }
        let entry = &entries[i];
        if entry.tag == cell_tag {
            let outcome = match &entry.value {
                None => Err(E3dcError::MissingData(entry.tag)),
                Some(v) => any_to_f64(v),
            };
            match outcome {
                Ok(x) => {
                    values.push(x);
                },
                Err(e) => {
                    proof {
                        assert(cell_values(entries@.take(i + 1), cell_tag) == Err::<
                            Seq<Float64>,
                            Failure,
                        >(e@));
                        lemma_cell_values_fail(entries@, cell_tag, i + 1);
                    }
                    return Err(e);
                },
            }
        }
        i += 1;
    }
    assert(entries@.take(entries.len() as int) =~= entries@);
    Ok(values)
}

/// Once a leading part of the entries has failed, the whole list fails in
/// the same way.
pub proof fn lemma_cell_values_fail(entries: Seq<TaggedItem>, cell_tag: u32, n: int)
    requires
        0 <= n <= entries.len(),
        cell_values(entries.take(n), cell_tag) is Err,
    ensures
        cell_values(entries, cell_tag) == cell_values(entries.take(n), cell_tag),
    decreases entries.len() - n,
{
    if n == entries.len() {
        assert(entries.take(n) =~= entries);
    } else {
        assert(entries.take(n + 1).drop_last() =~= entries.take(n));
        lemma_cell_values_fail(entries, cell_tag, n + 1);
    }
}

/// The first field of an identity answer that cannot be had, if there is one.
pub open spec fn static_info_failure(items: Seq<TaggedItem>) -> Option<Failure> {
    Checked::nothing()
        .and(number_at(items, ems::DERATE_AT_PERCENT_VALUE))
        .and(unsigned_at(items, ems::DERATE_AT_POWER_VALUE))
        .and(unsigned_at(items, ems::INSTALLED_PEAK_POWER))
        .and(truth_at(items, ems::EXT_SRC_AVAILABLE))
        .and(text_at(items, info::MAC_ADDRESS))
        .and(text_at(items, info::SERIAL_NUMBER))
        .failure
}

/// `s` is what an identity answer with these items says of the device.
pub open spec fn is_static_info(s: SystemInfoStatic, items: Seq<TaggedItem>) -> bool {
    &&& s.serial_number@ == serial_without_prefix(
        text_at(items, info::SERIAL_NUMBER)->Ok_0,
    )
    &&& s.model@ == model_name(s.serial_number@)
    &&& reads_number(items, ems::DERATE_AT_PERCENT_VALUE, s.derate_at_percent_value)
    &&& reads_unsigned(items, ems::DERATE_AT_POWER_VALUE, s.derate_at_power_value)
    &&& reads_unsigned(items, ems::INSTALLED_PEAK_POWER, s.installed_peak_power)
    &&& reads_truth(items, ems::EXT_SRC_AVAILABLE, s.ext_source_available)
    &&& reads_text(items, info::MAC_ADDRESS, s.mac_address@)
}

/// The first thing in a system answer that keeps it from giving a snapshot, if anything does.
pub open spec fn system_info_failure(items: Seq<TaggedItem>) -> Option<Failure> {
    let power_settings = children_at(items, ems::GET_POWER_SETTINGS)->Ok_0;
    Checked::nothing()
        .and(children_at(items, ems::GET_POWER_SETTINGS))
        .and(container_at(items, ems::GET_SYS_SPECS))
        .and(text_at(items, info::IP_ADDRESS))
        .and(text_at(items, info::SW_RELEASE))
        .and(unsigned_at(power_settings, ems::MAX_CHARGE_POWER))
        .and(unsigned_at(power_settings, ems::MAX_DISCHARGE_POWER))
        .and(unsigned_at(power_settings, ems::DISCHARGE_START_POWER))
        .and(truth_at(power_settings, ems::POWER_LIMITS_USED))
        .and(truth_at(power_settings, ems::POWERSAVE_ENABLED))
        .and(unsigned_at(power_settings, ems::WEATHER_FORECAST_MODE))
        .and(truth_at(power_settings, ems::WEATHER_REGULATED_CHARGE_ENABLED))
        .failure
}

/// `s` is the system snapshot from an answer with these items, for a device of
/// which `known` was found at connect.
pub open spec fn is_system_info(
    s: SystemInfo,
    known: SystemInfoStatic,
    time_stamp: Timestamp,
    items: Seq<TaggedItem>,
) -> bool {
    let power_settings = children_at(items, ems::GET_POWER_SETTINGS)->Ok_0;
    let specs = container_at(items, ems::GET_SYS_SPECS)->Ok_0;
    &&& s.time_stamp == time_stamp
    &&& s.serial_number@ == known.serial_number@
    &&& s.mac_address@ == known.mac_address@
    &&& s.model@ == known.model@
    &&& s.installed_peak_power == known.installed_peak_power
    &&& s.derate_percent == known.derate_at_percent_value
    &&& s.derate_power == known.derate_at_power_value
    &&& s.external_source_available == known.ext_source_available
    &&& s.installed_battery_capacity == system_spec(specs, "installedBatteryCapacity"@)
    &&& s.max_ac_power == system_spec(specs, "maxAcPower"@)
    &&& s.max_battery_charge_power == system_spec(specs, "maxBatChargePower"@)
    &&& s.max_battery_discharge_power == system_spec(specs, "maxBatDischargPower"@)
    &&& reads_text(items, info::IP_ADDRESS, s.ip_address@)
    &&& reads_text(items, info::SW_RELEASE, s.software_release@)
    &&& reads_unsigned(power_settings, ems::MAX_CHARGE_POWER, s.max_charge_power)
    &&& reads_unsigned(power_settings, ems::MAX_DISCHARGE_POWER, s.max_discharge_power)
    &&& reads_unsigned(power_settings, ems::DISCHARGE_START_POWER, s.discharge_start_power)
    &&& reads_truth(power_settings, ems::POWER_LIMITS_USED, s.power_limits_used)
    &&& reads_truth(power_settings, ems::POWERSAVE_ENABLED, s.power_save_enabled)
    &&& reads_unsigned(power_settings, ems::WEATHER_FORECAST_MODE, s.weather_forecast_mode)
    &&& reads_truth(
        power_settings,
        ems::WEATHER_REGULATED_CHARGE_ENABLED,
        s.weather_regulated_charge_enabled,
    )
}

/// Who a battery is, as the list of available batteries says.
#[derive(Debug, PartialEq)]
pub struct BatteryIdentity {
    pub index: u64,
    pub device_name: String,
    pub param_bat_number: u64,
    pub manufacturer_name: String,
    pub serialno: u64,
    pub instance_descriptor: String,
}

/// The first field of a battery's entry that cannot be had, if there is one.
pub open spec fn identity_failure(fields: Seq<TaggedItem>) -> Option<Failure> {
    Checked::nothing()
        .and(unsigned_at(fields, bat::INDEX))
        .and(unsigned_at(fields, bat::PARAM_BAT_NUMBER))
        .and(text_at(fields, bat::DEVICE_NAME))
        .and(text_at(fields, bat::MANUFACTURER_NAME))
        .and(unsigned_at(fields, bat::SERIALNO))
        .and(text_at(fields, bat::INSTANCE_DESCRIPTOR))
        .failure
}

/// `b` is the identity that a battery's entry with these fields gives.
pub open spec fn is_identity(b: BatteryIdentity, fields: Seq<TaggedItem>) -> bool {
    &&& reads_unsigned(fields, bat::INDEX, b.index)
    &&& reads_unsigned(fields, bat::PARAM_BAT_NUMBER, b.param_bat_number)
    &&& reads_text(fields, bat::DEVICE_NAME, b.device_name@)
    &&& reads_text(fields, bat::MANUFACTURER_NAME, b.manufacturer_name@)
    &&& reads_unsigned(fields, bat::SERIALNO, b.serialno)
    &&& reads_text(fields, bat::INSTANCE_DESCRIPTOR, b.instance_descriptor@)
}

/// What keeps the answer to a request for the number of controllers from
/// giving that number, if anything does.
pub open spec fn dcb_count_failure(items: Seq<TaggedItem>) -> Option<Failure> {
    let data = children_at(items, bat::DATA)->Ok_0;
    Checked::nothing().and(children_at(items, bat::DATA)).and(
        unsigned_at(data, bat::DCB_COUNT),
    ).failure
}

/// `b` is the battery of `identity` with the number of controllers that
/// an answer with these items reports.
pub open spec fn is_battery_info(
    b: BatteryInfo,
    identity: BatteryIdentity,
    items: Seq<TaggedItem>,
) -> bool {
    let data = children_at(items, bat::DATA)->Ok_0;
    &&& b.index == identity.index
    &&& b.device_name == identity.device_name
    &&& b.param_bat_number == identity.param_bat_number
    &&& b.manufacturer_name == identity.manufacturer_name
    &&& b.serialno == identity.serialno
    &&& b.instance_descriptor == identity.instance_descriptor
    &&& reads_unsigned(data, bat::DCB_COUNT, b.dcb_count)
}

/// The first of the fields that a battery's snapshot reads before its
/// controllers are asked that cannot be had, if there is one.
pub open spec fn battery_head_failure(items: Seq<TaggedItem>) -> Option<Failure> {
    let data = children_at(items, bat::DATA)->Ok_0;
    Checked::nothing()
        .and(children_at(items, bat::DATA))
        .and(number_at(data, bat::RSOC))
        .and(number_at(data, bat::RSOC_REAL))
        .and(number_at(data, bat::ASOC))
        .and(number_at(data, bat::CURRENT))
        .and(number_at(data, bat::MODULE_VOLTAGE))
        .and(number_at(data, bat::TERMINAL_VOLTAGE))
        .and(number_at(data, bat::MAX_BAT_VOLTAGE))
        .and(number_at(data, bat::EOD_VOLTAGE))
        .and(number_at(data, bat::FCC))
        .and(number_at(data, bat::RC))
        .and(number_at(data, bat::DESIGN_CAPACITY))
        .and(number_at(data, bat::USABLE_CAPACITY))
        .and(number_at(data, bat::USABLE_REMAINING_CAPACITY))
        .and(number_at(data, bat::MAX_CHARGE_CURRENT))
        .and(number_at(data, bat::MAX_DISCHARGE_CURRENT))
        .and(number_at(data, bat::MAX_DCB_CELL_TEMPERATURE))
        .and(number_at(data, bat::MIN_DCB_CELL_TEMPERATURE))
        .and(number_at(data, bat::STATUS_CODE))
        .and(number_at(data, bat::ERROR_CODE))
        .and(number_at(data, bat::CHARGE_CYCLES))
        .and(unsigned_at(data, bat::TOTAL_USE_TIME))
        .and(unsigned_at(data, bat::TOTAL_DISCHARGE_TIME))
        .failure
}

/// The first thing that keeps a battery answer from giving a snapshot, if
/// anything does: a field of the answer in the order in which the snapshot
/// lists them, with the failure of the controllers, if they failed, in
/// their place.
pub open spec fn battery_data_failure(
    items: Seq<TaggedItem>,
    dcbs_failure: Option<Failure>,
) -> Option<Failure> {
    let data = children_at(items, bat::DATA)->Ok_0;
    (Checked { failure: battery_head_failure(items) })
        .and(unless(dcbs_failure))
        .and(truth_at(data, bat::READY_FOR_SHUTDOWN))
        .and(truth_at(data, bat::TRAINING_MODE))
        .failure
}

/// `b` is the snapshot of `battery` from an answer with these items and these
/// controller snapshots. The identity and the controller count are those found at
/// connect; what the answer says of the count is not read.
pub open spec fn is_battery_data(
    b: BatteryData,
    battery: BatteryInfo,
    time_stamp: Timestamp,
    items: Seq<TaggedItem>,
    dcbs: Seq<DcbData>,
) -> bool {
    let data = children_at(items, bat::DATA)->Ok_0;
    &&& b.index == battery.index
    &&& b.time_stamp == time_stamp
    &&& b.device_name@ == battery.device_name@
    &&& b.param_bat_number == battery.param_bat_number
    &&& b.manufacturer_name@ == battery.manufacturer_name@
    &&& b.serialno == battery.serialno
    &&& b.instance_descriptor@ == battery.instance_descriptor@
    &&& b.dcb_count == battery.dcb_count
    &&& b.dcbs@ == dcbs
    &&& reads_number(data, bat::RSOC, b.rsoc)
    &&& reads_number(data, bat::RSOC_REAL, b.rsoc_real)
    &&& reads_number(data, bat::ASOC, b.asoc)
    &&& reads_number(data, bat::CURRENT, b.current)
    &&& reads_number(data, bat::MODULE_VOLTAGE, b.module_voltage)
    &&& reads_number(data, bat::TERMINAL_VOLTAGE, b.terminal_voltage)
    &&& reads_number(data, bat::MAX_BAT_VOLTAGE, b.max_bat_voltage)
    &&& reads_number(data, bat::EOD_VOLTAGE, b.eod_voltage)
    &&& reads_number(data, bat::FCC, b.fcc)
    &&& reads_number(data, bat::RC, b.rc)
    &&& reads_number(data, bat::DESIGN_CAPACITY, b.design_capacity)
    &&& reads_number(data, bat::USABLE_CAPACITY, b.usable_capacity)
    &&& reads_number(data, bat::USABLE_REMAINING_CAPACITY, b.usable_remaining_capacity)
    &&& reads_number(data, bat::MAX_CHARGE_CURRENT, b.max_charge_current)
    &&& reads_number(data, bat::MAX_DISCHARGE_CURRENT, b.max_discharge_current)
    &&& reads_number(data, bat::MAX_DCB_CELL_TEMPERATURE, b.max_dcb_cell_temp)
    &&& reads_number(data, bat::MIN_DCB_CELL_TEMPERATURE, b.min_dcb_cell_temp)
    &&& reads_number(data, bat::STATUS_CODE, b.status_code)
    &&& reads_number(data, bat::ERROR_CODE, b.error_code)
    &&& reads_number(data, bat::CHARGE_CYCLES, b.charge_cycles)
    &&& reads_unsigned(data, bat::TOTAL_USE_TIME, b.total_use_time)
    &&& reads_unsigned(data, bat::TOTAL_DISCHARGE_TIME, b.total_discharge_time)
    &&& reads_truth(data, bat::READY_FOR_SHUTDOWN, b.ready_for_shutdown)
    &&& reads_truth(data, bat::TRAINING_MODE, b.training_mode)
}

/// The first thing in a controller answer that keeps it from giving a snapshot, if anything does.
pub open spec fn dcb_failure(items: Seq<TaggedItem>) -> Option<Failure> {
    let container = children_at(items, bat::DATA)->Ok_0;
    let dcb_info = children_at(container, bat::DCB_INFO)->Ok_0;
    let temperature_list = children_at(container, bat::DCB_ALL_CELL_TEMPERATURES)->Ok_0;
    let voltage_list = children_at(container, bat::DCB_ALL_CELL_VOLTAGES)->Ok_0;
    Checked::nothing()
        .and(children_at(items, bat::DATA))
        .and(children_at(container, bat::DCB_INFO))
        .and(unsigned_at(dcb_info, bat::DCB_NR_SENSOR))
        .and(unsigned_at(dcb_info, bat::DCB_NR_SERIES_CELL))
        .and(unsigned_at(dcb_info, bat::DCB_NR_PARALLEL_CELL))
        .and(children_at(container, bat::DCB_ALL_CELL_TEMPERATURES))
        .and(cell_data(temperature_list, bat::DCB_CELL_TEMPERATURE))
        .and(children_at(container, bat::DCB_ALL_CELL_VOLTAGES))
        .and(cell_data(voltage_list, bat::DCB_CELL_VOLTAGE))
        .and(number_at(dcb_info, bat::DCB_CURRENT))
        .and(number_at(dcb_info, bat::DCB_CURRENT_AVG_30S))
        .and(number_at(dcb_info, bat::DCB_VOLTAGE))
        .and(number_at(dcb_info, bat::DCB_VOLTAGE_AVG_30S))
        .and(number_at(dcb_info, bat::DCB_SOC))
        .and(number_at(dcb_info, bat::DCB_SOH))
        .and(number_at(dcb_info, bat::DCB_CYCLE_COUNT))
        .and(number_at(dcb_info, bat::DCB_DESIGN_CAPACITY))
        .and(number_at(dcb_info, bat::DCB_DESIGN_VOLTAGE))
        .and(number_at(dcb_info, bat::DCB_FULL_CHARGE_CAPACITY))
        .and(number_at(dcb_info, bat::DCB_REMAINING_CAPACITY))
        .and(number_at(dcb_info, bat::DCB_MAX_CHARGE_VOLTAGE))
        .and(number_at(dcb_info, bat::DCB_MAX_CHARGE_CURRENT))
        .and(number_at(dcb_info, bat::DCB_MAX_DISCHARGE_CURRENT))
        .and(number_at(dcb_info, bat::DCB_END_OF_DISCHARGE))
        .and(number_at(dcb_info, bat::DCB_CHARGE_HIGH_TEMPERATURE))
        .and(number_at(dcb_info, bat::DCB_CHARGE_LOW_TEMPERATURE))
        .and(text_at(dcb_info, bat::DCB_DEVICE_NAME))
        .and(text_at(dcb_info, bat::DCB_MANUFACTURE_NAME))
        .and(number_at(dcb_info, bat::DCB_MANUFACTURE_DATE))
        .and(text_at(dcb_info, bat::DCB_SERIALCODE))
        .and(number_at(dcb_info, bat::DCB_SERIALNO))
        .and(number_at(dcb_info, bat::DCB_FW_VERSION))
        .and(number_at(dcb_info, bat::DCB_PCB_VERSION))
        .and(number_at(dcb_info, bat::DCB_PROTOCOL_VERSION))
        .and(number_at(dcb_info, bat::DCB_ERROR))
        .and(number_at(dcb_info, bat::DCB_WARNING))
        .and(number_at(dcb_info, bat::DCB_STATUS))
        .failure
}

/// `d` is the snapshot of controller `index` from an answer with these items.
pub open spec fn is_dcb_data(d: DcbData, index: u64, items: Seq<TaggedItem>) -> bool {
    let container = children_at(items, bat::DATA)->Ok_0;
    let dcb_info = children_at(container, bat::DCB_INFO)->Ok_0;
    let temperature_list = children_at(container, bat::DCB_ALL_CELL_TEMPERATURES)->Ok_0;
    let voltage_list = children_at(container, bat::DCB_ALL_CELL_VOLTAGES)->Ok_0;
    let temperatures = cell_data(temperature_list, bat::DCB_CELL_TEMPERATURE)->Ok_0;
    let voltages = cell_data(voltage_list, bat::DCB_CELL_VOLTAGE)->Ok_0;
    let series = unsigned_at(dcb_info, bat::DCB_NR_SERIES_CELL)->Ok_0;
    &&& d.index == index
    &&& d.cell_temperatures@ == reconciled_temperatures(temperatures, d.sensor_count)
    &&& d.cell_voltages@ == reconciled_voltages(voltages, series)
    &&& d.series_cell_count == effective_series_count(voltages, series)
    &&& reads_unsigned(dcb_info, bat::DCB_NR_SENSOR, d.sensor_count)
    &&& reads_unsigned(dcb_info, bat::DCB_NR_PARALLEL_CELL, d.parallel_cell_count)
    &&& reads_number(dcb_info, bat::DCB_CURRENT, d.current)
    &&& reads_number(dcb_info, bat::DCB_CURRENT_AVG_30S, d.current_avg_30s)
    &&& reads_number(dcb_info, bat::DCB_VOLTAGE, d.voltage)
    &&& reads_number(dcb_info, bat::DCB_VOLTAGE_AVG_30S, d.voltage_avg_30s)
    &&& reads_number(dcb_info, bat::DCB_SOC, d.soc)
    &&& reads_number(dcb_info, bat::DCB_SOH, d.soh)
    &&& reads_number(dcb_info, bat::DCB_CYCLE_COUNT, d.cycle_count)
    &&& reads_number(dcb_info, bat::DCB_DESIGN_CAPACITY, d.design_capacity)
    &&& reads_number(dcb_info, bat::DCB_DESIGN_VOLTAGE, d.design_voltage)
    &&& reads_number(dcb_info, bat::DCB_FULL_CHARGE_CAPACITY, d.full_charge_capacity)
    &&& reads_number(dcb_info, bat::DCB_REMAINING_CAPACITY, d.remaining_capacity)
    &&& reads_number(dcb_info, bat::DCB_MAX_CHARGE_VOLTAGE, d.max_charge_voltage)
    &&& reads_number(dcb_info, bat::DCB_MAX_CHARGE_CURRENT, d.max_charge_current)
    &&& reads_number(dcb_info, bat::DCB_MAX_DISCHARGE_CURRENT, d.max_discharge_current)
    &&& reads_number(dcb_info, bat::DCB_END_OF_DISCHARGE, d.end_of_discharge)
    &&& reads_number(dcb_info, bat::DCB_CHARGE_HIGH_TEMPERATURE, d.max_charge_temperature)
    &&& reads_number(dcb_info, bat::DCB_CHARGE_LOW_TEMPERATURE, d.min_charge_temperature)
    &&& reads_text(dcb_info, bat::DCB_DEVICE_NAME, d.device_name@)
    &&& reads_text(dcb_info, bat::DCB_MANUFACTURE_NAME, d.manufacture_name@)
    &&& reads_number(dcb_info, bat::DCB_MANUFACTURE_DATE, d.manufacture_date)
    &&& reads_text(dcb_info, bat::DCB_SERIALCODE, d.serial_code@)
    &&& reads_number(dcb_info, bat::DCB_SERIALNO, d.serial_no)
    &&& reads_number(dcb_info, bat::DCB_FW_VERSION, d.fw_version)
    &&& reads_number(dcb_info, bat::DCB_PCB_VERSION, d.pcb_version)
    &&& reads_number(dcb_info, bat::DCB_PROTOCOL_VERSION, d.protocol_version)
    &&& reads_number(dcb_info, bat::DCB_ERROR, d.error)
    &&& reads_number(dcb_info, bat::DCB_WARNING, d.warning)
    &&& reads_number(dcb_info, bat::DCB_STATUS, d.status)
}

/// The first field of a history answer that cannot be had, if there is one.
pub open spec fn statistics_failure(items: Seq<TaggedItem>) -> Option<Failure> {
    let history = children_at(items, db::HISTORY_DATA_DAY)->Ok_0;
    let sums = children_at(history, db::SUM_CONTAINER)->Ok_0;
    Checked::nothing()
        .and(children_at(items, db::HISTORY_DATA_DAY))
        .and(children_at(history, db::SUM_CONTAINER))
        .and(number_at(sums, db::AUTARKY))
        .and(number_at(sums, db::CONSUMED_PRODUCTION))
        .and(number_at(sums, db::DC_POWER))
        .and(number_at(sums, db::CONSUMPTION))
        .and(number_at(sums, db::BAT_POWER_IN))
        .and(number_at(sums, db::BAT_POWER_OUT))
        .and(number_at(sums, db::GRID_POWER_IN))
        .and(number_at(sums, db::GRID_POWER_OUT))
        .and(number_at(sums, db::BAT_CHARGE_LEVEL))
        .failure
}

/// `s` holds the sums that a history answer with these items reports for the
/// window that was asked for.
pub open spec fn is_statistics(
    s: DailyStatistics,
    time_stamp: Timestamp,
    start: Timestamp,
    timespan: TimeSpan,
    items: Seq<TaggedItem>,
) -> bool {
    let history = children_at(items, db::HISTORY_DATA_DAY)->Ok_0;
    let sums = children_at(history, db::SUM_CONTAINER)->Ok_0;
    &&& s.time_stamp == time_stamp
    &&& s.start == start
    &&& s.timespan == timespan
    &&& reads_number(sums, db::AUTARKY, s.autarky)
    &&& reads_number(sums, db::CONSUMED_PRODUCTION, s.consumed_production)
    &&& reads_number(sums, db::DC_POWER, s.solar_production)
    &&& reads_number(sums, db::CONSUMPTION, s.consumption)
    &&& reads_number(sums, db::BAT_POWER_IN, s.bat_power_in)
    &&& reads_number(sums, db::BAT_POWER_OUT, s.bat_power_out)
    &&& reads_number(sums, db::GRID_POWER_IN, s.grid_power_in)
    &&& reads_number(sums, db::GRID_POWER_OUT, s.grid_power_out)
    &&& reads_number(sums, db::BAT_CHARGE_LEVEL, s.state_of_charge)
}

/// The state that the device client keeps: what was found once, at connect.
#[derive(Debug)]
pub struct E3dcClient {
    pub batteries: Vec<BatteryInfo>,
    pub info: SystemInfoStatic,
}

impl E3dcClient {
    /// A client for a device of which this much was found at connect.
    pub fn new(batteries: Vec<BatteryInfo>, info: SystemInfoStatic) -> (client: E3dcClient)
        ensures
            client.batteries == batteries,
            client.info == info,
    {
        E3dcClient { batteries, info }
    }

    /// What the device said of itself at connect.
    pub fn info(&self) -> (r: &SystemInfoStatic)
        ensures
            *r == self.info,
    {
        &self.info
    }

    /// The batteries that were found at connect.
    pub fn batteries(&self) -> (r: &Vec<BatteryInfo>)
        ensures
            *r == self.batteries,
    {
        &self.batteries
    }

    /// The device's identifier in topic paths: its model and its serial
    /// number, with a hyphen between them.
    pub fn device_id(&self) -> (id: String)
        ensures
            id@ == self.info.model@ + "-"@ + self.info.serial_number@,
    {
        let mut id = String::from_str(self.info.model);
        id.append("-");
        id.append(self.info.serial_number.as_str());
        id
    }

    /// What an identity answer says of the device.
    pub fn get_system_info_static(response: &Frame) -> (r: Result<SystemInfoStatic, E3dcError>)
        ensures
            outcome(
                r,
                static_info_failure(response.contents()),
                |s: SystemInfoStatic| is_static_info(s, response.contents()),
            ),
    {
        let all_items = response.items();
        let derate_at_percent_value = get_number(all_items, ems::DERATE_AT_PERCENT_VALUE)?;
        let derate_at_power_value = get_integer(all_items, ems::DERATE_AT_POWER_VALUE)?;
        let installed_peak_power = get_integer(all_items, ems::INSTALLED_PEAK_POWER)?;
        let ext_source_available = get_bool(all_items, ems::EXT_SRC_AVAILABLE)?;
        let mac_address = get_string(all_items, info::MAC_ADDRESS)?;
        let serial = get_string(all_items, info::SERIAL_NUMBER)?;
        let serial_number = if serial.as_str().unicode_len() >= 4 {
            skip_chars(serial.as_str(), 4)
        } else {
            serial
        };
        let model = identify_model(serial_number.as_str());
        Ok(
            SystemInfoStatic {
                serial_number,
                model,
                mac_address,
                installed_peak_power,
                derate_at_percent_value,
                derate_at_power_value,
                ext_source_available,
            },
        )
    }

    /// The system snapshot that an answer reports.
    pub fn get_system_info(&self, response: &Frame) -> (r: Result<SystemInfo, E3dcError>)
        ensures
            outcome(
                r,
                system_info_failure(response.contents()),
                |s: SystemInfo|
                    is_system_info(s, self.info, response.time_stamp, response.contents()),
            ),
    {
        let all_items = response.items();
        let power_settings = get_items(all_items, ems::GET_POWER_SETTINGS)?;
        let specs = get_container(all_items, ems::GET_SYS_SPECS)?;
        let ip_address = get_string(all_items, info::IP_ADDRESS)?;
        let software_release = get_string(all_items, info::SW_RELEASE)?;
        let max_charge_power = get_integer(power_settings, ems::MAX_CHARGE_POWER)?;
        let max_discharge_power = get_integer(power_settings, ems::MAX_DISCHARGE_POWER)?;
        let discharge_start_power = get_integer(power_settings, ems::DISCHARGE_START_POWER)?;
        let power_limits_used = get_bool(power_settings, ems::POWER_LIMITS_USED)?;
        let power_save_enabled = get_bool(power_settings, ems::POWERSAVE_ENABLED)?;
        let weather_forecast_mode = get_integer(power_settings, ems::WEATHER_FORECAST_MODE)?;
        let weather_regulated_charge_enabled = get_bool(
            power_settings,
            ems::WEATHER_REGULATED_CHARGE_ENABLED,
        )?;
        Ok(
            SystemInfo {
                time_stamp: response.time_stamp,
                serial_number: self.info.serial_number.clone(),
                mac_address: self.info.mac_address.clone(),
                ip_address,
                model: self.info.model,
                software_release,
                installed_peak_power: self.info.installed_peak_power,
                installed_battery_capacity: find_system_spec(specs, "installedBatteryCapacity"),
                max_ac_power: find_system_spec(specs, "maxAcPower"),
                max_battery_charge_power: find_system_spec(specs, "maxBatChargePower"),
                max_battery_discharge_power: find_system_spec(specs, "maxBatDischargPower"),
                derate_percent: self.info.derate_at_percent_value,
                derate_power: self.info.derate_at_power_value,
                max_charge_power,
                max_discharge_power,
                discharge_start_power,
                power_limits_used,
                power_save_enabled,
                weather_forecast_mode,
                weather_regulated_charge_enabled,
                external_source_available: self.info.ext_source_available,
            },
        )
    }

    /// The status that an answer reports.
    pub fn get_status(&self, response: &Frame) -> (r: Result<Status, E3dcError>)
        ensures
            outcome(
                r,
                status_failure(response.contents()),
                |s: Status| is_status(s, response.time_stamp, response.contents()),
            ),
    {
        let all_items = response.items();
        let power_add = get_number(all_items, ems::POWER_ADD)?;
        let power_pv = get_number(all_items, ems::POWER_PV)?;
        let power_battery = get_number(all_items, ems::POWER_BAT)?;
        let power_grid = get_number(all_items, ems::POWER_GRID)?;
        let power_home = get_number(all_items, ems::POWER_HOME)?;
        let power_wb = get_number(all_items, ems::POWER_WB_ALL)?;
        let battery_soc = get_number(all_items, ems::BAT_SOC)?;
        let autarky = get_number(all_items, ems::AUTARKY)?;
        let self_consumption = get_number(all_items, ems::SELF_CONSUMPTION)?;
        Ok(
            Status {
                time_stamp: response.time_stamp,
                power_add,
                power_pv,
                power_battery,
                power_grid,
                power_home,
                power_wb,
                battery_soc,
                autarky,
                self_consumption,
            },
        )
    }

    /// The entries of the answer to the request for all batteries, one per battery.
    pub fn available_batteries<'a>(response: &'a Frame) -> (r: Result<
        &'a [TaggedItem],
        E3dcError,
    >)
        ensures
            finds_children(r, children_at(response.contents(), bat::AVAILABLE_BATTERIES)),
    {
        get_items(response.items(), bat::AVAILABLE_BATTERIES)
    }

    /// Who the battery of one entry is.
    pub fn battery_identity(entry: &TaggedItem) -> (r: Result<BatteryIdentity, E3dcError>)
        ensures
            outcome(
                r,
                identity_failure(children_of(entry.value)),
                |b: BatteryIdentity| is_identity(b, children_of(entry.value)),
            ),
    {
        let fields = any_to_items(&entry.value);
        let index = get_integer(fields, bat::INDEX)?;
        let param_bat_number = get_integer(fields, bat::PARAM_BAT_NUMBER)?;
        let device_name = get_string(fields, bat::DEVICE_NAME)?;
        let manufacturer_name = get_string(fields, bat::MANUFACTURER_NAME)?;
        let serialno = get_integer(fields, bat::SERIALNO)?;
        let instance_descriptor = get_string(fields, bat::INSTANCE_DESCRIPTOR)?;
        Ok(
            BatteryIdentity {
                index,
                device_name,
                param_bat_number,
                manufacturer_name,
                serialno,
                instance_descriptor,
            },
        )
    }

    /// A battery with the number of its controllers, from the answer to the
    /// request for that number.
    pub fn battery_info(identity: BatteryIdentity, response: &Frame) -> (r: Result<
        BatteryInfo,
        E3dcError,
    >)
        ensures
            outcome(
                r,
                dcb_count_failure(response.contents()),
                |b: BatteryInfo| is_battery_info(b, identity, response.contents()),
            ),
    {
        let data = get_items(response.items(), bat::DATA)?;
        let dcb_count = get_integer(data, bat::DCB_COUNT)?;
        Ok(
            BatteryInfo {
                index: identity.index,
                device_name: identity.device_name,
                param_bat_number: identity.param_bat_number,
                manufacturer_name: identity.manufacturer_name,
                serialno: identity.serialno,
                instance_descriptor: identity.instance_descriptor,
                dcb_count,
            },
        )
    }

    /// Tells whether a battery's answer holds every field that the snapshot
    /// reads before the battery's controllers are asked.
    pub fn check_battery_head(response: &Frame) -> (r: Result<(), E3dcError>)
        ensures
            match battery_head_failure(response.contents()) {
                Some(f) => r matches Err(e) && e@ == f,
                None => r is Ok,
            },
    {
        let data = get_items(response.items(), bat::DATA)?;
        let _ = get_number(data, bat::RSOC)?;
        let _ = get_number(data, bat::RSOC_REAL)?;
        let _ = get_number(data, bat::ASOC)?;
        let _ = get_number(data, bat::CURRENT)?;
        let _ = get_number(data, bat::MODULE_VOLTAGE)?;
        let _ = get_number(data, bat::TERMINAL_VOLTAGE)?;
        let _ = get_number(data, bat::MAX_BAT_VOLTAGE)?;
        let _ = get_number(data, bat::EOD_VOLTAGE)?;
        let _ = get_number(data, bat::FCC)?;
        let _ = get_number(data, bat::RC)?;
        let _ = get_number(data, bat::DESIGN_CAPACITY)?;
        let _ = get_number(data, bat::USABLE_CAPACITY)?;
        let _ = get_number(data, bat::USABLE_REMAINING_CAPACITY)?;
        let _ = get_number(data, bat::MAX_CHARGE_CURRENT)?;
        let _ = get_number(data, bat::MAX_DISCHARGE_CURRENT)?;
        let _ = get_number(data, bat::MAX_DCB_CELL_TEMPERATURE)?;
        let _ = get_number(data, bat::MIN_DCB_CELL_TEMPERATURE)?;
        let _ = get_number(data, bat::STATUS_CODE)?;
        let _ = get_number(data, bat::ERROR_CODE)?;
        let _ = get_number(data, bat::CHARGE_CYCLES)?;
        let _ = get_integer(data, bat::TOTAL_USE_TIME)?;
        let _ = get_integer(data, bat::TOTAL_DISCHARGE_TIME)?;
        Ok(())
    }

    /// The snapshot of one battery, from its answer and the snapshots of
    /// its controllers. The controllers are asked between the two halves of
    /// the battery's fields; whoever asks them hands their outcome over,
    /// and a failure among them fails the battery in its place.
    pub fn get_battery_data_idx(
        battery: &BatteryInfo,
        response: &Frame,
        dcbs: Result<Vec<DcbData>, E3dcError>,
    ) -> (r: Result<BatteryData, E3dcError>)
        ensures
            outcome(
                r,
                battery_data_failure(response.contents(), failure_of(dcbs)),
                |b: BatteryData|
                    is_battery_data(
                        b,
                        *battery,
                        response.time_stamp,
                        response.contents(),
                        dcbs->Ok_0@,
                    ),
            ),
    {
        let all_items = response.items();
        let data = get_items(all_items, bat::DATA)?;
        let rsoc = get_number(data, bat::RSOC)?;
        let rsoc_real = get_number(data, bat::RSOC_REAL)?;
        let asoc = get_number(data, bat::ASOC)?;
        let current = get_number(data, bat::CURRENT)?;
        let module_voltage = get_number(data, bat::MODULE_VOLTAGE)?;
        let terminal_voltage = get_number(data, bat::TERMINAL_VOLTAGE)?;
        let max_bat_voltage = get_number(data, bat::MAX_BAT_VOLTAGE)?;
        let eod_voltage = get_number(data, bat::EOD_VOLTAGE)?;
        let fcc = get_number(data, bat::FCC)?;
        let rc = get_number(data, bat::RC)?;
        let design_capacity = get_number(data, bat::DESIGN_CAPACITY)?;
        let usable_capacity = get_number(data, bat::USABLE_CAPACITY)?;
        let usable_remaining_capacity = get_number(data, bat::USABLE_REMAINING_CAPACITY)?;
        let max_charge_current = get_number(data, bat::MAX_CHARGE_CURRENT)?;
        let max_discharge_current = get_number(data, bat::MAX_DISCHARGE_CURRENT)?;
        let max_dcb_cell_temp = get_number(data, bat::MAX_DCB_CELL_TEMPERATURE)?;
        let min_dcb_cell_temp = get_number(data, bat::MIN_DCB_CELL_TEMPERATURE)?;
        let status_code = get_number(data, bat::STATUS_CODE)?;
        let error_code = get_number(data, bat::ERROR_CODE)?;
        let charge_cycles = get_number(data, bat::CHARGE_CYCLES)?;
        let total_use_time = get_integer(data, bat::TOTAL_USE_TIME)?;
        let total_discharge_time = get_integer(data, bat::TOTAL_DISCHARGE_TIME)?;
        let dcbs = dcbs?;
        let ready_for_shutdown = get_bool(data, bat::READY_FOR_SHUTDOWN)?;
        let training_mode = get_bool(data, bat::TRAINING_MODE)?;
        Ok(
            BatteryData {
                index: battery.index,
                time_stamp: response.time_stamp,
                rsoc,
                rsoc_real,
                asoc,
                current,
                module_voltage,
                terminal_voltage,
                max_bat_voltage,
                eod_voltage,
                fcc,
                rc,
                design_capacity,
                usable_capacity,
                usable_remaining_capacity,
                max_charge_current,
                max_discharge_current,
                max_dcb_cell_temp,
                min_dcb_cell_temp,
                status_code,
                error_code,
                charge_cycles,
                total_use_time,
                total_discharge_time,
                device_name: battery.device_name.clone(),
                param_bat_number: battery.param_bat_number,
                manufacturer_name: battery.manufacturer_name.clone(),
                serialno: battery.serialno,
                instance_descriptor: battery.instance_descriptor.clone(),
                dcb_count: battery.dcb_count,
                dcbs,
                ready_for_shutdown,
                training_mode,
            },
        )
    }

    /// The snapshot of one controller that an answer reports.
    pub fn get_dcb_data(response: &Frame, dcb_index: u64) -> (r: Result<DcbData, E3dcError>)
        ensures
            outcome(
                r,
                dcb_failure(response.contents()),
                |d: DcbData| is_dcb_data(d, dcb_index, response.contents()),
            ),
    {
        let all_items = response.items();
        let container = get_items(all_items, bat::DATA)?;
        let dcb_info = get_items(container, bat::DCB_INFO)?;
        let sensor_count = get_integer(dcb_info, bat::DCB_NR_SENSOR)?;
        let series_cell_count = get_integer(dcb_info, bat::DCB_NR_SERIES_CELL)?;
        let parallel_cell_count = get_integer(dcb_info, bat::DCB_NR_PARALLEL_CELL)?;
        let temperature_list = get_items(container, bat::DCB_ALL_CELL_TEMPERATURES)?;
        let all_temperatures = extract_dcb_cell_data(
            temperature_list,
            bat::DCB_CELL_TEMPERATURE,
        )?;
        let voltage_list = get_items(container, bat::DCB_ALL_CELL_VOLTAGES)?;
        let all_voltages = extract_dcb_cell_data(voltage_list, bat::DCB_CELL_VOLTAGE)?;
        let current = get_number(dcb_info, bat::DCB_CURRENT)?;
        let current_avg_30s = get_number(dcb_info, bat::DCB_CURRENT_AVG_30S)?;
        let voltage = get_number(dcb_info, bat::DCB_VOLTAGE)?;
        let voltage_avg_30s = get_number(dcb_info, bat::DCB_VOLTAGE_AVG_30S)?;
        let soc = get_number(dcb_info, bat::DCB_SOC)?;
        let soh = get_number(dcb_info, bat::DCB_SOH)?;
        let cycle_count = get_number(dcb_info, bat::DCB_CYCLE_COUNT)?;
        let design_capacity = get_number(dcb_info, bat::DCB_DESIGN_CAPACITY)?;
        let design_voltage = get_number(dcb_info, bat::DCB_DESIGN_VOLTAGE)?;
        let full_charge_capacity = get_number(dcb_info, bat::DCB_FULL_CHARGE_CAPACITY)?;
        let remaining_capacity = get_number(dcb_info, bat::DCB_REMAINING_CAPACITY)?;
        let max_charge_voltage = get_number(dcb_info, bat::DCB_MAX_CHARGE_VOLTAGE)?;
        let max_charge_current = get_number(dcb_info, bat::DCB_MAX_CHARGE_CURRENT)?;
        let max_discharge_current = get_number(dcb_info, bat::DCB_MAX_DISCHARGE_CURRENT)?;
        let end_of_discharge = get_number(dcb_info, bat::DCB_END_OF_DISCHARGE)?;
        let max_charge_temperature = get_number(dcb_info, bat::DCB_CHARGE_HIGH_TEMPERATURE)?;
        let min_charge_temperature = get_number(dcb_info, bat::DCB_CHARGE_LOW_TEMPERATURE)?;
        let device_name = get_string(dcb_info, bat::DCB_DEVICE_NAME)?;
        let manufacture_name = get_string(dcb_info, bat::DCB_MANUFACTURE_NAME)?;
        let manufacture_date = get_number(dcb_info, bat::DCB_MANUFACTURE_DATE)?;
        let serial_code = get_string(dcb_info, bat::DCB_SERIALCODE)?;
        let serial_no = get_number(dcb_info, bat::DCB_SERIALNO)?;
        let fw_version = get_number(dcb_info, bat::DCB_FW_VERSION)?;
        let pcb_version = get_number(dcb_info, bat::DCB_PCB_VERSION)?;
        let protocol_version = get_number(dcb_info, bat::DCB_PROTOCOL_VERSION)?;
        let error = get_number(dcb_info, bat::DCB_ERROR)?;
        let warning = get_number(dcb_info, bat::DCB_WARNING)?;
        let status = get_number(dcb_info, bat::DCB_STATUS)?;
        let cell_temperatures = if sensor_count > 0 {
            take_leading(all_temperatures, sensor_count)
        } else {
            keep_measured(&all_temperatures)
        };
        let actual_series_cell_count = if series_cell_count > 0 {
            series_cell_count
        } else {
            all_voltages.len() as u64
        };
        let cell_voltages = if series_cell_count > 0 {
            take_leading(all_voltages, series_cell_count)
        } else {
            all_voltages
        };
        Ok(
            DcbData {
                index: dcb_index,
                current,
                current_avg_30s,
                voltage,
                voltage_avg_30s,
                soc,
                soh,
                cycle_count,
                design_capacity,
                design_voltage,
                full_charge_capacity,
                remaining_capacity,
                max_charge_voltage,
                max_charge_current,
                max_discharge_current,
                end_of_discharge,
                max_charge_temperature,
                min_charge_temperature,
                device_name,
                manufacture_name,
                manufacture_date,
                serial_code,
                serial_no,
                fw_version,
                pcb_version,
                protocol_version,
                error,
                warning,
                status,
                series_cell_count: actual_series_cell_count,
                parallel_cell_count,
                sensor_count,
                cell_temperatures,
                cell_voltages,
            },
        )
    }

    /// The window that the daily statistics are asked for at `now`.
    pub fn get_daily_statistics(now: Timestamp, statistic_interval: TimeSpan) -> (w: Window)
        requires
            now.secs >= i64::MIN + 90_000,
        ensures
            w == statistics_window(now, statistic_interval),
    {
        daily_window(now, statistic_interval)
    }

    /// The sums that a history answer reports for the window that was asked for.
    pub fn get_db_data_timestamp(
        response: &Frame,
        start: Timestamp,
        timespan: TimeSpan,
    ) -> (r: Result<DailyStatistics, E3dcError>)
        ensures
            outcome(
                r,
                statistics_failure(response.contents()),
                |s: DailyStatistics|
                    is_statistics(s, response.time_stamp, start, timespan, response.contents()),
            ),
    {
        let all_items = response.items();
        let history = get_items(all_items, db::HISTORY_DATA_DAY)?;
        let sums = get_items(history, db::SUM_CONTAINER)?;
        let autarky = get_number(sums, db::AUTARKY)?;
        let consumed_production = get_number(sums, db::CONSUMED_PRODUCTION)?;
        let solar_production = get_number(sums, db::DC_POWER)?;
        let consumption = get_number(sums, db::CONSUMPTION)?;
        let bat_power_in = get_number(sums, db::BAT_POWER_IN)?;
        let bat_power_out = get_number(sums, db::BAT_POWER_OUT)?;
        let grid_power_in = get_number(sums, db::GRID_POWER_IN)?;
        let grid_power_out = get_number(sums, db::GRID_POWER_OUT)?;
        let state_of_charge = get_number(sums, db::BAT_CHARGE_LEVEL)?;
        Ok(
            DailyStatistics {
                time_stamp: response.time_stamp,
                autarky,
                consumption,
                solar_production,
                consumed_production,
                bat_power_in,
                bat_power_out,
                grid_power_in,
                grid_power_out,
                state_of_charge,
                start,
                timespan,
            },
        )
    }
}

} // verus!
