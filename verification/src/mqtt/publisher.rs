//! Change tracking: of each snapshot, only the fields that differ from the
//! snapshot before are published, each under its own topic.

use crate::mqtt::context::{
    publication, publication_views, Payload, PayloadView, Publication, PublicationView,
    PublishContext, QoS,
};
use crate::mqtt::types::{BatteryData, DailyStatistics, DcbData, Status};
use crate::float::Float64;
use crate::time::{TimeSpan, Timestamp};
use crate::config::{Config, MqttConfig};
use crate::errors::MqttError;
use crate::text::{concat2, concat3, decimal, push_decimal};
use vstd::prelude::*;
use vstd::string::*;

verus! {

/// One field of a snapshot: its name in the topic tree and its value.
#[derive(Debug, PartialEq)]
pub struct Field {
    pub name: &'static str,
    pub payload: Payload,
}

/// A field with its texts as sequences.
pub struct FieldView {
    pub name: Seq<char>,
    pub payload: PayloadView,
}

impl View for Field {
    type V = FieldView;

    open spec fn view(&self) -> FieldView {
        FieldView { name: self.name@, payload: self.payload@ }
    }
}

/// The fields of a list, each by its view.
pub open spec fn field_views(fields: Seq<Field>) -> Seq<FieldView> {
    Seq::new(fields.len(), |i: int| fields[i]@)
}

/// A field by name and value.
pub open spec fn field(name: Seq<char>, payload: PayloadView) -> FieldView {
    FieldView { name, payload }
}

/// The topic of a context: the publisher's root, and below it the
/// context's own path where it has one.
pub open spec fn context_topic(root: Seq<char>, path: Seq<char>) -> Seq<char> {
    if path.len() == 0 {
        root
    } else {
        root + "/"@ + path
    }
}

/// The path under which a battery is published.
pub open spec fn battery_path(index: u64) -> Seq<char> {
    "status/battery:"@ + decimal(index as nat)
}

/// The path under which a controller of a battery is published.
pub open spec fn dcb_path(battery_index: u64, dcb_index: u64) -> Seq<char> {
    battery_path(battery_index) + "/dcb:"@ + decimal(dcb_index as nat)
}

/// The field at `i` is to be published: there is no snapshot before, or
/// the one before holds another value there.
pub open spec fn field_changed(
    current: Seq<FieldView>,
    previous: Option<Seq<FieldView>>,
    i: int,
) -> bool {
    match previous {
        None => true,
        Some(before) => i >= before.len() || !current[i].payload.equals(before[i].payload),
    }
}

/// The messages for the first `n` fields: one for each that changed, in
/// the order of the fields.
pub open spec fn changes_upto(
    topic: Seq<char>,
    current: Seq<FieldView>,
    previous: Option<Seq<FieldView>>,
    n: nat,
) -> Seq<PublicationView>
    decreases n,
{
    if n == 0 {
        Seq::empty()
    } else {
        let before = changes_upto(topic, current, previous, (n - 1) as nat);
        if field_changed(current, previous, n - 1) {
            before.push(publication(topic, current[n - 1].name, current[n - 1].payload))
        } else {
            before
        }
    }
}

/// The messages that publish what changed between two lists of fields.
pub open spec fn changes(
    topic: Seq<char>,
    current: Seq<FieldView>,
    previous: Option<Seq<FieldView>>,
) -> Seq<PublicationView> {
    changes_upto(topic, current, previous, current.len())
}

/// The place of the first element that `pick` accepts, where there is one.
pub open spec fn first_place<T>(list: Seq<T>, pick: spec_fn(T) -> bool) -> Option<int> {
    if exists|i: int| 0 <= i < list.len() && pick(#[trigger] list[i]) {
        Some(
            choose|i: int|
                0 <= i < list.len() && pick(list[i]) && forall|j: int|
                    0 <= j < i ==> !pick(#[trigger] list[j]),
        )
    } else {
        None
    }
}

/// An accepted element that nothing accepted stands before is the first.
pub proof fn lemma_first_place<T>(list: Seq<T>, pick: spec_fn(T) -> bool, i: int)
    requires
        0 <= i < list.len(),
        pick(list[i]),
        forall|j: int| 0 <= j < i ==> !pick(#[trigger] list[j]),
    ensures
        first_place(list, pick) == Some(i),
{
    let c = choose|c: int|
        0 <= c < list.len() && pick(list[c]) && forall|j: int|
            0 <= j < c ==> !pick(#[trigger] list[j]);
    if c < i {
        assert(!pick(list[c]));
    }
    if i < c {
        assert(!pick(list[i]));
    }
}

/// The snapshot before of the battery with this index: the first in the
/// list with the index.
pub open spec fn battery_before(before: Seq<BatteryData>, index: u64) -> Option<BatteryData> {
    match first_place(before, |b: BatteryData| b.index == index) {
        Some(i) => Some(before[i]),
        None => None,
    }
}

/// The snapshot before of the controller with this index.
pub open spec fn dcb_before(before: Seq<DcbData>, index: u64) -> Option<DcbData> {
    match first_place(before, |d: DcbData| d.index == index) {
        Some(i) => Some(before[i]),
        None => None,
    }
}

fn flag(name: &'static str, value: bool) -> (r: Field)
    ensures
        r@ == field(name@, PayloadView::Flag(value)),
{
    Field { name, payload: Payload::Flag(value) }
}

fn count(name: &'static str, value: u64) -> (r: Field)
    ensures
        r@ == field(name@, PayloadView::Count(value)),
{
    Field { name, payload: Payload::Count(value) }
}

fn text(name: &'static str, value: &String) -> (r: Field)
    ensures
        r@ == field(name@, PayloadView::Text(value@)),
{
    Field { name, payload: Payload::Text(value.clone()) }
}

fn number(name: &'static str, value: Float64) -> (r: Field)
    ensures
        r@ == field(name@, PayloadView::Number(value)),
{
    Field { name, payload: Payload::Number(value) }
}

fn numbers(name: &'static str, values: &Vec<Float64>) -> (r: Field)
    ensures
        r@ == field(name@, PayloadView::Numbers(values@)),
{
    Field { name, payload: Payload::Numbers(copy_numbers(values)) }
}

fn instant(name: &'static str, value: Timestamp) -> (r: Field)
    ensures
        r@ == field(name@, PayloadView::Instant(value)),
{
    Field { name, payload: Payload::Instant(value) }
}

fn span(name: &'static str, value: TimeSpan) -> (r: Field)
    ensures
        r@ == field(name@, PayloadView::Span(value)),
{
    Field { name, payload: Payload::Span(value) }
}

fn copy_numbers(values: &Vec<Float64>) -> (r: Vec<Float64>)
    ensures
        r@ == values@,
{
    let mut r: Vec<Float64> = Vec::new();
    let mut i: usize = 0;
    while i < values.len()
        invariant
            i <= values.len(),
            r@ == values@.take(i as int),
        decreases values.len() - i,
    {
        r.push(values[i]);
        assert(r@ =~= values@.take(i + 1));
        i += 1;
    }
    assert(values@.take(values.len() as int) =~= values@);
    r
}

/// The fields of a status in the order in which they are published.
pub open spec fn status_fields(s: Status) -> Seq<FieldView> {
    seq![
        field("time"@, PayloadView::Instant(s.time)),
        field("additional"@, PayloadView::Number(s.additional)),
        field("autarky"@, PayloadView::Number(s.autarky)),
        field("battery_charge"@, PayloadView::Number(s.battery_charge)),
        field("battery_discharge"@, PayloadView::Number(s.battery_discharge)),
        field("battery_consumption"@, PayloadView::Number(s.battery_consumption)),
        field("consumption_from_grid"@, PayloadView::Number(s.consumption_from_grid)),
        field("export_to_grid"@, PayloadView::Number(s.export_to_grid)),
        field("grid_production"@, PayloadView::Number(s.grid_production)),
        field("house_consumption"@, PayloadView::Number(s.house_consumption)),
        field("self_consumption"@, PayloadView::Number(s.self_consumption)),
        field("solar_production"@, PayloadView::Number(s.solar_production)),
        field("solar_production_excess"@, PayloadView::Number(s.solar_production_excess)),
        field("state_of_charge"@, PayloadView::Number(s.state_of_charge)),
        field("wb_consumption"@, PayloadView::Number(s.wb_consumption)),
    ]
}

fn list_status_fields(s: &Status) -> (r: Vec<Field>)
    ensures
        field_views(r@) == status_fields(*s),
{
    let mut r: Vec<Field> = Vec::new();
    r.push(instant("time", s.time));
    r.push(number("additional", s.additional));
    r.push(number("autarky", s.autarky));
    r.push(number("battery_charge", s.battery_charge));
    r.push(number("battery_discharge", s.battery_discharge));
    r.push(number("battery_consumption", s.battery_consumption));
    r.push(number("consumption_from_grid", s.consumption_from_grid));
    r.push(number("export_to_grid", s.export_to_grid));
    r.push(number("grid_production", s.grid_production));
    r.push(number("house_consumption", s.house_consumption));
    r.push(number("self_consumption", s.self_consumption));
    r.push(number("solar_production", s.solar_production));
    r.push(number("solar_production_excess", s.solar_production_excess));
    r.push(number("state_of_charge", s.state_of_charge));
    r.push(number("wb_consumption", s.wb_consumption));
    assert(field_views(r@) =~= status_fields(*s));
    r
}

/// The fields of the day's sums in the order in which they are published.
pub open spec fn statistics_fields(s: DailyStatistics) -> Seq<FieldView> {
    seq![
        field("time"@, PayloadView::Instant(s.time)),
        field("autarky_today"@, PayloadView::Number(s.autarky_today)),
        field("self_consumption_today"@, PayloadView::Number(s.self_consumption_today)),
        field("solar_production_today"@, PayloadView::Number(s.solar_production_today)),
        field("house_consumption_today"@, PayloadView::Number(s.house_consumption_today)),
        field("battery_charge_today"@, PayloadView::Number(s.battery_charge_today)),
        field("battery_discharge_today"@, PayloadView::Number(s.battery_discharge_today)),
        field("export_to_grid_today"@, PayloadView::Number(s.export_to_grid_today)),
        field("consumption_from_grid_today"@, PayloadView::Number(s.consumption_from_grid_today)),
        field("state_of_charge_today"@, PayloadView::Number(s.state_of_charge_today)),
        field("start"@, PayloadView::Instant(s.start)),
        field("timespan"@, PayloadView::Span(s.timespan)),
    ]
}

fn list_statistics_fields(s: &DailyStatistics) -> (r: Vec<Field>)
    ensures
        field_views(r@) == statistics_fields(*s),
{
    let mut r: Vec<Field> = Vec::new();
    r.push(instant("time", s.time));
    r.push(number("autarky_today", s.autarky_today));
    r.push(number("self_consumption_today", s.self_consumption_today));
    r.push(number("solar_production_today", s.solar_production_today));
    r.push(number("house_consumption_today", s.house_consumption_today));
    r.push(number("battery_charge_today", s.battery_charge_today));
    r.push(number("battery_discharge_today", s.battery_discharge_today));
    r.push(number("export_to_grid_today", s.export_to_grid_today));
    r.push(number("consumption_from_grid_today", s.consumption_from_grid_today));
    r.push(number("state_of_charge_today", s.state_of_charge_today));
    r.push(instant("start", s.start));
    r.push(span("timespan", s.timespan));
    assert(field_views(r@) =~= statistics_fields(*s));
    r
}

/// The fields of a battery that are published before its controllers.
pub open spec fn battery_head_fields(b: BatteryData) -> Seq<FieldView> {
    seq![
        field("time"@, PayloadView::Instant(b.time)),
        field("asoc"@, PayloadView::Number(b.asoc)),
        field("charge_cycles"@, PayloadView::Number(b.charge_cycles)),
        field("current"@, PayloadView::Number(b.current)),
        field("dcb_count"@, PayloadView::Count(b.dcb_count)),
    ]
}

fn list_battery_head_fields(b: &BatteryData) -> (r: Vec<Field>)
    ensures
        field_views(r@) == battery_head_fields(*b),
{
    let mut r: Vec<Field> = Vec::new();
    r.push(instant("time", b.time));
    r.push(number("asoc", b.asoc));
    r.push(number("charge_cycles", b.charge_cycles));
    r.push(number("current", b.current));
    r.push(count("dcb_count", b.dcb_count));
    assert(field_views(r@) =~= battery_head_fields(*b));
    r
}

/// The fields of a battery that are published after its controllers.
pub open spec fn battery_tail_fields(b: BatteryData) -> Seq<FieldView> {
    seq![
        field("design_capacity"@, PayloadView::Number(b.design_capacity)),
        field("device_name"@, PayloadView::Text(b.device_name@)),
        field("eod_voltage"@, PayloadView::Number(b.eod_voltage)),
        field("error_code"@, PayloadView::Number(b.error_code)),
        field("fcc"@, PayloadView::Number(b.fcc)),
        field("index"@, PayloadView::Count(b.index)),
        field("max_battery_voltage"@, PayloadView::Number(b.max_battery_voltage)),
        field("max_charge_current"@, PayloadView::Number(b.max_charge_current)),
        field("max_discharge_current"@, PayloadView::Number(b.max_discharge_current)),
        field("max_dcb_cell_temp"@, PayloadView::Number(b.max_dcb_cell_temp)),
        field("min_dcb_cell_temp"@, PayloadView::Number(b.min_dcb_cell_temp)),
        field("module_voltage"@, PayloadView::Number(b.module_voltage)),
        field("rc"@, PayloadView::Number(b.rc)),
        field("ready_for_shutdown"@, PayloadView::Flag(b.ready_for_shutdown)),
        field("rsoc"@, PayloadView::Number(b.rsoc)),
        field("rsoc_real"@, PayloadView::Number(b.rsoc_real)),
        field("status_code"@, PayloadView::Number(b.status_code)),
        field("terminal_voltage"@, PayloadView::Number(b.terminal_voltage)),
        field("total_use_time"@, PayloadView::Count(b.total_use_time)),
        field("total_discharge_time"@, PayloadView::Count(b.total_discharge_time)),
        field("training_mode"@, PayloadView::Flag(b.training_mode)),
        field("usable_capacity"@, PayloadView::Number(b.usable_capacity)),
        field("usable_remaining_capacity"@, PayloadView::Number(b.usable_remaining_capacity)),
    ]
}

fn list_battery_tail_fields(b: &BatteryData) -> (r: Vec<Field>)
    ensures
        field_views(r@) == battery_tail_fields(*b),
{
    let mut r: Vec<Field> = Vec::new();
    r.push(number("design_capacity", b.design_capacity));
    r.push(text("device_name", &b.device_name));
    r.push(number("eod_voltage", b.eod_voltage));
    r.push(number("error_code", b.error_code));
    r.push(number("fcc", b.fcc));
    r.push(count("index", b.index));
    r.push(number("max_battery_voltage", b.max_battery_voltage));
    r.push(number("max_charge_current", b.max_charge_current));
    r.push(number("max_discharge_current", b.max_discharge_current));
    r.push(number("max_dcb_cell_temp", b.max_dcb_cell_temp));
    r.push(number("min_dcb_cell_temp", b.min_dcb_cell_temp));
    r.push(number("module_voltage", b.module_voltage));
    r.push(number("rc", b.rc));
    r.push(flag("ready_for_shutdown", b.ready_for_shutdown));
    r.push(number("rsoc", b.rsoc));
    r.push(number("rsoc_real", b.rsoc_real));
    r.push(number("status_code", b.status_code));
    r.push(number("terminal_voltage", b.terminal_voltage));
    r.push(count("total_use_time", b.total_use_time));
    r.push(count("total_discharge_time", b.total_discharge_time));
    r.push(flag("training_mode", b.training_mode));
    r.push(number("usable_capacity", b.usable_capacity));
    r.push(number("usable_remaining_capacity", b.usable_remaining_capacity));
    assert(field_views(r@) =~= battery_tail_fields(*b));
    r
}

/// The fields of a controller in the order in which they are published.
pub open spec fn dcb_fields(d: DcbData) -> Seq<FieldView> {
    seq![
        field("current"@, PayloadView::Number(d.current)),
        field("current_avg_30s"@, PayloadView::Number(d.current_avg_30s)),
        field("cycle_count"@, PayloadView::Number(d.cycle_count)),
        field("design_capacity"@, PayloadView::Number(d.design_capacity)),
        field("design_voltage"@, PayloadView::Number(d.design_voltage)),
        field("device_name"@, PayloadView::Text(d.device_name@)),
        field("end_of_discharge"@, PayloadView::Number(d.end_of_discharge)),
        field("error"@, PayloadView::Number(d.error)),
        field("full_charge_capacity"@, PayloadView::Number(d.full_charge_capacity)),
        field("fw_version"@, PayloadView::Number(d.fw_version)),
        field("manufacture_date"@, PayloadView::Number(d.manufacture_date)),
        field("manufacture_name"@, PayloadView::Text(d.manufacture_name@)),
        field("max_charge_current"@, PayloadView::Number(d.max_charge_current)),
        field("max_charge_temperature"@, PayloadView::Number(d.max_charge_temperature)),
        field("max_charge_voltage"@, PayloadView::Number(d.max_charge_voltage)),
        field("max_discharge_current"@, PayloadView::Number(d.max_discharge_current)),
        field("min_charge_temperature"@, PayloadView::Number(d.min_charge_temperature)),
        field("parallel_cell_count"@, PayloadView::Count(d.parallel_cell_count)),
        field("sensor_count"@, PayloadView::Count(d.sensor_count)),
        field("series_cell_count"@, PayloadView::Count(d.series_cell_count)),
        field("pcb_version"@, PayloadView::Number(d.pcb_version)),
        field("protocol_version"@, PayloadView::Number(d.protocol_version)),
        field("remaining_capacity"@, PayloadView::Number(d.remaining_capacity)),
        field("serial_no"@, PayloadView::Number(d.serial_no)),
        field("serial_code"@, PayloadView::Text(d.serial_code@)),
        field("soc"@, PayloadView::Number(d.soc)),
        field("soh"@, PayloadView::Number(d.soh)),
        field("status"@, PayloadView::Number(d.status)),
        field("temperatures"@, PayloadView::Numbers(d.temperatures@)),
        field("voltage"@, PayloadView::Number(d.voltage)),
        field("voltage_avg_30s"@, PayloadView::Number(d.voltage_avg_30s)),
        field("voltages"@, PayloadView::Numbers(d.voltages@)),
        field("warning"@, PayloadView::Number(d.warning)),
    ]
}

fn list_dcb_fields(d: &DcbData) -> (r: Vec<Field>)
    ensures
        field_views(r@) == dcb_fields(*d),
{
    let mut r: Vec<Field> = Vec::new();
    r.push(number("current", d.current));
    r.push(number("current_avg_30s", d.current_avg_30s));
    r.push(number("cycle_count", d.cycle_count));
    r.push(number("design_capacity", d.design_capacity));
    r.push(number("design_voltage", d.design_voltage));
    r.push(text("device_name", &d.device_name));
    r.push(number("end_of_discharge", d.end_of_discharge));
    r.push(number("error", d.error));
    r.push(number("full_charge_capacity", d.full_charge_capacity));
    r.push(number("fw_version", d.fw_version));
    r.push(number("manufacture_date", d.manufacture_date));
    r.push(text("manufacture_name", &d.manufacture_name));
    r.push(number("max_charge_current", d.max_charge_current));
    r.push(number("max_charge_temperature", d.max_charge_temperature));
    r.push(number("max_charge_voltage", d.max_charge_voltage));
    r.push(number("max_discharge_current", d.max_discharge_current));
    r.push(number("min_charge_temperature", d.min_charge_temperature));
    r.push(count("parallel_cell_count", d.parallel_cell_count));
    r.push(count("sensor_count", d.sensor_count));
    r.push(count("series_cell_count", d.series_cell_count));
    r.push(number("pcb_version", d.pcb_version));
    r.push(number("protocol_version", d.protocol_version));
    r.push(number("remaining_capacity", d.remaining_capacity));
    r.push(number("serial_no", d.serial_no));
    r.push(text("serial_code", &d.serial_code));
    r.push(number("soc", d.soc));
    r.push(number("soh", d.soh));
    r.push(number("status", d.status));
    r.push(numbers("temperatures", &d.temperatures));
    r.push(number("voltage", d.voltage));
    r.push(number("voltage_avg_30s", d.voltage_avg_30s));
    r.push(numbers("voltages", &d.voltages));
    r.push(number("warning", d.warning));
    assert(field_views(r@) =~= dcb_fields(*d));
    r
}

/// The fields of a snapshot before, where there is one.
pub open spec fn fields_before<T>(
    before: Option<T>,
    fields: spec_fn(T) -> Seq<FieldView>,
) -> Option<Seq<FieldView>> {
    match before {
        Some(b) => Some(fields(b)),
        None => None,
    }
}

/// What is published of a status, given the one before.
pub open spec fn status_changes(root: Seq<char>, status: Status, before: Option<Status>) -> Seq<
    PublicationView,
> {
    changes(
        context_topic(root, "status"@),
        status_fields(status),
        fields_before(before, |s: Status| status_fields(s)),
    )
}

/// What is published of the day's sums, given those before.
pub open spec fn statistics_changes(
    root: Seq<char>,
    stats: DailyStatistics,
    before: Option<DailyStatistics>,
) -> Seq<PublicationView> {
    changes(
        context_topic(root, "status_sums"@),
        statistics_fields(stats),
        fields_before(before, |s: DailyStatistics| statistics_fields(s)),
    )
}

/// What is published of a controller, given its snapshot before.
pub open spec fn dcb_changes(
    root: Seq<char>,
    battery_index: u64,
    dcb: DcbData,
    before: Option<DcbData>,
) -> Seq<PublicationView> {
    changes(
        context_topic(root, dcb_path(battery_index, dcb.index)),
        dcb_fields(dcb),
        fields_before(before, |d: DcbData| dcb_fields(d)),
    )
}

/// What is published of the first `n` controllers of a battery. Each is
/// held against the controller with its index in the battery's snapshot
/// before, wherever that one stands in the list.
pub open spec fn dcb_list_changes(
    root: Seq<char>,
    battery_index: u64,
    dcbs: Seq<DcbData>,
    before: Seq<DcbData>,
    n: nat,
) -> Seq<PublicationView>
    decreases n,
{
    if n == 0 {
        Seq::empty()
    } else {
        dcb_list_changes(root, battery_index, dcbs, before, (n - 1) as nat) + dcb_changes(
            root,
            battery_index,
            dcbs[n - 1],
            dcb_before(before, dcbs[n - 1].index),
        )
    }
}

/// The controllers of a battery's snapshot before; none where there is no snapshot.
pub open spec fn dcbs_before(before: Option<BatteryData>) -> Seq<DcbData> {
    match before {
        Some(b) => b.dcbs@,
        None => Seq::empty(),
    }
}

/// What is published of a battery, given its snapshot before: its first
/// fields, then its controllers, then its other fields.
pub open spec fn battery_changes(
    root: Seq<char>,
    battery: BatteryData,
    before: Option<BatteryData>,
) -> Seq<PublicationView> {
    let topic = context_topic(root, battery_path(battery.index));
    changes(
        topic,
        battery_head_fields(battery),
        fields_before(before, |b: BatteryData| battery_head_fields(b)),
    ) + dcb_list_changes(
        root,
        battery.index,
        battery.dcbs@,
        dcbs_before(before),
        battery.dcbs.len() as nat,
    ) + changes(
        topic,
        battery_tail_fields(battery),
        fields_before(before, |b: BatteryData| battery_tail_fields(b)),
    )
}

/// What is published of the first `n` batteries. Each is held against the
/// battery with its index in the list before, not against the one at its
/// place; a battery that is only in the list before is passed over.
pub open spec fn battery_list_changes(
    root: Seq<char>,
    batteries: Seq<BatteryData>,
    before: Seq<BatteryData>,
    n: nat,
) -> Seq<PublicationView>
    decreases n,
{
    if n == 0 {
        Seq::empty()
    } else {
        battery_list_changes(root, batteries, before, (n - 1) as nat) + battery_changes(
            root,
            batteries[n - 1],
            battery_before(before, batteries[n - 1].index),
        )
    }
}

/// The two lists hold the same value at `i`.
pub open spec fn same_at(current: Seq<FieldView>, previous: Seq<FieldView>, i: int) -> bool {
    i < previous.len() && current[i].payload.equals(previous[i].payload)
}

/// Where every field holds the value it held before, nothing is published.
pub proof fn lemma_nothing_changed(
    topic: Seq<char>,
    current: Seq<FieldView>,
    previous: Seq<FieldView>,
    n: nat,
)
    requires
        n <= current.len(),
        forall|i: int| 0 <= i < n ==> same_at(current, previous, i),
    ensures
        changes_upto(topic, current, Some(previous), n) == Seq::<PublicationView>::empty(),
    decreases n,
{
    if n > 0 {
        lemma_nothing_changed(topic, current, previous, (n - 1) as nat);
        assert(same_at(current, previous, n - 1));
    }
}

/// Where one field holds another value than before and every other field
/// holds its own, that field is published and nothing else.
pub proof fn lemma_one_changed(
    topic: Seq<char>,
    current: Seq<FieldView>,
    previous: Seq<FieldView>,
    k: int,
    n: nat,
)
    requires
        0 <= k < n <= current.len(),
        forall|i: int| 0 <= i < n && i != k ==> same_at(current, previous, i),
        !same_at(current, previous, k),
    ensures
        changes_upto(topic, current, Some(previous), n) == seq![
            publication(topic, current[k].name, current[k].payload),
        ],
    decreases n,
{
    if n - 1 == k {
        lemma_nothing_changed(topic, current, previous, (n - 1) as nat);
        assert(changes_upto(topic, current, Some(previous), n) =~= seq![
            publication(topic, current[k].name, current[k].payload),
        ]);
    } else {
        lemma_one_changed(topic, current, previous, k, (n - 1) as nat);
        assert(same_at(current, previous, n - 1));
    }
}

/// Two statuses hold equal values in every published field but, perhaps,
/// the autarky. Numbers are equal as numbers: a NaN is equal to nothing.
pub open spec fn same_but_autarky(a: Status, b: Status) -> bool {
    &&& a.time == b.time
    &&& a.additional.equals(b.additional)
    &&& a.battery_charge.equals(b.battery_charge)
    &&& a.battery_discharge.equals(b.battery_discharge)
    &&& a.battery_consumption.equals(b.battery_consumption)
    &&& a.consumption_from_grid.equals(b.consumption_from_grid)
    &&& a.export_to_grid.equals(b.export_to_grid)
    &&& a.grid_production.equals(b.grid_production)
    &&& a.house_consumption.equals(b.house_consumption)
    &&& a.self_consumption.equals(b.self_consumption)
    &&& a.solar_production.equals(b.solar_production)
    &&& a.solar_production_excess.equals(b.solar_production_excess)
    &&& a.state_of_charge.equals(b.state_of_charge)
    &&& a.wb_consumption.equals(b.wb_consumption)
}

/// A status equal to the one before publishes nothing. A status that
/// differs from the one before in its autarky alone publishes one
/// message: the autarky, under the status topic.
pub proof fn lemma_status_changes(root: Seq<char>, status: Status, before: Status)
    requires
        same_but_autarky(status, before),
    ensures
        status.autarky.equals(before.autarky) ==> status_changes(root, status, Some(before))
            == Seq::<PublicationView>::empty(),
        !status.autarky.equals(before.autarky) ==> status_changes(root, status, Some(before))
            == seq![
            publication(
                context_topic(root, "status"@),
                "autarky"@,
                PayloadView::Number(status.autarky),
            ),
        ],
{
    let current = status_fields(status);
    let previous = status_fields(before);
    let topic = context_topic(root, "status"@);
    assert(current.len() == 15 && previous.len() == 15);
    assert forall|i: int| 0 <= i < 15 && i != 2 implies same_at(current, previous, i) by {
        if i == 0 {
        } else if i == 1 {
        } else if i == 3 {
        } else if i == 4 {
        } else if i == 5 {
        } else if i == 6 {
        } else if i == 7 {
        } else if i == 8 {
        } else if i == 9 {
        } else if i == 10 {
        } else if i == 11 {
        } else if i == 12 {
        } else if i == 13 {
        } else {
            assert(i == 14);
        }
    }
    assert(current[2].name == "autarky"@);
    assert(current[2].payload == PayloadView::Number(status.autarky));
    assert(same_at(current, previous, 2) == status.autarky.equals(before.autarky));
    if status.autarky.equals(before.autarky) {
        lemma_nothing_changed(topic, current, previous, 15);
    } else {
        lemma_one_changed(topic, current, previous, 2, 15);
    }
}

fn copy_payload(payload: &Payload) -> (r: Payload)
    ensures
        r@ == payload@,
{
    match payload {
        Payload::Flag(b) => Payload::Flag(*b),
        Payload::Count(n) => Payload::Count(*n),
        Payload::Text(t) => Payload::Text(t.clone()),
        Payload::Number(v) => Payload::Number(*v),
        Payload::Numbers(vs) => Payload::Numbers(copy_numbers(vs)),
        Payload::Instant(t) => Payload::Instant(*t),
        Payload::Span(d) => Payload::Span(*d),
    }
}

/// The messages that publish, in a context, the fields that changed.
pub fn publish_changed(
    context: &PublishContext,
    current: &Vec<Field>,
    previous: Option<&Vec<Field>>,
) -> (r: Vec<Publication>)
    requires
        context.qos == QoS::AtLeastOnce,
        context.retain,
    ensures
        publication_views(r@) == changes(
            context.topic@,
            field_views(current@),
            match previous {
                Some(before) => Some(field_views(before@)),
                None => None,
            },
        ),
{
    let ghost current_views = field_views(current@);
    let ghost previous_views = match previous {
        Some(before) => Some(field_views(before@)),
        None => None,
    };
    let mut r: Vec<Publication> = Vec::new();
    let mut i: usize = 0;
    while i < current.len()
        invariant
            i <= current.len(),
            context.qos == QoS::AtLeastOnce,
            context.retain,
            current_views == field_views(current@),
            previous_views == match previous {
                Some(before) => Some(field_views(before@)),
                None => None,
            },
            publication_views(r@) == changes_upto(
                context.topic@,
                current_views,
                previous_views,
                i as nat,
            ),
        decreases current.len() - i,
    {
        let changed = match previous {
            None => true,
            Some(before) => i >= before.len() || !current[i].payload.same(&before[i].payload),
        };
        let ghost earlier = publication_views(r@);
        if changed {
            r.push(context.publish(current[i].name, copy_payload(&current[i].payload)));
            let ghost changed_field = current_views[i as int];
            assert(publication_views(r@) =~= earlier.push(
                publication(context.topic@, changed_field.name, changed_field.payload),
            ));
        }
        i += 1;
    }
    r
}

fn find_battery(before: &[BatteryData], index: u64) -> (r: Option<&BatteryData>)
    ensures
        match battery_before(before@, index) {
            Some(b) => r matches Some(found) && *found == b,
            None => r is None,
        },
{
    let ghost pick = |b: BatteryData| b.index == index;
    let mut i: usize = 0;
    while i < before.len()
        invariant
            i <= before.len(),
            pick == |b: BatteryData| b.index == index,
            forall|j: int| 0 <= j < i ==> !pick(#[trigger] before@[j]),
        decreases before.len() - i,
    {
        if before[i].index == index {
            proof {
                lemma_first_place(before@, pick, i as int);
            }
            return Some(&before[i]);
        }
        i += 1;
    }
    None
}

fn find_dcb(before: &[DcbData], index: u64) -> (r: Option<&DcbData>)
    ensures
        match dcb_before(before@, index) {
            Some(d) => r matches Some(found) && *found == d,
            None => r is None,
        },
{
    let ghost pick = |d: DcbData| d.index == index;
    let mut i: usize = 0;
    while i < before.len()
        invariant
            i <= before.len(),
            pick == |d: DcbData| d.index == index,
            forall|j: int| 0 <= j < i ==> !pick(#[trigger] before@[j]),
        decreases before.len() - i,
    {
        if before[i].index == index {
            proof {
                lemma_first_place(before@, pick, i as int);
            }
            return Some(&before[i]);
        }
        i += 1;
    }
    None
}

fn push_all(out: &mut Vec<Publication>, more: Vec<Publication>)
    ensures
        publication_views(final(out)@) == publication_views(old(out)@) + publication_views(more@),
{
    let mut rest = more;
    out.append(&mut rest);
    assert(publication_views(out@) =~= publication_views(old(out)@) + publication_views(more@));
}

/// Where the broker is.
#[derive(Debug, PartialEq)]
pub enum Endpoint {
    Socket { path: String },
    Tcp { host: String, port: u16 },
}

/// The user and the password for the broker.
#[derive(Debug, PartialEq)]
pub struct Credentials {
    pub username: String,
    pub password: String,
}

/// The message that the broker publishes when the bridge is gone
/// without a word.
#[derive(Debug, PartialEq)]
pub struct LastWill {
    pub topic: String,
    pub message: String,
    pub qos: QoS,
    pub retain: bool,
}

/// Everything that is decided about a connection before it is made.
#[derive(Debug, PartialEq)]
pub struct ConnectionPlan {
    pub client_id: String,
    pub endpoint: Endpoint,
    pub credentials: Option<Credentials>,
    pub keep_alive_secs: u64,
    pub last_will: LastWill,
    pub capacity: usize,
}

/// `plan` is the plan for the broker of `config` and the device `device_id`.
///
/// A socket goes before a host. Credentials are given where there is a
/// user name. The connection is kept alive every minute, and the last
/// will says `false` under the bridge's online topic, retained.
pub open spec fn is_connection_plan(
    plan: ConnectionPlan,
    config: MqttConfig,
    device_id: Seq<char>,
) -> bool {
    &&& plan.client_id@ == "e3dc-mqtt-rs-"@ + device_id
    &&& match config.socket {
        Some(path) => plan.endpoint matches Endpoint::Socket { path: p } && p@ == path@,
        None => plan.endpoint matches Endpoint::Tcp { host, port } && config.host matches Some(h)
            && host@ == h@ && port == config.port,
    }
    &&& if config.username@.len() == 0 {
        plan.credentials is None
    } else {
        plan.credentials matches Some(c) && c.username@ == config.username@ && c.password@
            == config.password@
    }
    &&& plan.keep_alive_secs == 60
    &&& plan.last_will.topic@ == config.root@ + "/"@ + device_id + "/online"@
    &&& plan.last_will.message@ == "false"@
    &&& plan.last_will.qos == QoS::AtLeastOnce
    &&& plan.last_will.retain
    &&& plan.capacity == 10
}

/// Publishes the snapshots of a bridge under the bridge's root topic.
#[derive(Debug, PartialEq)]
pub struct MqttPublisher {
    pub root_topic: String,
}

impl MqttPublisher {
    /// A publisher for the device `device_id`, with the plan for its
    /// connection. Its root topic is the configured root and, below it,
    /// the device. Without a socket and without a host there is no broker
    /// to plan for.
    pub fn new(config: &Config, device_id: String) -> (r: Result<
        (MqttPublisher, ConnectionPlan),
        MqttError,
    >)
        ensures
            config.mqtt.socket is None && config.mqtt.host is None ==> (r matches Err(
                MqttError::ClientError(reason),
            ) && reason@ == "MQTT host or socket must be configured"@),
            config.mqtt.socket is Some || config.mqtt.host is Some ==> (r matches Ok(made) && {
                &&& made.0.root_topic@ == config.mqtt.root@ + "/"@ + device_id@
                &&& is_connection_plan(made.1, config.mqtt, device_id@)
            }),
    {
        let client_id = concat2("e3dc-mqtt-rs-", device_id.as_str());
        let endpoint = match &config.mqtt.socket {
            Some(path) => Endpoint::Socket { path: path.clone() },
            None => match &config.mqtt.host {
                Some(host) => Endpoint::Tcp { host: host.clone(), port: config.mqtt.port },
                None => {
                    return Err(
                        MqttError::ClientError(
                            String::from_str("MQTT host or socket must be configured"),
                        ),
                    );
                },
            },
        };
        let credentials = if config.mqtt.username.as_str().unicode_len() > 0 {
            Some(
                Credentials {
                    username: config.mqtt.username.clone(),
                    password: config.mqtt.password.clone(),
                },
            )
        } else {
            None
        };
        let root_topic = concat3(config.mqtt.root.as_str(), "/", device_id.as_str());
        let online_topic = concat2(root_topic.as_str(), "/online");
        let last_will = LastWill {
            topic: online_topic,
            message: String::from_str("false"),
            qos: QoS::AtLeastOnce,
            retain: true,
        };
        let plan = ConnectionPlan {
            client_id,
            endpoint,
            credentials,
            keep_alive_secs: 60,
            last_will,
            capacity: 10,
        };
        Ok((MqttPublisher { root_topic }, plan))
    }

    /// The context for a path below the root; the empty path is the root itself.
    pub fn context(&self, topic: &str) -> (context: PublishContext)
        ensures
            context.topic@ == context_topic(self.root_topic@, topic@),
            context.qos == QoS::AtLeastOnce,
            context.retain,
    {
        let mut full_topic = self.root_topic.clone();
        if topic.unicode_len() > 0 {
            full_topic.append("/");
            full_topic.append(topic);
        }
        PublishContext::new(full_topic)
    }

    fn battery_context(&self, index: u64) -> (context: PublishContext)
        ensures
            context.topic@ == context_topic(self.root_topic@, battery_path(index)),
            context.qos == QoS::AtLeastOnce,
            context.retain,
    {
        let mut path = String::from_str("status/battery:");
        push_decimal(&mut path, index);
        self.context(path.as_str())
    }

    fn dcb_context(&self, battery_index: u64, dcb_index: u64) -> (context: PublishContext)
        ensures
            context.topic@ == context_topic(self.root_topic@, dcb_path(battery_index, dcb_index)),
            context.qos == QoS::AtLeastOnce,
            context.retain,
    {
        let mut path = String::from_str("status/battery:");
        push_decimal(&mut path, battery_index);
        path.append("/dcb:");
        push_decimal(&mut path, dcb_index);
        self.context(path.as_str())
    }

    /// The message that says whether the bridge is online.
    pub fn publish_online_status(&self, online: bool) -> (message: Publication)
        ensures
            message@ == publication(self.root_topic@, "online"@, PayloadView::Flag(online)),
    {
        proof {
            reveal_strlit("");
        }
        let context = self.context("");
        context.publish("online", Payload::Flag(online))
    }

    /// The message that publishes the system information, given as one
    /// JSON document.
    pub fn publish_system_info(&self, document: String) -> (message: Publication)
        ensures
            message@ == publication(self.root_topic@, "info"@, PayloadView::Text(document@)),
    {
        proof {
            reveal_strlit("");
        }
        let context = self.context("");
        context.publish("info", Payload::Text(document))
    }

    /// The messages that publish what changed in the status.
    pub fn publish_status(&self, status: &Status, old: Option<&Status>) -> (r: Vec<Publication>)
        ensures
            publication_views(r@) == status_changes(
                self.root_topic@,
                *status,
                match old {
                    Some(s) => Some(*s),
                    None => None,
                },
            ),
    {
        let context = self.context("status");
        let current = list_status_fields(status);
        match old {
            Some(before) => {
                let previous = list_status_fields(before);
                publish_changed(&context, &current, Some(&previous))
            },
            None => publish_changed(&context, &current, None),
        }
    }

    /// The messages that publish what changed in the day's sums.
    pub fn publish_daily_statistics(
        &self,
        stats: &DailyStatistics,
        old: Option<&DailyStatistics>,
    ) -> (r: Vec<Publication>)
        ensures
            publication_views(r@) == statistics_changes(
                self.root_topic@,
                *stats,
                match old {
                    Some(s) => Some(*s),
                    None => None,
                },
            ),
    {
        let context = self.context("status_sums");
        let current = list_statistics_fields(stats);
        match old {
            Some(before) => {
                let previous = list_statistics_fields(before);
                publish_changed(&context, &current, Some(&previous))
            },
            None => publish_changed(&context, &current, None),
        }
    }

    /// The messages that publish what changed in the batteries.
    pub fn publish_battery_data(&self, batteries: &[BatteryData], old: &[BatteryData]) -> (r: Vec<
        Publication,
    >)
        ensures
            publication_views(r@) == battery_list_changes(
                self.root_topic@,
                batteries@,
                old@,
                batteries@.len(),
            ),
    {
        let mut r: Vec<Publication> = Vec::new();
        let mut i: usize = 0;
        while i < batteries.len()
            invariant
                i <= batteries.len(),
                publication_views(r@) == battery_list_changes(
                    self.root_topic@,
                    batteries@,
                    old@,
                    i as nat,
                ),
            decreases batteries.len() - i,
        {
            let battery = &batteries[i];
            let before = find_battery(old, battery.index);
            let part = self.publish_battery_data_item(battery, before);
            push_all(&mut r, part);
            i += 1;
        }
        r
    }

    fn publish_battery_data_item(
        &self,
        battery: &BatteryData,
        old: Option<&BatteryData>,
    ) -> (r: Vec<Publication>)
        ensures
            publication_views(r@) == battery_changes(
                self.root_topic@,
                *battery,
                match old {
                    Some(b) => Some(*b),
                    None => None,
                },
            ),
    {
        let context = self.battery_context(battery.index);
        let head = list_battery_head_fields(battery);
        let tail = list_battery_tail_fields(battery);
        let mut r = match old {
            Some(before) => {
                let previous = list_battery_head_fields(before);
                publish_changed(&context, &head, Some(&previous))
            },
            None => publish_changed(&context, &head, None),
        };
        let ghost first = publication_views(r@);
        let ghost old_dcbs = dcbs_before(
            match old {
                Some(b) => Some(*b),
                None => None,
            },
        );
        let mut i: usize = 0;
        while i < battery.dcbs.len()
            invariant
                i <= battery.dcbs.len(),
                old_dcbs == dcbs_before(
                    match old {
                        Some(b) => Some(*b),
                        None => None,
                    },
                ),
                publication_views(r@) == first + dcb_list_changes(
                    self.root_topic@,
                    battery.index,
                    battery.dcbs@,
                    old_dcbs,
                    i as nat,
                ),
            decreases battery.dcbs.len() - i,
        {
            let dcb = &battery.dcbs[i];
            let before = match old {
                Some(b) => find_dcb(b.dcbs.as_slice(), dcb.index),
                None => None,
            };
            proof {
                if old is None {
                    assert(dcb_before(old_dcbs, dcb.index) is None);
                }
            }
            let part = self.publish_dcb_data(dcb, before, battery.index);
            let ghost earlier = publication_views(r@);
            push_all(&mut r, part);
            assert(publication_views(r@) =~= first + dcb_list_changes(
                self.root_topic@,
                battery.index,
                battery.dcbs@,
                old_dcbs,
                (i + 1) as nat,
            ));
            i += 1;
        }
        let rest = match old {
            Some(before) => {
                let previous = list_battery_tail_fields(before);
                publish_changed(&context, &tail, Some(&previous))
            },
            None => publish_changed(&context, &tail, None),
        };
        push_all(&mut r, rest);
        r
    }

    fn publish_dcb_data(&self, data: &DcbData, old: Option<&DcbData>, bat_index: u64) -> (r: Vec<
        Publication,
    >)
        ensures
            publication_views(r@) == dcb_changes(
                self.root_topic@,
                bat_index,
                *data,
                match old {
                    Some(d) => Some(*d),
                    None => None,
                },
            ),
    {
        let context = self.dcb_context(bat_index, data.index);
        let current = list_dcb_fields(data);
        match old {
            Some(before) => {
                let previous = list_dcb_fields(before);
                publish_changed(&context, &current, Some(&previous))
            },
            None => publish_changed(&context, &current, None),
        }
    }
}

} // verus!
