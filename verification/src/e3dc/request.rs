//! The requests that the bridge sends: which tags each kind of snapshot
//! asks for, and with which parameters.

use crate::e3dc::tags::{bat, db, ems, info};
use crate::e3dc::types::BatteryInfo;
use crate::e3dc::value::{DynamicValue, TaggedItem};
use crate::errors::{E3dcError, Failure};
use crate::text::{push_signed_decimal, signed_decimal};
use crate::time::{TimeSpan, Timestamp};
use vstd::prelude::*;
use vstd::string::*;

verus! {

/// One item without a value for each tag, in the order of the tags.
pub open spec fn asks(tags: Seq<u32>) -> Seq<TaggedItem> {
    Seq::new(tags.len(), |i: int| TaggedItem { tag: tags[i], value: None })
}

/// An item that carries a parameter of the request.
pub open spec fn with_value(tag: u32, value: DynamicValue) -> TaggedItem {
    TaggedItem { tag, value: Some(value) }
}

/// The request is one container under `tag` that holds `inner`.
pub open spec fn is_container_request(
    r: Seq<TaggedItem>,
    tag: u32,
    inner: Seq<TaggedItem>,
) -> bool {
    &&& r.len() == 1
    &&& r[0].tag == tag
    &&& r[0].value matches Some(DynamicValue::Container(items))
    &&& items@ == inner
}

/// What a status request asks for.
pub open spec fn status_tags() -> Seq<u32> {
    seq![
        ems::POWER_PV,
        ems::POWER_BAT,
        ems::POWER_GRID,
        ems::POWER_HOME,
        ems::BAT_SOC,
        ems::AUTARKY,
        ems::SELF_CONSUMPTION,
        ems::POWER_WB_ALL,
        ems::POWER_ADD,
    ]
}

/// What the identity request at connect asks for.
pub open spec fn static_info_tags() -> Seq<u32> {
    seq![
        ems::DERATE_AT_PERCENT_VALUE,
        ems::DERATE_AT_POWER_VALUE,
        ems::INSTALLED_PEAK_POWER,
        ems::EXT_SRC_AVAILABLE,
        info::SERIAL_NUMBER,
        info::MAC_ADDRESS,
    ]
}

/// What a system information request asks for.
pub open spec fn system_info_tags() -> Seq<u32> {
    seq![info::SW_RELEASE, info::IP_ADDRESS, ems::GET_POWER_SETTINGS, ems::REQ_GET_SYS_SPECS]
}

/// What a battery request asks for, after the battery's index.
pub open spec fn battery_data_tags() -> Seq<u32> {
    seq![
        bat::RSOC,
        bat::RSOC_REAL,
        bat::ASOC,
        bat::CURRENT,
        bat::MODULE_VOLTAGE,
        bat::TERMINAL_VOLTAGE,
        bat::MAX_BAT_VOLTAGE,
        bat::EOD_VOLTAGE,
        bat::FCC,
        bat::RC,
        bat::DESIGN_CAPACITY,
        bat::USABLE_CAPACITY,
        bat::USABLE_REMAINING_CAPACITY,
        bat::MAX_CHARGE_CURRENT,
        bat::MAX_DISCHARGE_CURRENT,
        bat::MAX_DCB_CELL_TEMPERATURE,
        bat::MIN_DCB_CELL_TEMPERATURE,
        bat::STATUS_CODE,
        bat::ERROR_CODE,
        bat::CHARGE_CYCLES,
        bat::TOTAL_USE_TIME,
        bat::TOTAL_DISCHARGE_TIME,
        bat::DCB_COUNT,
        bat::READY_FOR_SHUTDOWN,
        bat::TRAINING_MODE,
    ]
}

/// The failure of asking for history from before 1970.
pub open spec fn invalid_start(secs: int) -> Failure {
    Failure::ParseError("Invalid timestamp: "@ + signed_decimal(secs))
}

fn ask_all(tags: &[u32]) -> (r: Vec<TaggedItem>)
    ensures
        r@ == asks(tags@),
{
    let mut r: Vec<TaggedItem> = Vec::new();
    let mut i: usize = 0;
    while i < tags.len()
        invariant
            i <= tags.len(),
            r@ == asks(tags@.take(i as int)),
        decreases tags.len() - i,
    {
        r.push(TaggedItem { tag: tags[i], value: None });
        assert(r@ =~= asks(tags@.take(i + 1)));
        i += 1;
    }
    assert(tags@.take(tags.len() as int) =~= tags@);
    r
}

fn container_request(tag: u32, inner: Vec<TaggedItem>) -> (r: Vec<TaggedItem>)
    ensures
        is_container_request(r@, tag, inner@),
{
    let mut r: Vec<TaggedItem> = Vec::new();
    r.push(TaggedItem { tag, value: Some(DynamicValue::Container(inner)) });
    r
}

/// The request for the current status.
pub fn status_request() -> (r: Vec<TaggedItem>)
    ensures
        r@ == asks(status_tags()),
{
    let tags: [u32; 9] = [
        ems::POWER_PV,
        ems::POWER_BAT,
        ems::POWER_GRID,
        ems::POWER_HOME,
        ems::BAT_SOC,
        ems::AUTARKY,
        ems::SELF_CONSUMPTION,
        ems::POWER_WB_ALL,
        ems::POWER_ADD,
    ];
    assert(tags@ =~= status_tags());
    ask_all(tags.as_slice())
}

/// The request for what the device says of itself.
pub fn static_info_request() -> (r: Vec<TaggedItem>)
    ensures
        r@ == asks(static_info_tags()),
{
    let tags: [u32; 6] = [
        ems::DERATE_AT_PERCENT_VALUE,
        ems::DERATE_AT_POWER_VALUE,
        ems::INSTALLED_PEAK_POWER,
        ems::EXT_SRC_AVAILABLE,
        info::SERIAL_NUMBER,
        info::MAC_ADDRESS,
    ];
    assert(tags@ =~= static_info_tags());
    ask_all(tags.as_slice())
}

/// The request for the system information.
pub fn system_info_request() -> (r: Vec<TaggedItem>)
    ensures
        r@ == asks(system_info_tags()),
{
    let tags: [u32; 4] = [
        info::SW_RELEASE,
        info::IP_ADDRESS,
        ems::GET_POWER_SETTINGS,
        ems::REQ_GET_SYS_SPECS,
    ];
    assert(tags@ =~= system_info_tags());
    ask_all(tags.as_slice())
}

/// The one request that asks for the identities of all batteries.
pub fn available_batteries_request() -> (r: Vec<TaggedItem>)
    ensures
        r@ == asks(seq![bat::REQ_AVAILABLE_BATTERIES]),
{
    let tags: [u32; 1] = [bat::REQ_AVAILABLE_BATTERIES];
    assert(tags@ =~= seq![bat::REQ_AVAILABLE_BATTERIES]);
    ask_all(tags.as_slice())
}

/// The request for the number of controllers of the battery with this
/// index. The index travels as a signed 32-bit value.
pub fn dcb_count_request(index: u64) -> (r: Vec<TaggedItem>)
    ensures
        is_container_request(
            r@,
            bat::DATA,
            seq![
                with_value(bat::INDEX, DynamicValue::Int32(index as i32)),
                TaggedItem { tag: bat::DCB_COUNT, value: None },
            ],
        ),
{
    let mut inner: Vec<TaggedItem> = Vec::new();
    inner.push(
        TaggedItem {
            tag: bat::INDEX,
            value: Some(DynamicValue::Int32(#[verifier::truncate] (index as i32))),
        },
    );
    inner.push(TaggedItem { tag: bat::DCB_COUNT, value: None });
    assert(inner@ =~= seq![
        with_value(bat::INDEX, DynamicValue::Int32(index as i32)),
        TaggedItem { tag: bat::DCB_COUNT, value: None },
    ]);
    container_request(bat::DATA, inner)
}

/// The request for one battery's data.
pub fn battery_data_request(battery: &BatteryInfo) -> (r: Vec<TaggedItem>)
    ensures
        is_container_request(
            r@,
            bat::DATA,
            seq![with_value(bat::INDEX, DynamicValue::UInt64(battery.index))] + asks(
                battery_data_tags(),
            ),
        ),
{
    let tags: [u32; 25] = [
        bat::RSOC,
        bat::RSOC_REAL,
        bat::ASOC,
        bat::CURRENT,
        bat::MODULE_VOLTAGE,
        bat::TERMINAL_VOLTAGE,
        bat::MAX_BAT_VOLTAGE,
        bat::EOD_VOLTAGE,
        bat::FCC,
        bat::RC,
        bat::DESIGN_CAPACITY,
        bat::USABLE_CAPACITY,
        bat::USABLE_REMAINING_CAPACITY,
        bat::MAX_CHARGE_CURRENT,
        bat::MAX_DISCHARGE_CURRENT,
        bat::MAX_DCB_CELL_TEMPERATURE,
        bat::MIN_DCB_CELL_TEMPERATURE,
        bat::STATUS_CODE,
        bat::ERROR_CODE,
        bat::CHARGE_CYCLES,
        bat::TOTAL_USE_TIME,
        bat::TOTAL_DISCHARGE_TIME,
        bat::DCB_COUNT,
        bat::READY_FOR_SHUTDOWN,
        bat::TRAINING_MODE,
    ];
    assert(tags@ =~= battery_data_tags());
    let mut inner: Vec<TaggedItem> = Vec::new();
    inner.push(
        TaggedItem { tag: bat::INDEX, value: Some(DynamicValue::UInt64(battery.index)) },
    );
    let mut rest = ask_all(tags.as_slice());
    inner.append(&mut rest);
    assert(inner@ =~= seq![with_value(bat::INDEX, DynamicValue::UInt64(battery.index))] + asks(
        battery_data_tags(),
    ));
    container_request(bat::DATA, inner)
}

/// The request for one controller of a battery: its cell temperatures, its
/// cell voltages and its information, each asked for by the controller's
/// index. The battery's index travels as an unsigned 16-bit value.
pub fn dcb_request(battery_index: u64, dcb_index: u64) -> (r: Vec<TaggedItem>)
    ensures
        is_container_request(
            r@,
            bat::DATA,
            seq![
                with_value(bat::INDEX, DynamicValue::UInt16(battery_index as u16)),
                with_value(bat::DCB_ALL_CELL_TEMPERATURES, DynamicValue::UInt64(dcb_index)),
                with_value(bat::DCB_ALL_CELL_VOLTAGES, DynamicValue::UInt64(dcb_index)),
                with_value(bat::DCB_INFO, DynamicValue::UInt64(dcb_index)),
            ],
        ),
{
    let mut inner: Vec<TaggedItem> = Vec::new();
    inner.push(
        TaggedItem {
            tag: bat::INDEX,
            value: Some(DynamicValue::UInt16(#[verifier::truncate] (battery_index as u16))),
        },
    );
    inner.push(
        TaggedItem {
            tag: bat::DCB_ALL_CELL_TEMPERATURES,
            value: Some(DynamicValue::UInt64(dcb_index)),
        },
    );
    inner.push(
        TaggedItem {
            tag: bat::DCB_ALL_CELL_VOLTAGES,
            value: Some(DynamicValue::UInt64(dcb_index)),
        },
    );
    inner.push(TaggedItem { tag: bat::DCB_INFO, value: Some(DynamicValue::UInt64(dcb_index)) });
    assert(inner@ =~= seq![
        with_value(bat::INDEX, DynamicValue::UInt16(battery_index as u16)),
        with_value(bat::DCB_ALL_CELL_TEMPERATURES, DynamicValue::UInt64(dcb_index)),
        with_value(bat::DCB_ALL_CELL_VOLTAGES, DynamicValue::UInt64(dcb_index)),
        with_value(bat::DCB_INFO, DynamicValue::UInt64(dcb_index)),
    ]);
    container_request(bat::DATA, inner)
}

/// The request for the sums of the history over one window. The window's
/// length is both the span and the interval of the query, so that the
/// answer holds one sum. A window that starts before 1970 cannot be asked for.
pub fn history_request(start: Timestamp, timespan: TimeSpan) -> (r: Result<
    Vec<TaggedItem>,
    E3dcError,
>)
    ensures
        start.secs < 0 ==> (r matches Err(e) && e@ == invalid_start(start.secs as int)),
        start.secs >= 0 ==> (r matches Ok(request) && is_container_request(
            request@,
            db::HISTORY_DATA_DAY,
            seq![
                with_value(db::HISTORY_TIME_START, DynamicValue::UInt64(start.secs as u64)),
                with_value(db::HISTORY_TIME_INTERVAL, DynamicValue::Int64(timespan.secs)),
                with_value(db::HISTORY_TIME_SPAN, DynamicValue::Int64(timespan.secs)),
            ],
        )),
{
    if start.secs < 0 {
        let mut message = String::from_str("Invalid timestamp: ");
        push_signed_decimal(&mut message, start.secs);
        return Err(E3dcError::ParseError(message));
    }
    let mut inner: Vec<TaggedItem> = Vec::new();
    inner.push(
        TaggedItem {
            tag: db::HISTORY_TIME_START,
            value: Some(DynamicValue::UInt64(start.secs as u64)),
        },
    );
    inner.push(
        TaggedItem {
            tag: db::HISTORY_TIME_INTERVAL,
            value: Some(DynamicValue::Int64(timespan.secs)),
        },
    );
    inner.push(
        TaggedItem { tag: db::HISTORY_TIME_SPAN, value: Some(DynamicValue::Int64(timespan.secs)) },
    );
    assert(inner@ =~= seq![
        with_value(db::HISTORY_TIME_START, DynamicValue::UInt64(start.secs as u64)),
        with_value(db::HISTORY_TIME_INTERVAL, DynamicValue::Int64(timespan.secs)),
        with_value(db::HISTORY_TIME_SPAN, DynamicValue::Int64(timespan.secs)),
    ]);
    Ok(container_request(db::HISTORY_DATA_DAY, inner))
}

} // verus!
