//! Conversations with the device that take more than one request: finding
//! the batteries at connect, and asking every battery and every one of its
//! controllers for a snapshot.
//!
//! A conversation decides, it does not send: it says what to ask next, is
//! handed the answer, and says in the end what it has found or why it has
//! failed. Whoever holds the connection sends what is asked.

use crate::e3dc::client::{
    battery_data_failure, battery_head_failure, dcb_count_failure, dcb_failure, identity_failure,
    is_battery_data, is_dcb_data, is_identity, is_static_info, send_request, static_info_failure,
    BatteryIdentity, E3dcClient, Frame,
};
use crate::e3dc::lookup::{children_at, children_of, get_items, unsigned_at};
use crate::e3dc::request::{
    asks, available_batteries_request, battery_data_request, battery_data_tags, dcb_count_request,
    dcb_request, is_container_request, static_info_request, static_info_tags, with_value,
};
use crate::e3dc::tags::bat;
use crate::e3dc::types::{BatteryData, BatteryInfo, DcbData};
use crate::e3dc::value::{DynamicValue, TaggedItem};
use crate::errors::{E3dcError, Failure};
use crate::text::concat2;
use vstd::prelude::*;
use vstd::string::*;

verus! {

/// What a conversation does next.
#[derive(Debug)]
pub enum Turn<T> {
    /// Send this request and hand back the answer.
    Ask(Vec<TaggedItem>),
    /// The conversation is over and has this to show.
    Done(T),
    /// The conversation is over and has failed.
    Failed(E3dcError),
}

/// Where the conversation at connect stands.
#[derive(Debug)]
pub enum Startup {
    /// The list of batteries has been asked for.
    Listing,
    /// The number of controllers of the battery at `position` in the list
    /// has been asked for.
    Counting { list: Frame, position: usize, identity: BatteryIdentity, found: Vec<BatteryInfo> },
    /// The device has been asked who it is.
    Identifying { found: Vec<BatteryInfo> },
    /// Nothing is asked any more.
    Over,
}

/// The failure of a conversation that is handed an answer after its end.
pub open spec fn nothing_asked() -> Failure {
    Failure::QueryFailed("No request is open"@)
}

/// The failure of the request for the list of batteries.
pub open spec fn listing_failed(reason: Seq<char>) -> Failure {
    Failure::QueryFailed("Battery batch query failed: "@ + reason)
}

/// What an answer is taken for: a transport failure and an answer without
/// data are failed queries.
pub open spec fn judged(answer: Result<Frame, String>) -> Result<Frame, Failure> {
    match answer {
        Ok(frame) => if frame.items is None {
            Err(Failure::QueryFailed("Response has no data"@))
        } else {
            Ok(frame)
        },
        Err(reason) => Err(Failure::QueryFailed(reason@)),
    }
}

/// The entries of the list of batteries.
pub open spec fn entries_of(list: Frame) -> Seq<TaggedItem> {
    match children_at(list.contents(), bat::AVAILABLE_BATTERIES) {
        Ok(entries) => entries,
        Err(_) => Seq::empty(),
    }
}

/// The battery of `identity` with the number of controllers that an
/// answer with these items reports.
pub open spec fn battery_of(identity: BatteryIdentity, items: Seq<TaggedItem>) -> BatteryInfo {
    BatteryInfo {
        index: identity.index,
        device_name: identity.device_name,
        param_bat_number: identity.param_bat_number,
        manufacturer_name: identity.manufacturer_name,
        serialno: identity.serialno,
        instance_descriptor: identity.instance_descriptor,
        dcb_count: unsigned_at(children_at(items, bat::DATA)->Ok_0, bat::DCB_COUNT)->Ok_0,
    }
}

/// The conversation failed with `failure`.
pub open spec fn fails<T>(after: Startup, turn: Turn<T>, failure: Failure) -> bool {
    &&& after is Over
    &&& turn matches Turn::Failed(e)
    &&& e@ == failure
}

/// What follows once the batteries before `position` are found: the
/// question for the number of controllers of the battery at `position`,
/// or its failure where the battery's entry cannot be read; after the last
/// battery, the question who the device is.
pub open spec fn proceeds(
    list: Frame,
    position: int,
    found: Seq<BatteryInfo>,
    after: Startup,
    turn: Turn<E3dcClient>,
) -> bool {
    let entries = entries_of(list);
    if position >= entries.len() {
        &&& after matches Startup::Identifying { found: kept }
        &&& kept@ == found
        &&& turn matches Turn::Ask(request)
        &&& request@ == asks(static_info_tags())
    } else {
        match identity_failure(children_of(entries[position].value)) {
            Some(f) => fails(after, turn, f),
            None => {
                &&& after matches Startup::Counting {
                    list: kept_list,
                    position: kept_position,
                    identity,
                    found: kept,
                }
                &&& kept_list == list
                &&& kept_position == position
                &&& kept@ == found
                &&& is_identity(identity, children_of(entries[position].value))
                &&& turn matches Turn::Ask(request)
                &&& is_container_request(
                    request@,
                    bat::DATA,
                    seq![
                        with_value(bat::INDEX, DynamicValue::Int32(identity.index as i32)),
                        TaggedItem { tag: bat::DCB_COUNT, value: None },
                    ],
                )
            },
        }
    }
}

/// The step that takes the answer to the request for the list of batteries.
pub open spec fn listing_step(
    answer: Result<Frame, String>,
    after: Startup,
    turn: Turn<E3dcClient>,
) -> bool {
    match answer {
        Err(reason) => fails(after, turn, listing_failed(reason@)),
        Ok(list) => match children_at(list.contents(), bat::AVAILABLE_BATTERIES) {
            Err(f) => fails(after, turn, f),
            Ok(_) => proceeds(list, 0, Seq::empty(), after, turn),
        },
    }
}

/// The step that takes the answer to the request for the number of
/// controllers of the battery at `position`.
pub open spec fn counting_step(
    list: Frame,
    position: usize,
    identity: BatteryIdentity,
    found: Vec<BatteryInfo>,
    answer: Result<Frame, String>,
    after: Startup,
    turn: Turn<E3dcClient>,
) -> bool {
    match judged(answer) {
        Err(f) => fails(after, turn, f),
        Ok(frame) => match dcb_count_failure(frame.contents()) {
            Some(f) => fails(after, turn, f),
            None => proceeds(
                list,
                position + 1,
                found@.push(battery_of(identity, frame.contents())),
                after,
                turn,
            ),
        },
    }
}

/// The step that takes the answer to the question who the device is.
pub open spec fn identifying_step(
    found: Vec<BatteryInfo>,
    answer: Result<Frame, String>,
    after: Startup,
    turn: Turn<E3dcClient>,
) -> bool {
    match judged(answer) {
        Err(f) => fails(after, turn, f),
        Ok(frame) => match static_info_failure(frame.contents()) {
            Some(f) => fails(after, turn, f),
            None => {
                &&& after is Over
                &&& turn matches Turn::Done(client)
                &&& client.batteries == found
                &&& is_static_info(client.info, frame.contents())
            },
        },
    }
}

/// One step of the conversation at connect.
///
/// The batteries are asked for in one request. Each battery of the answer
/// is then asked, in the answer's order and once, for the number of its
/// controllers. After the last battery the device is asked who it is, and
/// with that the client is made. The first answer that fails, or that
/// cannot be read, ends the conversation.
pub open spec fn startup_step(
    before: Startup,
    answer: Result<Frame, String>,
    after: Startup,
    turn: Turn<E3dcClient>,
) -> bool {
    match before {
        Startup::Listing => listing_step(answer, after, turn),
        Startup::Counting { list, position, identity, found } => counting_step(
            list,
            position,
            identity,
            found,
            answer,
            after,
            turn,
        ),
        Startup::Identifying { found } => identifying_step(found, answer, after, turn),
        Startup::Over => fails(after, turn, nothing_asked()),
    }
}

fn unasked() -> (e: E3dcError)
    ensures
        e@ == nothing_asked(),
{
    E3dcError::QueryFailed(String::from_str("No request is open"))
}

fn failed<T>(error: E3dcError) -> (r: (Startup, Turn<T>))
    ensures
        fails(r.0, r.1, error@),
{
    (Startup::Over, Turn::Failed(error))
}

fn proceed(list: Frame, position: usize, found: Vec<BatteryInfo>) -> (r: (
    Startup,
    Turn<E3dcClient>,
))
    ensures
        proceeds(list, position as int, found@, r.0, r.1),
        position >= entries_of(list).len() ==> proceeds(list, position + 1, found@, r.0, r.1),
        entries_of(list).len() <= usize::MAX,
{
    let next = match get_items(list.items(), bat::AVAILABLE_BATTERIES) {
        Ok(entries) => {
            if position >= entries.len() {
                None
            } else {
                Some(E3dcClient::battery_identity(&entries[position]))
            }
        },
        Err(_) => None,
    };
    match next {
        None => (Startup::Identifying { found }, Turn::Ask(static_info_request())),
        Some(Err(e)) => failed(e),
        Some(Ok(identity)) => {
            let request = dcb_count_request(identity.index);
            (Startup::Counting { list, position, identity, found }, Turn::Ask(request))
        },
    }
}

fn answer_listing(answer: Result<Frame, String>) -> (r: (Startup, Turn<E3dcClient>))
    ensures
        listing_step(answer, r.0, r.1),
{
    match answer {
        Err(reason) => failed(
            E3dcError::QueryFailed(concat2("Battery batch query failed: ", reason.as_str())),
        ),
        Ok(list) => {
            let unlisted = match get_items(list.items(), bat::AVAILABLE_BATTERIES) {
                Ok(_) => None,
                Err(e) => Some(e),
            };
            match unlisted {
                Some(e) => failed(e),
                None => proceed(list, 0, Vec::new()),
            }
        },
    }
}

fn answer_counting(
    list: Frame,
    position: usize,
    identity: BatteryIdentity,
    found: Vec<BatteryInfo>,
    answer: Result<Frame, String>,
) -> (r: (Startup, Turn<E3dcClient>))
    ensures
        counting_step(list, position, identity, found, answer, r.0, r.1),
{
    match send_request(answer) {
        Err(e) => failed(e),
        Ok(frame) => match E3dcClient::battery_info(identity, &frame) {
            Err(e) => failed(e),
            Ok(battery) => {
                assert(battery == battery_of(identity, frame.contents()));
                let mut found = found;
                found.push(battery);
                if position < usize::MAX {
                    proceed(list, position + 1, found)
                } else {
                    proceed(list, position, found)
                }
            },
        },
    }
}

fn answer_identifying(found: Vec<BatteryInfo>, answer: Result<Frame, String>) -> (r: (
    Startup,
    Turn<E3dcClient>,
))
    ensures
        identifying_step(found, answer, r.0, r.1),
{
    match send_request(answer) {
        Err(e) => failed(e),
        Ok(frame) => match E3dcClient::get_system_info_static(&frame) {
            Err(e) => failed(e),
            Ok(info) => (Startup::Over, Turn::Done(E3dcClient::new(found, info))),
        },
    }
}

impl Startup {
    /// The conversation at connect, and its first request: the one request
    /// that asks for all batteries.
    pub fn begin() -> (r: (Startup, Vec<TaggedItem>))
        ensures
            r.0 is Listing,
            r.1@ == asks(seq![bat::REQ_AVAILABLE_BATTERIES]),
    {
        (Startup::Listing, available_batteries_request())
    }

    /// Takes the answer to the request that is open and says what is next.
    pub fn answer(self, answer: Result<Frame, String>) -> (r: (Startup, Turn<E3dcClient>))
        ensures
            startup_step(self, answer, r.0, r.1),
    {
        match self {
            Startup::Listing => answer_listing(answer),
            Startup::Counting { list, position, identity, found } => answer_counting(
                list,
                position,
                identity,
                found,
                answer,
            ),
            Startup::Identifying { found } => answer_identifying(found, answer),
            Startup::Over => failed(unasked()),
        }
    }
}

/// Where the conversation that asks the batteries for their snapshots stands.
#[derive(Debug)]
pub enum BatteryPoll {
    /// The battery at `position` has been asked for its data.
    AskingBattery { position: usize, done: Vec<BatteryData> },
    /// The battery at `position` has answered with `response`, and its
    /// controller after those in `dcbs` has been asked for its data.
    AskingDcb { position: usize, response: Frame, dcbs: Vec<DcbData>, done: Vec<BatteryData> },
    /// Nothing is asked any more.
    Over,
}

/// The poll failed with `failure`.
pub open spec fn poll_fails(
    after: BatteryPoll,
    turn: Turn<Vec<BatteryData>>,
    failure: Failure,
) -> bool {
    &&& after is Over
    &&& turn matches Turn::Failed(e)
    &&& e@ == failure
}

/// The poll asks the battery at `position` for its data.
pub open spec fn asks_battery(
    batteries: Seq<BatteryInfo>,
    position: int,
    done: Seq<BatteryData>,
    after: BatteryPoll,
    turn: Turn<Vec<BatteryData>>,
) -> bool {
    &&& after matches BatteryPoll::AskingBattery { position: next, done: kept }
    &&& next == position
    &&& kept@ == done
    &&& turn matches Turn::Ask(request)
    &&& is_container_request(
        request@,
        bat::DATA,
        seq![with_value(bat::INDEX, DynamicValue::UInt64(batteries[position].index))] + asks(
            battery_data_tags(),
        ),
    )
}

/// What follows once the snapshots of the batteries before `position` are
/// made: the request for the battery at `position`, or the end with all
/// snapshots.
pub open spec fn moves_on(
    batteries: Seq<BatteryInfo>,
    position: int,
    done: Seq<BatteryData>,
    after: BatteryPoll,
    turn: Turn<Vec<BatteryData>>,
) -> bool {
    if position < batteries.len() {
        asks_battery(batteries, position, done, after, turn)
    } else {
        &&& after is Over
        &&& turn matches Turn::Done(all)
        &&& all@ == done
    }
}

/// What follows once `dcbs` holds the snapshots of the first controllers
/// of the battery at `position`: the request for the next controller,
/// while there are controllers left of the number found at connect; after
/// the last one the battery's snapshot, and with it the next battery.
pub open spec fn continues(
    batteries: Seq<BatteryInfo>,
    position: int,
    response: Frame,
    dcbs: Seq<DcbData>,
    done: Seq<BatteryData>,
    after: BatteryPoll,
    turn: Turn<Vec<BatteryData>>,
) -> bool {
    let battery = batteries[position];
    if dcbs.len() < battery.dcb_count {
        &&& after matches BatteryPoll::AskingDcb {
            position: kept_position,
            response: kept_response,
            dcbs: kept_dcbs,
            done: kept,
        }
        &&& kept_position == position
        &&& kept_response == response
        &&& kept_dcbs@ == dcbs
        &&& kept@ == done
        &&& turn matches Turn::Ask(request)
        &&& is_container_request(
            request@,
            bat::DATA,
            seq![
                with_value(bat::INDEX, DynamicValue::UInt16(battery.index as u16)),
                with_value(bat::DCB_ALL_CELL_TEMPERATURES, DynamicValue::UInt64(dcbs.len() as u64)),
                with_value(bat::DCB_ALL_CELL_VOLTAGES, DynamicValue::UInt64(dcbs.len() as u64)),
                with_value(bat::DCB_INFO, DynamicValue::UInt64(dcbs.len() as u64)),
            ],
        )
    } else {
        match battery_data_failure(response.contents(), None) {
            Some(f) => poll_fails(after, turn, f),
            None => exists|snapshot: BatteryData|
                {
                    &&& is_battery_data(
                        snapshot,
                        battery,
                        response.time_stamp,
                        response.contents(),
                        dcbs,
                    )
                    &&& #[trigger] moves_on(
                        batteries,
                        position + 1,
                        done.push(snapshot),
                        after,
                        turn,
                    )
                },
        }
    }
}

/// One step of the poll of the batteries.
///
/// The batteries are asked in the order in which they were found. Each is
/// asked for its data first; where the answer holds every field that is
/// read before the controllers, as many controllers are asked, one after
/// the other, as the battery was found to have at connect. The first answer
/// that fails, or that cannot be read, ends the poll: it hands out all
/// snapshots or none.
pub open spec fn poll_step(
    batteries: Seq<BatteryInfo>,
    before: BatteryPoll,
    answer: Result<Frame, String>,
    after: BatteryPoll,
    turn: Turn<Vec<BatteryData>>,
) -> bool {
    match before {
        BatteryPoll::AskingBattery { position, done } => if position >= batteries.len() {
            poll_fails(after, turn, nothing_asked())
        } else {
            match judged(answer) {
                Err(f) => poll_fails(after, turn, f),
                Ok(response) => match battery_head_failure(response.contents()) {
                    Some(f) => poll_fails(after, turn, f),
                    None => continues(
                        batteries,
                        position as int,
                        response,
                        Seq::empty(),
                        done@,
                        after,
                        turn,
                    ),
                },
            }
        },
        BatteryPoll::AskingDcb { position, response, dcbs, done } => if position
            >= batteries.len() {
            poll_fails(after, turn, nothing_asked())
        } else {
            match judged(answer) {
                Err(f) => poll_fails(after, turn, f),
                Ok(frame) => match dcb_failure(frame.contents()) {
                    Some(f) => poll_fails(after, turn, f),
                    None => exists|dcb: DcbData|
                        {
                            &&& is_dcb_data(dcb, dcbs.len() as u64, frame.contents())
                            &&& #[trigger] continues(
                                batteries,
                                position as int,
                                response,
                                dcbs@.push(dcb),
                                done@,
                                after,
                                turn,
                            )
                        },
                },
            }
        },
        BatteryPoll::Over => poll_fails(after, turn, nothing_asked()),
    }
}

fn poll_failed(error: E3dcError) -> (r: (BatteryPoll, Turn<Vec<BatteryData>>))
    ensures
        poll_fails(r.0, r.1, error@),
{
    (BatteryPoll::Over, Turn::Failed(error))
}

fn move_on(batteries: &[BatteryInfo], position: usize, done: Vec<BatteryData>) -> (r: (
    BatteryPoll,
    Turn<Vec<BatteryData>>,
))
    ensures
        moves_on(batteries@, position as int, done@, r.0, r.1),
{
    if position < batteries.len() {
        let request = battery_data_request(&batteries[position]);
        (BatteryPoll::AskingBattery { position, done }, Turn::Ask(request))
    } else {
        (BatteryPoll::Over, Turn::Done(done))
    }
}

fn go_on(
    batteries: &[BatteryInfo],
    position: usize,
    response: Frame,
    dcbs: Vec<DcbData>,
    done: Vec<BatteryData>,
) -> (r: (BatteryPoll, Turn<Vec<BatteryData>>))
    requires
        position < batteries.len(),
    ensures
        continues(batteries@, position as int, response, dcbs@, done@, r.0, r.1),
{
    let battery = &batteries[position];
    if (dcbs.len() as u64) < battery.dcb_count {
        let request = dcb_request(battery.index, dcbs.len() as u64);
        (BatteryPoll::AskingDcb { position, response, dcbs, done }, Turn::Ask(request))
    } else {
        let ghost asked = dcbs@;
        match E3dcClient::get_battery_data_idx(battery, &response, Ok(dcbs)) {
            Err(e) => poll_failed(e),
            Ok(snapshot) => {
                let ghost made = snapshot;
                let ghost before = done@;
                let mut done = done;
                done.push(snapshot);
                let r = move_on(batteries, position + 1, done);
                assert(is_battery_data(
                    made,
                    *battery,
                    response.time_stamp,
                    response.contents(),
                    asked,
                ));
                assert(moves_on(batteries@, position + 1, before.push(made), r.0, r.1));
                r
            },
        }
    }
}

impl E3dcClient {
    /// Judges what came back from the device for a request.
    pub fn send_request(&self, answer: Result<Frame, String>) -> (r: Result<Frame, E3dcError>)
        ensures
            match judged(answer) {
                Ok(frame) => r == Ok::<Frame, E3dcError>(frame),
                Err(f) => r matches Err(e) && e@ == f,
            },
    {
        send_request(answer)
    }

    /// Begins the poll of the batteries that were found at connect.
    pub fn get_battery_data(&self) -> (r: (BatteryPoll, Turn<Vec<BatteryData>>))
        ensures
            moves_on(self.batteries@, 0, Seq::empty(), r.0, r.1),
    {
        BatteryPoll::begin(self.batteries.as_slice())
    }
}

impl BatteryPoll {
    /// The poll of these batteries, and what it does first: it asks the
    /// first battery, or is done at once where there is none.
    pub fn begin(batteries: &[BatteryInfo]) -> (r: (BatteryPoll, Turn<Vec<BatteryData>>))
        ensures
            moves_on(batteries@, 0, Seq::empty(), r.0, r.1),
    {
        move_on(batteries, 0, Vec::new())
    }

    /// Takes the answer to the request that is open and says what is next.
    pub fn answer(self, batteries: &[BatteryInfo], answer: Result<Frame, String>) -> (r: (
        BatteryPoll,
        Turn<Vec<BatteryData>>,
    ))
        ensures
            poll_step(batteries@, self, answer, r.0, r.1),
    {
        match self {
            BatteryPoll::AskingBattery { position, done } => {
                if position >= batteries.len() {
                    return poll_failed(unasked());
                }
                match send_request(answer) {
                    Err(e) => poll_failed(e),
                    Ok(response) => match E3dcClient::check_battery_head(&response) {
                        Err(e) => poll_failed(e),
                        Ok(()) => go_on(batteries, position, response, Vec::new(), done),
                    },
                }
            },
            BatteryPoll::AskingDcb { position, response, dcbs, done } => {
                if position >= batteries.len() {
                    return poll_failed(unasked());
                }
                match send_request(answer) {
                    Err(e) => poll_failed(e),
                    Ok(frame) => match E3dcClient::get_dcb_data(&frame, dcbs.len() as u64) {
                        Err(e) => poll_failed(e),
                        Ok(dcb) => {
                            let ghost before = dcbs@;
                            let ghost read = dcb;
                            let mut more = dcbs;
                            more.push(dcb);
                            let r = go_on(batteries, position, response, more, done);
                            assert(continues(
                                batteries@,
                                position as int,
                                response,
                                before.push(read),
                                done@,
                                r.0,
                                r.1,
                            ));
                            r
                        },
                    },
                }
            },
            BatteryPoll::Over => poll_failed(unasked()),
        }
    }
}

} // verus!
