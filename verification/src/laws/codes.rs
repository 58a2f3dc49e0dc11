//! Laws of the C interface: what its codes tell apart, and what it keeps between calls.
use crate::error::Error;
use crate::ffi::{answers_add, answers_halt, answers_in, answers_out, answers_remove,
    answers_written, code_of, code_of_op, code_of_status, direction_of, handle_of, mock_bus,
    recipient_of, refuses_in, refuses_out, request_type_of, same_but_bus, setup_of, start_of,
    tracking, EventsStart, FfiState, InReply, OutReply, ERR_INVALID_INPUT, ERR_NOT_INITIALIZED, OK};
use crate::laws::outcomes::{is_start_of, lemma_plugged_or_not, unplugged};
use crate::mock::{adds_device, halts, removes_device, tells_written, BusView, MockConfigView};
use crate::types::{Direction, UsbControlTransferParameters, UsbInTransferResult,
    UsbOutTransferResult, UsbRecipient, UsbRequestType, UsbTransferStatus};
use crate::usb::Backend;
use vstd::prelude::*;

verus! {

/// Error codes are negative, so that a code that is not is a success; only the success of an
/// operation is reported as such.
pub proof fn law_errors_are_negative(error: Error, result: Result<(), Error>)
    ensures
        code_of(error) < 0,
        ERR_NOT_INITIALIZED < 0,
        ERR_INVALID_INPUT < 0,
        code_of_op(result) == OK <==> result is Ok,
        code_of_op(result) <= 0,
{
}

/// Different kinds of error have different codes, which are different from those of the C
/// interface itself.
pub proof fn law_error_codes_are_distinct(error: Error, other: Error)
    ensures
        code_of(error) == code_of(other) <==> (error == other || (error is Io && other is Io)),
        code_of(error) != ERR_NOT_INITIALIZED,
        code_of(error) != ERR_INVALID_INPUT,
        ERR_NOT_INITIALIZED != ERR_INVALID_INPUT,
{
}

/// Different statuses have different codes.
pub proof fn law_status_codes_are_distinct(status: UsbTransferStatus, other: UsbTransferStatus)
    ensures
        code_of_status(status) == code_of_status(other) <==> status == other,
        code_of_status(status) == 0 <==> status == UsbTransferStatus::Completed,
{
}

/// Different raw values stand for different request types and recipients.
pub proof fn law_raw_values_are_distinct(raw: u8, other: u8)
    ensures
        request_type_of(raw) is Some && request_type_of(raw) == request_type_of(other) ==> raw
            == other,
        recipient_of(raw) is Some && recipient_of(raw) == recipient_of(other) ==> raw == other,
        request_type_of(raw) is Some <==> raw <= 2,
        recipient_of(raw) is Some <==> raw <= 3,
{
}

/// Tracking a device again keeps the handle that was given out first, and never touches that of
/// another device.
pub proof fn law_tracking_keeps_handles<D>(
    devices: Map<u64, D>,
    id: u64,
    device: D,
    again: D,
    other: u64,
)
    ensures
        tracking(tracking(devices, id, device), id, again) == tracking(devices, id, device),
        tracking(devices, id, device).contains_key(id),
        devices.contains_key(id) ==> tracking(devices, id, device)[id] == devices[id],
        other != id ==> tracking(devices, id, device).contains_key(other)
            == devices.contains_key(other),
        devices.contains_key(other) ==> tracking(devices, id, device)[other] == devices[other],
{
}

/// The codes are fixed numbers: 0 for success, and one below it for each error.
pub proof fn law_codes_are_fixed(error: Error, result: Result<(), Error>)
    ensures
        error is NotFound <==> code_of(error) == -1,
        error is InvalidState <==> code_of(error) == -2,
        error is InvalidAccess <==> code_of(error) == -3,
        error is NotSupported <==> code_of(error) == -4,
        error is Disconnected <==> code_of(error) == -5,
        error is Busy <==> code_of(error) == -6,
        error is Access <==> code_of(error) == -7,
        error is Io <==> code_of(error) == -8,
        result is Ok ==> code_of_op(result) == 0,
        result matches Err(e) ==> code_of_op(result) == code_of(e),
{
}

/// Statuses, directions, request types and recipients go by fixed numbers too.
pub proof fn law_raw_values_are_fixed(status: UsbTransferStatus, raw: u8)
    ensures
        status == UsbTransferStatus::Completed <==> code_of_status(status) == 0,
        status == UsbTransferStatus::Stall <==> code_of_status(status) == 1,
        status == UsbTransferStatus::Babble <==> code_of_status(status) == 2,
        direction_of(raw) == Direction::Out <==> raw == 0,
        request_type_of(raw) == Some(UsbRequestType::Standard) <==> raw == 0,
        request_type_of(raw) == Some(UsbRequestType::Class) <==> raw == 1,
        request_type_of(raw) == Some(UsbRequestType::Vendor) <==> raw == 2,
        recipient_of(raw) == Some(UsbRecipient::Device) <==> raw == 0,
        recipient_of(raw) == Some(UsbRecipient::Interface) <==> raw == 1,
        recipient_of(raw) == Some(UsbRecipient::Endpoint) <==> raw == 2,
        recipient_of(raw) == Some(UsbRecipient::Other) <==> raw == 3,
{
}

/// A setup is accepted just where the request type is at most 2 and the recipient at most 3, and
/// has every value it was made of; else it is not supported.
pub proof fn law_setup_keeps_its_values(
    request_type: u8,
    recipient: u8,
    request: u8,
    value: u16,
    index: u16,
)
    ensures
        ({
            let setup = setup_of(request_type, recipient, request, value, index);
            &&& setup is Ok <==> request_type <= 2 && recipient <= 3
            &&& setup is Err ==> setup == Err::<UsbControlTransferParameters, Error>(
                Error::NotSupported,
            )
            &&& setup matches Ok(s) ==> {
                &&& Some(s.request_type) == request_type_of(request_type)
                &&& Some(s.recipient) == recipient_of(recipient)
                &&& s.request == request
                &&& s.value == value
                &&& s.index == index
            }
        }),
{
}

/// A call is refused, with -10, just where a place that it needs is missing; data that has no
/// bytes is not needed.
pub proof fn law_missing_pointers_are_refused(
    missing: bool,
    length: u32,
    status_missing: bool,
    refusal_in: Option<i32>,
    refusal_out: Option<i32>,
)
    requires
        refuses_in(missing, status_missing, refusal_in),
        refuses_out(missing, length, status_missing, refusal_out),
    ensures
        refusal_in is Some <==> missing || status_missing,
        refusal_out is Some <==> (missing && length > 0) || status_missing,
        refusal_in matches Some(code) ==> code == -10,
        refusal_out matches Some(code) ==> code == -10,
{
}

/// The answer to a transfer in is an error code and nothing more, or the number of bytes handed
/// over, which are the start of what came in, as much as the buffer holds, and the status.
pub proof fn law_in_answer(
    result: Result<UsbInTransferResult, Error>,
    buffer_length: u32,
    reply: InReply,
)
    requires
        answers_in(result, buffer_length, reply),
    ensures
        result matches Ok(transfer) ==> {
            &&& reply.code == reply.data@.len()
            &&& is_start_of(reply.data@, transfer.data@, buffer_length as nat)
            &&& reply.status == Some(code_of_status(transfer.status))
        },
        result matches Err(error) ==> {
            &&& reply.code == code_of(error)
            &&& reply.status is None
            &&& reply.data@.len() == 0
        },
{
}

/// The answer to a transfer out is an error code and nothing more, or the number of bytes written
/// and the status.
pub proof fn law_out_answer(result: Result<UsbOutTransferResult, Error>, reply: OutReply)
    requires
        answers_out(result, reply),
    ensures
        result matches Ok(transfer) ==> {
            &&& transfer.bytes_written <= i64::MAX ==> reply.code == transfer.bytes_written
            &&& reply.status == Some(code_of_status(transfer.status))
        },
        result matches Err(error) ==> {
            &&& reply.code == code_of(error)
            &&& reply.status is None
        },
{
}

/// After initialization nothing is tracked and no events are delivered; there is an empty mock bus
/// just where one was asked for.
pub proof fn law_initial_state<D, E>(state: FfiState<D, E>, use_mock: u8, id: u64)
    requires
        state.is_initial(use_mock),
    ensures
        use_mock == 0 <==> state.usb@ == Backend::Native,
        use_mock == 0 <==> state.controller is None,
        mock_bus(Some(state)) matches Some(bus) ==> bus.devices.len() == 0
            && bus.subscribers.len() == 0,
        handle_of(Some(state), id) == Err::<D, Error>(Error::NotFound),
        start_of(Some(state)) == EventsStart::Subscribe,
{
}

/// A handle is found just where the device is tracked; without initialization the state is invalid.
/// Events start just where they do not run yet, and a start without initialization answers -9.
pub proof fn law_state_is_looked_up<D, E>(state: Option<FfiState<D, E>>, id: u64)
    ensures
        state is None ==> handle_of(state, id) == Err::<D, Error>(Error::InvalidState)
            && start_of(state) == EventsStart::Answer(-9i32),
        state matches Some(s) ==> {
            &&& !s.devices@.contains_key(id) ==> handle_of(state, id) == Err::<D, Error>(
                Error::NotFound,
            )
            &&& s.devices@.contains_key(id) ==> handle_of(state, id) == Ok::<D, Error>(
                s.devices@[id],
            )
            &&& s.events is None ==> start_of(state) == EventsStart::Subscribe
            &&& s.events is Some ==> start_of(state) == EventsStart::Answer(0)
            &&& s.controller is None ==> mock_bus(state) is None
            &&& s.controller matches Some(bus) ==> mock_bus(state) == Some(bus@)
        },
        state is None ==> mock_bus(state) is None,
{
}

/// A device is tracked from then on, by the handle it has or else by the one given; every other
/// stays as it is.
pub proof fn law_tracking_adds_one<D>(devices: Map<u64, D>, id: u64, device: D, other: u64)
    ensures
        tracking(devices, id, device).contains_key(id),
        tracking(devices, id, device)[id] == (if devices.contains_key(id) {
            devices[id]
        } else {
            device
        }),
        other != id ==> (tracking(devices, id, device).contains_key(other)
            <==> devices.contains_key(other)),
        devices.contains_key(other) ==> tracking(devices, id, device)[other] == devices[other],
{
}

/// Where only the mock bus of a state may have changed, nothing else has: neither where the devices
/// are, nor what is tracked, nor the delivery of events; and a bus neither comes nor goes.
pub proof fn law_only_the_bus_changes<D, E>(
    state: Option<FfiState<D, E>>,
    other: Option<FfiState<D, E>>,
    id: u64,
)
    requires
        same_but_bus(state, other),
    ensures
        state is Some <==> other is Some,
        state matches Some(s) ==> {
            &&& other->Some_0.usb == s.usb
            &&& other->Some_0.devices == s.devices
            &&& other->Some_0.events == s.events
            &&& other->Some_0.controller is Some <==> s.controller is Some
        },
        handle_of(state, id) == handle_of(other, id),
        start_of(state) == start_of(other),
{
}

/// On a mock bus, each call answers what the bus answers: an id for a device that is connected,
/// else 0, or -1 for a device that is not there, which changes nothing. Without a bus it answers -9
/// and nothing happens.
pub proof fn law_mock_calls_answer(
    bus: Option<BusView>,
    next: u64,
    config: MockConfigView,
    answer: i64,
    id: u64,
    address: u8,
    code_remove: i32,
    code_halt: i32,
    log: Result<Vec<(u8, Vec<u8>)>, i32>,
    added: Option<BusView>,
    added_next: u64,
    removed: Option<BusView>,
    halted: Option<BusView>,
)
    requires
        answers_add(bus, next, config, answer, added, added_next),
        answers_remove(bus, id, code_remove, removed),
        answers_halt(bus, id, address, code_halt, halted),
        answers_written(bus, id, log),
    ensures
        bus is None ==> {
            &&& answer == -9 && code_remove == -9 && code_halt == -9
            &&& log == Err::<Vec<(u8, Vec<u8>)>, i32>(-9i32)
            &&& added is None && removed is None && halted is None
            &&& added_next == next
        },
        bus matches Some(b) ==> {
            &&& added is Some && removed is Some && halted is Some
            &&& next <= i64::MAX ==> answer == next
            &&& adds_device(b, next, config, next, added->Some_0, added_next)
            &&& unplugged(b, id) ==> {
                &&& code_remove == -1 && removed == bus
                &&& code_halt == -1 && halted == bus
                &&& log == Err::<Vec<(u8, Vec<u8>)>, i32>(-1i32)
            }
            &&& !unplugged(b, id) ==> {
                &&& code_remove == 0 && removes_device(b, id, Ok(()), removed->Some_0)
                &&& code_halt == 0 && halts(b, id, address, Ok(()), halted->Some_0)
                &&& log is Ok
                &&& tells_written(b, id, Ok(log->Ok_0))
            }
        },
{
    if let Some(b) = bus {
        lemma_plugged_or_not(b, id);
    }
}

} // verus!
