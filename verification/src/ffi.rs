//! The rules of the C interface: codes for errors and statuses, the checks on raw arguments, and
//! the state that is kept between calls.
//!
//! Pointers are taken apart by the program around this library, which hands plain values in and
//! writes plain values out.
use crate::error::Error;
use crate::ids::DeviceIds;
use crate::mock::{adds_device, empty_bus, halts, removes_device, write_log, BusView,
    MockConfigView, MockController, MockDeviceConfig};
use crate::types::{Direction, UsbControlTransferParameters, UsbInTransferResult,
    UsbOutTransferResult, UsbRecipient, UsbRequestType, UsbTransferStatus};
use crate::usb::{Backend, Usb};
use std::collections::HashMap;
use vstd::prelude::*;

verus! {

/// The operation succeeded.
pub const OK: i32 = 0;

/// Code of [`Error::NotFound`].
pub const ERR_NOT_FOUND: i32 = -1;

/// Code of [`Error::InvalidState`].
pub const ERR_INVALID_STATE: i32 = -2;

/// Code of [`Error::InvalidAccess`].
pub const ERR_INVALID_ACCESS: i32 = -3;

/// Code of [`Error::NotSupported`].
pub const ERR_NOT_SUPPORTED: i32 = -4;

/// Code of [`Error::Disconnected`].
pub const ERR_DISCONNECTED: i32 = -5;

/// Code of [`Error::Busy`].
pub const ERR_BUSY: i32 = -6;

/// Code of [`Error::Access`].
pub const ERR_ACCESS: i32 = -7;

/// Code of [`Error::Io`].
pub const ERR_IO: i32 = -8;

/// The library is not initialized, or not with a mock bus where one is needed.
pub const ERR_NOT_INITIALIZED: i32 = -9;

/// A pointer is missing or a text cannot be read.
pub const ERR_INVALID_INPUT: i32 = -10;

/// Code of [`UsbTransferStatus::Completed`].
pub const STATUS_OK: u8 = 0;

/// Code of [`UsbTransferStatus::Stall`].
pub const STATUS_STALL: u8 = 1;

/// Code of [`UsbTransferStatus::Babble`].
pub const STATUS_BABBLE: u8 = 2;

/// The code of an error.
pub open spec fn code_of(error: Error) -> i32 {
    match error {
        Error::NotFound => ERR_NOT_FOUND,
        Error::InvalidState => ERR_INVALID_STATE,
        Error::InvalidAccess => ERR_INVALID_ACCESS,
        Error::NotSupported => ERR_NOT_SUPPORTED,
        Error::Disconnected => ERR_DISCONNECTED,
        Error::Busy => ERR_BUSY,
        Error::Access => ERR_ACCESS,
        Error::Io(_) => ERR_IO,
    }
}

/// The code of an error.
pub fn error_code(error: &Error) -> (code: i32)
    ensures
        code == code_of(*error),
{
    match error {
        Error::NotFound => ERR_NOT_FOUND,
        Error::InvalidState => ERR_INVALID_STATE,
        Error::InvalidAccess => ERR_INVALID_ACCESS,
        Error::NotSupported => ERR_NOT_SUPPORTED,
        Error::Disconnected => ERR_DISCONNECTED,
        Error::Busy => ERR_BUSY,
        Error::Access => ERR_ACCESS,
        Error::Io(_) => ERR_IO,
    }
}

/// The code of a transfer status.
pub open spec fn code_of_status(status: UsbTransferStatus) -> u8 {
    match status {
        UsbTransferStatus::Completed => STATUS_OK,
        UsbTransferStatus::Stall => STATUS_STALL,
        UsbTransferStatus::Babble => STATUS_BABBLE,
    }
}

/// The code of a transfer status.
pub fn status_code(status: UsbTransferStatus) -> (code: u8)
    ensures
        code == code_of_status(status),
{
    match status {
        UsbTransferStatus::Completed => STATUS_OK,
        UsbTransferStatus::Stall => STATUS_STALL,
        UsbTransferStatus::Babble => STATUS_BABBLE,
    }
}

/// The code that reports the result of an operation that gives nothing back.
pub open spec fn code_of_op(result: Result<(), Error>) -> i32 {
    match result {
        Ok(_) => OK,
        Err(error) => code_of(error),
    }
}

/// The code that reports the result of an operation that gives nothing back.
pub fn op_code(result: &Result<(), Error>) -> (code: i32)
    ensures
        code == code_of_op(*result),
{
    match result {
        Ok(()) => OK,
        Err(error) => error_code(error),
    }
}

/// The direction that a raw value stands for.
pub open spec fn direction_of(raw: u8) -> Direction {
    if raw == 0 {
        Direction::Out
    } else {
        Direction::In
    }
}

/// The direction that a raw value stands for: 0 is out, anything else is in.
pub fn direction_from(raw: u8) -> (direction: Direction)
    ensures
        direction == direction_of(raw),
{
    if raw == 0 {
        Direction::Out
    } else {
        Direction::In
    }
}

/// The request type that a raw value stands for.
pub open spec fn request_type_of(raw: u8) -> Option<UsbRequestType> {
    if raw == 0 {
        Some(UsbRequestType::Standard)
    } else if raw == 1 {
        Some(UsbRequestType::Class)
    } else if raw == 2 {
        Some(UsbRequestType::Vendor)
    } else {
        None
    }
}

/// The request type that a raw value stands for; other values are not supported.
pub fn request_type_from(raw: u8) -> (request_type: Result<UsbRequestType, Error>)
    ensures
        request_type == match request_type_of(raw) {
            Some(t) => Ok(t),
            None => Err(Error::NotSupported),
        },
{
    match raw {
        0 => Ok(UsbRequestType::Standard),
        1 => Ok(UsbRequestType::Class),
        2 => Ok(UsbRequestType::Vendor),
        _ => Err(Error::NotSupported),
    }
}

/// The recipient that a raw value stands for.
pub open spec fn recipient_of(raw: u8) -> Option<UsbRecipient> {
    if raw == 0 {
        Some(UsbRecipient::Device)
    } else if raw == 1 {
        Some(UsbRecipient::Interface)
    } else if raw == 2 {
        Some(UsbRecipient::Endpoint)
    } else if raw == 3 {
        Some(UsbRecipient::Other)
    } else {
        None
    }
}

/// The recipient that a raw value stands for; other values are not supported.
pub fn recipient_from(raw: u8) -> (recipient: Result<UsbRecipient, Error>)
    ensures
        recipient == match recipient_of(raw) {
            Some(r) => Ok(r),
            None => Err(Error::NotSupported),
        },
{
    match raw {
        0 => Ok(UsbRecipient::Device),
        1 => Ok(UsbRecipient::Interface),
        2 => Ok(UsbRecipient::Endpoint),
        3 => Ok(UsbRecipient::Other),
        _ => Err(Error::NotSupported),
    }
}

/// The parameters of a control transfer that raw values stand for; without a request type or a
/// recipient it is not supported.
pub open spec fn setup_of(
    request_type: u8,
    recipient: u8,
    request: u8,
    value: u16,
    index: u16,
) -> Result<UsbControlTransferParameters, Error> {
    match (request_type_of(request_type), recipient_of(recipient)) {
        (Some(t), Some(r)) => Ok(
            UsbControlTransferParameters { request_type: t, recipient: r, request, value, index },
        ),
        _ => Err(Error::NotSupported),
    }
}

/// The parameters of a control transfer that raw values stand for.
pub fn setup_from(request_type: u8, recipient: u8, request: u8, value: u16, index: u16) -> (setup:
    Result<UsbControlTransferParameters, Error>)
    ensures
        setup == setup_of(request_type, recipient, request, value, index),
{
    let request_type = match request_type_from(request_type) {
        Ok(request_type) => request_type,
        Err(error) => return Err(error),
    };
    let recipient = match recipient_from(recipient) {
        Ok(recipient) => recipient,
        Err(error) => return Err(error),
    };
    Ok(UsbControlTransferParameters { request_type, recipient, request, value, index })
}

/// The error code for a call with something missing, if anything is.
pub open spec fn refusal_of(missing: bool) -> Option<i32> {
    if missing {
        Some(ERR_INVALID_INPUT)
    } else {
        None
    }
}

/// The error code for a transfer in is that one: the buffer and the place for the status must be
/// there.
pub open spec fn refuses_in(
    buffer_missing: bool,
    status_missing: bool,
    refusal: Option<i32>,
) -> bool {
    refusal == refusal_of(buffer_missing || status_missing)
}

/// The error code for a transfer out is that one: the data, unless there is none, and the place for
/// the status must be there.
pub open spec fn refuses_out(
    data_missing: bool,
    data_length: u32,
    status_missing: bool,
    refusal: Option<i32>,
) -> bool {
    refusal == refusal_of((data_missing && data_length != 0) || status_missing)
}

/// The error code for a transfer in whose buffer or place for the status is missing.
pub fn check_in_pointers(buffer_missing: bool, status_missing: bool) -> (refusal: Option<i32>)
    ensures
        refuses_in(buffer_missing, status_missing, refusal),
{
    if buffer_missing || status_missing {
        Some(ERR_INVALID_INPUT)
    } else {
        None
    }
}

/// The error code for a transfer out whose data or place for the status is missing. Data may be
/// missing where there is none.
pub fn check_out_pointers(data_missing: bool, data_length: u32, status_missing: bool) -> (refusal:
    Option<i32>)
    ensures
        refuses_out(data_missing, data_length, status_missing, refusal),
{
    if (data_missing && data_length != 0) || status_missing {
        Some(ERR_INVALID_INPUT)
    } else {
        None
    }
}

/// The answer to a transfer in: the number of bytes received or an error code, and, only where
/// there is no error, the status code and the bytes.
#[derive(Debug)]
pub struct InReply {
    pub code: i64,
    pub status: Option<u8>,
    pub data: Vec<u8>,
}

/// The answer to a transfer in is that of the result, cut to the caller's buffer.
pub open spec fn answers_in(
    result: Result<UsbInTransferResult, Error>,
    buffer_length: u32,
    reply: InReply,
) -> bool {
    match result {
        Ok(transfer) => {
            let length = if transfer.data@.len() < buffer_length {
                transfer.data@.len() as int
            } else {
                buffer_length as int
            };
            &&& reply.code == length
            &&& reply.status == Some(code_of_status(transfer.status))
            &&& reply.data@ == transfer.data@.take(length)
        },
        Err(error) => {
            &&& reply.code == code_of(error)
            &&& reply.status is None
            &&& reply.data@ == Seq::<u8>::empty()
        },
    }
}

/// The answer to a transfer in for the caller's buffer, which is never overrun.
pub fn in_reply(result: Result<UsbInTransferResult, Error>, buffer_length: u32) -> (reply: InReply)
    ensures
        answers_in(result, buffer_length, reply),
{
    match result {
        Ok(transfer) => {
            let status = Some(status_code(transfer.status));
            let mut data = transfer.data;
            data.truncate(buffer_length as usize);
            assert(data@ =~= transfer.data@.take(data@.len() as int));
            InReply { code: data.len() as i64, status, data }
        },
        Err(error) => InReply { code: error_code(&error) as i64, status: None, data: Vec::new() },
    }
}

/// The answer to a transfer out: the number of bytes written or an error code, and, only where
/// there is no error, the status code.
#[derive(Debug)]
pub struct OutReply {
    pub code: i64,
    pub status: Option<u8>,
}

/// The answer to a transfer out is that of the result.
pub open spec fn answers_out(result: Result<UsbOutTransferResult, Error>, reply: OutReply) -> bool {
    match result {
        Ok(transfer) => {
            &&& reply.code == transfer.bytes_written as i64
            &&& reply.status == Some(code_of_status(transfer.status))
        },
        Err(error) => {
            &&& reply.code == code_of(error)
            &&& reply.status is None
        },
    }
}

/// The answer to a transfer out.
pub fn out_reply(result: Result<UsbOutTransferResult, Error>) -> (reply: OutReply)
    ensures
        answers_out(result, reply),
{
    match result {
        Ok(transfer) => OutReply {
            code: transfer.bytes_written as i64,
            status: Some(status_code(transfer.status)),
        },
        Err(error) => OutReply { code: error_code(&error) as i64, status: None },
    }
}

/// What is kept between calls. `D` is a handle to a device that was given out, `E` the receiving
/// side of the events.
pub struct FfiState<D, E> {
    pub usb: Usb,
    /// There just where the devices are on a mock bus.
    pub controller: Option<MockController>,
    pub devices: HashMap<u64, D>,
    pub events: Option<E>,
}

impl<D, E> FfiState<D, E> {
    /// The state is on a mock bus just where it has the controller of one.
    pub open spec fn wf(self) -> bool {
        (self.usb@ == Backend::Mock) == (self.controller is Some)
    }

    /// The state is the one after initialization.
    pub open spec fn is_initial(self, use_mock: u8) -> bool {
        &&& self.wf()
        &&& self.usb@ == (if use_mock != 0 {
            Backend::Mock
        } else {
            Backend::Native
        })
        &&& self.controller matches Some(bus) ==> bus@ == empty_bus()
        &&& self.devices@ == Map::<u64, D>::empty()
        &&& self.events is None
    }

    /// The state after initialization: `use_mock != 0` selects the mock bus, anything else real
    /// devices.
    pub fn init(use_mock: u8) -> (result: Result<Self, Error>)
        ensures
            result is Ok,
            result->Ok_0.is_initial(use_mock),
    {
        let (usb, controller) = if use_mock != 0 {
            let (usb, controller) = Usb::mock();
            (usb, Some(controller))
        } else {
            match Usb::new() {
                Ok(usb) => (usb, None),
                Err(error) => return Err(error),
            }
        };
        Ok(FfiState { usb, controller, devices: HashMap::new(), events: None })
    }

    /// Track a device, keeping any existing (possibly open) handle for the id.
    pub fn track_device(&mut self, id: u64, device: D) -> (handle: &D)
        ensures
            final(self).usb == old(self).usb,
            final(self).controller == old(self).controller,
            final(self).events == old(self).events,
            final(self).devices@ == tracking(old(self).devices@, id, device),
            *handle == final(self).devices@[id],
    {
        if !self.devices.contains_key(&id) {
            self.devices.insert(id, device);
        }
        self.devices.get(&id).unwrap()
    }

    /// Forget a device that is gone; anything else stays tracked.
    pub fn forget_device(&mut self, id: u64)
        ensures
            final(self).usb == old(self).usb,
            final(self).controller == old(self).controller,
            final(self).events == old(self).events,
            final(self).devices@ == old(self).devices@.remove(id),
    {
        self.devices.remove(&id);
        assert(self.devices@ =~= old(self).devices@.remove(id));
    }

    /// Keep the receiving side of a delivery of events that has been started.
    pub fn events_started(&mut self, events: E)
        ensures
            final(self).events == Some(events),
            final(self).usb == old(self).usb,
            final(self).controller == old(self).controller,
            final(self).devices == old(self).devices,
    {
        self.events = Some(events);
    }

    /// Stop the delivery of events; what comes back, if anything, must be closed.
    pub fn events_stop(&mut self) -> (events: Option<E>)
        ensures
            events == old(self).events,
            final(self).events is None,
            final(self).usb == old(self).usb,
            final(self).controller == old(self).controller,
            final(self).devices == old(self).devices,
    {
        self.events.take()
    }
}

/// The tracked devices once that one is tracked too: a handle that exists is kept.
pub open spec fn tracking<D>(devices: Map<u64, D>, id: u64, device: D) -> Map<u64, D> {
    if devices.contains_key(id) {
        devices
    } else {
        devices.insert(id, device)
    }
}

/// The handle of a tracked device, in a state or without one.
pub open spec fn handle_of<D, E>(state: Option<FfiState<D, E>>, id: u64) -> Result<D, Error> {
    match state {
        None => Err(Error::InvalidState),
        Some(s) => if s.devices@.contains_key(id) {
            Ok(s.devices@[id])
        } else {
            Err(Error::NotFound)
        },
    }
}

/// The handle of a tracked device. Without initialization the state is invalid; a device that is
/// not tracked is not found.
pub fn tracked_device<D, E>(state: &Option<FfiState<D, E>>, id: u64) -> (handle: Result<&D, Error>)
    ensures
        match handle_of(*state, id) {
            Ok(device) => handle is Ok && *handle->Ok_0 == device,
            Err(error) => handle == Err::<&D, Error>(error),
        },
{
    match state {
        None => Err(Error::InvalidState),
        Some(state) => match state.devices.get(&id) {
            Some(handle) => Ok(handle),
            None => Err(Error::NotFound),
        },
    }
}

/// Run an operation on a device that was looked up; a lookup that failed is the result.
pub fn with_device<D, R>(
    handle: Result<D, Error>,
    operation: impl FnOnce(D) -> Result<R, Error>,
) -> (result: Result<R, Error>)
    requires
        handle matches Ok(device) ==> call_requires(operation, (device,)),
    ensures
        match handle {
            Ok(device) => call_ensures(operation, (device,), result),
            Err(error) => result == Err::<R, Error>(error),
        },
{
    match handle {
        Ok(device) => operation(device),
        Err(error) => Err(error),
    }
}

/// The code that reports an operation on a device that was looked up.
pub fn device_op<D>(
    handle: Result<D, Error>,
    operation: impl FnOnce(D) -> Result<(), Error>,
) -> (code: i32)
    requires
        handle matches Ok(device) ==> call_requires(operation, (device,)),
    ensures
        match handle {
            Ok(device) => exists|result: Result<(), Error>| #[trigger]
                call_ensures(operation, (device,), result) && code == code_of_op(result),
            Err(error) => code == code_of(error),
        },
{
    let result = with_device(handle, operation);
    op_code(&result)
}

/// The state, for calls that need one, or the error code where there is none.
pub fn initialized<D, E>(state: &mut Option<FfiState<D, E>>) -> (result: Result<
    &mut FfiState<D, E>,
    i32,
>)
    ensures
        match *old(state) {
            Some(s) => {
                &&& result is Ok
                &&& *result->Ok_0 == s
                &&& *final(state) == Some(*final(result->Ok_0))
            },
            None => {
                &&& result is Err
                &&& result->Err_0 == ERR_NOT_INITIALIZED
                &&& *final(state) == *old(state)
            },
        },
{
    match state {
        Some(state) => Ok(state),
        None => Err(ERR_NOT_INITIALIZED),
    }
}

/// How a request to start the delivery of events is met.
#[derive(Copy, Clone, Debug, PartialEq, Eq, Structural)]
pub enum EventsStart {
    /// Nothing is to be done; the code is the answer.
    Answer(i32),
    /// A subscription is to be made.
    Subscribe,
}

/// How a request to start the delivery of events is met in a state, or without one.
pub open spec fn start_of<D, E>(state: Option<FfiState<D, E>>) -> EventsStart {
    match state {
        None => EventsStart::Answer(ERR_NOT_INITIALIZED),
        Some(s) => if s.events is Some {
            EventsStart::Answer(OK)
        } else {
            EventsStart::Subscribe
        },
    }
}

/// Events can be delivered after initialization; a delivery that runs already goes on.
pub fn events_start<D, E>(state: &Option<FfiState<D, E>>) -> (start: EventsStart)
    ensures
        start == start_of(*state),
{
    match state {
        None => EventsStart::Answer(ERR_NOT_INITIALIZED),
        Some(state) => match &state.events {
            Some(_) => EventsStart::Answer(OK),
            None => EventsStart::Subscribe,
        },
    }
}

/// The mock bus of a state, where it has one.
pub open spec fn mock_bus<D, E>(state: Option<FfiState<D, E>>) -> Option<BusView> {
    match state {
        Some(s) => match s.controller {
            Some(bus) => Some(bus@),
            None => None,
        },
        None => None,
    }
}

/// The rest of a state, apart from its mock bus, is the same.
pub open spec fn same_but_bus<D, E>(
    state: Option<FfiState<D, E>>,
    other: Option<FfiState<D, E>>,
) -> bool {
    match (state, other) {
        (Some(s), Some(o)) => {
            &&& s.usb == o.usb
            &&& s.devices == o.devices
            &&& s.events == o.events
            &&& (s.controller is Some) == (o.controller is Some)
        },
        (None, None) => true,
        _ => false,
    }
}

/// Connecting a device on a mock bus has that answer; without a bus nothing happens.
pub open spec fn answers_add(
    bus: Option<BusView>,
    next: u64,
    config: MockConfigView,
    answer: i64,
    after: Option<BusView>,
    after_next: u64,
) -> bool {
    match bus {
        Some(b) => {
            &&& answer == next as i64
            &&& after is Some
            &&& adds_device(b, next, config, next, after->Some_0, after_next)
        },
        None => answer == ERR_NOT_INITIALIZED && after_next == next && after is None,
    }
}

/// Disconnecting a device on a mock bus has that code; without a bus nothing happens.
pub open spec fn answers_remove(
    bus: Option<BusView>,
    id: u64,
    code: i32,
    after: Option<BusView>,
) -> bool {
    match bus {
        Some(b) => after is Some && if b.connected(id) {
            code == OK && removes_device(b, id, Ok(()), after->Some_0)
        } else {
            code == ERR_NOT_FOUND && after->Some_0 == b
        },
        None => code == ERR_NOT_INITIALIZED && after is None,
    }
}

/// Asking a mock bus what was written to a device has that answer.
pub open spec fn answers_written(
    bus: Option<BusView>,
    id: u64,
    answer: Result<Vec<(u8, Vec<u8>)>, i32>,
) -> bool {
    match bus {
        Some(b) => if b.connected(id) {
            answer is Ok && write_log(answer->Ok_0@) == b.state_of(id).written
        } else {
            answer == Err::<Vec<(u8, Vec<u8>)>, i32>(ERR_NOT_FOUND)
        },
        None => answer == Err::<Vec<(u8, Vec<u8>)>, i32>(ERR_NOT_INITIALIZED),
    }
}

/// Halting an endpoint of a device on a mock bus has that code; without a bus nothing happens.
pub open spec fn answers_halt(
    bus: Option<BusView>,
    id: u64,
    address: u8,
    code: i32,
    after: Option<BusView>,
) -> bool {
    match bus {
        Some(b) => after is Some && if b.connected(id) {
            code == OK && halts(b, id, address, Ok(()), after->Some_0)
        } else {
            code == ERR_NOT_FOUND && after->Some_0 == b
        },
        None => code == ERR_NOT_INITIALIZED && after is None,
    }
}

/// Connect a mock device. The answer is its id, or an error code without a mock bus.
pub fn mock_add_device<D, E>(
    state: &mut Option<FfiState<D, E>>,
    ids: &mut DeviceIds,
    config: MockDeviceConfig,
) -> (answer: i64)
    ensures
        same_but_bus(*old(state), *final(state)),
        mock_bus(*old(state)) is None ==> *final(state) == *old(state),
        answers_add(
            mock_bus(*old(state)),
            old(ids)@,
            config@,
            answer,
            mock_bus(*final(state)),
            final(ids)@,
        ),
{
    if let Some(session) = state {
        if let Some(controller) = &mut session.controller {
            return controller.add_device(ids, config) as i64;
        }
    }
    ERR_NOT_INITIALIZED as i64
}

/// Disconnect a mock device.
pub fn mock_remove_device<D, E>(state: &mut Option<FfiState<D, E>>, id: u64) -> (code: i32)
    ensures
        same_but_bus(*old(state), *final(state)),
        mock_bus(*old(state)) is None ==> *final(state) == *old(state),
        answers_remove(mock_bus(*old(state)), id, code, mock_bus(*final(state))),
{
    if let Some(session) = state {
        if let Some(controller) = &mut session.controller {
            let result = controller.remove_device(id);
            return op_code(&result);
        }
    }
    ERR_NOT_INITIALIZED
}

/// Everything written to a mock device, or an error code.
pub fn mock_written<D, E>(state: &Option<FfiState<D, E>>, id: u64) -> (answer: Result<
    Vec<(u8, Vec<u8>)>,
    i32,
>)
    ensures
        answers_written(mock_bus(*state), id, answer),
{
    if let Some(session) = state {
        if let Some(controller) = &session.controller {
            return match controller.written(id) {
                Ok(written) => Ok(written),
                Err(error) => Err(error_code(&error)),
            };
        }
    }
    Err(ERR_NOT_INITIALIZED)
}

/// Halt an endpoint of a mock device (`0x80 | n` addresses an IN endpoint).
pub fn mock_halt_endpoint<D, E>(state: &mut Option<FfiState<D, E>>, id: u64, address: u8) -> (code:
    i32)
    ensures
        same_but_bus(*old(state), *final(state)),
        mock_bus(*old(state)) is None ==> *final(state) == *old(state),
        answers_halt(mock_bus(*old(state)), id, address, code, mock_bus(*final(state))),
{
    if let Some(session) = state {
        if let Some(controller) = &mut session.controller {
            let result = controller.halt_endpoint(id, address);
            return op_code(&result);
        }
    }
    ERR_NOT_INITIALIZED
}

} // verus!
