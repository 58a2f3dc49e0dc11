//! The rules of the backend for real USB devices.
//!
//! The calls into the operating system are made by the program around this library. What they
//! are to be asked, what their replies mean and what is remembered between them is decided here.
use crate::device::{device_from_data, DataView, DeviceData, DeviceView, UsbDevice};
use crate::error::Error;
use crate::events::{EventView, UsbConnectionEvent};
use crate::filter::device_views;
use crate::ids::{next_id, DeviceIds};
use crate::transfer::TransferOutcome;
use crate::types::{configuration_views, text, ConfigurationView, UsbConfiguration,
    UsbControlTransferParameters, UsbEndpointType, UsbRecipient};
use std::collections::HashMap;
use std::hash::Hash;
use vstd::prelude::*;
use vstd::std_specs::hash::obeys_key_model;

verus! {

/// USB hub class code; hubs are not listed, matching browser behavior.
pub const HUB_CLASS: u8 = 9;

/// The first USB version with a WebUSB platform capability descriptor.
pub const FIRST_WEBUSB_VERSION: u16 = 0x0210;

/// General category of an error of the operating system.
#[derive(Copy, Clone, Debug, PartialEq, Eq, Structural)]
pub enum ErrorKind {
    Disconnected,
    Busy,
    PermissionDenied,
    NotFound,
    Unsupported,
    Other,
}

/// The error that reports a failure of that kind; a kind of its own is kept, with the message
/// dropped, and any other kind keeps the message.
pub open spec fn error_of_kind(kind: ErrorKind, message: String) -> Error {
    match kind {
        ErrorKind::Disconnected => Error::Disconnected,
        ErrorKind::Busy => Error::Busy,
        ErrorKind::PermissionDenied => Error::Access,
        ErrorKind::NotFound => Error::NotFound,
        ErrorKind::Unsupported => Error::NotSupported,
        ErrorKind::Other => Error::Io(message),
    }
}

/// The error that reports a failure of that kind.
pub fn map_err(kind: ErrorKind, message: String) -> (error: Error)
    ensures
        error == error_of_kind(kind, message),
{
    match kind {
        ErrorKind::Disconnected => Error::Disconnected,
        ErrorKind::Busy => Error::Busy,
        ErrorKind::PermissionDenied => Error::Access,
        ErrorKind::NotFound => Error::NotFound,
        ErrorKind::Unsupported => Error::NotSupported,
        ErrorKind::Other => Error::Io(message),
    }
}

/// Why a transfer failed.
#[derive(Copy, Clone, Debug, PartialEq, Eq, Structural)]
pub enum TransferFailure {
    /// The transfer was cancelled or timed out.
    Cancelled,
    /// The endpoint is halted.
    Stall,
    /// The device is gone.
    Disconnected,
    /// Hardware issue or protocol violation.
    Fault,
    /// The request has an invalid argument or is not supported.
    InvalidArgument,
    /// An error of the operating system, with its code.
    Unknown(u32),
}

/// The words of a failure that is not an error of the operating system.
pub open spec fn failure_words(failure: TransferFailure) -> Option<Seq<char>> {
    match failure {
        TransferFailure::Cancelled => Some("transfer was cancelled"@),
        TransferFailure::Stall => Some("endpoint stalled"@),
        TransferFailure::Disconnected => Some("device disconnected"@),
        TransferFailure::Fault => Some("hardware fault or protocol violation"@),
        TransferFailure::InvalidArgument => Some("invalid or unsupported argument"@),
        TransferFailure::Unknown(_) => None,
    }
}

/// The words are those for an error of the operating system: what the system calls it, in brackets
/// behind a fixed word.
pub open spec fn is_unknown_text(words: Seq<char>) -> bool {
    exists|name: Seq<char>| words == #[trigger] ("unknown ("@ + name) + ")"@
}

/// The words report the failure.
pub open spec fn describes(failure: TransferFailure, words: Seq<char>) -> bool {
    match failure_words(failure) {
        Some(text) => words == text,
        None => is_unknown_text(words),
    }
}

/// Calls `to_string` on a `nusb::transfer::TransferError`. Claims the words for each error. Of an
/// error of the operating system what the system calls it is left unsaid: that differs between
/// machines.
#[verifier::external_body]
fn failure_text(failure: TransferFailure) -> (words: String)
    ensures
        describes(failure, words@),
{
    match failure {
        TransferFailure::Cancelled => nusb::transfer::TransferError::Cancelled,
        TransferFailure::Stall => nusb::transfer::TransferError::Stall,
        TransferFailure::Disconnected => nusb::transfer::TransferError::Disconnected,
        TransferFailure::Fault => nusb::transfer::TransferError::Fault,
        TransferFailure::InvalidArgument => nusb::transfer::TransferError::InvalidArgument,
        TransferFailure::Unknown(code) => nusb::transfer::TransferError::Unknown(code),
    }.to_string()
}

/// The error reports the failure: by a kind of its own, or else by its words.
pub open spec fn reports_failure(failure: TransferFailure, error: Error) -> bool {
    match failure {
        TransferFailure::Disconnected => error == Error::Disconnected,
        TransferFailure::InvalidArgument => error == Error::NotSupported,
        _ => error is Io && describes(failure, error->Io_0@),
    }
}

/// The error that reports the failure of a transfer.
pub fn map_transfer_err(failure: TransferFailure) -> (error: Error)
    ensures
        reports_failure(failure, error),
{
    match failure {
        TransferFailure::Disconnected => Error::Disconnected,
        TransferFailure::InvalidArgument => Error::NotSupported,
        other => Error::Io(failure_text(other)),
    }
}

/// A failed transfer is a stall where the endpoint is halted, and an error otherwise.
pub open spec fn fails_with<T>(
    failure: TransferFailure,
    outcome: Result<TransferOutcome<T>, Error>,
) -> bool {
    match failure {
        TransferFailure::Stall => outcome == Ok::<TransferOutcome<T>, Error>(
            TransferOutcome::Stall,
        ),
        _ => outcome is Err && reports_failure(failure, outcome->Err_0),
    }
}

/// The outcome of a failed transfer.
fn failed<T>(failure: TransferFailure) -> (outcome: Result<TransferOutcome<T>, Error>)
    ensures
        fails_with(failure, outcome),
{
    match failure {
        TransferFailure::Stall => Ok(TransferOutcome::Stall),
        other => Err(map_transfer_err(other)),
    }
}

/// The outcome of a control transfer in is that of the status.
pub open spec fn ends_control_in(
    status: Result<Vec<u8>, TransferFailure>,
    outcome: Result<TransferOutcome<Vec<u8>>, Error>,
) -> bool {
    match status {
        Ok(data) => outcome == Ok::<TransferOutcome<Vec<u8>>, Error>(
            TransferOutcome::Completed(data),
        ),
        Err(failure) => fails_with(failure, outcome),
    }
}

/// The outcome of a control transfer in.
pub fn control_in_outcome(status: Result<Vec<u8>, TransferFailure>) -> (outcome: Result<
    TransferOutcome<Vec<u8>>,
    Error,
>)
    ensures
        ends_control_in(status, outcome),
{
    match status {
        Ok(data) => Ok(TransferOutcome::Completed(data)),
        Err(failure) => failed(failure),
    }
}

/// The outcome of a transfer out that wrote so many bytes is that of the status.
pub open spec fn ends_out(
    status: Result<(), TransferFailure>,
    written: usize,
    outcome: Result<TransferOutcome<usize>, Error>,
) -> bool {
    match status {
        Ok(_) => outcome == Ok::<TransferOutcome<usize>, Error>(
            TransferOutcome::Completed(written),
        ),
        Err(failure) => fails_with(failure, outcome),
    }
}

/// The outcome of a control transfer out, which writes all of its data or fails, and of any other
/// transfer out that reports the number of bytes written.
pub fn out_outcome(status: Result<(), TransferFailure>, written: usize) -> (outcome: Result<
    TransferOutcome<usize>,
    Error,
>)
    ensures
        ends_out(status, written, outcome),
{
    match status {
        Ok(()) => Ok(TransferOutcome::Completed(written)),
        Err(failure) => failed(failure),
    }
}

/// The outcome of a transfer in is that of the status, with the bytes of the buffer that were
/// transferred.
pub open spec fn ends_in(
    status: Result<(), TransferFailure>,
    buffer: Seq<u8>,
    actual_len: usize,
    outcome: Result<TransferOutcome<Vec<u8>>, Error>,
) -> bool {
    match status {
        Ok(_) => {
            &&& outcome is Ok
            &&& outcome->Ok_0 is Completed
            &&& outcome->Ok_0->Completed_0@ == (if actual_len <= buffer.len() {
                buffer.take(actual_len as int)
            } else {
                buffer
            })
        },
        Err(failure) => fails_with(failure, outcome),
    }
}

/// The outcome of a transfer in: of the buffer, only the bytes that were transferred count.
pub fn completion_in(
    status: Result<(), TransferFailure>,
    buffer: Vec<u8>,
    actual_len: usize,
) -> (outcome: Result<TransferOutcome<Vec<u8>>, Error>)
    ensures
        ends_in(status, buffer@, actual_len, outcome),
{
    match status {
        Ok(()) => {
            let mut data = buffer;
            data.truncate(actual_len);
            Ok(TransferOutcome::Completed(data))
        },
        Err(failure) => failed(failure),
    }
}

/// The types of endpoint through which the operating system transfers data.
#[derive(Copy, Clone, Debug, PartialEq, Eq, Structural)]
pub enum Pipe {
    Bulk,
    Interrupt,
}

/// The pipe for an endpoint, where there is one.
pub open spec fn pipe_of(endpoint_type: UsbEndpointType) -> Option<Pipe> {
    match endpoint_type {
        UsbEndpointType::Bulk => Some(Pipe::Bulk),
        UsbEndpointType::Interrupt => Some(Pipe::Interrupt),
        _ => None,
    }
}

/// The pipe for an endpoint, or that error where there is none.
pub open spec fn pipe_or(endpoint_type: UsbEndpointType, error: Error) -> Result<Pipe, Error> {
    match pipe_of(endpoint_type) {
        Some(p) => Ok(p),
        None => Err(error),
    }
}

/// The pipe through which to transfer is that one; other endpoints are not accessible.
pub open spec fn is_transfer_pipe(
    endpoint_type: UsbEndpointType,
    pipe: Result<Pipe, Error>,
) -> bool {
    pipe == pipe_or(endpoint_type, Error::InvalidAccess)
}

/// The pipe on which to clear a halt is that one; on other endpoints this is not supported.
pub open spec fn is_halt_pipe(endpoint_type: UsbEndpointType, pipe: Result<Pipe, Error>) -> bool {
    pipe == pipe_or(endpoint_type, Error::NotSupported)
}

/// The pipe through which to transfer; other endpoints are not accessible.
pub fn transfer_pipe(endpoint_type: UsbEndpointType) -> (pipe: Result<Pipe, Error>)
    ensures
        is_transfer_pipe(endpoint_type, pipe),
{
    match endpoint_type {
        UsbEndpointType::Bulk => Ok(Pipe::Bulk),
        UsbEndpointType::Interrupt => Ok(Pipe::Interrupt),
        _ => Err(Error::InvalidAccess),
    }
}

/// The pipe on which to clear a halt; on other endpoints this is not supported.
pub fn halt_pipe(endpoint_type: UsbEndpointType) -> (pipe: Result<Pipe, Error>)
    ensures
        is_halt_pipe(endpoint_type, pipe),
{
    match endpoint_type {
        UsbEndpointType::Bulk => Ok(Pipe::Bulk),
        UsbEndpointType::Interrupt => Ok(Pipe::Interrupt),
        _ => Err(Error::NotSupported),
    }
}

/// The handles of a device: one of the device while it is open, and one of each interface that
/// is claimed. `D` and `I` are the handles of the operating system.
pub struct NativeDevice<D, I> {
    device: Option<D>,
    interfaces: HashMap<u8, I>,
}

/// View of a [`NativeDevice`].
#[verifier::reject_recursive_types(D)]
#[verifier::reject_recursive_types(I)]
pub struct HandlesView<D, I> {
    pub device: Option<D>,
    pub interfaces: Map<u8, I>,
}

impl<D, I> View for NativeDevice<D, I> {
    type V = HandlesView<D, I>;

    closed spec fn view(&self) -> HandlesView<D, I> {
        HandlesView { device: self.device, interfaces: self.interfaces@ }
    }
}

/// The smallest interface number from `start` on that is in the set.
pub open spec fn lowest_from<I>(interfaces: Map<u8, I>, start: int) -> Option<u8>
    decreases 256 - start,
{
    if start >= 256 {
        None
    } else if interfaces.contains_key(start as u8) {
        Some(start as u8)
    } else {
        lowest_from(interfaces, start + 1)
    }
}

impl<D, I> HandlesView<D, I> {
    /// The handle of the device, which must be open.
    pub open spec fn device_handle(self) -> Result<D, Error> {
        match self.device {
            Some(d) => Ok(d),
            None => Err(Error::InvalidState),
        }
    }

    /// The handle of an interface, which must be claimed.
    pub open spec fn interface_handle(self, interface_number: u8) -> Result<I, Error> {
        if self.interfaces.contains_key(interface_number) {
            Ok(self.interfaces[interface_number])
        } else {
            Err(Error::InvalidState)
        }
    }

    /// The handles once the device is open.
    pub open spec fn after_open(self, device: D) -> HandlesView<D, I> {
        HandlesView { device: Some(device), ..self }
    }

    /// The handles of a device that is closed: none.
    pub open spec fn none() -> HandlesView<D, I> {
        HandlesView { device: None, interfaces: Map::empty() }
    }

    /// The handles once an interface is claimed.
    pub open spec fn after_claim(self, interface_number: u8, interface: I) -> HandlesView<D, I> {
        HandlesView { interfaces: self.interfaces.insert(interface_number, interface), ..self }
    }

    /// The handles once an interface is given up.
    pub open spec fn after_release(self, interface_number: u8) -> HandlesView<D, I> {
        HandlesView { interfaces: self.interfaces.remove(interface_number), ..self }
    }

    /// The handles once the device is reset.
    pub open spec fn after_reset(self) -> HandlesView<D, I> {
        HandlesView { interfaces: Map::empty(), ..self }
    }

    /// The interface through which a control transfer goes, or none for the device itself.
    ///
    /// A request to an interface uses the handle of that interface if it is claimed. Where the
    /// system has no control transfers at device level (`interface_only`), any other request
    /// goes through the claimed interface of the lowest number, and is not supported without one.
    pub open spec fn control_route(
        self,
        setup: UsbControlTransferParameters,
        interface_only: bool,
    ) -> Result<Option<u8>, Error> {
        let own = (setup.index % 256) as u8;
        if setup.recipient == UsbRecipient::Interface && self.interfaces.contains_key(own) {
            Ok(Some(own))
        } else if !interface_only {
            Ok(None)
        } else {
            match lowest_from(self.interfaces, 0) {
                Some(n) => Ok(Some(n)),
                None => Err(Error::NotSupported),
            }
        }
    }
}

impl<D, I> NativeDevice<D, I> {
    /// A device that is not open.
    pub fn new() -> (native: Self)
        ensures
            native@ == HandlesView::<D, I>::none(),
    {
        NativeDevice { device: None, interfaces: HashMap::new() }
    }

    /// The handle of the device, which must be open.
    pub fn device(&self) -> (handle: Result<&D, Error>)
        ensures
            match self@.device_handle() {
                Ok(d) => handle is Ok && *handle->Ok_0 == d,
                Err(error) => handle == Err::<&D, Error>(error),
            },
    {
        match &self.device {
            Some(device) => Ok(device),
            None => Err(Error::InvalidState),
        }
    }

    /// The handle of an interface, which must be claimed.
    pub fn interface(&self, interface_number: u8) -> (handle: Result<&I, Error>)
        ensures
            match self@.interface_handle(interface_number) {
                Ok(i) => handle is Ok && *handle->Ok_0 == i,
                Err(error) => handle == Err::<&I, Error>(error),
            },
    {
        match self.interfaces.get(&interface_number) {
            Some(interface) => Ok(interface),
            None => Err(Error::InvalidState),
        }
    }

    /// Keep the handle of the device once it is open.
    pub fn open(&mut self, device: D)
        ensures
            final(self)@ == old(self)@.after_open(device),
    {
        self.device = Some(device);
    }

    /// Give up every handle, first those of the interfaces.
    pub fn close(&mut self)
        ensures
            final(self)@ == HandlesView::<D, I>::none(),
    {
        self.interfaces.clear();
        self.device = None;
    }

    /// Keep the handle of an interface once it is claimed.
    pub fn claim_interface(&mut self, interface_number: u8, interface: I)
        ensures
            final(self)@ == old(self)@.after_claim(interface_number, interface),
    {
        self.interfaces.insert(interface_number, interface);
    }

    /// Give up the handle of an interface; what comes back, if anything, must be released.
    pub fn release_interface(&mut self, interface_number: u8) -> (handle: Option<I>)
        ensures
            handle == (match old(self)@.interface_handle(interface_number) {
                Ok(i) => Some(i),
                Err(_) => None,
            }),
            final(self)@ == old(self)@.after_release(interface_number),
    {
        let handle = self.interfaces.remove(&interface_number);
        assert(self@.interfaces =~= old(self)@.interfaces.remove(interface_number));
        handle
    }

    /// A reset invalidates claimed interfaces, whether or not the device is open to be reset.
    pub fn reset(&mut self) -> (handle: Result<&D, Error>)
        ensures
            final(self)@ == old(self)@.after_reset(),
            match old(self)@.device_handle() {
                Ok(d) => handle is Ok && *handle->Ok_0 == d,
                Err(error) => handle == Err::<&D, Error>(error),
            },
    {
        self.interfaces.clear();
        self.device()
    }

    /// The interface handle that a control transfer should go through, or none for the
    /// device-level default control endpoint.
    pub fn control_target(
        &self,
        setup: &UsbControlTransferParameters,
        interface_only: bool,
    ) -> (target: Result<Option<&I>, Error>)
        ensures
            match self@.control_route(*setup, interface_only) {
                Err(error) => target == Err::<Option<&I>, Error>(error),
                Ok(None) => target == Ok::<Option<&I>, Error>(None),
                Ok(Some(n)) => {
                    &&& self@.interfaces.contains_key(n)
                    &&& target is Ok
                    &&& target->Ok_0 is Some
                    &&& *target->Ok_0->Some_0 == self@.interfaces[n]
                },
            },
    {
        if setup.recipient == UsbRecipient::Interface {
            let index: u16 = setup.index;
            assert(index & 0xFF == index % 256) by (bit_vector);
            if let Some(interface) = self.interfaces.get(&((index & 0xFF) as u8)) {
                return Ok(Some(interface));
            }
        }
        if !interface_only {
            return Ok(None);
        }
        let mut n: u16 = 0;
        while n < 256
            invariant
                n <= 256,
                interface_only,
                self@.control_route(*setup, true) == (match lowest_from(self@.interfaces, 0) {
                    Some(k) => Ok::<Option<u8>, Error>(Some(k)),
                    None => Err(Error::NotSupported),
                }),
                lowest_from(self@.interfaces, 0) == lowest_from(self@.interfaces, n as int),
            decreases 256 - n,
        {
            if let Some(interface) = self.interfaces.get(&(n as u8)) {
                return Ok(Some(interface));
            }
            n = n + 1;
        }
        Err(Error::NotSupported)
    }
}

/// What is remembered of a device: the id it was given, and what identifies it to users once it
/// is gone.
#[derive(Copy, Clone, Debug)]
pub struct RegistryEntry {
    pub id: u64,
    pub vendor_id: u16,
    pub product_id: u16,
}

/// Maps the keys by which the operating system knows its devices to ids, so that a device keeps
/// its id across enumerations and hotplug events.
pub struct Registry<K> {
    entries: HashMap<K, RegistryEntry>,
}

impl<K> View for Registry<K> {
    type V = Map<K, RegistryEntry>;

    closed spec fn view(&self) -> Map<K, RegistryEntry> {
        self.entries@
    }
}

/// The entries once the device is registered under that key: an entry that exists is kept.
pub open spec fn registered<K>(
    entries: Map<K, RegistryEntry>,
    next: u64,
    key: K,
    vendor_id: u16,
    product_id: u16,
) -> Map<K, RegistryEntry> {
    if entries.contains_key(key) {
        entries
    } else {
        entries.insert(key, RegistryEntry { id: next, vendor_id, product_id })
    }
}

/// The id that is given out next once the device is registered under that key.
pub open spec fn next_after_register<K>(entries: Map<K, RegistryEntry>, next: u64, key: K) -> u64 {
    if entries.contains_key(key) {
        next
    } else {
        next_id(next)
    }
}

impl<K: Eq + Hash> Registry<K> {
    /// The registry of a process that has seen no device.
    pub fn new() -> (registry: Self)
        requires
            obeys_key_model::<K>(),
        ensures
            registry@ == Map::<K, RegistryEntry>::empty(),
    {
        Registry { entries: HashMap::new() }
    }

    /// The id of the device; a device that is seen for the first time gets a fresh one.
    pub fn register(&mut self, ids: &mut DeviceIds, key: K, vendor_id: u16, product_id: u16) -> (id:
        u64)
        requires
            obeys_key_model::<K>(),
        ensures
            final(self)@ == registered(old(self)@, old(ids)@, key, vendor_id, product_id),
            final(ids)@ == next_after_register(old(self)@, old(ids)@, key),
            id == final(self)@[key].id,
    {
        if let Some(entry) = self.entries.get(&key) {
            return entry.id;
        }
        let id: u64 = ids.next_device_id();
        self.entries.insert(key, RegistryEntry { id, vendor_id, product_id });
        id
    }

    /// Forget a device; what comes back is what was remembered of it, if anything.
    pub fn remove(&mut self, key: &K) -> (entry: Option<RegistryEntry>)
        requires
            obeys_key_model::<K>(),
        ensures
            entry == (if old(self)@.contains_key(*key) {
                Some(old(self)@[*key])
            } else {
                None
            }),
            final(self)@ == old(self)@.remove(*key),
    {
        let entry = self.entries.remove(key);
        assert(self@ =~= old(self)@.remove(*key));
        entry
    }
}

/// The major version in a version number 0xJJMN.
pub open spec fn version_major(bcd: u16) -> u8 {
    (bcd / 256) as u8
}

/// The minor version in a version number 0xJJMN.
pub open spec fn version_minor(bcd: u16) -> u8 {
    (bcd / 16 % 16) as u8
}

/// The subminor version in a version number 0xJJMN.
pub open spec fn version_subminor(bcd: u16) -> u8 {
    (bcd % 16) as u8
}

/// The major, minor and subminor version in a version number 0xJJMN.
pub fn split_version(bcd: u16) -> (version: (u8, u8, u8))
    ensures
        version == (version_major(bcd), version_minor(bcd), version_subminor(bcd)),
{
    assert(bcd >> 8 == bcd / 256 && (bcd >> 4) & 0xF == bcd / 16 % 16 && bcd & 0xF == bcd % 16)
        by (bit_vector);
    ((bcd >> 8) as u8, ((bcd >> 4) & 0xF) as u8, (bcd & 0xF) as u8)
}

/// What the operating system says of a device without opening it.
pub struct NativeInfo {
    pub vendor_id: u16,
    pub product_id: u16,
    pub class: u8,
    pub subclass: u8,
    pub protocol: u8,
    pub device_version: u16,
    pub usb_version: u16,
    pub manufacturer: Option<String>,
    pub product: Option<String>,
    pub serial_number: Option<String>,
}

/// View of a [`NativeInfo`].
#[verifier::ext_equal]
pub struct InfoView {
    pub vendor_id: u16,
    pub product_id: u16,
    pub class: u8,
    pub subclass: u8,
    pub protocol: u8,
    pub device_version: u16,
    pub usb_version: u16,
    pub manufacturer: Option<Seq<char>>,
    pub product: Option<Seq<char>>,
    pub serial_number: Option<Seq<char>>,
}

impl View for NativeInfo {
    type V = InfoView;

    open spec fn view(&self) -> InfoView {
        InfoView {
            vendor_id: self.vendor_id,
            product_id: self.product_id,
            class: self.class,
            subclass: self.subclass,
            protocol: self.protocol,
            device_version: self.device_version,
            usb_version: self.usb_version,
            manufacturer: text(self.manufacturer),
            product: text(self.product),
            serial_number: text(self.serial_number),
        }
    }
}

/// What was read from a device by opening it.
pub struct NativeReadings {
    pub configurations: Vec<UsbConfiguration>,
    pub active_configuration_value: Option<u8>,
    pub url: Option<String>,
}

/// View of [`NativeReadings`].
#[verifier::ext_equal]
pub struct ReadingsView {
    pub configurations: Seq<ConfigurationView>,
    pub active_configuration_value: Option<u8>,
    pub url: Option<Seq<char>>,
}

impl View for NativeReadings {
    type V = ReadingsView;

    open spec fn view(&self) -> ReadingsView {
        ReadingsView {
            configurations: configuration_views(self.configurations@),
            active_configuration_value: self.active_configuration_value,
            url: text(self.url),
        }
    }
}

/// A device that the operating system reports, under its key, with what was read from it; nothing
/// was where it cannot be opened.
pub struct NativeFound<K> {
    pub key: K,
    pub info: NativeInfo,
    pub readings: Option<NativeReadings>,
}

/// View of a [`NativeFound`].
#[verifier::ext_equal]
#[verifier::reject_recursive_types(K)]
pub struct FoundView<K> {
    pub key: K,
    pub info: InfoView,
    pub readings: Option<ReadingsView>,
}

impl<K> View for NativeFound<K> {
    type V = FoundView<K>;

    open spec fn view(&self) -> FoundView<K> {
        FoundView {
            key: self.key,
            info: self.info@,
            readings: match self.readings {
                Some(readings) => Some(readings@),
                None => None,
            },
        }
    }
}

/// The views of a list of devices that were found.
pub open spec fn found_views<K>(found: Seq<NativeFound<K>>) -> Seq<FoundView<K>> {
    Seq::new(found.len(), |i: int| found[i]@)
}

/// Whether devices of that class are listed: hubs are not.
pub fn is_listed(class: u8) -> (listed: bool)
    ensures
        listed == (class != HUB_CLASS),
{
    class != HUB_CLASS
}

/// Whether a device of that USB version is asked for its landing page.
pub fn has_landing_page(usb_version: u16) -> (asked: bool)
    ensures
        asked == (usb_version >= FIRST_WEBUSB_VERSION),
{
    usb_version >= FIRST_WEBUSB_VERSION
}

/// The data of a device. One that cannot be opened has no configurations and no landing page; one
/// that is older than the WebUSB platform capability has no landing page.
pub open spec fn native_data(info: InfoView, readings: Option<ReadingsView>) -> DataView {
    DataView {
        configurations: match readings {
            Some(r) => r.configurations,
            None => Seq::empty(),
        },
        active_configuration_value: match readings {
            Some(r) => r.active_configuration_value,
            None => None,
        },
        device_class: info.class,
        device_subclass: info.subclass,
        device_protocol: info.protocol,
        device_version_major: version_major(info.device_version),
        device_version_minor: version_minor(info.device_version),
        device_version_subminor: version_subminor(info.device_version),
        manufacturer_name: info.manufacturer,
        product_id: info.product_id,
        product_name: info.product,
        serial_number: info.serial_number,
        usb_version_major: version_major(info.usb_version),
        usb_version_minor: version_minor(info.usb_version),
        usb_version_subminor: version_subminor(info.usb_version),
        vendor_id: info.vendor_id,
        url: match readings {
            Some(r) => if info.usb_version >= FIRST_WEBUSB_VERSION {
                r.url
            } else {
                None
            },
            None => None,
        },
    }
}

/// The data of a device.
pub fn device_data(info: NativeInfo, readings: Option<NativeReadings>) -> (data: DeviceData)
    ensures
        data@ == native_data(
            info@,
            match readings {
                Some(r) => Some(r@),
                None => None,
            },
        ),
{
    let (device_version_major, device_version_minor, device_version_subminor) = split_version(
        info.device_version,
    );
    let (usb_version_major, usb_version_minor, usb_version_subminor) = split_version(
        info.usb_version,
    );
    let (configurations, active_configuration_value, url) = match readings {
        Some(readings) => {
            let url = if has_landing_page(info.usb_version) {
                readings.url
            } else {
                None
            };
            (readings.configurations, readings.active_configuration_value, url)
        },
        None => (Vec::new(), None, None),
    };
    let data = DeviceData {
        configurations,
        active_configuration_value,
        device_class: info.class,
        device_subclass: info.subclass,
        device_protocol: info.protocol,
        device_version_major,
        device_version_minor,
        device_version_subminor,
        manufacturer_name: info.manufacturer,
        product_id: info.product_id,
        product_name: info.product,
        serial_number: info.serial_number,
        usb_version_major,
        usb_version_minor,
        usb_version_subminor,
        vendor_id: info.vendor_id,
        url,
    };
    proof {
        assert(readings is None ==> configuration_views(data.configurations@)
            =~= Seq::<ConfigurationView>::empty());
    }
    data
}

/// The entries once the device that was found is registered.
pub open spec fn after_found<K>(
    entries: Map<K, RegistryEntry>,
    next: u64,
    found: FoundView<K>,
) -> Map<K, RegistryEntry> {
    registered(entries, next, found.key, found.info.vendor_id, found.info.product_id)
}

/// The device that was found, with the id under which it is registered.
pub open spec fn native_device<K>(
    entries: Map<K, RegistryEntry>,
    next: u64,
    found: FoundView<K>,
) -> DeviceView {
    device_from_data(
        after_found(entries, next, found)[found.key].id,
        native_data(found.info, found.readings),
    )
}

/// Register the device that was found and make it available to users, closed.
pub fn build_device<K: Eq + Hash>(
    registry: &mut Registry<K>,
    ids: &mut DeviceIds,
    found: NativeFound<K>,
) -> (device: UsbDevice)
    requires
        obeys_key_model::<K>(),
    ensures
        final(registry)@ == after_found(old(registry)@, old(ids)@, found@),
        final(ids)@ == next_after_register(old(registry)@, old(ids)@, found@.key),
        device@ == native_device(old(registry)@, old(ids)@, found@),
{
    let id: u64 = registry.register(
        ids,
        found.key,
        found.info.vendor_id,
        found.info.product_id,
    );
    UsbDevice::from_parts(id, device_data(found.info, found.readings))
}

/// The entries, the next id and the devices to list once all that was found has been gone
/// through in order: hubs are passed over, everything else is registered and listed.
pub open spec fn enumeration<K>(
    entries: Map<K, RegistryEntry>,
    next: u64,
    found: Seq<FoundView<K>>,
) -> (Map<K, RegistryEntry>, u64, Seq<DeviceView>)
    decreases found.len(),
{
    if found.len() == 0 {
        (entries, next, Seq::empty())
    } else {
        let (entries, next, devices) = enumeration(entries, next, found.drop_last());
        let last = found.last();
        if last.info.class == HUB_CLASS {
            (entries, next, devices)
        } else {
            (
                after_found(entries, next, last),
                next_after_register(entries, next, last.key),
                devices.push(native_device(entries, next, last)),
            )
        }
    }
}

/// The devices to list, of all that were found. Devices that cannot be opened are still listed,
/// with empty configuration data.
pub fn enumerate<K: Eq + Hash>(
    registry: &mut Registry<K>,
    ids: &mut DeviceIds,
    found: Vec<NativeFound<K>>,
) -> (devices: Vec<UsbDevice>)
    requires
        obeys_key_model::<K>(),
    ensures
        (final(registry)@, final(ids)@, device_views(devices@)) == enumeration(
            old(registry)@,
            old(ids)@,
            found_views(found@),
        ),
{
    let ghost all = found_views(found@);
    let mut devices: Vec<UsbDevice> = Vec::new();
    assert(device_views(devices@) =~= Seq::<DeviceView>::empty());
    assert(all.take(0) =~= Seq::<FoundView<K>>::empty());
    for one in iter: found
        invariant
            obeys_key_model::<K>(),
            all == found_views(iter.seq()),
            (registry@, ids@, device_views(devices@)) == enumeration(
                old(registry)@,
                old(ids)@,
                all.take(iter.index() as int),
            ),
    {
        let ghost before = devices@;
        let ghost n = iter.index() as int;
        assert(all.take(n + 1).drop_last() =~= all.take(n));
        assert(all.take(n + 1).last() == one@);
        if is_listed(one.info.class) {
            devices.push(build_device(registry, ids, one));
            assert(device_views(devices@) =~= device_views(before).push(devices@.last()@));
        }
    }
    assert(all.take(all.len() as int) =~= all);
    devices
}

/// What the operating system reports while devices are watched.
pub enum HotplugNotice<K> {
    Connected(NativeFound<K>),
    Disconnected(K),
}

/// View of a [`HotplugNotice`].
#[verifier::ext_equal]
#[verifier::reject_recursive_types(K)]
pub enum NoticeView<K> {
    Connected(FoundView<K>),
    Disconnected(K),
}

impl<K> View for HotplugNotice<K> {
    type V = NoticeView<K>;

    open spec fn view(&self) -> NoticeView<K> {
        match *self {
            HotplugNotice::Connected(found) => NoticeView::Connected(found@),
            HotplugNotice::Disconnected(key) => NoticeView::Disconnected(key),
        }
    }
}

/// The views of a list of notices.
pub open spec fn notice_views<K>(notices: Seq<HotplugNotice<K>>) -> Seq<NoticeView<K>> {
    Seq::new(notices.len(), |i: int| notices[i]@)
}

impl<K> NoticeView<K> {
    /// The event for the notice, if it makes one: a hub that is connected makes none, nor does
    /// the removal of a device that is not registered.
    pub open spec fn event(self, entries: Map<K, RegistryEntry>, next: u64) -> Option<EventView> {
        match self {
            NoticeView::Connected(found) => if found.info.class == HUB_CLASS {
                None
            } else {
                Some(EventView::Connect(native_device(entries, next, found)))
            },
            NoticeView::Disconnected(key) => if entries.contains_key(key) {
                Some(
                    EventView::Disconnect {
                        id: entries[key].id,
                        vendor_id: entries[key].vendor_id,
                        product_id: entries[key].product_id,
                    },
                )
            } else {
                None
            },
        }
    }

    /// The entries after the notice.
    pub open spec fn entries_after(self, entries: Map<K, RegistryEntry>, next: u64) -> Map<
        K,
        RegistryEntry,
    > {
        match self {
            NoticeView::Connected(found) => if found.info.class == HUB_CLASS {
                entries
            } else {
                after_found(entries, next, found)
            },
            NoticeView::Disconnected(key) => entries.remove(key),
        }
    }

    /// The id that is given out next after the notice.
    pub open spec fn next_after(self, entries: Map<K, RegistryEntry>, next: u64) -> u64 {
        match self {
            NoticeView::Connected(found) => if found.info.class == HUB_CLASS {
                next
            } else {
                next_after_register(entries, next, found.key)
            },
            NoticeView::Disconnected(_) => next,
        }
    }
}

/// The event is that one, or there is none where there should be none.
pub open spec fn is_event(event: Option<UsbConnectionEvent>, wanted: Option<EventView>) -> bool {
    match wanted {
        Some(view) => event is Some && event->Some_0@ == view,
        None => event is None,
    }
}

/// The event for a notice, if it makes one, and the registry after it.
pub fn hotplug_event<K: Eq + Hash>(
    registry: &mut Registry<K>,
    ids: &mut DeviceIds,
    notice: HotplugNotice<K>,
) -> (event: Option<UsbConnectionEvent>)
    requires
        obeys_key_model::<K>(),
    ensures
        is_event(event, notice@.event(old(registry)@, old(ids)@)),
        final(registry)@ == notice@.entries_after(old(registry)@, old(ids)@),
        final(ids)@ == notice@.next_after(old(registry)@, old(ids)@),
{
    match notice {
        HotplugNotice::Connected(found) => {
            if !is_listed(found.info.class) {
                return None;
            }
            Some(UsbConnectionEvent::Connect(build_device(registry, ids, found)))
        },
        HotplugNotice::Disconnected(key) => match registry.remove(&key) {
            Some(entry) => Some(
                UsbConnectionEvent::Disconnect {
                    id: entry.id,
                    vendor_id: entry.vendor_id,
                    product_id: entry.product_id,
                },
            ),
            None => None,
        },
    }
}

/// The place of the first notice that makes an event.
pub open spec fn first_event<K>(
    entries: Map<K, RegistryEntry>,
    next: u64,
    notices: Seq<NoticeView<K>>,
) -> Option<int>
    decreases notices.len(),
{
    if notices.len() == 0 {
        None
    } else if notices[0].event(entries, next) is Some {
        Some(0)
    } else {
        match first_event(entries, next, notices.drop_first()) {
            Some(i) => Some(i + 1),
            None => None,
        }
    }
}

/// A notice that makes no event changes nothing.
pub proof fn lemma_skipped_notice<K>(
    entries: Map<K, RegistryEntry>,
    next: u64,
    notice: NoticeView<K>,
)
    requires
        notice.event(entries, next) is None,
    ensures
        notice.entries_after(entries, next) == entries,
        notice.next_after(entries, next) == next,
{
    if let NoticeView::Disconnected(key) = notice {
        assert(entries.remove(key) =~= entries);
    }
}

/// Going through the notices gives that event, that registry and that next id, and leaves those
/// notices.
pub open spec fn reports_next<K>(
    entries: Map<K, RegistryEntry>,
    next: u64,
    notices: Seq<HotplugNotice<K>>,
    event: Option<UsbConnectionEvent>,
    after: Map<K, RegistryEntry>,
    after_next: u64,
    rest: Seq<HotplugNotice<K>>,
) -> bool {
    match first_event(entries, next, notice_views(notices)) {
        Some(i) => {
            let notice = notice_views(notices)[i];
            &&& is_event(event, notice.event(entries, next))
            &&& after == notice.entries_after(entries, next)
            &&& after_next == notice.next_after(entries, next)
            &&& rest == notices.skip(i + 1)
        },
        None => {
            &&& event is None
            &&& after == entries
            &&& after_next == next
            &&& rest == Seq::<HotplugNotice<K>>::empty()
        },
    }
}

/// Go through notices in order up to the first that makes an event, which is the answer. Where
/// none does, all of them are gone through and there is no event yet. What was gone through is
/// taken out; what follows the event waits for the next call.
pub fn next_event<K: Eq + Hash>(
    registry: &mut Registry<K>,
    ids: &mut DeviceIds,
    notices: &mut Vec<HotplugNotice<K>>,
) -> (event: Option<UsbConnectionEvent>)
    requires
        obeys_key_model::<K>(),
    ensures
        reports_next(
            old(registry)@,
            old(ids)@,
            old(notices)@,
            event,
            final(registry)@,
            final(ids)@,
            final(notices)@,
        ),
{
    let ghost entries = registry@;
    let ghost next = ids@;
    let ghost all = notices@;
    let ghost views = notice_views(all);
    let ghost mut n: int = 0;
    assert(all.skip(0) =~= all);
    assert(notice_views(all.skip(0)) =~= views);
    while notices.len() > 0
        invariant
            obeys_key_model::<K>(),
            0 <= n <= all.len(),
            notices@ == all.skip(n),
            registry@ == entries,
            ids@ == next,
            views == notice_views(all),
            entries == old(registry)@,
            next == old(ids)@,
            all == old(notices)@,
            first_event(entries, next, views) == (match first_event(
                entries,
                next,
                notice_views(all.skip(n)),
            ) {
                Some(i) => Some(i + n),
                None => None::<int>,
            }),
        decreases notices@.len(),
    {
        let ghost rest = notice_views(all.skip(n));
        assert(rest[0] == all[n]@);
        assert(rest.drop_first() =~= notice_views(all.skip(n + 1)));
        let notice = notices.remove(0);
        assert(notices@ =~= all.skip(n + 1));
        assert(notice@ == rest[0]);
        let event = hotplug_event(registry, ids, notice);
        if event.is_some() {
            return event;
        }
        proof {
            lemma_skipped_notice(entries, next, rest[0]);
            n = n + 1;
        }
    }
    assert(notice_views(all.skip(n)).len() == 0);
    assert(notices@ =~= Seq::<HotplugNotice<K>>::empty());
    None
}

} // verus!
