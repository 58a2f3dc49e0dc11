//! The entry point: enumeration, selection and events.
use crate::device::{DeviceView, UsbDevice};
use crate::error::Error;
use crate::events::UsbEvents;
use crate::filter::{device_views, filter_views, find_matching_device, first_admitted, FilterView,
    UsbDeviceFilter};
use crate::mock::{empty_bus, subscribes, MockController};
use vstd::prelude::*;

verus! {

/// Where the devices of a [`Usb`] are.
#[derive(Copy, Clone, Debug, PartialEq, Eq, Structural)]
pub enum Backend {
    /// The operating system's real USB devices.
    Native,
    /// An in-memory mock bus.
    Mock,
}

/// The WebUSB entry point, equivalent of `navigator.usb`.
///
/// Enumeration and events of real devices are input and output of the program around this
/// library; the methods here that take a [`MockController`] serve the mock bus.
#[derive(Debug)]
pub struct Usb {
    backend: Backend,
}

impl View for Usb {
    type V = Backend;

    closed spec fn view(&self) -> Backend {
        self.backend
    }
}

/// Requesting a device has that result: the first of those listed that the filters admit.
pub open spec fn requests(
    filters: Seq<FilterView>,
    listing: Seq<DeviceView>,
    result: Result<UsbDevice, Error>,
) -> bool {
    match first_admitted(filters, listing) {
        Some(i) => result is Ok && result->Ok_0@ == listing[i],
        None => result == Err::<UsbDevice, Error>(Error::NotFound),
    }
}

impl Usb {
    /// A `Usb` backed by the operating system's real USB devices.
    pub fn new() -> (result: Result<Self, Error>)
        ensures
            result is Ok,
            result->Ok_0@ == Backend::Native,
    {
        Ok(Usb { backend: Backend::Native })
    }

    /// A `Usb` backed by an in-memory mock bus, along with the controller used to plug and unplug
    /// mock devices.
    pub fn mock() -> (pair: (Self, MockController))
        ensures
            pair.0@ == Backend::Mock,
            pair.1@ == empty_bus(),
    {
        (Usb { backend: Backend::Mock }, MockController::new())
    }

    /// Where the devices are.
    pub fn backend(&self) -> (backend: Backend)
        ensures
            backend == self@,
    {
        self.backend
    }

    /// The devices that are connected, in the order in which they were connected.
    pub fn devices(&self, bus: &MockController) -> (result: Result<Vec<UsbDevice>, Error>)
        requires
            self@ == Backend::Mock,
        ensures
            result is Ok,
            device_views(result->Ok_0@) == bus@.listing(),
    {
        Ok(bus.enumerate())
    }

    /// The first connected device that any of the filters selects. An empty filter list selects
    /// every device.
    pub fn request_device(&self, bus: &MockController, filters: &[UsbDeviceFilter]) -> (result:
        Result<UsbDevice, Error>)
        requires
            self@ == Backend::Mock,
        ensures
            requests(filter_views(filters@), bus@.listing(), result),
    {
        let mut devices = bus.enumerate();
        match find_matching_device(&devices, filters) {
            Ok(i) => {
                assert(device_views(devices@)[i as int] == devices@[i as int]@);
                Ok(devices.swap_remove(i))
            },
            Err(error) => Err(error),
        }
    }

    /// Subscribe to connect and disconnect events.
    pub fn events(&self, bus: &mut MockController) -> (result: Result<UsbEvents, Error>)
        requires
            self@ == Backend::Mock,
        ensures
            result is Ok,
            subscribes(old(bus)@, result->Ok_0@, final(bus)@),
    {
        Ok(bus.subscribe())
    }
}

} // verus!
