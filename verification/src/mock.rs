//! In-memory mock backend for tests and hardware-free development.
//!
//! A [`MockController`] holds the devices that are plugged into the mock bus and plugs and
//! unplugs them. The operations of a [`UsbDevice`] on the bus find the device there by its id; a
//! device that has been unplugged is found no more and is reported as disconnected.
use crate::device::{device_from_data, DataView, DeviceData, DeviceView, UsbDevice};
use crate::error::Error;
use crate::events::{announced, new_subscription, EventView, Subscribers, SubscriptionView,
    UsbConnectionEvent, UsbEvents};
use crate::filter::device_views;
use crate::ids::{next_id, DeviceIds};
use crate::search::{first_index, lemma_first_index_absent, lemma_first_index_found};
use crate::transfer::{received, TransferOutcome};
use crate::types::{clone_configurations, configuration_views, endpoint_address,
    spec_endpoint_address, text, ConfigurationView, Direction, UsbConfiguration,
    UsbControlTransferParameters, UsbTransferStatus};
use std::collections::{HashMap, HashSet};
use vstd::prelude::*;

verus! {

/// Description of a mock USB device.
///
/// `in_data` maps an endpoint number to the canned payload returned by IN transfers on that
/// endpoint. `stalled_endpoints` lists endpoint addresses (`0x80 | n` for IN, `n` for OUT) that
/// start out halted; a halted endpoint reports `stall` until its halt is cleared.
#[derive(Clone, Debug)]
pub struct MockDeviceConfig {
    pub vendor_id: u16,
    pub product_id: u16,
    pub device_class: u8,
    pub device_subclass: u8,
    pub device_protocol: u8,
    pub device_version_major: u8,
    pub device_version_minor: u8,
    pub device_version_subminor: u8,
    pub usb_version_major: u8,
    pub usb_version_minor: u8,
    pub usb_version_subminor: u8,
    pub manufacturer_name: Option<String>,
    pub product_name: Option<String>,
    pub serial_number: Option<String>,
    pub configurations: Vec<UsbConfiguration>,
    pub active_configuration: Option<u8>,
    pub url: Option<String>,
    pub in_data: HashMap<u8, Vec<u8>>,
    pub stalled_endpoints: Vec<u8>,
    /// Endpoint addresses whose transfers report `babble`.
    pub babble_endpoints: Vec<u8>,
}

/// View of a [`MockDeviceConfig`]: what the bus tells about the device, and how the device
/// behaves in transfers.
#[verifier::ext_equal]
pub struct MockConfigView {
    pub data: DataView,
    pub in_data: Map<u8, Seq<u8>>,
    pub stalled_endpoints: Seq<u8>,
    pub babble_endpoints: Seq<u8>,
}

/// The payloads of a map from endpoint numbers.
pub open spec fn payloads(in_data: Map<u8, Vec<u8>>) -> Map<u8, Seq<u8>> {
    in_data.map_values(|payload: Vec<u8>| payload@)
}

impl View for MockDeviceConfig {
    type V = MockConfigView;

    open spec fn view(&self) -> MockConfigView {
        MockConfigView {
            data: DataView {
                configurations: configuration_views(self.configurations@),
                active_configuration_value: self.active_configuration,
                device_class: self.device_class,
                device_subclass: self.device_subclass,
                device_protocol: self.device_protocol,
                device_version_major: self.device_version_major,
                device_version_minor: self.device_version_minor,
                device_version_subminor: self.device_version_subminor,
                manufacturer_name: text(self.manufacturer_name),
                product_id: self.product_id,
                product_name: text(self.product_name),
                serial_number: text(self.serial_number),
                usb_version_major: self.usb_version_major,
                usb_version_minor: self.usb_version_minor,
                usb_version_subminor: self.usb_version_subminor,
                vendor_id: self.vendor_id,
                url: text(self.url),
            },
            in_data: payloads(self.in_data@),
            stalled_endpoints: self.stalled_endpoints@,
            babble_endpoints: self.babble_endpoints@,
        }
    }
}

/// The data of a device whose every field is zero, empty or none.
pub open spec fn blank_data() -> DataView {
    DataView {
        configurations: Seq::empty(),
        active_configuration_value: None,
        device_class: 0,
        device_subclass: 0,
        device_protocol: 0,
        device_version_major: 0,
        device_version_minor: 0,
        device_version_subminor: 0,
        manufacturer_name: None,
        product_id: 0,
        product_name: None,
        serial_number: None,
        usb_version_major: 0,
        usb_version_minor: 0,
        usb_version_subminor: 0,
        vendor_id: 0,
        url: None,
    }
}

impl Default for MockDeviceConfig {
    /// A device without configurations, payloads or identity.
    fn default() -> (config: Self)
        ensures
            config@ == (MockConfigView {
                data: blank_data(),
                in_data: Map::empty(),
                stalled_endpoints: Seq::empty(),
                babble_endpoints: Seq::empty(),
            }),
    {
        let config = MockDeviceConfig {
            vendor_id: 0,
            product_id: 0,
            device_class: 0,
            device_subclass: 0,
            device_protocol: 0,
            device_version_major: 0,
            device_version_minor: 0,
            device_version_subminor: 0,
            usb_version_major: 0,
            usb_version_minor: 0,
            usb_version_subminor: 0,
            manufacturer_name: None,
            product_name: None,
            serial_number: None,
            configurations: Vec::new(),
            active_configuration: None,
            url: None,
            in_data: HashMap::new(),
            stalled_endpoints: Vec::new(),
            babble_endpoints: Vec::new(),
        };
        assert(config@.data.configurations =~= Seq::<ConfigurationView>::empty());
        assert(config@.in_data =~= Map::<u8, Seq<u8>>::empty());
        config
    }
}

/// A device on the mock bus.
#[derive(Debug)]
pub struct MockDeviceState {
    config: MockDeviceConfig,
    halted: HashSet<u8>,
    written: Vec<(u8, Vec<u8>)>,
}

/// View of a [`MockDeviceState`].
#[verifier::ext_equal]
pub struct MockStateView {
    pub config: MockConfigView,
    /// The addresses of the endpoints that are halted.
    pub halted: Set<u8>,
    /// Everything written to the device so far, as endpoint numbers and data.
    pub written: Seq<(u8, Seq<u8>)>,
}

/// The contents of a log of writes.
pub open spec fn write_log(written: Seq<(u8, Vec<u8>)>) -> Seq<(u8, Seq<u8>)> {
    Seq::new(written.len(), |i: int| (written[i].0, written[i].1@))
}

impl View for MockDeviceState {
    type V = MockStateView;

    closed spec fn view(&self) -> MockStateView {
        MockStateView {
            config: self.config@,
            halted: self.halted@,
            written: write_log(self.written@),
        }
    }
}

/// The device that a user sees for a mock device of that id.
pub open spec fn mock_device(id: u64, config: MockConfigView) -> DeviceView {
    device_from_data(id, config.data)
}

/// The bytes by which a control transfer is recognised: request, value and index, the latter two
/// low byte first.
pub open spec fn setup_bytes(setup: UsbControlTransferParameters) -> Seq<u8> {
    seq![
        setup.request,
        (setup.value % 256) as u8,
        (setup.value / 256) as u8,
        (setup.index % 256) as u8,
        (setup.index / 256) as u8,
    ]
}

/// The first `length` bytes of the setup bytes repeated without end.
pub open spec fn setup_echo(setup: UsbControlTransferParameters, length: nat) -> Seq<u8> {
    Seq::new(length, |i: int| setup_bytes(setup)[i % 5])
}

/// The first `length` bytes of the data, or all of it where it is shorter.
pub open spec fn truncated(data: Seq<u8>, length: nat) -> Seq<u8> {
    if length <= data.len() {
        data.take(length as int)
    } else {
        data
    }
}

impl MockStateView {
    /// A device as it is when it is plugged in.
    pub open spec fn fresh(config: MockConfigView) -> MockStateView {
        MockStateView { config, halted: config.stalled_endpoints.to_set(), written: Seq::empty() }
    }

    /// The status of a transfer on the endpoint of that address: a halt comes before babble.
    pub open spec fn transfer_status(self, address: u8) -> UsbTransferStatus {
        if self.halted.contains(address) {
            UsbTransferStatus::Stall
        } else if self.config.babble_endpoints.contains(address) {
            UsbTransferStatus::Babble
        } else {
            UsbTransferStatus::Completed
        }
    }

    /// The canned payload of an IN endpoint.
    pub open spec fn payload(self, endpoint_number: u8) -> Seq<u8> {
        if self.config.in_data.contains_key(endpoint_number) {
            self.config.in_data[endpoint_number]
        } else {
            Seq::empty()
        }
    }

    /// What an IN transfer of that length delivers.
    pub open spec fn read(self, endpoint_number: u8, length: nat) -> (UsbTransferStatus, Seq<u8>) {
        let status = self.transfer_status(spec_endpoint_address(Direction::In, endpoint_number));
        (
            status,
            if status == UsbTransferStatus::Completed {
                truncated(self.payload(endpoint_number), length)
            } else {
                Seq::empty()
            },
        )
    }

    /// The status of an OUT transfer.
    pub open spec fn write_status(self, endpoint_number: u8) -> UsbTransferStatus {
        self.transfer_status(spec_endpoint_address(Direction::Out, endpoint_number))
    }

    /// The device after data has been written to an endpoint.
    pub open spec fn after_write(self, endpoint_number: u8, data: Seq<u8>) -> MockStateView {
        MockStateView { written: self.written.push((endpoint_number, data)), ..self }
    }

    /// The device after an OUT transfer: only one that completes leaves a trace.
    pub open spec fn after_transfer_out(self, endpoint_number: u8, data: Seq<u8>) -> MockStateView {
        if self.write_status(endpoint_number) == UsbTransferStatus::Completed {
            self.after_write(endpoint_number, data)
        } else {
            self
        }
    }

    /// The device with an endpoint halted.
    pub open spec fn with_halt(self, address: u8) -> MockStateView {
        MockStateView { halted: self.halted.insert(address), ..self }
    }

    /// The device with the halt of an endpoint cleared.
    pub open spec fn without_halt(self, address: u8) -> MockStateView {
        MockStateView { halted: self.halted.remove(address), ..self }
    }
}

/// View of a [`MockController`]: the devices on the bus, in the order in which they were plugged
/// in, the subscriptions, and those that ended with the latest event because they refused it.
#[verifier::ext_equal]
pub struct BusView {
    pub devices: Seq<(u64, MockStateView)>,
    pub subscribers: Seq<SubscriptionView>,
    pub gone: Seq<SubscriptionView>,
}

/// A bus without devices or subscriptions.
pub open spec fn empty_bus() -> BusView {
    BusView { devices: Seq::empty(), subscribers: Seq::empty(), gone: Seq::empty() }
}

impl BusView {
    /// The ids of the devices on the bus.
    pub open spec fn ids(self) -> Seq<u64> {
        Seq::new(self.devices.len(), |i: int| self.devices[i].0)
    }

    /// The place of a device on the bus.
    pub open spec fn index_of(self, id: u64) -> Option<int> {
        first_index(self.ids(), id)
    }

    /// Whether a device is plugged in.
    pub open spec fn connected(self, id: u64) -> bool {
        self.index_of(id) is Some
    }

    /// How the bus answers a request to a device that needs nothing but the device to be there.
    pub open spec fn connection(self, id: u64) -> Result<(), Error> {
        if self.connected(id) {
            Ok(())
        } else {
            Err(Error::Disconnected)
        }
    }

    /// The state of a device on the bus.
    pub open spec fn state_of(self, id: u64) -> MockStateView
        recommends
            self.connected(id),
    {
        self.devices[self.index_of(id)->Some_0].1
    }

    /// The bus with another state for a device that is on it.
    pub open spec fn with_state(self, id: u64, state: MockStateView) -> BusView {
        match self.index_of(id) {
            Some(i) => BusView { devices: self.devices.update(i, (id, state)), ..self },
            None => self,
        }
    }

    /// The bus with every subscription ended.
    pub open spec fn without_subscriptions(self) -> BusView {
        BusView { subscribers: Seq::empty(), gone: Seq::empty(), ..self }
    }

    /// What a user sees of the devices on the bus.
    pub open spec fn listing(self) -> Seq<DeviceView> {
        Seq::new(
            self.devices.len(),
            |i: int| mock_device(self.devices[i].0, self.devices[i].1.config),
        )
    }
}

/// Whether the byte is in the list.
fn contains_byte(bytes: &Vec<u8>, byte: u8) -> (found: bool)
    ensures
        found == bytes@.contains(byte),
{
    let mut i: usize = 0;
    while i < bytes.len()
        invariant
            i <= bytes@.len(),
            forall|j: int| 0 <= j < i ==> bytes@[j] != byte,
        decreases bytes@.len() - i,
    {
        if bytes[i] == byte {
            return true;
        }
        i = i + 1;
    }
    false
}

/// The bytes of a list as a set.
fn collect_bytes(bytes: &Vec<u8>) -> (set: HashSet<u8>)
    ensures
        set@ == bytes@.to_set(),
{
    let mut set: HashSet<u8> = HashSet::new();
    let mut i: usize = 0;
    while i < bytes.len()
        invariant
            i <= bytes@.len(),
            set@ == bytes@.take(i as int).to_set(),
        decreases bytes@.len() - i,
    {
        let ghost before = set@;
        set.insert(bytes[i]);
        proof {
            let longer = bytes@.take(i + 1);
            let shorter = bytes@.take(i as int);
            assert(longer =~= shorter.push(bytes@[i as int]));
            assert forall|b: u8| longer.contains(b) implies before.insert(bytes@[i as int]).contains(
                b,
            ) by {
                let k = choose|k: int| 0 <= k < longer.len() && longer[k] == b;
                if k < i {
                    assert(shorter[k] == b);
                }
            }
            assert forall|b: u8| before.insert(bytes@[i as int]).contains(b) implies longer.contains(
                b,
            ) by {
                if b == bytes@[i as int] {
                    assert(longer[i as int] == b);
                } else {
                    let k = choose|k: int| 0 <= k < shorter.len() && shorter[k] == b;
                    assert(longer[k] == b);
                }
            }
            assert(set@ =~= longer.to_set());
        }
        i = i + 1;
    }
    assert(bytes@.take(i as int) =~= bytes@);
    set
}

/// A copy of the bytes.
fn copy_bytes(bytes: &[u8]) -> (copy: Vec<u8>)
    ensures
        copy@ == bytes@,
{
    let mut copy: Vec<u8> = Vec::new();
    copy.extend_from_slice(bytes);
    assert(copy@ =~= bytes@);
    copy
}

/// The device that a user gets for a mock device of that id.
pub fn build_device(id: u64, config: &MockDeviceConfig) -> (device: UsbDevice)
    ensures
        device@ == mock_device(id, config@),
{
    let data = DeviceData {
        configurations: clone_configurations(&config.configurations),
        active_configuration_value: config.active_configuration,
        device_class: config.device_class,
        device_subclass: config.device_subclass,
        device_protocol: config.device_protocol,
        device_version_major: config.device_version_major,
        device_version_minor: config.device_version_minor,
        device_version_subminor: config.device_version_subminor,
        manufacturer_name: config.manufacturer_name.clone(),
        product_id: config.product_id,
        product_name: config.product_name.clone(),
        serial_number: config.serial_number.clone(),
        usb_version_major: config.usb_version_major,
        usb_version_minor: config.usb_version_minor,
        usb_version_subminor: config.usb_version_subminor,
        vendor_id: config.vendor_id,
        url: config.url.clone(),
    };
    UsbDevice::from_parts(id, data)
}

/// The mock bus. Plugs and unplugs devices, and inspects what was written to them.
pub struct MockController {
    devices: Vec<(u64, MockDeviceState)>,
    subscribers: Subscribers,
    gone: Subscribers,
}

impl View for MockController {
    type V = BusView;

    closed spec fn view(&self) -> BusView {
        BusView {
            devices: Seq::new(
                self.devices@.len(),
                |i: int| (self.devices@[i].0, self.devices@[i].1@),
            ),
            subscribers: self.subscribers@,
            gone: self.gone@,
        }
    }
}

/// Connecting a device gives it that id, the next one, and announces it.
pub open spec fn adds_device(
    before: BusView,
    next: u64,
    config: MockConfigView,
    id: u64,
    after: BusView,
    after_next: u64,
) -> bool {
    &&& id == next
    &&& after_next == next_id(next)
    &&& after.devices == before.devices.push((id, MockStateView::fresh(config)))
    &&& announced(
        before.subscribers,
        after.subscribers,
        after.gone,
        EventView::Connect(mock_device(id, config)),
    )
}

/// Disconnecting a device has that result: the device is taken out and that is announced, or it
/// is not found.
pub open spec fn removes_device(
    before: BusView,
    id: u64,
    result: Result<(), Error>,
    after: BusView,
) -> bool {
    match before.index_of(id) {
        None => result == Err::<(), Error>(Error::NotFound) && after == before,
        Some(i) => {
            let data = before.devices[i].1.config.data;
            &&& result == Ok::<(), Error>(())
            &&& after.devices == before.devices.remove(i)
            &&& announced(
                before.subscribers,
                after.subscribers,
                after.gone,
                EventView::Disconnect {
                    id,
                    vendor_id: data.vendor_id,
                    product_id: data.product_id,
                },
            )
        },
    }
}

/// Asking what was written to a device has that result.
pub open spec fn tells_written(
    bus: BusView,
    id: u64,
    result: Result<Vec<(u8, Vec<u8>)>, Error>,
) -> bool {
    if bus.connected(id) {
        result is Ok && write_log(result->Ok_0@) == bus.state_of(id).written
    } else {
        result == Err::<Vec<(u8, Vec<u8>)>, Error>(Error::NotFound)
    }
}

/// Halting an endpoint has that result: the device is found and the endpoint halted, or not.
pub open spec fn halts(
    before: BusView,
    id: u64,
    address: u8,
    result: Result<(), Error>,
    after: BusView,
) -> bool {
    if before.connected(id) {
        &&& result == Ok::<(), Error>(())
        &&& after == before.with_state(id, before.state_of(id).with_halt(address))
    } else {
        &&& result == Err::<(), Error>(Error::NotFound)
        &&& after == before
    }
}

/// Subscribing adds a subscription for the stream of that channel.
pub open spec fn subscribes(before: BusView, channel: int, after: BusView) -> bool {
    &&& after.devices == before.devices
    &&& after.subscribers == before.subscribers.push(new_subscription(channel))
    &&& after.gone == before.gone
}

impl MockController {
    /// A bus without devices or subscriptions.
    pub fn new() -> (controller: Self)
        ensures
            controller@ == empty_bus(),
    {
        let controller = MockController {
            devices: Vec::new(),
            subscribers: Subscribers::new(),
            gone: Subscribers::new(),
        };
        assert(controller@.devices =~= Seq::<(u64, MockStateView)>::empty());
        controller
    }

    /// Connect a new mock device, firing a connect event. Returns the device id.
    pub fn add_device(&mut self, ids: &mut DeviceIds, config: MockDeviceConfig) -> (id: u64)
        ensures
            adds_device(old(self)@, old(ids)@, config@, id, final(self)@, final(ids)@),
    {
        let id: u64 = ids.next_device_id();
        let halted = collect_bytes(&config.stalled_endpoints);
        let event = UsbConnectionEvent::Connect(build_device(id, &config));
        let state = MockDeviceState { config, halted, written: Vec::new() };
        assert(state@ =~= MockStateView::fresh(config@));
        self.devices.push((id, state));
        self.gone = self.subscribers.broadcast(&event);
        assert(self@.devices =~= old(self)@.devices.push((id, MockStateView::fresh(config@))));
        id
    }

    /// Disconnect a mock device, firing a disconnect event. Handles that are still held observe
    /// [`Error::Disconnected`].
    pub fn remove_device(&mut self, id: u64) -> (result: Result<(), Error>)
        ensures
            removes_device(old(self)@, id, result, final(self)@),
    {
        match self.position(id) {
            None => Err(Error::NotFound),
            Some(i) => {
                let (_, state) = self.devices.remove(i);
                let event = UsbConnectionEvent::Disconnect {
                    id,
                    vendor_id: state.config.vendor_id,
                    product_id: state.config.product_id,
                };
                self.gone = self.subscribers.broadcast(&event);
                assert(self@.devices =~= old(self)@.devices.remove(i as int));
                Ok(())
            },
        }
    }

    /// Everything written to the device so far, as (endpoint number, data) pairs. Control
    /// transfers are recorded as endpoint 0.
    pub fn written(&self, id: u64) -> (result: Result<Vec<(u8, Vec<u8>)>, Error>)
        ensures
            tells_written(self@, id, result),
    {
        let i: usize = match self.position(id) {
            None => return Err(Error::NotFound),
            Some(i) => i,
        };
        let log = &self.devices[i].1.written;
        let mut copy: Vec<(u8, Vec<u8>)> = Vec::new();
        let mut k: usize = 0;
        while k < log.len()
            invariant
                k <= log@.len(),
                copy@.len() == k,
                forall|j: int|
                    0 <= j < k ==> (#[trigger] copy@[j]).0 == log@[j].0 && copy@[j].1@
                        == log@[j].1@,
            decreases log@.len() - k,
        {
            let data = copy_bytes(log[k].1.as_slice());
            copy.push((log[k].0, data));
            k = k + 1;
        }
        assert(write_log(copy@) =~= write_log(log@));
        Ok(copy)
    }

    /// Halt an endpoint (`0x80 | n` addresses an IN endpoint) so that subsequent transfers report
    /// `stall` until the endpoint is cleared.
    pub fn halt_endpoint(&mut self, id: u64, address: u8) -> (result: Result<(), Error>)
        ensures
            halts(old(self)@, id, address, result, final(self)@),
    {
        match self.position(id) {
            None => Err(Error::NotFound),
            Some(i) => {
                self.devices[i].1.halted.insert(address);
                assert(self@ =~= old(self)@.with_state(
                    id,
                    old(self)@.state_of(id).with_halt(address),
                ));
                Ok(())
            },
        }
    }

    /// What a user sees of the devices on the bus, in the order in which they were plugged in.
    pub fn enumerate(&self) -> (devices: Vec<UsbDevice>)
        ensures
            device_views(devices@) == self@.listing(),
    {
        let mut devices: Vec<UsbDevice> = Vec::new();
        let mut i: usize = 0;
        while i < self.devices.len()
            invariant
                i <= self.devices@.len(),
                devices@.len() == i,
                forall|j: int| 0 <= j < i ==> (#[trigger] devices@[j])@ == self@.listing()[j],
            decreases self.devices@.len() - i,
        {
            devices.push(build_device(self.devices[i].0, &self.devices[i].1.config));
            i = i + 1;
        }
        assert(device_views(devices@) =~= self@.listing());
        devices
    }

    /// Subscribe to connect and disconnect events.
    pub fn subscribe(&mut self) -> (events: UsbEvents)
        ensures
            subscribes(old(self)@, events@, final(self)@),
    {
        let events = self.subscribers.subscribe();
        assert(self@.devices =~= old(self)@.devices);
        events
    }

    /// End every subscription; the streams give what is in them and then end. Nothing else changes.
    pub fn end_subscriptions(&mut self)
        ensures
            final(self)@ == old(self)@.without_subscriptions(),
    {
        self.subscribers = Subscribers::new();
        self.gone = Subscribers::new();
        assert(self@.devices =~= old(self)@.devices);
    }

    /// The place of the device on the bus.
    fn position(&self, id: u64) -> (index: Option<usize>)
        ensures
            match index {
                Some(i) => self@.index_of(id) == Some(i as int) && i < self.devices@.len()
                    && self.devices@[i as int].0 == id,
                None => self@.index_of(id) is None,
            },
    {
        let ghost keys = self@.ids();
        let mut i: usize = 0;
        while i < self.devices.len()
            invariant
                i <= self.devices@.len(),
                keys == self@.ids(),
                forall|j: int| 0 <= j < i ==> keys[j] != id,
            decreases self.devices@.len() - i,
        {
            assert(keys[i as int] == self.devices@[i as int].0);
            if self.devices[i].0 == id {
                proof {
                    lemma_first_index_found(keys, id, i as int);
                }
                return Some(i);
            }
            i = i + 1;
        }
        proof {
            lemma_first_index_absent(keys, id);
        }
        None
    }
}

/// A handle to a device on the mock bus.
#[derive(Copy, Clone, Debug)]
pub struct MockDeviceHandle {
    pub id: u64,
}

/// What the bus answers to an IN transfer.
pub open spec fn mock_read(
    bus: BusView,
    id: u64,
    endpoint_number: u8,
    length: nat,
) -> Result<(UsbTransferStatus, Seq<u8>), Error> {
    if bus.connected(id) {
        Ok(bus.state_of(id).read(endpoint_number, length))
    } else {
        Err(Error::Disconnected)
    }
}

/// The reply carries that status and those bytes, or that error.
pub open spec fn delivers(
    reply: Result<TransferOutcome<Vec<u8>>, Error>,
    answer: Result<(UsbTransferStatus, Seq<u8>), Error>,
) -> bool {
    match answer {
        Err(error) => reply == Err::<TransferOutcome<Vec<u8>>, Error>(error),
        Ok((status, data)) => {
            &&& reply is Ok
            &&& reply->Ok_0.status() == status
            &&& received(reply->Ok_0) == data
        },
    }
}

/// What the bus answers to an OUT transfer: a completed one reports all the data as written.
pub open spec fn mock_write(
    bus: BusView,
    id: u64,
    endpoint_number: u8,
    data: Seq<u8>,
) -> Result<TransferOutcome<usize>, Error> {
    if !bus.connected(id) {
        Err(Error::Disconnected)
    } else {
        Ok(
            match bus.state_of(id).write_status(endpoint_number) {
                UsbTransferStatus::Completed => TransferOutcome::Completed(data.len() as usize),
                UsbTransferStatus::Stall => TransferOutcome::Stall,
                UsbTransferStatus::Babble => TransferOutcome::Babble,
            },
        )
    }
}

/// The bus after an OUT transfer.
pub open spec fn after_mock_write(
    bus: BusView,
    id: u64,
    endpoint_number: u8,
    data: Seq<u8>,
) -> BusView {
    if bus.connected(id) {
        bus.with_state(id, bus.state_of(id).after_transfer_out(endpoint_number, data))
    } else {
        bus
    }
}

/// What the bus answers to a control transfer in: an echo of the setup bytes.
pub open spec fn mock_control_read(
    bus: BusView,
    id: u64,
    setup: UsbControlTransferParameters,
    length: nat,
) -> Result<(UsbTransferStatus, Seq<u8>), Error> {
    if bus.connected(id) {
        Ok((UsbTransferStatus::Completed, setup_echo(setup, length)))
    } else {
        Err(Error::Disconnected)
    }
}

/// What the bus answers to a control transfer out.
pub open spec fn mock_control_write(bus: BusView, id: u64, data: Seq<u8>) -> Result<
    TransferOutcome<usize>,
    Error,
> {
    if bus.connected(id) {
        Ok(TransferOutcome::Completed(data.len() as usize))
    } else {
        Err(Error::Disconnected)
    }
}

/// The bus after a control transfer out, which is recorded as a write to endpoint 0.
pub open spec fn after_mock_control_write(bus: BusView, id: u64, data: Seq<u8>) -> BusView {
    if bus.connected(id) {
        bus.with_state(id, bus.state_of(id).after_write(0, data))
    } else {
        bus
    }
}

/// The bus after the halt of an endpoint has been cleared.
pub open spec fn after_mock_clear_halt(
    bus: BusView,
    id: u64,
    direction: Direction,
    endpoint_number: u8,
) -> BusView {
    if bus.connected(id) {
        bus.with_state(
            id,
            bus.state_of(id).without_halt(spec_endpoint_address(direction, endpoint_number)),
        )
    } else {
        bus
    }
}

impl MockDeviceHandle {
    /// Opening, selecting, claiming, releasing and resetting need nothing of a mock device but
    /// that it is there.
    pub fn check_connected(&self, bus: &MockController) -> (reply: Result<(), Error>)
        ensures
            reply == bus@.connection(self.id),
    {
        match bus.position(self.id) {
            Some(_) => Ok(()),
            None => Err(Error::Disconnected),
        }
    }

    /// Closing a mock device always works, even after it was unplugged.
    pub fn close(&self) -> (reply: Result<(), Error>)
        ensures
            reply == Ok::<(), Error>(()),
    {
        Ok(())
    }

    /// Echo the setup packet, cycled to the requested length, so that the parameters can be seen
    /// to have made it through.
    pub fn control_transfer_in(
        &self,
        bus: &MockController,
        setup: &UsbControlTransferParameters,
        length: u16,
    ) -> (reply: Result<TransferOutcome<Vec<u8>>, Error>)
        ensures
            delivers(reply, mock_control_read(bus@, self.id, *setup, length as nat)),
    {
        match self.check_connected(bus) {
            Err(error) => return Err(error),
            Ok(()) => {},
        }
        let pattern: [u8; 5] = [
            setup.request,
            (setup.value % 256) as u8,
            (setup.value / 256) as u8,
            (setup.index % 256) as u8,
            (setup.index / 256) as u8,
        ];
        assert(pattern@ =~= setup_bytes(*setup));
        let mut data: Vec<u8> = Vec::new();
        let mut i: u16 = 0;
        while i < length
            invariant
                i <= length,
                data@.len() == i,
                pattern@ == setup_bytes(*setup),
                forall|j: int| 0 <= j < i ==> data@[j] == setup_bytes(*setup)[j % 5],
            decreases length - i,
        {
            data.push(pattern[(i % 5) as usize]);
            i = i + 1;
        }
        assert(data@ =~= setup_echo(*setup, length as nat));
        Ok(TransferOutcome::Completed(data))
    }

    /// Record the data as written to endpoint 0.
    pub fn control_transfer_out(&self, bus: &mut MockController, data: &[u8]) -> (reply: Result<
        TransferOutcome<usize>,
        Error,
    >)
        ensures
            reply == mock_control_write(old(bus)@, self.id, data@),
            final(bus)@ == after_mock_control_write(old(bus)@, self.id, data@),
    {
        match bus.position(self.id) {
            None => Err(Error::Disconnected),
            Some(i) => {
                bus.record(i, 0, data);
                Ok(TransferOutcome::Completed(data.len()))
            },
        }
    }

    /// Clear the halt of an endpoint.
    pub fn clear_halt(
        &self,
        bus: &mut MockController,
        direction: Direction,
        endpoint_number: u8,
    ) -> (reply: Result<(), Error>)
        ensures
            reply == old(bus)@.connection(self.id),
            final(bus)@ == after_mock_clear_halt(
                old(bus)@,
                self.id,
                direction,
                endpoint_number,
            ),
    {
        match bus.position(self.id) {
            None => Err(Error::Disconnected),
            Some(i) => {
                let address: u8 = endpoint_address(direction, endpoint_number);
                bus.devices[i].1.halted.remove(&address);
                assert(bus@ =~= after_mock_clear_halt(
                    old(bus)@,
                    self.id,
                    direction,
                    endpoint_number,
                ));
                Ok(())
            },
        }
    }

    /// Deliver the canned payload of an endpoint, cut to the requested length.
    pub fn transfer_in(&self, bus: &MockController, endpoint_number: u8, length: usize) -> (reply:
        Result<TransferOutcome<Vec<u8>>, Error>)
        ensures
            delivers(reply, mock_read(bus@, self.id, endpoint_number, length as nat)),
    {
        let i: usize = match bus.position(self.id) {
            None => return Err(Error::Disconnected),
            Some(i) => i,
        };
        let state = &bus.devices[i].1;
        assert(state@ == bus@.state_of(self.id));
        let address: u8 = endpoint_address(Direction::In, endpoint_number);
        if state.halted.contains(&address) {
            return Ok(TransferOutcome::Stall);
        }
        if contains_byte(&state.config.babble_endpoints, address) {
            return Ok(TransferOutcome::Babble);
        }
        let mut data: Vec<u8> = match state.config.in_data.get(&endpoint_number) {
            Some(payload) => copy_bytes(payload.as_slice()),
            None => Vec::new(),
        };
        assert(data@ =~= state@.payload(endpoint_number));
        data.truncate(length);
        assert(data@ =~= truncated(state@.payload(endpoint_number), length as nat));
        Ok(TransferOutcome::Completed(data))
    }

    /// Record the data as written to an endpoint, unless the endpoint stalls or babbles.
    pub fn transfer_out(&self, bus: &mut MockController, endpoint_number: u8, data: &[u8]) -> (reply:
        Result<TransferOutcome<usize>, Error>)
        ensures
            reply == mock_write(old(bus)@, self.id, endpoint_number, data@),
            final(bus)@ == after_mock_write(old(bus)@, self.id, endpoint_number, data@),
    {
        let i: usize = match bus.position(self.id) {
            None => return Err(Error::Disconnected),
            Some(i) => i,
        };
        let address: u8 = endpoint_address(Direction::Out, endpoint_number);
        proof {
            let state = bus.devices@[i as int].1@;
            assert(state == bus@.state_of(self.id));
            assert(bus@.with_state(self.id, state) =~= bus@);
        }
        if bus.devices[i].1.halted.contains(&address) {
            return Ok(TransferOutcome::Stall);
        }
        if contains_byte(&bus.devices[i].1.config.babble_endpoints, address) {
            return Ok(TransferOutcome::Babble);
        }
        bus.record(i, endpoint_number, data);
        Ok(TransferOutcome::Completed(data.len()))
    }
}

impl MockController {
    /// Record data as written to the device at that place.
    fn record(&mut self, i: usize, endpoint_number: u8, data: &[u8])
        requires
            i < old(self).devices@.len(),
            old(self)@.index_of(old(self).devices@[i as int].0) == Some(i as int),
        ensures
            ({
                let id = old(self).devices@[i as int].0;
                final(self)@ == old(self)@.with_state(
                    id,
                    old(self)@.state_of(id).after_write(endpoint_number, data@),
                )
            }),
    {
        let ghost id = self.devices@[i as int].0;
        let copy = copy_bytes(data);
        self.devices[i].1.written.push((endpoint_number, copy));
        proof {
            let state = old(self).devices@[i as int].1@;
            assert(state == old(self)@.state_of(id));
            assert(self.devices@[i as int].1@.written =~= state.written.push(
                (endpoint_number, data@),
            ));
            assert(self@ =~= old(self)@.with_state(id, state.after_write(endpoint_number, data@)));
        }
    }
}

} // verus!
