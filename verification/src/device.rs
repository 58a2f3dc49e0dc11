//! The state of a USB device and the rules for operating on it.
//!
//! Every operation that reaches the hardware comes in two halves. The `begin_` half checks the
//! request against the state of the device and says what to ask of the backend; the `finish_`
//! half takes the backend's reply and updates the state. Whoever drives a device runs the
//! backend call between the two.
use crate::error::Error;
use crate::search::{first_index, is_first, lemma_first_index, lemma_first_index_absent,
    lemma_first_index_found};
use crate::types::{alternate_views, clone_configurations, configuration_views, interface_views,
    text, AlternateView, ConfigurationView, Direction, InterfaceView, UsbAlternateInterface,
    UsbConfiguration, UsbControlTransferParameters, UsbEndpoint, UsbEndpointType, UsbInterface,
    UsbIsochronousInTransferResult, UsbIsochronousOutTransferResult, UsbRecipient};
use vstd::prelude::*;

verus! {

/// The values of a list of configurations.
pub open spec fn configuration_values(configurations: Seq<ConfigurationView>) -> Seq<u8> {
    Seq::new(configurations.len(), |i: int| configurations[i].configuration_value)
}

/// The numbers of a list of interfaces.
pub open spec fn interface_numbers(interfaces: Seq<InterfaceView>) -> Seq<u8> {
    Seq::new(interfaces.len(), |i: int| interfaces[i].interface_number)
}

/// The setting numbers of a list of alternate settings.
pub open spec fn alternate_settings(alternates: Seq<AlternateView>) -> Seq<u8> {
    Seq::new(alternates.len(), |i: int| alternates[i].alternate_setting)
}

/// The numbers and directions of a list of endpoints.
pub open spec fn endpoint_keys(endpoints: Seq<UsbEndpoint>) -> Seq<(u8, Direction)> {
    Seq::new(endpoints.len(), |i: int| (endpoints[i].endpoint_number, endpoints[i].direction))
}

/// Where the endpoint stands among the selected alternate settings: the first interface that
/// has it, and the first place in that interface's endpoints.
pub open spec fn endpoint_location(
    interfaces: Seq<InterfaceView>,
    endpoint_number: u8,
    direction: Direction,
) -> Option<(int, int)>
    decreases interfaces.len(),
{
    if interfaces.len() == 0 {
        None
    } else {
        match first_index(
            endpoint_keys(interfaces[0].alternate.endpoints),
            (endpoint_number, direction),
        ) {
            Some(j) => Some((0int, j)),
            None => match endpoint_location(interfaces.drop_first(), endpoint_number, direction) {
                Some((i, j)) => Some((i + 1, j)),
                None => None,
            },
        }
    }
}

/// The first configuration of that value, where a value is given and some configuration has it.
pub open spec fn configuration_of_value(
    configurations: Seq<ConfigurationView>,
    value: Option<u8>,
) -> Option<ConfigurationView> {
    match value {
        Some(v) => match first_index(configuration_values(configurations), v) {
            Some(i) => Some(configurations[i]),
            None => None,
        },
        None => None,
    }
}

/// Everything a backend knows about a device before it is opened.
#[derive(Debug)]
pub struct DeviceData {
    pub configurations: Vec<UsbConfiguration>,
    pub active_configuration_value: Option<u8>,
    pub device_class: u8,
    pub device_subclass: u8,
    pub device_protocol: u8,
    pub device_version_major: u8,
    pub device_version_minor: u8,
    pub device_version_subminor: u8,
    pub manufacturer_name: Option<String>,
    pub product_id: u16,
    pub product_name: Option<String>,
    pub serial_number: Option<String>,
    pub usb_version_major: u8,
    pub usb_version_minor: u8,
    pub usb_version_subminor: u8,
    pub vendor_id: u16,
    pub url: Option<String>,
}

/// View of [`DeviceData`].
#[verifier::ext_equal]
pub struct DataView {
    pub configurations: Seq<ConfigurationView>,
    pub active_configuration_value: Option<u8>,
    pub device_class: u8,
    pub device_subclass: u8,
    pub device_protocol: u8,
    pub device_version_major: u8,
    pub device_version_minor: u8,
    pub device_version_subminor: u8,
    pub manufacturer_name: Option<Seq<char>>,
    pub product_id: u16,
    pub product_name: Option<Seq<char>>,
    pub serial_number: Option<Seq<char>>,
    pub usb_version_major: u8,
    pub usb_version_minor: u8,
    pub usb_version_subminor: u8,
    pub vendor_id: u16,
    pub url: Option<Seq<char>>,
}

impl View for DeviceData {
    type V = DataView;

    open spec fn view(&self) -> DataView {
        DataView {
            configurations: configuration_views(self.configurations@),
            active_configuration_value: self.active_configuration_value,
            device_class: self.device_class,
            device_subclass: self.device_subclass,
            device_protocol: self.device_protocol,
            device_version_major: self.device_version_major,
            device_version_minor: self.device_version_minor,
            device_version_subminor: self.device_version_subminor,
            manufacturer_name: text(self.manufacturer_name),
            product_id: self.product_id,
            product_name: text(self.product_name),
            serial_number: text(self.serial_number),
            usb_version_major: self.usb_version_major,
            usb_version_minor: self.usb_version_minor,
            usb_version_subminor: self.usb_version_subminor,
            vendor_id: self.vendor_id,
            url: text(self.url),
        }
    }
}

/// A USB device as its user sees it.
#[derive(Debug)]
pub struct UsbDevice {
    /// Process-unique identifier for this device, stable while the device remains connected.
    pub id: u64,
    /// List of configurations supported by the device.
    pub configurations: Vec<UsbConfiguration>,
    /// The currently selected configuration; none if the device is not configured.
    pub configuration: Option<UsbConfiguration>,
    /// bDeviceClass value of the device descriptor.
    pub device_class: u8,
    /// bDeviceSubClass value of the device descriptor.
    pub device_subclass: u8,
    /// bDeviceProtocol value of the device descriptor.
    pub device_protocol: u8,
    /// The major version declared by bcdDevice.
    pub device_version_major: u8,
    /// The minor version declared by bcdDevice.
    pub device_version_minor: u8,
    /// The subminor version declared by bcdDevice.
    pub device_version_subminor: u8,
    /// The string indexed by iManufacturer.
    pub manufacturer_name: Option<String>,
    /// idProduct field of the device descriptor.
    pub product_id: u16,
    /// The string indexed by iProduct.
    pub product_name: Option<String>,
    /// The string indexed by iSerialNumber.
    pub serial_number: Option<String>,
    /// The major version declared by bcdUSB.
    pub usb_version_major: u8,
    /// The minor version declared by bcdUSB.
    pub usb_version_minor: u8,
    /// The subminor version declared by bcdUSB.
    pub usb_version_subminor: u8,
    /// idVendor field of the device descriptor.
    pub vendor_id: u16,
    /// If true, the underlying device handle is owned by this object.
    pub opened: bool,
    /// Landing page of the WebUSB platform capability descriptor.
    pub url: Option<String>,
}

/// View of a [`UsbDevice`].
#[verifier::ext_equal]
pub struct DeviceView {
    pub id: u64,
    pub configurations: Seq<ConfigurationView>,
    pub configuration: Option<ConfigurationView>,
    pub device_class: u8,
    pub device_subclass: u8,
    pub device_protocol: u8,
    pub device_version_major: u8,
    pub device_version_minor: u8,
    pub device_version_subminor: u8,
    pub manufacturer_name: Option<Seq<char>>,
    pub product_id: u16,
    pub product_name: Option<Seq<char>>,
    pub serial_number: Option<Seq<char>>,
    pub usb_version_major: u8,
    pub usb_version_minor: u8,
    pub usb_version_subminor: u8,
    pub vendor_id: u16,
    pub opened: bool,
    pub url: Option<Seq<char>>,
}

/// View of an optional configuration.
pub open spec fn configuration_view(configuration: Option<UsbConfiguration>) -> Option<
    ConfigurationView,
> {
    match configuration {
        Some(c) => Some(c@),
        None => None,
    }
}

impl View for UsbDevice {
    type V = DeviceView;

    open spec fn view(&self) -> DeviceView {
        DeviceView {
            id: self.id,
            configurations: configuration_views(self.configurations@),
            configuration: configuration_view(self.configuration),
            device_class: self.device_class,
            device_subclass: self.device_subclass,
            device_protocol: self.device_protocol,
            device_version_major: self.device_version_major,
            device_version_minor: self.device_version_minor,
            device_version_subminor: self.device_version_subminor,
            manufacturer_name: text(self.manufacturer_name),
            product_id: self.product_id,
            product_name: text(self.product_name),
            serial_number: text(self.serial_number),
            usb_version_major: self.usb_version_major,
            usb_version_minor: self.usb_version_minor,
            usb_version_subminor: self.usb_version_subminor,
            vendor_id: self.vendor_id,
            opened: self.opened,
            url: text(self.url),
        }
    }
}

impl Clone for UsbDevice {
    fn clone(&self) -> (copy: Self)
        ensures
            copy@ == self@,
    {
        UsbDevice {
            id: self.id,
            configurations: clone_configurations(&self.configurations),
            configuration: match &self.configuration {
                Some(configuration) => Some(configuration.clone()),
                None => None,
            },
            device_class: self.device_class,
            device_subclass: self.device_subclass,
            device_protocol: self.device_protocol,
            device_version_major: self.device_version_major,
            device_version_minor: self.device_version_minor,
            device_version_subminor: self.device_version_subminor,
            manufacturer_name: self.manufacturer_name.clone(),
            product_id: self.product_id,
            product_name: self.product_name.clone(),
            serial_number: self.serial_number.clone(),
            usb_version_major: self.usb_version_major,
            usb_version_minor: self.usb_version_minor,
            usb_version_subminor: self.usb_version_subminor,
            vendor_id: self.vendor_id,
            opened: self.opened,
            url: self.url.clone(),
        }
    }
}

/// The interface and the endpoint type through which a backend reaches an endpoint.
#[derive(Copy, Clone, Debug, PartialEq, Eq, Structural)]
pub struct EndpointTarget {
    pub interface_number: u8,
    pub endpoint_type: UsbEndpointType,
}

/// The closed device that a backend's data describes, with the active configuration selected.
pub open spec fn device_from_data(id: u64, data: DataView) -> DeviceView {
    DeviceView {
        id,
        configurations: data.configurations,
        configuration: configuration_of_value(
            data.configurations,
            data.active_configuration_value,
        ),
        device_class: data.device_class,
        device_subclass: data.device_subclass,
        device_protocol: data.device_protocol,
        device_version_major: data.device_version_major,
        device_version_minor: data.device_version_minor,
        device_version_subminor: data.device_version_subminor,
        manufacturer_name: data.manufacturer_name,
        product_id: data.product_id,
        product_name: data.product_name,
        serial_number: data.serial_number,
        usb_version_major: data.usb_version_major,
        usb_version_minor: data.usb_version_minor,
        usb_version_subminor: data.usb_version_subminor,
        vendor_id: data.vendor_id,
        opened: false,
        url: data.url,
    }
}

/// The rules of a device, over its view. A `_check` says how a request is answered before the
/// backend is asked; an `after_` or `with_` gives the state once the backend has agreed.
impl DeviceView {
    /// The interfaces of the selected configuration.
    pub open spec fn interfaces(self) -> Seq<InterfaceView> {
        match self.configuration {
            Some(c) => c.interfaces,
            None => Seq::empty(),
        }
    }

    /// The place of an interface in the selected configuration.
    pub open spec fn interface_index(self, interface_number: u8) -> Option<int> {
        first_index(interface_numbers(self.interfaces()), interface_number)
    }

    /// The place of an endpoint in the selected configuration.
    pub open spec fn endpoint_index(self, endpoint_number: u8, direction: Direction) -> Option<
        (int, int),
    > {
        endpoint_location(self.interfaces(), endpoint_number, direction)
    }

    /// The device with other interfaces in the selected configuration.
    pub open spec fn with_interfaces(self, interfaces: Seq<InterfaceView>) -> DeviceView {
        match self.configuration {
            Some(c) => DeviceView {
                configuration: Some(ConfigurationView { interfaces, ..c }),
                ..self
            },
            None => self,
        }
    }

    /// The device with an interface marked as claimed or not.
    pub open spec fn with_claimed(self, interface_number: u8, claimed: bool) -> DeviceView {
        self.with_interfaces(
            interfaces_with_claimed(self.interfaces(), interface_number, claimed),
        )
    }

    /// The device with another alternate setting selected on an interface.
    pub open spec fn with_alternate(
        self,
        interface_number: u8,
        alternate: AlternateView,
    ) -> DeviceView {
        self.with_interfaces(
            interfaces_with_alternate(self.interfaces(), interface_number, alternate),
        )
    }

    /// The device once it is open.
    pub open spec fn after_open(self) -> DeviceView {
        DeviceView { opened: true, ..self }
    }

    /// The device once it is closed: no interface stays claimed.
    pub open spec fn after_close(self) -> DeviceView {
        DeviceView {
            opened: false,
            ..self.with_interfaces(interfaces_released(self.interfaces()))
        }
    }

    /// The device with a configuration selected.
    pub open spec fn with_configuration(self, configuration: ConfigurationView) -> DeviceView {
        DeviceView { configuration: Some(configuration), ..self }
    }

    /// A configuration can be selected if the device lists it and is open. The answer is the
    /// configuration as the device lists it.
    pub open spec fn select_configuration_check(self, configuration_value: u8) -> Result<
        ConfigurationView,
        Error,
    > {
        match configuration_of_value(self.configurations, Some(configuration_value)) {
            None => Err(Error::NotFound),
            Some(c) => if !self.opened {
                Err(Error::InvalidState)
            } else {
                Ok(c)
            },
        }
    }

    /// An interface can be claimed if it exists and the device is open. The answer says whether
    /// the backend must be asked: not where the interface is claimed already.
    pub open spec fn claim_check(self, interface_number: u8) -> Result<bool, Error> {
        match self.interface_index(interface_number) {
            None => Err(Error::NotFound),
            Some(i) => if !self.opened {
                Err(Error::InvalidState)
            } else {
                Ok(!self.interfaces()[i].claimed)
            },
        }
    }

    /// An interface can be released if it exists and the device is open. The answer says whether
    /// the backend must be asked: not where the interface is not claimed.
    pub open spec fn release_check(self, interface_number: u8) -> Result<bool, Error> {
        match self.interface_index(interface_number) {
            None => Err(Error::NotFound),
            Some(i) => if !self.opened {
                Err(Error::InvalidState)
            } else {
                Ok(self.interfaces()[i].claimed)
            },
        }
    }

    /// An alternate setting can be selected on an interface that exists and is claimed on an
    /// open device, if the interface lists it. The answer is the setting as listed.
    pub open spec fn alternate_check(self, interface_number: u8, alternate_setting: u8) -> Result<
        AlternateView,
        Error,
    > {
        match self.interface_index(interface_number) {
            None => Err(Error::NotFound),
            Some(i) => if !self.opened || !self.interfaces()[i].claimed {
                Err(Error::InvalidState)
            } else {
                match first_index(
                    alternate_settings(self.interfaces()[i].alternates),
                    alternate_setting,
                ) {
                    None => Err(Error::NotFound),
                    Some(k) => Ok(self.interfaces()[i].alternates[k]),
                }
            },
        }
    }

    /// A control transfer to an interface needs the interface, claimed; one to an endpoint needs
    /// the endpoint; any other needs nothing more than the device. The low byte of the index
    /// numbers the interface; its low four bits number the endpoint and bit 7 gives the
    /// direction.
    pub open spec fn control_setup_check(self, setup: UsbControlTransferParameters) -> Result<
        (),
        Error,
    > {
        match setup.recipient {
            UsbRecipient::Interface => match self.interface_index((setup.index % 256) as u8) {
                None => Err(Error::NotFound),
                Some(i) => if self.interfaces()[i].claimed {
                    Ok(())
                } else {
                    Err(Error::InvalidState)
                },
            },
            UsbRecipient::Endpoint => match self.endpoint_index(
                (setup.index % 16) as u8,
                setup_direction(setup.index),
            ) {
                None => Err(Error::NotFound),
                Some(_) => Ok(()),
            },
            _ => Ok(()),
        }
    }

    /// A control transfer needs an open device before anything else.
    pub open spec fn control_check(self, setup: UsbControlTransferParameters) -> Result<
        (),
        Error,
    > {
        if !self.opened {
            Err(Error::InvalidState)
        } else {
            self.control_setup_check(setup)
        }
    }

    /// What a backend needs to reach the endpoint at that place.
    pub open spec fn target_at(self, place: (int, int)) -> EndpointTarget {
        EndpointTarget {
            interface_number: self.interfaces()[place.0].interface_number,
            endpoint_type: self.interfaces()[place.0].alternate.endpoints[place.1].endpoint_type,
        }
    }

    /// A halt can be cleared on an endpoint of a claimed interface of an open device.
    pub open spec fn clear_halt_check(self, direction: Direction, endpoint_number: u8) -> Result<
        EndpointTarget,
        Error,
    > {
        match self.endpoint_index(endpoint_number, direction) {
            None => Err(Error::NotFound),
            Some(place) => if !self.opened || !self.interfaces()[place.0].claimed {
                Err(Error::InvalidState)
            } else {
                Ok(self.target_at(place))
            },
        }
    }

    /// A transfer needs a bulk or interrupt endpoint of a claimed interface of an open device.
    pub open spec fn transfer_check(self, endpoint_number: u8, direction: Direction) -> Result<
        EndpointTarget,
        Error,
    > {
        match self.endpoint_index(endpoint_number, direction) {
            None => Err(Error::NotFound),
            Some(place) => {
                let target = self.target_at(place);
                if target.endpoint_type != UsbEndpointType::Bulk && target.endpoint_type
                    != UsbEndpointType::Interrupt {
                    Err(Error::InvalidAccess)
                } else if !self.opened || !self.interfaces()[place.0].claimed {
                    Err(Error::InvalidState)
                } else {
                    Ok(target)
                }
            },
        }
    }

    /// Why an isochronous transfer is refused: always, at the latest for lack of support.
    pub open spec fn isochronous_error(self, endpoint_number: u8, direction: Direction) -> Error {
        match self.endpoint_index(endpoint_number, direction) {
            None => Error::NotFound,
            Some(place) => if self.target_at(place).endpoint_type
                != UsbEndpointType::Isochronous {
                Error::InvalidAccess
            } else if !self.opened || !self.interfaces()[place.0].claimed {
                Error::InvalidState
            } else {
                Error::NotSupported
            },
        }
    }

    /// A reset needs an open device.
    pub open spec fn reset_check(self) -> Result<(), Error> {
        if self.opened {
            Ok(())
        } else {
            Err(Error::InvalidState)
        }
    }
}

/// The direction in the index of a control transfer to an endpoint.
pub open spec fn setup_direction(index: u16) -> Direction {
    if (index / 128) % 2 == 0 {
        Direction::Out
    } else {
        Direction::In
    }
}

/// The first configuration of that value.
pub fn find_configuration(configurations: &Vec<UsbConfiguration>, configuration_value: u8) -> (index:
    Option<usize>)
    ensures
        match index {
            Some(i) => first_index(
                configuration_values(configuration_views(configurations@)),
                configuration_value,
            ) == Some(i as int),
            None => first_index(
                configuration_values(configuration_views(configurations@)),
                configuration_value,
            ) is None,
        },
        index matches Some(i) ==> i < configurations@.len(),
{
    let ghost keys = configuration_values(configuration_views(configurations@));
    let mut i: usize = 0;
    while i < configurations.len()
        invariant
            i <= configurations@.len(),
            keys == configuration_values(configuration_views(configurations@)),
            forall|j: int| 0 <= j < i ==> keys[j] != configuration_value,
        decreases configurations@.len() - i,
    {
        if configurations[i].configuration_value == configuration_value {
            proof {
                lemma_first_index_found(keys, configuration_value, i as int);
            }
            return Some(i);
        }
        i = i + 1;
    }
    proof {
        lemma_first_index_absent(keys, configuration_value);
    }
    None
}

/// The first interface of that number.
pub fn find_interface(interfaces: &Vec<UsbInterface>, interface_number: u8) -> (index: Option<
    usize,
>)
    ensures
        match index {
            Some(i) => first_index(
                interface_numbers(interface_views(interfaces@)),
                interface_number,
            ) == Some(i as int),
            None => first_index(
                interface_numbers(interface_views(interfaces@)),
                interface_number,
            ) is None,
        },
        index matches Some(i) ==> i < interfaces@.len(),
{
    let ghost keys = interface_numbers(interface_views(interfaces@));
    let mut i: usize = 0;
    while i < interfaces.len()
        invariant
            i <= interfaces@.len(),
            keys == interface_numbers(interface_views(interfaces@)),
            forall|j: int| 0 <= j < i ==> keys[j] != interface_number,
        decreases interfaces@.len() - i,
    {
        if interfaces[i].interface_number == interface_number {
            proof {
                lemma_first_index_found(keys, interface_number, i as int);
            }
            return Some(i);
        }
        i = i + 1;
    }
    proof {
        lemma_first_index_absent(keys, interface_number);
    }
    None
}

/// The first alternate setting of that number.
pub fn find_alternate(alternates: &Vec<UsbAlternateInterface>, alternate_setting: u8) -> (index:
    Option<usize>)
    ensures
        match index {
            Some(i) => first_index(
                alternate_settings(alternate_views(alternates@)),
                alternate_setting,
            ) == Some(i as int),
            None => first_index(
                alternate_settings(alternate_views(alternates@)),
                alternate_setting,
            ) is None,
        },
        index matches Some(i) ==> i < alternates@.len(),
{
    let ghost keys = alternate_settings(alternate_views(alternates@));
    let mut i: usize = 0;
    while i < alternates.len()
        invariant
            i <= alternates@.len(),
            keys == alternate_settings(alternate_views(alternates@)),
            forall|j: int| 0 <= j < i ==> keys[j] != alternate_setting,
        decreases alternates@.len() - i,
    {
        if alternates[i].alternate_setting == alternate_setting {
            proof {
                lemma_first_index_found(keys, alternate_setting, i as int);
            }
            return Some(i);
        }
        i = i + 1;
    }
    proof {
        lemma_first_index_absent(keys, alternate_setting);
    }
    None
}

/// The first endpoint of that number and direction in one alternate setting.
fn find_endpoint_in(endpoints: &Vec<UsbEndpoint>, endpoint_number: u8, direction: Direction) -> (index:
    Option<usize>)
    ensures
        match index {
            Some(i) => first_index(endpoint_keys(endpoints@), (endpoint_number, direction))
                == Some(i as int),
            None => first_index(endpoint_keys(endpoints@), (endpoint_number, direction)) is None,
        },
        index matches Some(i) ==> i < endpoints@.len(),
{
    let ghost keys = endpoint_keys(endpoints@);
    let ghost key = (endpoint_number, direction);
    let mut i: usize = 0;
    while i < endpoints.len()
        invariant
            i <= endpoints@.len(),
            keys == endpoint_keys(endpoints@),
            key == (endpoint_number, direction),
            forall|j: int| 0 <= j < i ==> keys[j] != key,
        decreases endpoints@.len() - i,
    {
        if endpoints[i].endpoint_number == endpoint_number && endpoints[i].direction == direction {
            proof {
                lemma_first_index_found(keys, key, i as int);
            }
            return Some(i);
        }
        i = i + 1;
    }
    proof {
        lemma_first_index_absent(keys, key);
    }
    None
}

/// Interfaces that lack the endpoint can be skipped from the front.
proof fn lemma_endpoint_location_skip(
    interfaces: Seq<InterfaceView>,
    endpoint_number: u8,
    direction: Direction,
    n: int,
)
    requires
        0 <= n <= interfaces.len(),
        forall|i: int|
            0 <= i < n ==> first_index(
                endpoint_keys((#[trigger] interfaces[i]).alternate.endpoints),
                (endpoint_number, direction),
            ) is None,
    ensures
        endpoint_location(interfaces, endpoint_number, direction) == match endpoint_location(
            interfaces.skip(n),
            endpoint_number,
            direction,
        ) {
            Some((i, j)) => Some((i + n, j)),
            None => None,
        },
    decreases n,
{
    if n == 0 {
        assert(interfaces.skip(0) =~= interfaces);
    } else {
        assert(interfaces[0] == interfaces[0]);
        let rest = interfaces.drop_first();
        assert forall|i: int| 0 <= i < n - 1 implies first_index(
            endpoint_keys((#[trigger] rest[i]).alternate.endpoints),
            (endpoint_number, direction),
        ) is None by {
            assert(rest[i] == interfaces[i + 1]);
        }
        lemma_endpoint_location_skip(rest, endpoint_number, direction, n - 1);
        assert(rest.skip(n - 1) =~= interfaces.skip(n));
    }
}

/// What `endpoint_location` gives is in range and names an endpoint of that number and
/// direction; no earlier interface has one, and the interface has no earlier one.
pub proof fn lemma_endpoint_location(
    interfaces: Seq<InterfaceView>,
    endpoint_number: u8,
    direction: Direction,
)
    ensures
        match endpoint_location(interfaces, endpoint_number, direction) {
            Some((i, j)) => {
                &&& 0 <= i < interfaces.len()
                &&& is_first(
                    endpoint_keys(interfaces[i].alternate.endpoints),
                    (endpoint_number, direction),
                    j,
                )
                &&& forall|k: int|
                    0 <= k < i ==> !endpoint_keys(
                        (#[trigger] interfaces[k]).alternate.endpoints,
                    ).contains((endpoint_number, direction))
            },
            None => forall|k: int|
                0 <= k < interfaces.len() ==> !endpoint_keys(
                    (#[trigger] interfaces[k]).alternate.endpoints,
                ).contains((endpoint_number, direction)),
        },
    decreases interfaces.len(),
{
    if interfaces.len() > 0 {
        let key = (endpoint_number, direction);
        lemma_first_index(endpoint_keys(interfaces[0].alternate.endpoints), key);
        let rest = interfaces.drop_first();
        lemma_endpoint_location(rest, endpoint_number, direction);
        assert forall|k: int| 0 < k < interfaces.len() implies interfaces[k] == rest[k - 1] by {}
    }
}

/// The interfaces with the first one of that number marked as claimed or not.
pub open spec fn interfaces_with_claimed(
    interfaces: Seq<InterfaceView>,
    interface_number: u8,
    claimed: bool,
) -> Seq<InterfaceView> {
    match first_index(interface_numbers(interfaces), interface_number) {
        Some(i) => interfaces.update(i, InterfaceView { claimed, ..interfaces[i] }),
        None => interfaces,
    }
}

/// The interfaces with an alternate setting selected on the first one of that number.
pub open spec fn interfaces_with_alternate(
    interfaces: Seq<InterfaceView>,
    interface_number: u8,
    alternate: AlternateView,
) -> Seq<InterfaceView> {
    match first_index(interface_numbers(interfaces), interface_number) {
        Some(i) => interfaces.update(i, InterfaceView { alternate, ..interfaces[i] }),
        None => interfaces,
    }
}

/// The interfaces with none of them claimed.
pub open spec fn interfaces_released(interfaces: Seq<InterfaceView>) -> Seq<InterfaceView> {
    Seq::new(interfaces.len(), |i: int| InterfaceView { claimed: false, ..interfaces[i] })
}

/// Give up the claim on every interface.
fn release_all(interfaces: &mut Vec<UsbInterface>)
    ensures
        interface_views(final(interfaces)@) == interfaces_released(
            interface_views(old(interfaces)@),
        ),
{
    let ghost before = interface_views(interfaces@);
    let mut i: usize = 0;
    while i < interfaces.len()
        invariant
            i <= interfaces@.len(),
            interfaces@.len() == before.len(),
            forall|j: int|
                0 <= j < i ==> (#[trigger] interfaces@[j])@ == (InterfaceView {
                    claimed: false,
                    ..before[j]
                }),
            forall|j: int| i <= j < before.len() ==> (#[trigger] interfaces@[j])@ == before[j],
        decreases interfaces@.len() - i,
    {
        interfaces[i].claimed = false;
        i = i + 1;
    }
    assert(interface_views(interfaces@) =~= interfaces_released(before));
}

/// Mark the first interface of that number as claimed or not.
fn mark_claimed(interfaces: &mut Vec<UsbInterface>, interface_number: u8, claimed: bool)
    ensures
        interface_views(final(interfaces)@) == interfaces_with_claimed(
            interface_views(old(interfaces)@),
            interface_number,
            claimed,
        ),
{
    let ghost before = interface_views(interfaces@);
    match find_interface(interfaces, interface_number) {
        Some(i) => {
            interfaces[i].claimed = claimed;
            assert(interface_views(interfaces@) =~= interfaces_with_claimed(
                before,
                interface_number,
                claimed,
            ));
        },
        None => {},
    }
}

/// Select an alternate setting on the first interface of that number.
fn replace_alternate(
    interfaces: &mut Vec<UsbInterface>,
    interface_number: u8,
    alternate: UsbAlternateInterface,
)
    ensures
        interface_views(final(interfaces)@) == interfaces_with_alternate(
            interface_views(old(interfaces)@),
            interface_number,
            alternate@,
        ),
{
    let ghost before = interface_views(interfaces@);
    match find_interface(interfaces, interface_number) {
        Some(i) => {
            interfaces[i].alternate = alternate;
            assert(interface_views(interfaces@) =~= interfaces_with_alternate(
                before,
                interface_number,
                alternate@,
            ));
        },
        None => {},
    }
}

/// The backend's reply settles a request: it is the result, and the device has changed in that way
/// where the backend agreed, and not at all where it did not.
pub open spec fn settles(
    reply: Result<(), Error>,
    result: Result<(), Error>,
    before: DeviceView,
    changed: DeviceView,
    after: DeviceView,
) -> bool {
    &&& result == reply
    &&& reply is Ok ==> after == changed
    &&& reply is Err ==> after == before
}

impl UsbDevice {
    /// The device that a backend's data describes: closed, with the active configuration
    /// selected where the data lists it.
    pub fn from_parts(id: u64, data: DeviceData) -> (device: Self)
        ensures
            device@ == device_from_data(id, data@),
    {
        let configuration = match data.active_configuration_value {
            Some(value) => match find_configuration(&data.configurations, value) {
                Some(i) => Some(data.configurations[i].clone()),
                None => None,
            },
            None => None,
        };
        UsbDevice {
            id,
            configurations: data.configurations,
            configuration,
            device_class: data.device_class,
            device_subclass: data.device_subclass,
            device_protocol: data.device_protocol,
            device_version_major: data.device_version_major,
            device_version_minor: data.device_version_minor,
            device_version_subminor: data.device_version_subminor,
            manufacturer_name: data.manufacturer_name,
            product_id: data.product_id,
            product_name: data.product_name,
            serial_number: data.serial_number,
            usb_version_major: data.usb_version_major,
            usb_version_minor: data.usb_version_minor,
            usb_version_subminor: data.usb_version_subminor,
            vendor_id: data.vendor_id,
            opened: false,
            url: data.url,
        }
    }

    /// Find the endpoint and its owning interface among the currently selected alternate
    /// settings of the active configuration.
    pub fn find_endpoint(&self, endpoint_number: u8, direction: Direction) -> (found: Result<
        (&UsbInterface, &UsbEndpoint),
        Error,
    >)
        ensures
            match self@.endpoint_index(endpoint_number, direction) {
                None => found == Err::<(&UsbInterface, &UsbEndpoint), Error>(Error::NotFound),
                Some((i, j)) => {
                    &&& found is Ok
                    &&& found->Ok_0.0@ == self@.interfaces()[i]
                    &&& *found->Ok_0.1 == self@.interfaces()[i].alternate.endpoints[j]
                },
            },
    {
        let configuration = match &self.configuration {
            Some(configuration) => configuration,
            None => return Err(Error::NotFound),
        };
        let ghost views = interface_views(configuration.interfaces@);
        let mut i: usize = 0;
        while i < configuration.interfaces.len()
            invariant
                i <= configuration.interfaces@.len(),
                views == interface_views(configuration.interfaces@),
                views == self@.interfaces(),
                forall|k: int|
                    0 <= k < i ==> first_index(
                        endpoint_keys((#[trigger] views[k]).alternate.endpoints),
                        (endpoint_number, direction),
                    ) is None,
            decreases configuration.interfaces@.len() - i,
        {
            let interface = &configuration.interfaces[i];
            assert(views[i as int] == interface@);
            match find_endpoint_in(&interface.alternate.endpoints, endpoint_number, direction) {
                Some(j) => {
                    proof {
                        lemma_endpoint_location_skip(views, endpoint_number, direction, i as int);
                        assert(views.skip(i as int)[0] == views[i as int]);
                    }
                    return Ok((interface, &interface.alternate.endpoints[j]));
                },
                None => {},
            }
            i = i + 1;
        }
        proof {
            lemma_endpoint_location_skip(views, endpoint_number, direction, i as int);
            assert(views.skip(i as int).len() == 0);
        }
        Err(Error::NotFound)
    }

    /// Check the parameters of a control transfer against the selected configuration.
    pub fn validate_control_setup(&self, setup: &UsbControlTransferParameters) -> (verdict: Result<
        (),
        Error,
    >)
        ensures
            verdict == self@.control_setup_check(*setup),
    {
        let index: u16 = setup.index;
        assert(index & 0xFF == index % 256) by (bit_vector);
        assert(index & 0x0F == index % 16) by (bit_vector);
        assert((index & 0x80 == 0) <==> ((index / 128) % 2 == 0)) by (bit_vector);
        match setup.recipient {
            UsbRecipient::Interface => {
                let interface_number: u8 = (index & 0xFF) as u8;
                match &self.configuration {
                    None => Err(Error::NotFound),
                    Some(configuration) => {
                        match find_interface(&configuration.interfaces, interface_number) {
                            None => Err(Error::NotFound),
                            Some(i) => if configuration.interfaces[i].claimed {
                                Ok(())
                            } else {
                                Err(Error::InvalidState)
                            },
                        }
                    },
                }
            },
            UsbRecipient::Endpoint => {
                let endpoint_number: u8 = (index & 0x0F) as u8;
                let direction = if index & 0x80 == 0 {
                    Direction::Out
                } else {
                    Direction::In
                };
                match self.find_endpoint(endpoint_number, direction) {
                    Ok(_) => Ok(()),
                    Err(error) => Err(error),
                }
            },
            _ => Ok(()),
        }
    }

    /// Whether opening must ask the backend: not where the device is open already.
    pub fn begin_open(&self) -> (ask: bool)
        ensures
            ask == !self@.opened,
    {
        !self.opened
    }

    /// Record the backend's reply to opening the device.
    pub fn finish_open(&mut self, reply: Result<(), Error>) -> (result: Result<(), Error>)
        ensures
            settles(reply, result, old(self)@, old(self)@.after_open(), final(self)@),
    {
        if reply.is_ok() {
            self.opened = true;
        }
        reply
    }

    /// Whether closing must ask the backend: not where the device is closed already.
    pub fn begin_close(&self) -> (ask: bool)
        ensures
            ask == self@.opened,
    {
        self.opened
    }

    /// Record the backend's reply to closing the device; every claim is given up.
    pub fn finish_close(&mut self, reply: Result<(), Error>) -> (result: Result<(), Error>)
        ensures
            settles(reply, result, old(self)@, old(self)@.after_close(), final(self)@),
    {
        if reply.is_ok() {
            match &mut self.configuration {
                Some(configuration) => release_all(&mut configuration.interfaces),
                None => {},
            }
            self.opened = false;
        }
        reply
    }

    /// Check a request to select a configuration. Where the answer is a configuration, the
    /// backend must be asked to select its value.
    pub fn begin_select_configuration(&self, configuration_value: u8) -> (plan: Result<
        UsbConfiguration,
        Error,
    >)
        ensures
            match self@.select_configuration_check(configuration_value) {
                Ok(configuration) => plan is Ok && plan->Ok_0@ == configuration,
                Err(error) => plan == Err::<UsbConfiguration, Error>(error),
            },
    {
        match find_configuration(&self.configurations, configuration_value) {
            None => Err(Error::NotFound),
            Some(i) => if !self.opened {
                Err(Error::InvalidState)
            } else {
                Ok(self.configurations[i].clone())
            },
        }
    }

    /// Record the backend's reply to selecting that configuration.
    pub fn finish_select_configuration(
        &mut self,
        configuration: UsbConfiguration,
        reply: Result<(), Error>,
    ) -> (result: Result<(), Error>)
        ensures
            settles(
                reply,
                result,
                old(self)@,
                old(self)@.with_configuration(configuration@),
                final(self)@,
            ),
    {
        if reply.is_ok() {
            self.configuration = Some(configuration);
        }
        reply
    }

    /// Check a request to claim an interface; the answer says whether to ask the backend.
    pub fn begin_claim_interface(&self, interface_number: u8) -> (plan: Result<bool, Error>)
        ensures
            plan == self@.claim_check(interface_number),
    {
        match &self.configuration {
            None => Err(Error::NotFound),
            Some(configuration) => match find_interface(
                &configuration.interfaces,
                interface_number,
            ) {
                None => Err(Error::NotFound),
                Some(i) => if !self.opened {
                    Err(Error::InvalidState)
                } else {
                    Ok(!configuration.interfaces[i].claimed)
                },
            },
        }
    }

    /// Record the backend's reply to claiming an interface.
    pub fn finish_claim_interface(
        &mut self,
        interface_number: u8,
        reply: Result<(), Error>,
    ) -> (result: Result<(), Error>)
        ensures
            settles(
                reply,
                result,
                old(self)@,
                old(self)@.with_claimed(interface_number, true),
                final(self)@,
            ),
    {
        if reply.is_ok() {
            match &mut self.configuration {
                Some(configuration) => mark_claimed(
                    &mut configuration.interfaces,
                    interface_number,
                    true,
                ),
                None => {},
            }
        }
        reply
    }

    /// Check a request to release an interface; the answer says whether to ask the backend.
    pub fn begin_release_interface(&self, interface_number: u8) -> (plan: Result<bool, Error>)
        ensures
            plan == self@.release_check(interface_number),
    {
        match &self.configuration {
            None => Err(Error::NotFound),
            Some(configuration) => match find_interface(
                &configuration.interfaces,
                interface_number,
            ) {
                None => Err(Error::NotFound),
                Some(i) => if !self.opened {
                    Err(Error::InvalidState)
                } else {
                    Ok(configuration.interfaces[i].claimed)
                },
            },
        }
    }

    /// Record the backend's reply to releasing an interface.
    pub fn finish_release_interface(
        &mut self,
        interface_number: u8,
        reply: Result<(), Error>,
    ) -> (result: Result<(), Error>)
        ensures
            settles(
                reply,
                result,
                old(self)@,
                old(self)@.with_claimed(interface_number, false),
                final(self)@,
            ),
    {
        if reply.is_ok() {
            match &mut self.configuration {
                Some(configuration) => mark_claimed(
                    &mut configuration.interfaces,
                    interface_number,
                    false,
                ),
                None => {},
            }
        }
        reply
    }

    /// Check a request to select an alternate setting. Where the answer is a setting, the
    /// backend must be asked to select it on that interface.
    pub fn begin_select_alternate_interface(
        &self,
        interface_number: u8,
        alternate_setting: u8,
    ) -> (plan: Result<UsbAlternateInterface, Error>)
        ensures
            match self@.alternate_check(interface_number, alternate_setting) {
                Ok(alternate) => plan is Ok && plan->Ok_0@ == alternate,
                Err(error) => plan == Err::<UsbAlternateInterface, Error>(error),
            },
    {
        match &self.configuration {
            None => Err(Error::NotFound),
            Some(configuration) => match find_interface(
                &configuration.interfaces,
                interface_number,
            ) {
                None => Err(Error::NotFound),
                Some(i) => {
                    let interface = &configuration.interfaces[i];
                    assert(interface@ == self@.interfaces()[i as int]);
                    if !self.opened || !interface.claimed {
                        Err(Error::InvalidState)
                    } else {
                        match find_alternate(&interface.alternates, alternate_setting) {
                            None => Err(Error::NotFound),
                            Some(k) => Ok(interface.alternates[k].clone()),
                        }
                    }
                },
            },
        }
    }

    /// Record the backend's reply to selecting that alternate setting on an interface.
    pub fn finish_select_alternate_interface(
        &mut self,
        interface_number: u8,
        alternate: UsbAlternateInterface,
        reply: Result<(), Error>,
    ) -> (result: Result<(), Error>)
        ensures
            settles(
                reply,
                result,
                old(self)@,
                old(self)@.with_alternate(interface_number, alternate@),
                final(self)@,
            ),
    {
        if reply.is_ok() {
            match &mut self.configuration {
                Some(configuration) => replace_alternate(
                    &mut configuration.interfaces,
                    interface_number,
                    alternate,
                ),
                None => {},
            }
        }
        reply
    }

    /// Check a control transfer, IN or OUT; where it passes, the backend must be asked.
    pub fn begin_control_transfer(&self, setup: &UsbControlTransferParameters) -> (plan: Result<
        (),
        Error,
    >)
        ensures
            plan == self@.control_check(*setup),
    {
        if !self.opened {
            return Err(Error::InvalidState);
        }
        self.validate_control_setup(setup)
    }

    /// Check a request to clear a halt; the answer is what the backend needs for it.
    pub fn begin_clear_halt(&self, direction: Direction, endpoint_number: u8) -> (plan: Result<
        EndpointTarget,
        Error,
    >)
        ensures
            plan == self@.clear_halt_check(direction, endpoint_number),
    {
        match self.find_endpoint(endpoint_number, direction) {
            Err(error) => Err(error),
            Ok((interface, endpoint)) => if !self.opened || !interface.claimed {
                Err(Error::InvalidState)
            } else {
                Ok(
                    EndpointTarget {
                        interface_number: interface.interface_number,
                        endpoint_type: endpoint.endpoint_type,
                    },
                )
            },
        }
    }

    /// Check a transfer on an endpoint; the answer is what the backend needs for it.
    pub fn begin_transfer(&self, endpoint_number: u8, direction: Direction) -> (plan: Result<
        EndpointTarget,
        Error,
    >)
        ensures
            plan == self@.transfer_check(endpoint_number, direction),
    {
        match self.find_endpoint(endpoint_number, direction) {
            Err(error) => Err(error),
            Ok((interface, endpoint)) => {
                match endpoint.endpoint_type {
                    UsbEndpointType::Bulk | UsbEndpointType::Interrupt => {},
                    _ => return Err(Error::InvalidAccess),
                }
                if !self.opened || !interface.claimed {
                    return Err(Error::InvalidState);
                }
                Ok(
                    EndpointTarget {
                        interface_number: interface.interface_number,
                        endpoint_type: endpoint.endpoint_type,
                    },
                )
            },
        }
    }

    /// Parameters are checked, but no backend carries out isochronous transfers yet: what
    /// passes every check ends in [`Error::NotSupported`].
    pub fn isochronous_transfer_in(&self, endpoint_number: u8, packet_lengths: &[u32]) -> (result:
        Result<UsbIsochronousInTransferResult, Error>)
        ensures
            result == Err::<UsbIsochronousInTransferResult, Error>(
                self@.isochronous_error(endpoint_number, Direction::In),
            ),
    {
        Err(self.refuse_isochronous(endpoint_number, Direction::In))
    }

    /// Parameters are checked, but no backend carries out isochronous transfers yet: what
    /// passes every check ends in [`Error::NotSupported`].
    pub fn isochronous_transfer_out(
        &self,
        endpoint_number: u8,
        data: &[u8],
        packet_lengths: &[u32],
    ) -> (result: Result<UsbIsochronousOutTransferResult, Error>)
        ensures
            result == Err::<UsbIsochronousOutTransferResult, Error>(
                self@.isochronous_error(endpoint_number, Direction::Out),
            ),
    {
        Err(self.refuse_isochronous(endpoint_number, Direction::Out))
    }

    /// Why an isochronous transfer is refused.
    fn refuse_isochronous(&self, endpoint_number: u8, direction: Direction) -> (error: Error)
        ensures
            error == self@.isochronous_error(endpoint_number, direction),
    {
        match self.find_endpoint(endpoint_number, direction) {
            Err(error) => error,
            Ok((interface, endpoint)) => {
                if endpoint.endpoint_type != UsbEndpointType::Isochronous {
                    return Error::InvalidAccess;
                }
                if !self.opened || !interface.claimed {
                    return Error::InvalidState;
                }
                Error::NotSupported
            },
        }
    }

    /// Check a reset; where it passes, the backend must be asked.
    pub fn begin_reset(&self) -> (plan: Result<(), Error>)
        ensures
            plan == self@.reset_check(),
    {
        if self.opened {
            Ok(())
        } else {
            Err(Error::InvalidState)
        }
    }
}

} // verus!
