//! Laws of views: a contract speaks of a value through its view, and the view shows every field of
//! the value as it is.
use crate::device::{DeviceData, UsbDevice};
use crate::error::Error;
use crate::events::UsbConnectionEvent;
use crate::filter::{device_views, filter_views, no_filter, UsbDeviceFilter};
use crate::mock::{blank_data, write_log, MockDeviceConfig};
use crate::native::{found_views, is_event, HotplugNotice, NativeFound, NativeInfo, NativeReadings};
use crate::types::{alternate_views, configuration_views, interface_views, spec_endpoint_address,
    ConfigurationView, Direction, UsbAlternateInterface, UsbConfiguration, UsbInterface};
use vstd::prelude::*;

verus! {

/// A text is there just where its characters are, and they are those of the text.
pub open spec fn reads_as(held: Option<String>, shown: Option<Seq<char>>) -> bool {
    &&& held is None <==> shown is None
    &&& held matches Some(s) ==> shown == Some(s@)
}

/// The configurations are shown at their places.
pub open spec fn lists(held: Seq<UsbConfiguration>, shown: Seq<ConfigurationView>) -> bool {
    &&& shown.len() == held.len()
    &&& forall|i: int| 0 <= i < held.len() ==> #[trigger] shown[i] == held[i]@
}

/// An alternate setting, an interface and a configuration show every field, and what they hold in
/// its order.
pub proof fn law_configuration_is_shown(
    alternate: UsbAlternateInterface,
    interface: UsbInterface,
    configuration: UsbConfiguration,
    i: int,
)
    ensures
        ({
            let view = alternate@;
            &&& view.alternate_setting == alternate.alternate_setting
            &&& view.interface_class == alternate.interface_class
            &&& view.interface_subclass == alternate.interface_subclass
            &&& view.interface_protocol == alternate.interface_protocol
            &&& reads_as(alternate.interface_name, view.interface_name)
            &&& view.endpoints == alternate.endpoints@
        }),
        ({
            let view = interface@;
            &&& view.interface_number == interface.interface_number
            &&& view.claimed == interface.claimed
            &&& view.alternate == interface.alternate@
            &&& view.alternates.len() == interface.alternates@.len()
            &&& 0 <= i < view.alternates.len() ==> view.alternates[i] == interface.alternates@[i]@
        }),
        ({
            let view = configuration@;
            &&& view.configuration_value == configuration.configuration_value
            &&& reads_as(configuration.configuration_name, view.configuration_name)
            &&& view.interfaces.len() == configuration.interfaces@.len()
            &&& 0 <= i < view.interfaces.len() ==> view.interfaces[i]
                == configuration.interfaces@[i]@
        }),
{
}

/// A device shows every field.
pub proof fn law_device_is_shown(device: UsbDevice)
    ensures
        ({
            let view = device@;
            &&& view.id == device.id
            &&& view.opened == device.opened
            &&& view.device_class == device.device_class
            &&& view.device_subclass == device.device_subclass
            &&& view.device_protocol == device.device_protocol
            &&& view.device_version_major == device.device_version_major
            &&& view.device_version_minor == device.device_version_minor
            &&& view.device_version_subminor == device.device_version_subminor
            &&& view.product_id == device.product_id
            &&& view.usb_version_major == device.usb_version_major
            &&& view.usb_version_minor == device.usb_version_minor
            &&& view.usb_version_subminor == device.usb_version_subminor
            &&& view.vendor_id == device.vendor_id
            &&& reads_as(device.manufacturer_name, view.manufacturer_name)
            &&& reads_as(device.product_name, view.product_name)
            &&& reads_as(device.serial_number, view.serial_number)
            &&& reads_as(device.url, view.url)
            &&& lists(device.configurations@, view.configurations)
            &&& device.configuration is None <==> view.configuration is None
            &&& device.configuration matches Some(c) ==> view.configuration == Some(c@)
        }),
{
}

/// The data of a device shows every field.
pub proof fn law_data_is_shown(data: DeviceData)
    ensures
        ({
            let view = data@;
            &&& view.active_configuration_value == data.active_configuration_value
            &&& view.device_class == data.device_class
            &&& view.device_subclass == data.device_subclass
            &&& view.device_protocol == data.device_protocol
            &&& view.device_version_major == data.device_version_major
            &&& view.device_version_minor == data.device_version_minor
            &&& view.device_version_subminor == data.device_version_subminor
            &&& view.product_id == data.product_id
            &&& view.usb_version_major == data.usb_version_major
            &&& view.usb_version_minor == data.usb_version_minor
            &&& view.usb_version_subminor == data.usb_version_subminor
            &&& view.vendor_id == data.vendor_id
            &&& reads_as(data.manufacturer_name, view.manufacturer_name)
            &&& reads_as(data.product_name, view.product_name)
            &&& reads_as(data.serial_number, view.serial_number)
            &&& reads_as(data.url, view.url)
            &&& lists(data.configurations@, view.configurations)
        }),
{
}

/// What a mock device is set up with shows every field, the payload of each endpoint under its
/// number.
pub proof fn law_mock_config_is_shown(config: MockDeviceConfig, endpoint_number: u8)
    ensures
        ({
            let view = config@.data;
            &&& view.device_class == config.device_class
            &&& view.device_subclass == config.device_subclass
            &&& view.device_protocol == config.device_protocol
            &&& view.device_version_major == config.device_version_major
            &&& view.device_version_minor == config.device_version_minor
            &&& view.device_version_subminor == config.device_version_subminor
            &&& view.product_id == config.product_id
            &&& view.usb_version_major == config.usb_version_major
            &&& view.usb_version_minor == config.usb_version_minor
            &&& view.usb_version_subminor == config.usb_version_subminor
            &&& view.vendor_id == config.vendor_id
            &&& reads_as(config.manufacturer_name, view.manufacturer_name)
            &&& reads_as(config.product_name, view.product_name)
            &&& reads_as(config.serial_number, view.serial_number)
            &&& reads_as(config.url, view.url)
            &&& view.active_configuration_value == config.active_configuration
            &&& lists(config.configurations@, view.configurations)
        }),
        config@.in_data.contains_key(endpoint_number) <==> config.in_data@.contains_key(
            endpoint_number,
        ),
        config.in_data@.contains_key(endpoint_number) ==> config@.in_data[endpoint_number]
            == config.in_data@[endpoint_number]@,
        config@.stalled_endpoints == config.stalled_endpoints@,
        config@.babble_endpoints == config.babble_endpoints@,
{
}

/// What the operating system says of a device and what was read from it show every field.
pub proof fn law_found_device_is_read(info: NativeInfo, readings: NativeReadings)
    ensures
        ({
            let view = info@;
            &&& view.vendor_id == info.vendor_id
            &&& view.product_id == info.product_id
            &&& view.class == info.class
            &&& view.subclass == info.subclass
            &&& view.protocol == info.protocol
            &&& view.device_version == info.device_version
            &&& view.usb_version == info.usb_version
            &&& reads_as(info.manufacturer, view.manufacturer)
            &&& reads_as(info.product, view.product)
            &&& reads_as(info.serial_number, view.serial_number)
        }),
        ({
            let view = readings@;
            &&& lists(readings.configurations@, view.configurations)
            &&& view.active_configuration_value == readings.active_configuration_value
            &&& reads_as(readings.url, view.url)
        }),
{
}

/// A device that was found, and a notice of one, show the key, the info and the readings.
pub proof fn law_found_is_shown<K>(found: NativeFound<K>, notice: HotplugNotice<K>)
    ensures
        found@.key == found.key,
        found@.info == found.info@,
        found.readings is None <==> found@.readings is None,
        found.readings matches Some(readings) ==> found@.readings == Some(readings@),
        notice matches HotplugNotice::Connected(one) ==> notice@ is Connected
            && notice@->Connected_0 == one@,
        notice matches HotplugNotice::Disconnected(key) ==> notice@ is Disconnected
            && notice@->Disconnected_0 == key,
{
}

/// A filter shows every field, and the one that asks for nothing has none.
pub proof fn law_filter_is_shown(filter: UsbDeviceFilter)
    ensures
        filter@.vendor_id == filter.vendor_id,
        filter@.product_id == filter.product_id,
        filter@.class_code == filter.class_code,
        filter@.subclass_code == filter.subclass_code,
        filter@.protocol_code == filter.protocol_code,
        reads_as(filter.serial_number, filter@.serial_number),
        filter@ == no_filter() <==> filter.vendor_id is None && filter.product_id is None
            && filter.class_code is None && filter.subclass_code is None
            && filter.protocol_code is None && filter.serial_number is None,
{
}

/// An event shows the device that is connected, or the id, vendor and product of the one that is
/// gone; an event is wanted just where one comes, and it is that one.
pub proof fn law_event_is_shown(event: UsbConnectionEvent)
    ensures
        event matches UsbConnectionEvent::Connect(device) ==> event@ is Connect
            && event@->Connect_0 == device@,
        event matches UsbConnectionEvent::Disconnect { id, vendor_id, product_id } ==> event@ is Disconnect
            && event@->id == id && event@->vendor_id == vendor_id && event@->product_id
            == product_id,
        is_event(Some(event), Some(event@)),
        !is_event(None, Some(event@)),
        !is_event(Some(event), None),
        is_event(None, None),
{
}

/// Lists are shown item by item, in their order.
pub proof fn law_lists_are_shown<K>(
    alternates: Seq<UsbAlternateInterface>,
    interfaces: Seq<UsbInterface>,
    configurations: Seq<UsbConfiguration>,
    devices: Seq<UsbDevice>,
    filters: Seq<UsbDeviceFilter>,
    found: Seq<NativeFound<K>>,
    log: Seq<(u8, Vec<u8>)>,
    i: int,
)
    ensures
        alternate_views(alternates).len() == alternates.len(),
        0 <= i < alternates.len() ==> alternate_views(alternates)[i] == alternates[i]@,
        interface_views(interfaces).len() == interfaces.len(),
        0 <= i < interfaces.len() ==> interface_views(interfaces)[i] == interfaces[i]@,
        lists(configurations, configuration_views(configurations)),
        device_views(devices).len() == devices.len(),
        0 <= i < devices.len() ==> device_views(devices)[i] == devices[i]@,
        filter_views(filters).len() == filters.len(),
        0 <= i < filters.len() ==> filter_views(filters)[i] == filters[i]@,
        found_views(found).len() == found.len(),
        0 <= i < found.len() ==> found_views(found)[i] == found[i]@,
        write_log(log).len() == log.len(),
        0 <= i < log.len() ==> write_log(log)[i].0 == log[i].0 && write_log(log)[i].1 == log[i].1@,
{
}

/// The data of a device that is set up with nothing has no ids, no classes, no versions, no texts
/// and no configurations.
pub proof fn law_blank_data_is_blank()
    ensures
        ({
            let data = blank_data();
            &&& data.device_class == 0
            &&& data.device_subclass == 0
            &&& data.device_protocol == 0
            &&& data.device_version_major == 0
            &&& data.device_version_minor == 0
            &&& data.device_version_subminor == 0
            &&& data.product_id == 0
            &&& data.usb_version_major == 0
            &&& data.usb_version_minor == 0
            &&& data.usb_version_subminor == 0
            &&& data.vendor_id == 0
            &&& data.manufacturer_name is None
            &&& data.product_name is None
            &&& data.serial_number is None
            &&& data.url is None
            &&& data.active_configuration_value is None
            &&& data.configurations.len() == 0
        }),
{
}

/// The address of an endpoint has its number in the low bits and, just for an IN endpoint, the top
/// bit set; so the address of an endpoint of a device, numbered below 16, gives both back.
pub proof fn law_endpoint_address(direction: Direction, endpoint_number: u8)
    ensures
        ({
            let address = spec_endpoint_address(direction, endpoint_number);
            &&& direction == Direction::In ==> address == 0x80 | endpoint_number
            &&& direction == Direction::Out ==> address == endpoint_number
            &&& endpoint_number < 16 ==> {
                &&& address & 0x0F == endpoint_number
                &&& address & 0x80 != 0 <==> direction == Direction::In
            }
        }),
{
    assert(0u8 | endpoint_number == endpoint_number) by (bit_vector);
    assert(endpoint_number < 16 ==> (0x80u8 | endpoint_number) & 0x0F == endpoint_number && (0x80u8
        | endpoint_number) & 0x80 != 0 && endpoint_number & 0x0F == endpoint_number
        && endpoint_number & 0x80 == 0) by (bit_vector);
}

/// Each error has words of its own, and a transport error those it came with.
pub proof fn law_errors_have_words(error: Error)
    ensures
        error is NotFound ==> error.spec_message() == "not found"@,
        error is InvalidState ==> error.spec_message() == "invalid state"@,
        error is InvalidAccess ==> error.spec_message() == "invalid access"@,
        error is NotSupported ==> error.spec_message() == "not supported"@,
        error is Disconnected ==> error.spec_message() == "device disconnected"@,
        error is Busy ==> error.spec_message() == "device busy"@,
        error is Access ==> error.spec_message() == "permission denied"@,
        error matches Error::Io(message) ==> error.spec_message() == message@,
{
}

} // verus!
