//! The data of a USB device: configurations, interfaces, alternate settings, endpoints, and
//! the parameters and results of transfers.
//!
//! Types that hold strings or vectors have a view over `Seq`; contracts speak of the views.
use vstd::prelude::*;

verus! {

/// The direction bit of the address of an IN endpoint.
pub const EP_DIR_IN: u8 = 0x80;

/// The direction bit of the address of an OUT endpoint.
pub const EP_DIR_OUT: u8 = 0x00;

/// The characters of an optional string.
pub open spec fn text(s: Option<String>) -> Option<Seq<char>> {
    match s {
        Some(t) => Some(t@),
        None => None,
    }
}

#[derive(Copy, Clone, Debug, PartialEq, Eq, Structural)]
pub enum UsbEndpointType {
    Bulk,
    Interrupt,
    Isochronous,
    Control,
}

#[derive(Copy, Clone, Debug, PartialEq, Eq, Structural)]
pub enum Direction {
    In,
    Out,
}

/// The address of an endpoint: its number with the direction bit.
pub open spec fn spec_endpoint_address(direction: Direction, endpoint_number: u8) -> u8 {
    match direction {
        Direction::In => EP_DIR_IN | endpoint_number,
        Direction::Out => EP_DIR_OUT | endpoint_number,
    }
}

/// The address of an endpoint: `0x80 | n` for IN, `n` for OUT.
pub fn endpoint_address(direction: Direction, endpoint_number: u8) -> (address: u8)
    ensures
        address == spec_endpoint_address(direction, endpoint_number),
{
    match direction {
        Direction::In => EP_DIR_IN | endpoint_number,
        Direction::Out => EP_DIR_OUT | endpoint_number,
    }
}

#[derive(Copy, Clone, Debug)]
pub struct UsbEndpoint {
    pub endpoint_number: u8,
    pub direction: Direction,
    pub endpoint_type: UsbEndpointType,
    pub packet_size: u16,
}

#[derive(Debug)]
pub struct UsbAlternateInterface {
    pub alternate_setting: u8,
    pub interface_class: u8,
    pub interface_subclass: u8,
    pub interface_protocol: u8,
    pub interface_name: Option<String>,
    pub endpoints: Vec<UsbEndpoint>,
}

/// View of a [`UsbAlternateInterface`].
#[verifier::ext_equal]
pub struct AlternateView {
    pub alternate_setting: u8,
    pub interface_class: u8,
    pub interface_subclass: u8,
    pub interface_protocol: u8,
    pub interface_name: Option<Seq<char>>,
    pub endpoints: Seq<UsbEndpoint>,
}

impl View for UsbAlternateInterface {
    type V = AlternateView;

    open spec fn view(&self) -> AlternateView {
        AlternateView {
            alternate_setting: self.alternate_setting,
            interface_class: self.interface_class,
            interface_subclass: self.interface_subclass,
            interface_protocol: self.interface_protocol,
            interface_name: text(self.interface_name),
            endpoints: self.endpoints@,
        }
    }
}

impl Clone for UsbAlternateInterface {
    fn clone(&self) -> (copy: Self)
        ensures
            copy@ == self@,
    {
        let endpoints = self.endpoints.clone();
        assert(endpoints@ =~= self.endpoints@);
        UsbAlternateInterface {
            alternate_setting: self.alternate_setting,
            interface_class: self.interface_class,
            interface_subclass: self.interface_subclass,
            interface_protocol: self.interface_protocol,
            interface_name: self.interface_name.clone(),
            endpoints,
        }
    }
}

/// The views of a list of alternate settings.
pub open spec fn alternate_views(alternates: Seq<UsbAlternateInterface>) -> Seq<AlternateView> {
    Seq::new(alternates.len(), |i: int| alternates[i]@)
}

#[derive(Debug)]
pub struct UsbInterface {
    pub interface_number: u8,
    /// The currently selected alternate setting.
    pub alternate: UsbAlternateInterface,
    pub alternates: Vec<UsbAlternateInterface>,
    pub claimed: bool,
}

/// View of a [`UsbInterface`].
#[verifier::ext_equal]
pub struct InterfaceView {
    pub interface_number: u8,
    pub alternate: AlternateView,
    pub alternates: Seq<AlternateView>,
    pub claimed: bool,
}

impl View for UsbInterface {
    type V = InterfaceView;

    open spec fn view(&self) -> InterfaceView {
        InterfaceView {
            interface_number: self.interface_number,
            alternate: self.alternate@,
            alternates: alternate_views(self.alternates@),
            claimed: self.claimed,
        }
    }
}

impl Clone for UsbInterface {
    fn clone(&self) -> (copy: Self)
        ensures
            copy@ == self@,
    {
        let alternates = self.alternates.clone();
        assert(alternate_views(alternates@) =~= alternate_views(self.alternates@));
        UsbInterface {
            interface_number: self.interface_number,
            alternate: self.alternate.clone(),
            alternates,
            claimed: self.claimed,
        }
    }
}

/// The views of a list of interfaces.
pub open spec fn interface_views(interfaces: Seq<UsbInterface>) -> Seq<InterfaceView> {
    Seq::new(interfaces.len(), |i: int| interfaces[i]@)
}

#[derive(Debug)]
pub struct UsbConfiguration {
    /// Name from the string descriptor describing this configuration.
    pub configuration_name: Option<String>,
    /// The configuration number (bConfigurationValue).
    pub configuration_value: u8,
    pub interfaces: Vec<UsbInterface>,
}

/// View of a [`UsbConfiguration`].
#[verifier::ext_equal]
pub struct ConfigurationView {
    pub configuration_name: Option<Seq<char>>,
    pub configuration_value: u8,
    pub interfaces: Seq<InterfaceView>,
}

impl View for UsbConfiguration {
    type V = ConfigurationView;

    open spec fn view(&self) -> ConfigurationView {
        ConfigurationView {
            configuration_name: text(self.configuration_name),
            configuration_value: self.configuration_value,
            interfaces: interface_views(self.interfaces@),
        }
    }
}

impl Clone for UsbConfiguration {
    fn clone(&self) -> (copy: Self)
        ensures
            copy@ == self@,
    {
        let interfaces = self.interfaces.clone();
        assert(interface_views(interfaces@) =~= interface_views(self.interfaces@));
        UsbConfiguration {
            configuration_name: self.configuration_name.clone(),
            configuration_value: self.configuration_value,
            interfaces,
        }
    }
}

/// The views of a list of configurations.
pub open spec fn configuration_views(configurations: Seq<UsbConfiguration>) -> Seq<
    ConfigurationView,
> {
    Seq::new(configurations.len(), |i: int| configurations[i]@)
}

/// A copy of a list of configurations.
pub fn clone_configurations(configurations: &Vec<UsbConfiguration>) -> (copy: Vec<
    UsbConfiguration,
>)
    ensures
        configuration_views(copy@) == configuration_views(configurations@),
{
    let copy = configurations.clone();
    assert(configuration_views(copy@) =~= configuration_views(configurations@));
    copy
}

/// Status of a completed (or failed) transfer.
#[derive(Copy, Clone, Debug, PartialEq, Eq, Structural)]
pub enum UsbTransferStatus {
    /// The transfer went through (`ok`).
    Completed,
    /// The endpoint is halted.
    Stall,
    /// The device sent more data than expected.
    Babble,
}

#[derive(Clone, Debug)]
pub struct UsbInTransferResult {
    pub data: Vec<u8>,
    pub status: UsbTransferStatus,
}

#[derive(Clone, Debug)]
pub struct UsbOutTransferResult {
    pub bytes_written: usize,
    pub status: UsbTransferStatus,
}

#[derive(Clone, Debug)]
pub struct UsbIsochronousInTransferPacket {
    pub data: Vec<u8>,
    pub status: UsbTransferStatus,
}

#[derive(Clone, Debug)]
pub struct UsbIsochronousInTransferResult {
    pub packets: Vec<UsbIsochronousInTransferPacket>,
}

#[derive(Clone, Debug)]
pub struct UsbIsochronousOutTransferPacket {
    pub bytes_written: usize,
    pub status: UsbTransferStatus,
}

#[derive(Clone, Debug)]
pub struct UsbIsochronousOutTransferResult {
    pub packets: Vec<UsbIsochronousOutTransferPacket>,
}

#[derive(Copy, Clone, Debug, PartialEq, Eq, Structural)]
pub enum UsbRequestType {
    Standard,
    Class,
    Vendor,
}

#[derive(Copy, Clone, Debug, PartialEq, Eq, Structural)]
pub enum UsbRecipient {
    Device,
    Interface,
    Endpoint,
    Other,
}

#[derive(Copy, Clone, Debug)]
pub struct UsbControlTransferParameters {
    pub request_type: UsbRequestType,
    pub recipient: UsbRecipient,
    pub request: u8,
    pub value: u16,
    pub index: u16,
}

} // verus!
