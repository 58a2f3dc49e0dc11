//! The configurations of a real device, from the bytes of its configuration descriptors.
//!
//! The `nusb` crate takes the descriptors apart; the functions here put the parts together as a
//! [`UsbConfiguration`]. Names are strings that the device must be asked for one by one:
//! [`string_indices`] lists which, and [`convert_configuration`] takes what was read for each.
use crate::device::{alternate_settings, find_alternate};
use crate::search::first_index;
use crate::types::{alternate_views, interface_views, text, AlternateView, ConfigurationView,
    Direction, InterfaceView, UsbAlternateInterface, UsbConfiguration, UsbEndpoint, UsbEndpointType,
    UsbInterface};
use nusb::descriptors::{ConfigurationDescriptor, TransferType};
use nusb::transfer::Direction as Way;
use vstd::prelude::*;

verus! {

/// An alternate setting as its interface descriptor gives it.
#[derive(Copy, Clone, Debug)]
pub struct AlternateRecord {
    pub alternate_setting: u8,
    pub interface_class: u8,
    pub interface_subclass: u8,
    pub interface_protocol: u8,
    pub string_index: Option<u8>,
}

/// An interface with the alternate settings that share its number.
#[derive(Debug)]
pub struct InterfaceRecord {
    pub interface_number: u8,
    pub alternates: Vec<AlternateRecord>,
}

/// View of an [`InterfaceRecord`].
#[verifier::ext_equal]
pub struct InterfaceRecordView {
    pub interface_number: u8,
    pub alternates: Seq<AlternateRecord>,
}

impl View for InterfaceRecord {
    type V = InterfaceRecordView;

    open spec fn view(&self) -> InterfaceRecordView {
        InterfaceRecordView {
            interface_number: self.interface_number,
            alternates: self.alternates@,
        }
    }
}

/// The views of a list of interface records.
pub open spec fn record_views(records: Seq<InterfaceRecord>) -> Seq<InterfaceRecordView> {
    Seq::new(records.len(), |i: int| records[i]@)
}

/// An endpoint as its endpoint descriptor gives it.
#[derive(Copy, Clone, Debug)]
pub struct EndpointRecord {
    pub address: u8,
    pub direction: Direction,
    pub endpoint_type: UsbEndpointType,
    pub max_packet_size: usize,
}

/// The length that a configuration descriptor gives for itself and all that follows it.
pub open spec fn total_length(bytes: Seq<u8>) -> int {
    bytes[2] + 256 * bytes[3]
}

/// The bytes start with a configuration descriptor that fits into them.
pub open spec fn is_configuration(bytes: Seq<u8>) -> bool {
    &&& bytes.len() >= 9
    &&& bytes[0] >= 9
    &&& bytes[1] == 2
    &&& bytes[0] <= total_length(bytes) <= bytes.len()
}

/// The configuration value and the index of the configuration's name in its descriptor.
pub open spec fn configuration_header(bytes: Seq<u8>) -> Option<(u8, Option<u8>)> {
    if is_configuration(bytes) {
        Some(
            (
                bytes[5],
                if bytes[6] == 0 {
                    None
                } else {
                    Some(bytes[6])
                },
            ),
        )
    } else {
        None
    }
}

/// The interfaces that `nusb` finds in the bytes of a configuration.
pub uninterp spec fn interface_listing(bytes: Seq<u8>) -> Seq<InterfaceRecordView>;

/// The endpoints that `nusb` finds in the bytes of a configuration, for an alternate setting of
/// an interface, both by their places in the listing of interfaces.
pub uninterp spec fn endpoint_listing(bytes: Seq<u8>, interface: int, alternate: int) -> Seq<
    EndpointRecord,
>;

/// Calls `nusb::descriptors::ConfigurationDescriptor::new`, and on what it gives
/// `configuration_value` and `string_index`. Claims that there is a configuration just where the
/// bytes start with a configuration descriptor that fits into them, and that the two values are
/// bytes 5 and 6 of it, a zero index standing for none.
#[verifier::external_body]
fn read_header(bytes: &[u8]) -> (header: Option<(u8, Option<u8>)>)
    ensures
        header == configuration_header(bytes@),
{
    let configuration = ConfigurationDescriptor::new(bytes)?;
    let string_index = configuration.string_index().map(|index| index.get());
    Some((configuration.configuration_value(), string_index))
}

/// The interfaces come by increasing numbers, and each has at least one alternate setting.
pub open spec fn in_order(records: Seq<InterfaceRecordView>) -> bool {
    &&& forall|i: int, j: int|
        0 <= i < j < records.len() ==> (#[trigger] records[i]).interface_number < (
        #[trigger] records[j]).interface_number
    &&& forall|i: int| 0 <= i < records.len() ==> (#[trigger] records[i]).alternates.len() > 0
}

/// Calls `nusb::descriptors::ConfigurationDescriptor::interfaces` and the accessors of what it
/// gives. Claims that the interfaces and their alternate settings are a function of the bytes,
/// that the interfaces come by increasing numbers, and that none is without alternate settings.
#[verifier::external_body]
fn list_interfaces(bytes: &[u8]) -> (records: Vec<InterfaceRecord>)
    requires
        is_configuration(bytes@),
    ensures
        record_views(records@) == interface_listing(bytes@),
        in_order(record_views(records@)),
{
    let configuration = ConfigurationDescriptor::new(bytes).unwrap();
    let records = configuration.interfaces().map(|interface| InterfaceRecord {
        interface_number: interface.interface_number(),
        alternates: interface.alt_settings().map(|setting| AlternateRecord {
            alternate_setting: setting.alternate_setting(),
            interface_class: setting.class(),
            interface_subclass: setting.subclass(),
            interface_protocol: setting.protocol(),
            string_index: setting.string_index().map(|index| index.get()),
        }).collect(),
    });
    records.collect()
}

/// The direction of the endpoint is the top bit of its address, set for an IN endpoint, and the
/// packet size has eleven bits.
pub open spec fn told_by_address(record: EndpointRecord) -> bool {
    &&& record.direction == Direction::In <==> record.address & 0x80 != 0
    &&& record.max_packet_size < 2048
}

/// Calls `nusb::descriptors::InterfaceDescriptor::endpoints` for an alternate setting of an
/// interface, and the accessors of what it gives. Claims that the endpoints are a function of the
/// bytes and the two places, that the direction of each is the top bit of its address, and that
/// its packet size has eleven bits.
#[verifier::external_body]
fn list_endpoints(bytes: &[u8], interface: usize, alternate: usize) -> (records: Vec<
    EndpointRecord,
>)
    requires
        is_configuration(bytes@),
        interface < interface_listing(bytes@).len(),
        alternate < interface_listing(bytes@)[interface as int].alternates.len(),
    ensures
        records@ == endpoint_listing(bytes@, interface as int, alternate as int),
        forall|e: int| 0 <= e < records@.len() ==> told_by_address(#[trigger] records@[e]),
{
    let group = ConfigurationDescriptor::new(bytes).unwrap().interfaces().nth(interface).unwrap();
    let setting = group.alt_settings().nth(alternate).unwrap();
    setting.endpoints().map(|endpoint| EndpointRecord {
        address: endpoint.address(),
        direction: match endpoint.direction() { Way::In => Direction::In, Way::Out => Direction::Out },
        endpoint_type: match endpoint.transfer_type() {
            TransferType::Control => UsbEndpointType::Control,
            TransferType::Isochronous => UsbEndpointType::Isochronous,
            TransferType::Bulk => UsbEndpointType::Bulk,
            TransferType::Interrupt => UsbEndpointType::Interrupt,
        },
        max_packet_size: endpoint.max_packet_size(),
    }).collect()
}

/// The direction of every endpoint of the first `count` interfaces is told by its address.
pub open spec fn directions_told(bytes: Seq<u8>, count: int) -> bool {
    forall|i: int, j: int, e: int|
        0 <= i < count && 0 <= j < interface_listing(bytes)[i].alternates.len() && 0 <= e
            < endpoint_listing(bytes, i, j).len() ==> told_by_address(
            #[trigger] endpoint_listing(bytes, i, j)[e],
        )
}

/// The name that was read for a descriptor, at its place among the names; none where the
/// descriptor gives no index, or nothing could be read.
pub open spec fn name_at(names: Seq<Option<String>>, place: nat, index: Option<u8>) -> Option<
    Seq<char>,
> {
    if index is Some && place < names.len() {
        text(names[place as int])
    } else {
        None
    }
}

/// The endpoint that a record describes: the low four bits of the address number it.
pub open spec fn endpoint_from(record: EndpointRecord) -> UsbEndpoint {
    UsbEndpoint {
        endpoint_number: record.address % 16,
        direction: record.direction,
        endpoint_type: record.endpoint_type,
        packet_size: record.max_packet_size as u16,
    }
}

/// The alternate setting that a record and its endpoints describe.
pub open spec fn alternate_from(
    record: AlternateRecord,
    endpoints: Seq<EndpointRecord>,
    name: Option<Seq<char>>,
) -> AlternateView {
    AlternateView {
        alternate_setting: record.alternate_setting,
        interface_class: record.interface_class,
        interface_subclass: record.interface_subclass,
        interface_protocol: record.interface_protocol,
        interface_name: name,
        endpoints: Seq::new(endpoints.len(), |i: int| endpoint_from(endpoints[i])),
    }
}

/// The alternate setting that is selected to begin with: the first one numbered 0, else the first
/// one.
pub open spec fn default_alternate(alternates: Seq<AlternateView>) -> Option<AlternateView> {
    match first_index(alternate_settings(alternates), 0u8) {
        Some(i) => Some(alternates[i]),
        None => if alternates.len() > 0 {
            Some(alternates[0])
        } else {
            None
        },
    }
}

/// The interface, not claimed, that a number and alternate settings make; none without settings.
pub open spec fn interface_from(interface_number: u8, alternates: Seq<AlternateView>) -> Option<
    InterfaceView,
> {
    match default_alternate(alternates) {
        Some(alternate) => Some(
            InterfaceView { interface_number, alternate, alternates, claimed: false },
        ),
        None => None,
    }
}

/// The sequence, longer by the item if there is one.
pub open spec fn push_some<T>(items: Seq<T>, item: Option<T>) -> Seq<T> {
    match item {
        Some(t) => items.push(t),
        None => items,
    }
}

/// The index, if there is one, as a sequence.
pub open spec fn present(index: Option<u8>) -> Seq<u8> {
    push_some(Seq::empty(), index)
}

/// The indices of the names of the first `count` alternate settings.
pub open spec fn alternate_strings(records: Seq<AlternateRecord>, count: nat) -> Seq<u8>
    decreases count,
{
    if count == 0 {
        Seq::empty()
    } else {
        push_some(
            alternate_strings(records, (count - 1) as nat),
            records[count - 1].string_index,
        )
    }
}

/// The indices of the names in the first `count` interfaces.
pub open spec fn listing_strings(listing: Seq<InterfaceRecordView>, count: nat) -> Seq<u8>
    decreases count,
{
    if count == 0 {
        Seq::empty()
    } else {
        let last = listing[count - 1].alternates;
        listing_strings(listing, (count - 1) as nat) + alternate_strings(last, last.len())
    }
}

/// The indices of all names that the bytes of a configuration give, in the order in which the
/// descriptors give them: that of the configuration first.
pub open spec fn strings_in(bytes: Seq<u8>) -> Seq<u8> {
    match configuration_header(bytes) {
        Some((_, name_index)) => present(name_index) + listing_strings(
            interface_listing(bytes),
            interface_listing(bytes).len(),
        ),
        None => Seq::empty(),
    }
}

/// The place, among all names, of the name of an alternate setting of an interface.
pub open spec fn name_place(bytes: Seq<u8>, interface: int, alternate: int) -> nat {
    let listing = interface_listing(bytes);
    present(configuration_header(bytes)->Some_0.1).len() + listing_strings(
        listing,
        interface as nat,
    ).len() + alternate_strings(listing[interface].alternates, alternate as nat).len()
}

/// The alternate settings that the bytes of a configuration describe for an interface.
pub open spec fn alternates_in(bytes: Seq<u8>, interface: int, names: Seq<Option<String>>) -> Seq<
    AlternateView,
> {
    let records = interface_listing(bytes)[interface].alternates;
    Seq::new(
        records.len(),
        |j: int|
            alternate_from(
                records[j],
                endpoint_listing(bytes, interface, j),
                name_at(names, name_place(bytes, interface, j), records[j].string_index),
            ),
    )
}

/// The interfaces that the first `count` entries of the listing for the bytes describe.
pub open spec fn interfaces_in(bytes: Seq<u8>, count: nat, names: Seq<Option<String>>) -> Seq<
    InterfaceView,
>
    decreases count,
{
    if count == 0 {
        Seq::empty()
    } else {
        let i = count - 1;
        push_some(
            interfaces_in(bytes, (count - 1) as nat, names),
            interface_from(
                interface_listing(bytes)[i].interface_number,
                alternates_in(bytes, i, names),
            ),
        )
    }
}

/// The configuration that the bytes of its descriptors describe.
pub open spec fn configuration_from(bytes: Seq<u8>, names: Seq<Option<String>>) -> Option<
    ConfigurationView,
> {
    match configuration_header(bytes) {
        Some((configuration_value, name_index)) => Some(
            ConfigurationView {
                configuration_name: name_at(names, 0, name_index),
                configuration_value,
                interfaces: interfaces_in(bytes, interface_listing(bytes).len(), names),
            },
        ),
        None => None,
    }
}

/// How far a place is counted: up to the number of names.
spec fn counted(place: nat, names: Seq<Option<String>>) -> nat {
    if place < names.len() {
        place
    } else {
        names.len()
    }
}

/// The name at the place that was counted to, for a descriptor with an index, which counts on.
fn take_name(names: &Vec<Option<String>>, place: &mut usize, index: Option<u8>) -> (name: Option<
    String,
>)
    requires
        *old(place) <= names@.len(),
    ensures
        text(name) == name_at(names@, *old(place) as nat, index),
        *final(place) == (if index is Some {
            counted((*old(place) + 1) as nat, names@)
        } else {
            *old(place) as nat
        }),
{
    if index.is_none() || *place >= names.len() {
        return None;
    }
    let name = names[*place].clone();
    *place = *place + 1;
    name
}

/// The alternate setting that a record and its endpoints describe, with the name that was read for
/// it.
pub fn convert_alternate(
    record: &AlternateRecord,
    endpoints: &Vec<EndpointRecord>,
    name: Option<String>,
) -> (alternate: UsbAlternateInterface)
    ensures
        alternate@ == alternate_from(*record, endpoints@, text(name)),
{
    let mut converted: Vec<UsbEndpoint> = Vec::new();
    let mut i: usize = 0;
    while i < endpoints.len()
        invariant
            i <= endpoints@.len(),
            converted@.len() == i,
            forall|j: int| 0 <= j < i ==> converted@[j] == endpoint_from(endpoints@[j]),
        decreases endpoints@.len() - i,
    {
        let address: u8 = endpoints[i].address;
        assert(address & 0x0F == address % 16) by (bit_vector);
        converted.push(
            UsbEndpoint {
                endpoint_number: address & 0x0F,
                direction: endpoints[i].direction,
                endpoint_type: endpoints[i].endpoint_type,
                packet_size: endpoints[i].max_packet_size as u16,
            },
        );
        i = i + 1;
    }
    let alternate = UsbAlternateInterface {
        alternate_setting: record.alternate_setting,
        interface_class: record.interface_class,
        interface_subclass: record.interface_subclass,
        interface_protocol: record.interface_protocol,
        interface_name: name,
        endpoints: converted,
    };
    assert(alternate@ =~= alternate_from(*record, endpoints@, text(name)));
    alternate
}

/// The interface that a number and alternate settings make; none without settings.
pub fn convert_interface(interface_number: u8, alternates: Vec<UsbAlternateInterface>) -> (interface:
    Option<UsbInterface>)
    ensures
        match interface_from(interface_number, alternate_views(alternates@)) {
            Some(view) => interface is Some && interface->Some_0@ == view,
            None => interface is None,
        },
{
    let alternate = match find_alternate(&alternates, 0) {
        Some(i) => alternates[i].clone(),
        None => {
            if alternates.len() == 0 {
                return None;
            }
            alternates[0].clone()
        },
    };
    Some(UsbInterface { interface_number, alternate, alternates, claimed: false })
}

/// Where the listing is in order, every interface in it is among the interfaces, at its place.
proof fn lemma_interfaces_in(bytes: Seq<u8>, count: nat, names: Seq<Option<String>>)
    requires
        in_order(interface_listing(bytes)),
        count <= interface_listing(bytes).len(),
    ensures
        interfaces_in(bytes, count, names).len() == count,
        forall|i: int|
            0 <= i < count ==> (#[trigger] interfaces_in(bytes, count, names)[i]).interface_number
                == interface_listing(bytes)[i].interface_number,
        forall|i: int|
            0 <= i < count ==> !(#[trigger] interfaces_in(bytes, count, names)[i]).claimed,
    decreases count,
{
    if count > 0 {
        lemma_interfaces_in(bytes, (count - 1) as nat, names);
        assert(interface_listing(bytes)[count - 1].alternates.len() > 0);
        assert(alternates_in(bytes, count - 1, names).len() > 0);
    }
}

/// The configuration that the bytes of its descriptors describe, with the names that were read;
/// none where the bytes do not start with a configuration descriptor. Its interfaces come by
/// increasing numbers, and none of them is claimed. The descriptors list no interface without
/// alternate settings, and the addresses of endpoints tell their directions.
pub fn convert_configuration(bytes: &[u8], names: &Vec<Option<String>>) -> (configuration: Option<
    UsbConfiguration,
>)
    ensures
        match configuration_from(bytes@, names@) {
            Some(view) => configuration is Some && configuration->Some_0@ == view,
            None => configuration is None,
        },
        configuration matches Some(c) ==> {
            &&& forall|i: int, j: int|
                0 <= i < j < c@.interfaces.len() ==> (#[trigger] c@.interfaces[i]).interface_number
                    < (#[trigger] c@.interfaces[j]).interface_number
            &&& forall|i: int|
                0 <= i < c@.interfaces.len() ==> !(#[trigger] c@.interfaces[i]).claimed
        },
        configuration is Some ==> in_order(interface_listing(bytes@)) && directions_told(
            bytes@,
            interface_listing(bytes@).len() as int,
        ),
{
    let (configuration_value, name_index) = match read_header(bytes) {
        Some(header) => header,
        None => return None,
    };
    let mut place: usize = 0;
    let configuration_name = take_name(names, &mut place, name_index);
    let records = list_interfaces(bytes);
    let ghost listing = interface_listing(bytes@);
    assert(place == counted(present(name_index).len() + listing_strings(listing, 0).len(), names@));
    let mut interfaces: Vec<UsbInterface> = Vec::new();
    assert(interface_views(interfaces@) =~= Seq::<InterfaceView>::empty());
    let mut i: usize = 0;
    while i < records.len()
        invariant
            i <= records@.len(),
            is_configuration(bytes@),
            configuration_header(bytes@) == Some((configuration_value, name_index)),
            listing == interface_listing(bytes@),
            listing == record_views(records@),
            place == counted(
                present(name_index).len() + listing_strings(listing, i as nat).len(),
                names@,
            ),
            interface_views(interfaces@) == interfaces_in(bytes@, i as nat, names@),
            directions_told(bytes@, i as int),
        decreases records@.len() - i,
    {
        assert(listing[i as int] == records@[i as int]@);
        let ghost wanted = alternates_in(bytes@, i as int, names@);
        let mut alternates: Vec<UsbAlternateInterface> = Vec::new();
        let mut j: usize = 0;
        assert(place == counted(name_place(bytes@, i as int, 0), names@));
        while j < records[i].alternates.len()
            invariant
                i < records@.len(),
                j <= records@[i as int].alternates@.len(),
                is_configuration(bytes@),
                configuration_header(bytes@) == Some((configuration_value, name_index)),
                place == counted(name_place(bytes@, i as int, j as int), names@),
                listing == interface_listing(bytes@),
                listing == record_views(records@),
                listing[i as int] == records@[i as int]@,
                wanted == alternates_in(bytes@, i as int, names@),
                alternates@.len() == j,
                forall|k: int| 0 <= k < j ==> (#[trigger] alternates@[k])@ == wanted[k],
                directions_told(bytes@, i as int),
                forall|k: int, e: int|
                    0 <= k < j && 0 <= e < endpoint_listing(bytes@, i as int, k).len()
                        ==> told_by_address(#[trigger] endpoint_listing(bytes@, i as int, k)[e]),
            decreases records@[i as int].alternates@.len() - j,
        {
            let endpoints = list_endpoints(bytes, i, j);
            let name = take_name(names, &mut place, records[i].alternates[j].string_index);
            alternates.push(convert_alternate(&records[i].alternates[j], &endpoints, name));
            j = j + 1;
        }
        assert(alternate_views(alternates@) =~= wanted);
        let ghost before = interfaces@;
        match convert_interface(records[i].interface_number, alternates) {
            Some(interface) => {
                interfaces.push(interface);
                assert(interface_views(interfaces@) =~= interface_views(before).push(interface@));
            },
            None => {},
        }
        i = i + 1;
    }
    proof {
        lemma_interfaces_in(bytes@, listing.len(), names@);
    }
    Some(
        UsbConfiguration {
            configuration_name,
            configuration_value,
            interfaces,
        },
    )
}

/// The indices of the strings that name the configuration and its alternate settings, in the
/// order in which the descriptors give them; none at all where the bytes do not start with a
/// configuration descriptor.
pub fn string_indices(bytes: &[u8]) -> (indices: Vec<u8>)
    ensures
        indices@ == strings_in(bytes@),
{
    let mut indices: Vec<u8> = Vec::new();
    let name_index = match read_header(bytes) {
        Some((_, name_index)) => name_index,
        None => return indices,
    };
    if let Some(index) = name_index {
        indices.push(index);
    }
    let records = list_interfaces(bytes);
    let ghost listing = interface_listing(bytes@);
    let ghost head = present(name_index);
    assert(indices@ =~= head + listing_strings(listing, 0));
    let mut i: usize = 0;
    while i < records.len()
        invariant
            i <= records@.len(),
            listing == record_views(records@),
            indices@ == head + listing_strings(listing, i as nat),
        decreases records@.len() - i,
    {
        let alternates = &records[i].alternates;
        assert(listing[i as int].alternates == alternates@);
        let ghost before = indices@;
        assert(indices@ =~= before + alternate_strings(alternates@, 0));
        let mut j: usize = 0;
        while j < alternates.len()
            invariant
                j <= alternates@.len(),
                indices@ == before + alternate_strings(alternates@, j as nat),
            decreases alternates@.len() - j,
        {
            if let Some(index) = alternates[j].string_index {
                indices.push(index);
            }
            j = j + 1;
            assert(indices@ =~= before + alternate_strings(alternates@, j as nat));
        }
        i = i + 1;
        assert(indices@ =~= head + listing_strings(listing, i as nat));
    }
    indices
}

} // verus!
