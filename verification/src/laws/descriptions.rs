//! Laws of descriptions: what the descriptors of a real device say is what the device shows, field
//! by field.
use crate::configurations::{alternate_from, alternate_strings, alternates_in, configuration_from,
    directions_told, endpoint_from, endpoint_listing, in_order, interface_from, interface_listing,
    interfaces_in, listing_strings, name_place, strings_in, told_by_address, AlternateRecord,
    EndpointRecord, InterfaceRecordView};
use crate::device::alternate_settings;
use crate::laws::natives::{law_default_alternate_is_listed, law_names_stand_with_their_indices};
use crate::search::{lemma_first_index, lemma_first_index_absent, lemma_first_index_found};
use crate::types::{text, AlternateView, Direction, UsbEndpoint};
use vstd::prelude::*;

verus! {

/// The endpoint has the number that the low four bits of the address give, and the direction, the
/// type and the packet size of the descriptor.
pub open spec fn shows_endpoint(endpoint: UsbEndpoint, record: EndpointRecord) -> bool {
    &&& endpoint.endpoint_number == record.address & 0x0F
    &&& endpoint.direction == record.direction
    &&& endpoint.endpoint_type == record.endpoint_type
    &&& endpoint.packet_size == record.max_packet_size % 65536
}

/// The alternate setting has that name, the number and the class of its descriptor, and one
/// endpoint for each endpoint descriptor, in their order.
pub open spec fn shows_alternate(
    alternate: AlternateView,
    record: AlternateRecord,
    endpoints: Seq<EndpointRecord>,
    name: Option<Seq<char>>,
) -> bool {
    &&& alternate.alternate_setting == record.alternate_setting
    &&& alternate.interface_class == record.interface_class
    &&& alternate.interface_subclass == record.interface_subclass
    &&& alternate.interface_protocol == record.interface_protocol
    &&& alternate.interface_name == name
    &&& alternate.endpoints.len() == endpoints.len()
    &&& forall|e: int|
        0 <= e < endpoints.len() ==> shows_endpoint(#[trigger] alternate.endpoints[e], endpoints[e])
}

/// An endpoint shows what its descriptor says, and the direction is that of the address wherever
/// the record's is.
pub proof fn law_endpoint_shows_its_descriptor(record: EndpointRecord)
    ensures
        shows_endpoint(endpoint_from(record), record),
        (record.direction == Direction::In <==> record.address & 0x80 != 0) ==> (
        endpoint_from(record).direction == Direction::In <==> record.address & 0x80 != 0),
        record.max_packet_size < 2048 ==> endpoint_from(record).packet_size
            == record.max_packet_size,
{
    let address = record.address;
    let size = record.max_packet_size;
    assert(address & 0x0F == address % 16) by (bit_vector);
    assert(size as u16 == size % 65536) by (bit_vector);
}

/// An alternate setting shows what its descriptor and those of its endpoints say.
pub proof fn law_alternate_shows_its_descriptor(
    record: AlternateRecord,
    endpoints: Seq<EndpointRecord>,
    name: Option<Seq<char>>,
)
    ensures
        shows_alternate(alternate_from(record, endpoints, name), record, endpoints, name),
{
    assert forall|e: int| 0 <= e < endpoints.len() implies shows_endpoint(
        #[trigger] alternate_from(record, endpoints, name).endpoints[e],
        endpoints[e],
    ) by {
        law_endpoint_shows_its_descriptor(endpoints[e]);
    }
}

/// An interface has the number and the alternate settings it is made of, is not claimed, and
/// starts with the first setting numbered 0, or with the first of all where none is. Without
/// settings there is no interface.
pub proof fn law_interface_is_made_of(
    interface_number: u8,
    alternates: Seq<AlternateView>,
    k: int,
)
    ensures
        interface_from(interface_number, alternates) is None <==> alternates.len() == 0,
        interface_from(interface_number, alternates) matches Some(interface) ==> {
            &&& interface.interface_number == interface_number
            &&& interface.alternates == alternates
            &&& !interface.claimed
            &&& (forall|l: int|
                0 <= l < alternates.len() ==> (#[trigger] alternates[l]).alternate_setting != 0)
                ==> interface.alternate == alternates[0]
            &&& 0 <= k < alternates.len() && alternates[k].alternate_setting == 0 && (forall|l: int|
                0 <= l < k ==> (#[trigger] alternates[l]).alternate_setting != 0)
                ==> interface.alternate == alternates[k]
        },
{
    let keys = alternate_settings(alternates);
    if forall|l: int|
        0 <= l < alternates.len() ==> (#[trigger] alternates[l]).alternate_setting != 0 {
        assert forall|l: int| 0 <= l < keys.len() implies keys[l] != 0u8 by {
            assert(alternates[l].alternate_setting != 0);
        }
        lemma_first_index_absent(keys, 0u8);
    } else {
        lemma_first_index(keys, 0u8);
    }
    if 0 <= k < alternates.len() && alternates[k].alternate_setting == 0 && (forall|l: int|
        0 <= l < k ==> (#[trigger] alternates[l]).alternate_setting != 0) {
        assert forall|l: int| 0 <= l < k implies keys[l] != 0u8 by {
            assert(alternates[l].alternate_setting != 0);
        }
        lemma_first_index_found(keys, 0u8, k);
    }
}

/// Every interface of the listing is among the interfaces, at its place, made of its alternate
/// settings.
proof fn lemma_interface_at(bytes: Seq<u8>, count: nat, names: Seq<Option<String>>, i: int)
    requires
        in_order(interface_listing(bytes)),
        count <= interface_listing(bytes).len(),
    ensures
        interfaces_in(bytes, count, names).len() == count,
        0 <= i < count ==> Some(interfaces_in(bytes, count, names)[i]) == interface_from(
            interface_listing(bytes)[i].interface_number,
            alternates_in(bytes, i, names),
        ),
    decreases count,
{
    if count > 0 {
        lemma_interface_at(bytes, (count - 1) as nat, names, i);
        let last = count - 1;
        assert(interface_listing(bytes)[last].alternates.len() > 0);
        law_interface_is_made_of(
            interface_listing(bytes)[last].interface_number,
            alternates_in(bytes, last, names),
            0,
        );
    }
}

/// How many of the first `count` alternate settings give an index for a name.
pub open spec fn count_named(records: Seq<AlternateRecord>, count: nat) -> nat
    decreases count,
{
    if count == 0 {
        0
    } else if records[count - 1].string_index is Some {
        count_named(records, (count - 1) as nat) + 1
    } else {
        count_named(records, (count - 1) as nat)
    }
}

/// How many alternate settings of the first `count` interfaces give an index for a name.
pub open spec fn count_listed_names(listing: Seq<InterfaceRecordView>, count: nat) -> nat
    decreases count,
{
    if count == 0 {
        0
    } else {
        let last = listing[count - 1].alternates;
        count_listed_names(listing, (count - 1) as nat) + count_named(last, last.len())
    }
}

/// How many descriptors give an index for a name before that alternate setting does: the
/// configuration counts, and so do the settings before it.
pub open spec fn names_before(bytes: Seq<u8>, interface: int, alternate: int) -> nat {
    let listing = interface_listing(bytes);
    let own: nat = if bytes[6] == 0 {
        0
    } else {
        1
    };
    own + count_listed_names(listing, interface as nat) + count_named(
        listing[interface].alternates,
        alternate as nat,
    )
}

/// There are as many indices as settings that give one.
proof fn lemma_count_named(records: Seq<AlternateRecord>, count: nat)
    ensures
        alternate_strings(records, count).len() == count_named(records, count),
    decreases count,
{
    if count > 0 {
        lemma_count_named(records, (count - 1) as nat);
    }
}

/// There are as many indices as settings of the interfaces that give one.
proof fn lemma_count_listed_names(listing: Seq<InterfaceRecordView>, count: nat)
    ensures
        listing_strings(listing, count).len() == count_listed_names(listing, count),
    decreases count,
{
    if count > 0 {
        lemma_count_listed_names(listing, (count - 1) as nat);
        lemma_count_named(listing[count - 1].alternates, listing[count - 1].alternates.len());
    }
}

/// The bytes start with a descriptor of at least nine bytes, of the type of configurations, that
/// gives a total length which it fits into and which the bytes reach.
pub open spec fn starts_configuration(bytes: Seq<u8>) -> bool {
    &&& bytes.len() >= 9
    &&& bytes[0] >= 9
    &&& bytes[1] == 2
    &&& bytes[2] + 256 * bytes[3] >= bytes[0]
    &&& bytes[2] + 256 * bytes[3] <= bytes.len()
}

/// Bytes describe a configuration just where they start with its descriptor. It has the value and
/// the name that the descriptor gives, and the interfaces that follow, in their order, none of
/// them claimed. Each alternate setting shows what its descriptor says and has the name that was
/// read for it; each endpoint shows what its descriptor says, and is an IN endpoint just where the
/// top bit of its address is set.
pub proof fn law_configuration_shows_its_descriptors(
    bytes: Seq<u8>,
    names: Seq<Option<String>>,
    i: int,
    j: int,
    e: int,
)
    ensures
        configuration_from(bytes, names) is Some <==> starts_configuration(bytes),
        configuration_from(bytes, names) matches Some(c) ==> {
            let listing = interface_listing(bytes);
            &&& c.configuration_value == bytes[5]
            &&& c.configuration_name == (if bytes[6] == 0 || names.len() == 0 {
                None
            } else {
                text(names[0])
            })
            &&& in_order(listing) ==> c.interfaces.len() == listing.len()
            &&& in_order(listing) && 0 <= i < listing.len() ==> {
                let interface = c.interfaces[i];
                let records = listing[i].alternates;
                &&& interface.interface_number == listing[i].interface_number
                &&& !interface.claimed
                &&& interface.alternates.len() == records.len()
                &&& interface.alternates.contains(interface.alternate)
                &&& 0 <= j < records.len() ==> {
                    let endpoints = endpoint_listing(bytes, i, j);
                    let place = names_before(bytes, i, j);
                    let setting = interface.alternates[j];
                    &&& shows_alternate(
                        setting,
                        records[j],
                        endpoints,
                        if records[j].string_index is Some && place < names.len() {
                            text(names[place as int])
                        } else {
                            None
                        },
                    )
                    &&& directions_told(bytes, listing.len() as int) && 0 <= e < endpoints.len()
                        ==> {
                        &&& setting.endpoints[e].direction == Direction::In <==> endpoints[e].address
                            & 0x80 != 0
                        &&& setting.endpoints[e].endpoint_number == endpoints[e].address & 0x0F
                        &&& setting.endpoints[e].endpoint_type == endpoints[e].endpoint_type
                        &&& setting.endpoints[e].packet_size == endpoints[e].max_packet_size
                    }
                }
            }
        },
{
    let listing = interface_listing(bytes);
    if starts_configuration(bytes) && in_order(listing) {
        lemma_interface_at(bytes, listing.len(), names, i);
        if 0 <= i < listing.len() {
            let alternates = alternates_in(bytes, i, names);
            let records = listing[i].alternates;
            let interface = configuration_from(bytes, names)->Some_0.interfaces[i];
            lemma_first_index(alternate_settings(alternates), 0u8);
            law_interface_is_made_of(listing[i].interface_number, alternates, 0);
            law_default_alternate_is_listed(alternates);
            if 0 <= j < records.len() {
                lemma_count_listed_names(listing, i as nat);
                lemma_count_named(records, j as nat);
                assert(name_place(bytes, i, j) == names_before(bytes, i, j));
                let endpoints = endpoint_listing(bytes, i, j);
                law_alternate_shows_its_descriptor(
                    records[j],
                    endpoints,
                    alternates[j].interface_name,
                );
                if directions_told(bytes, listing.len() as int) && 0 <= e < endpoints.len() {
                    law_endpoint_shows_its_descriptor(endpoints[e]);
                    assert(told_by_address(endpoints[e]));
                }
            }
        }
    }
}

/// As many names are asked for as descriptors give an index: the configuration's own and one for
/// each alternate setting that gives one.
pub proof fn law_every_name_is_asked_for(bytes: Seq<u8>)
    ensures
        !starts_configuration(bytes) ==> strings_in(bytes).len() == 0,
        starts_configuration(bytes) ==> strings_in(bytes).len() == (if bytes[6] == 0 {
            0int
        } else {
            1
        }) + count_listed_names(interface_listing(bytes), interface_listing(bytes).len()),
        starts_configuration(bytes) && bytes[6] != 0 ==> strings_in(bytes)[0] == bytes[6],
{
    lemma_count_listed_names(interface_listing(bytes), interface_listing(bytes).len());
}

/// The name that is asked for at the place of an alternate setting is that of its index.
pub proof fn law_names_are_asked_for_in_order(bytes: Seq<u8>, interface: int, alternate: int)
    requires
        starts_configuration(bytes),
    ensures
        0 <= interface < interface_listing(bytes).len() && 0 <= alternate < interface_listing(
            bytes,
        )[interface].alternates.len() ==> (interface_listing(
            bytes,
        )[interface].alternates[alternate].string_index matches Some(index) ==> {
            let place = names_before(bytes, interface, alternate) as int;
            &&& place < strings_in(bytes).len()
            &&& strings_in(bytes)[place] == index
        }),
{
    let listing = interface_listing(bytes);
    if 0 <= interface < listing.len() && 0 <= alternate < listing[interface].alternates.len() {
        lemma_count_listed_names(listing, interface as nat);
        lemma_count_named(listing[interface].alternates, alternate as nat);
        law_names_stand_with_their_indices(bytes, interface, alternate);
    }
}

} // verus!
