//! Laws of the operations on the mock bus: for every request, what comes back and what changes,
//! in terms of what the device lists and what is plugged in.
use crate::device::{alternate_settings, configuration_values, endpoint_keys, interface_numbers,
    lemma_endpoint_location, DeviceView};
use crate::error::Error;
use crate::mock::BusView;
use crate::operations::{claims, clears_halt, closes, control_reads, control_writes, opens, reads,
    releases, resets, selects_alternate, selects_configuration, writes};
use crate::search::{lemma_first_index, lemma_first_index_absent,
    lemma_first_index_found};
use crate::types::{ConfigurationView, Direction, InterfaceView, UsbControlTransferParameters,
    UsbEndpointType, UsbInTransferResult, UsbOutTransferResult, UsbRecipient, UsbTransferStatus};
use vstd::prelude::*;

verus! {

/// In the selected configuration, `i` is the first interface of that number.
pub open spec fn is_interface(device: DeviceView, interface_number: u8, i: int) -> bool {
    device.configuration matches Some(c) && {
        &&& 0 <= i < c.interfaces.len()
        &&& c.interfaces[i].interface_number == interface_number
        &&& forall|k: int|
            0 <= k < i ==> (#[trigger] c.interfaces[k]).interface_number != interface_number
    }
}

/// No configuration is selected, or the selected one has no interface of that number.
pub open spec fn no_interface(device: DeviceView, interface_number: u8) -> bool {
    device.configuration matches Some(c) ==> forall|k: int|
        0 <= k < c.interfaces.len() ==> (#[trigger] c.interfaces[k]).interface_number
            != interface_number
}

/// The selected alternate setting of the interface has no endpoint of that number and direction
/// before place `n`.
pub open spec fn lacks_endpoint(
    interface: InterfaceView,
    endpoint_number: u8,
    direction: Direction,
    n: int,
) -> bool {
    forall|l: int|
        0 <= l < n ==> !((#[trigger] interface.alternate.endpoints[l]).endpoint_number
            == endpoint_number && interface.alternate.endpoints[l].direction == direction)
}

/// In the selected configuration, `i` is the first interface whose selected alternate setting has
/// an endpoint of that number and direction, and `j` is its first place there.
pub open spec fn is_endpoint(
    device: DeviceView,
    endpoint_number: u8,
    direction: Direction,
    i: int,
    j: int,
) -> bool {
    device.configuration matches Some(c) && {
        &&& 0 <= i < c.interfaces.len()
        &&& 0 <= j < c.interfaces[i].alternate.endpoints.len()
        &&& c.interfaces[i].alternate.endpoints[j].endpoint_number == endpoint_number
        &&& c.interfaces[i].alternate.endpoints[j].direction == direction
        &&& lacks_endpoint(c.interfaces[i], endpoint_number, direction, j)
        &&& forall|k: int|
            0 <= k < i ==> lacks_endpoint(
                #[trigger] c.interfaces[k],
                endpoint_number,
                direction,
                c.interfaces[k].alternate.endpoints.len() as int,
            )
    }
}

/// No configuration is selected, or no selected alternate setting has such an endpoint.
pub open spec fn no_endpoint(device: DeviceView, endpoint_number: u8, direction: Direction) -> bool {
    device.configuration matches Some(c) ==> forall|k: int|
        0 <= k < c.interfaces.len() ==> lacks_endpoint(
            #[trigger] c.interfaces[k],
            endpoint_number,
            direction,
            c.interfaces[k].alternate.endpoints.len() as int,
        )
}

/// The device stands on the bus, first at that place.
pub open spec fn plugged_at(bus: BusView, id: u64, k: int) -> bool {
    &&& 0 <= k < bus.devices.len()
    &&& bus.devices[k].0 == id
    &&& forall|l: int| 0 <= l < k ==> (#[trigger] bus.devices[l]).0 != id
}

/// The device does not stand on the bus.
pub open spec fn unplugged(bus: BusView, id: u64) -> bool {
    forall|l: int| 0 <= l < bus.devices.len() ==> (#[trigger] bus.devices[l]).0 != id
}

/// Everything of the device is the same but the interface at that place.
pub open spec fn with_interface_at(device: DeviceView, i: int, interface: InterfaceView) -> DeviceView {
    let c = device.configuration->Some_0;
    DeviceView {
        configuration: Some(
            ConfigurationView { interfaces: c.interfaces.update(i, interface), ..c },
        ),
        ..device
    }
}

/// The place of an interface is where the first of its number stands.
pub proof fn lemma_interface(device: DeviceView, interface_number: u8, i: int)
    ensures
        is_interface(device, interface_number, i) ==> device.interface_index(interface_number)
            == Some(i) && device.interfaces() == device.configuration->Some_0.interfaces,
        no_interface(device, interface_number) <==> device.interface_index(
            interface_number,
        ) is None,
{
    let keys = interface_numbers(device.interfaces());
    lemma_first_index(keys, interface_number);
    if is_interface(device, interface_number, i) {
        let c = device.configuration->Some_0;
        assert forall|k: int| 0 <= k < i implies keys[k] != interface_number by {
            assert(keys[k] == c.interfaces[k].interface_number);
        }
        lemma_first_index_found(keys, interface_number, i);
    }
    if no_interface(device, interface_number) {
        assert forall|k: int| 0 <= k < keys.len() implies keys[k] != interface_number by {
            assert(keys[k] == device.configuration->Some_0.interfaces[k].interface_number);
        }
        lemma_first_index_absent(keys, interface_number);
    } else {
        let c = device.configuration->Some_0;
        let k = choose|k: int|
            0 <= k < c.interfaces.len() && (#[trigger] c.interfaces[k]).interface_number
                == interface_number;
        assert(keys[k] == interface_number);
        assert(keys.contains(interface_number));
    }
}

/// Whether the selected alternate setting of an interface has an endpoint, by its keys.
proof fn lemma_lacks(interface: InterfaceView, endpoint_number: u8, direction: Direction)
    ensures
        lacks_endpoint(
            interface,
            endpoint_number,
            direction,
            interface.alternate.endpoints.len() as int,
        ) <==> !endpoint_keys(interface.alternate.endpoints).contains((endpoint_number, direction)),
{
    let keys = endpoint_keys(interface.alternate.endpoints);
    let key = (endpoint_number, direction);
    if keys.contains(key) {
        let l = choose|l: int| 0 <= l < keys.len() && keys[l] == key;
        assert(interface.alternate.endpoints[l].endpoint_number == endpoint_number);
    } else {
        assert forall|l: int| 0 <= l < keys.len() implies !((
        #[trigger] interface.alternate.endpoints[l]).endpoint_number == endpoint_number
            && interface.alternate.endpoints[l].direction == direction) by {
            assert(keys.contains(keys[l]));
        }
    }
}

/// The place of an endpoint is where the first of its number and direction stands.
pub proof fn lemma_endpoint(
    device: DeviceView,
    endpoint_number: u8,
    direction: Direction,
    i: int,
    j: int,
)
    ensures
        is_endpoint(device, endpoint_number, direction, i, j) ==> device.endpoint_index(
            endpoint_number,
            direction,
        ) == Some((i, j)) && device.interfaces() == device.configuration->Some_0.interfaces,
        no_endpoint(device, endpoint_number, direction) <==> device.endpoint_index(
            endpoint_number,
            direction,
        ) is None,
{
    let interfaces = device.interfaces();
    let key = (endpoint_number, direction);
    lemma_endpoint_location(interfaces, endpoint_number, direction);
    assert forall|k: int| 0 <= k < interfaces.len() implies (lacks_endpoint(
        #[trigger] interfaces[k],
        endpoint_number,
        direction,
        interfaces[k].alternate.endpoints.len() as int,
    ) <==> !endpoint_keys(interfaces[k].alternate.endpoints).contains(key)) by {
        lemma_lacks(interfaces[k], endpoint_number, direction);
    }
    match device.endpoint_index(endpoint_number, direction) {
        Some((a, b)) => {
            let found = endpoint_keys(interfaces[a].alternate.endpoints);
            assert(found[b] == key);
            assert(found.contains(key));
            assert(!lacks_endpoint(
                interfaces[a],
                endpoint_number,
                direction,
                interfaces[a].alternate.endpoints.len() as int,
            ));
            if is_endpoint(device, endpoint_number, direction, i, j) {
                let keys = endpoint_keys(interfaces[i].alternate.endpoints);
                assert(keys[j] == key);
                assert(keys.contains(key));
                assert(a == i);
                if b < j {
                    assert(interfaces[i].alternate.endpoints[b].endpoint_number
                        == endpoint_number);
                } else if j < b {
                    assert(found[j] != key);
                }
            }
        },
        None => {
            if is_endpoint(device, endpoint_number, direction, i, j) {
                let keys = endpoint_keys(interfaces[i].alternate.endpoints);
                assert(keys[j] == key);
                assert(keys.contains(key));
            }
        },
    }
}

/// The place of a device on the bus is where the first of its id stands.
pub proof fn lemma_plugged(bus: BusView, id: u64, k: int)
    ensures
        plugged_at(bus, id, k) ==> bus.index_of(id) == Some(k) && bus.connected(id)
            && bus.state_of(id) == bus.devices[k].1 && bus.connection(id) == Ok::<(), Error>(()),
        unplugged(bus, id) ==> bus.index_of(id) is None && !bus.connected(id) && bus.connection(id)
            == Err::<(), Error>(Error::Disconnected),
{
    if plugged_at(bus, id, k) {
        assert forall|l: int| 0 <= l < k implies bus.ids()[l] != id by {
            assert(bus.ids()[l] == bus.devices[l].0);
        }
        lemma_first_index_found(bus.ids(), id, k);
    }
    if unplugged(bus, id) {
        assert forall|l: int| 0 <= l < bus.ids().len() implies bus.ids()[l] != id by {
            assert(bus.ids()[l] == bus.devices[l].0);
        }
        lemma_first_index_absent(bus.ids(), id);
    }
}

/// An interface of that number, an endpoint of that number and direction, and a device of that id
/// are either nowhere or stand first at some place.
pub proof fn law_first_place_or_nowhere(
    device: DeviceView,
    interface_number: u8,
    endpoint_number: u8,
    direction: Direction,
    bus: BusView,
    id: u64,
)
    ensures
        no_interface(device, interface_number) <==> !exists|i: int| #[trigger]
            is_interface(device, interface_number, i),
        no_endpoint(device, endpoint_number, direction) <==> !exists|i: int, j: int| #[trigger]
            is_endpoint(device, endpoint_number, direction, i, j),
        unplugged(bus, id) <==> !exists|k: int| #[trigger] plugged_at(bus, id, k),
{
    let interfaces = device.interfaces();
    lemma_interface(device, interface_number, 0);
    lemma_first_index(interface_numbers(interfaces), interface_number);
    if let Some(i) = device.interface_index(interface_number) {
        let keys = interface_numbers(interfaces);
        assert forall|k: int| 0 <= k < i implies (#[trigger] interfaces[k]).interface_number
            != interface_number by {
            assert(keys[k] == interfaces[k].interface_number);
        }
        assert(is_interface(device, interface_number, i));
    }
    lemma_endpoint(device, endpoint_number, direction, 0, 0);
    lemma_endpoint_location(interfaces, endpoint_number, direction);
    if let Some((i, j)) = device.endpoint_index(endpoint_number, direction) {
        let keys = endpoint_keys(interfaces[i].alternate.endpoints);
        assert forall|l: int| 0 <= l < j implies !((
        #[trigger] interfaces[i].alternate.endpoints[l]).endpoint_number == endpoint_number
            && interfaces[i].alternate.endpoints[l].direction == direction) by {
            assert(keys[l] != (endpoint_number, direction));
        }
        assert forall|k: int| 0 <= k < i implies lacks_endpoint(
            #[trigger] interfaces[k],
            endpoint_number,
            direction,
            interfaces[k].alternate.endpoints.len() as int,
        ) by {
            lemma_lacks(interfaces[k], endpoint_number, direction);
        }
        assert(is_endpoint(device, endpoint_number, direction, i, j));
    }
    if exists|i: int, j: int| #[trigger] is_endpoint(device, endpoint_number, direction, i, j) {
        let (i, j) = choose|i: int, j: int| #[trigger]
            is_endpoint(device, endpoint_number, direction, i, j);
        lemma_endpoint(device, endpoint_number, direction, i, j);
    }
    if exists|i: int| #[trigger] is_interface(device, interface_number, i) {
        let i = choose|i: int| #[trigger] is_interface(device, interface_number, i);
        lemma_interface(device, interface_number, i);
    }
    lemma_plugged(bus, id, 0);
    lemma_first_index(bus.ids(), id);
    if let Some(k) = bus.index_of(id) {
        assert forall|l: int| 0 <= l < k implies (#[trigger] bus.devices[l]).0 != id by {
            assert(bus.ids()[l] == bus.devices[l].0);
        }
        assert(plugged_at(bus, id, k));
    } else {
        assert forall|l: int| 0 <= l < bus.devices.len() implies (#[trigger] bus.devices[l]).0
            != id by {
            assert(bus.ids()[l] == bus.devices[l].0);
            assert(bus.ids().contains(bus.ids()[l]));
        }
    }
}

/// The request needed nothing but the device to be plugged in: it fails as disconnected where the
/// device is not, and leaves the device as it was; else it succeeds.
pub open spec fn needs_bus(
    before: DeviceView,
    bus: BusView,
    result: Result<(), Error>,
    changed: DeviceView,
    after: DeviceView,
) -> bool {
    &&& unplugged(bus, before.id) ==> result == Err::<(), Error>(Error::Disconnected) && after
        == before
    &&& !unplugged(bus, before.id) ==> result == Ok::<(), Error>(()) && after == changed
}

/// Either the device stands somewhere on the bus, first at some place, or nowhere.
pub proof fn lemma_plugged_or_not(bus: BusView, id: u64)
    ensures
        unplugged(bus, id) ==> bus.connection(id) == Err::<(), Error>(Error::Disconnected),
        !unplugged(bus, id) ==> bus.connection(id) == Ok::<(), Error>(()) && bus.connected(id),
        unplugged(bus, id) <==> !bus.connected(id),
{
    lemma_plugged(bus, id, 0);
    lemma_first_index(bus.ids(), id);
    if !unplugged(bus, id) {
        let l = choose|l: int| 0 <= l < bus.devices.len() && (#[trigger] bus.devices[l]).0 == id;
        assert(bus.ids()[l] == id);
        assert(bus.ids().contains(id));
    }
}

/// Opening an open device does nothing; opening a closed one needs it to be plugged in, and
/// changes nothing but that it is open.
pub proof fn law_open(
    before: DeviceView,
    bus: BusView,
    result: Result<(), Error>,
    after: DeviceView,
)
    requires
        opens(before, bus, result, after),
    ensures
        before.opened ==> result == Ok::<(), Error>(()) && after == before,
        !before.opened ==> needs_bus(
            before,
            bus,
            result,
            DeviceView { opened: true, ..before },
            after,
        ),
        result is Ok ==> after.opened,
{
    lemma_plugged_or_not(bus, before.id);
}

/// Closing always succeeds, also for a device that is unplugged. It leaves the device closed and
/// nothing claimed, and changes nothing else.
pub proof fn law_close(before: DeviceView, result: Result<(), Error>, after: DeviceView)
    requires
        closes(before, result, after),
    ensures
        result == Ok::<(), Error>(()),
        !after.opened,
        !before.opened ==> after == before,
        before.opened ==> {
            &&& after == (DeviceView {
                opened: false,
                configuration: after.configuration,
                ..before
            })
            &&& before.configuration is None ==> after.configuration is None
            &&& before.configuration matches Some(c) ==> {
                &&& after.configuration is Some
                &&& after.configuration->Some_0.configuration_value == c.configuration_value
                &&& after.configuration->Some_0.configuration_name == c.configuration_name
                &&& after.configuration->Some_0.interfaces.len() == c.interfaces.len()
                &&& forall|i: int|
                    0 <= i < c.interfaces.len() ==> (
                    #[trigger] after.configuration->Some_0.interfaces[i]) == (InterfaceView {
                        claimed: false,
                        ..c.interfaces[i]
                    })
            }
        },
{
}

/// Selecting a configuration needs the device to list one of that value, to be open and to be
/// plugged in; it selects the first listed one as it is listed, and changes nothing else.
pub proof fn law_select_configuration(
    before: DeviceView,
    bus: BusView,
    value: u8,
    result: Result<(), Error>,
    after: DeviceView,
    k: int,
)
    requires
        selects_configuration(before, bus, value, result, after),
    ensures
        (forall|l: int|
            0 <= l < before.configurations.len() ==> (
            #[trigger] before.configurations[l]).configuration_value != value) ==> result == Err::<
            (),
            Error,
        >(Error::NotFound) && after == before,
        0 <= k < before.configurations.len() && before.configurations[k].configuration_value
            == value && (forall|l: int|
            0 <= l < k ==> (#[trigger] before.configurations[l]).configuration_value != value) ==> {
            &&& !before.opened ==> result == Err::<(), Error>(Error::InvalidState) && after
                == before
            &&& before.opened ==> needs_bus(
                before,
                bus,
                result,
                DeviceView { configuration: Some(before.configurations[k]), ..before },
                after,
            )
        },
{
    let keys = configuration_values(before.configurations);
    lemma_plugged_or_not(bus, before.id);
    assert forall|l: int| 0 <= l < keys.len() implies #[trigger] keys[l]
        == before.configurations[l].configuration_value by {}
    if forall|l: int|
        0 <= l < before.configurations.len() ==> (
        #[trigger] before.configurations[l]).configuration_value != value {
        assert forall|l: int| 0 <= l < keys.len() implies keys[l] != value by {
            assert(before.configurations[l].configuration_value != value);
        }
        lemma_first_index_absent(keys, value);
    }
    if 0 <= k < before.configurations.len() && before.configurations[k].configuration_value == value
        && (forall|l: int|
        0 <= l < k ==> (#[trigger] before.configurations[l]).configuration_value != value) {
        assert forall|l: int| 0 <= l < k implies keys[l] != value by {
            assert(before.configurations[l].configuration_value != value);
        }
        lemma_first_index_found(keys, value, k);
    }
}

/// Claiming needs the interface to exist, the device to be open, and, where the interface is not
/// claimed yet, the device to be plugged in; it marks that interface as claimed and changes
/// nothing else.
pub proof fn law_claim(
    before: DeviceView,
    bus: BusView,
    interface_number: u8,
    result: Result<(), Error>,
    after: DeviceView,
    i: int,
)
    requires
        claims(before, bus, interface_number, result, after),
    ensures
        no_interface(before, interface_number) ==> result == Err::<(), Error>(Error::NotFound)
            && after == before,
        is_interface(before, interface_number, i) ==> {
            let interface = before.configuration->Some_0.interfaces[i];
            &&& !before.opened ==> result == Err::<(), Error>(Error::InvalidState) && after
                == before
            &&& before.opened && interface.claimed ==> result == Ok::<(), Error>(()) && after
                == before
            &&& before.opened && !interface.claimed ==> needs_bus(
                before,
                bus,
                result,
                with_interface_at(before, i, InterfaceView { claimed: true, ..interface }),
                after,
            )
        },
{
    lemma_interface(before, interface_number, i);
    lemma_plugged_or_not(bus, before.id);
}

/// Releasing needs the interface to exist, the device to be open, and, where the interface is
/// claimed, the device to be plugged in; it marks that interface as not claimed and changes
/// nothing else.
pub proof fn law_release(
    before: DeviceView,
    bus: BusView,
    interface_number: u8,
    result: Result<(), Error>,
    after: DeviceView,
    i: int,
)
    requires
        releases(before, bus, interface_number, result, after),
    ensures
        no_interface(before, interface_number) ==> result == Err::<(), Error>(Error::NotFound)
            && after == before,
        is_interface(before, interface_number, i) ==> {
            let interface = before.configuration->Some_0.interfaces[i];
            &&& !before.opened ==> result == Err::<(), Error>(Error::InvalidState) && after
                == before
            &&& before.opened && !interface.claimed ==> result == Ok::<(), Error>(()) && after
                == before
            &&& before.opened && interface.claimed ==> needs_bus(
                before,
                bus,
                result,
                with_interface_at(before, i, InterfaceView { claimed: false, ..interface }),
                after,
            )
        },
{
    lemma_interface(before, interface_number, i);
    lemma_plugged_or_not(bus, before.id);
}

/// Selecting an alternate setting needs the interface to exist and be claimed, the device to be
/// open and plugged in, and the interface to list a setting of that number; it selects the first
/// such setting on that interface, as it is listed, and changes nothing else.
pub proof fn law_select_alternate(
    before: DeviceView,
    bus: BusView,
    interface_number: u8,
    alternate_setting: u8,
    result: Result<(), Error>,
    after: DeviceView,
    i: int,
    a: int,
)
    requires
        selects_alternate(before, bus, interface_number, alternate_setting, result, after),
    ensures
        no_interface(before, interface_number) ==> result == Err::<(), Error>(Error::NotFound)
            && after == before,
        is_interface(before, interface_number, i) ==> {
            let interface = before.configuration->Some_0.interfaces[i];
            &&& !before.opened || !interface.claimed ==> result == Err::<(), Error>(
                Error::InvalidState,
            ) && after == before
            &&& before.opened && interface.claimed && (forall|l: int|
                0 <= l < interface.alternates.len() ==> (
                #[trigger] interface.alternates[l]).alternate_setting != alternate_setting)
                ==> result == Err::<(), Error>(Error::NotFound) && after == before
            &&& before.opened && interface.claimed && 0 <= a < interface.alternates.len()
                && interface.alternates[a].alternate_setting == alternate_setting && (forall|l: int|
                0 <= l < a ==> (#[trigger] interface.alternates[l]).alternate_setting
                    != alternate_setting) ==> needs_bus(
                before,
                bus,
                result,
                with_interface_at(
                    before,
                    i,
                    InterfaceView { alternate: interface.alternates[a], ..interface },
                ),
                after,
            )
        },
{
    lemma_interface(before, interface_number, i);
    lemma_plugged_or_not(bus, before.id);
    if is_interface(before, interface_number, i) {
        let alternates = before.configuration->Some_0.interfaces[i].alternates;
        let keys = alternate_settings(alternates);
        assert forall|l: int| 0 <= l < keys.len() implies #[trigger] keys[l]
            == alternates[l].alternate_setting by {}
        if forall|l: int|
            0 <= l < alternates.len() ==> (#[trigger] alternates[l]).alternate_setting
                != alternate_setting {
            assert forall|l: int| 0 <= l < keys.len() implies keys[l] != alternate_setting by {
                assert(alternates[l].alternate_setting != alternate_setting);
            }
            lemma_first_index_absent(keys, alternate_setting);
        }
        if 0 <= a < alternates.len() && alternates[a].alternate_setting == alternate_setting && (
        forall|l: int|
            0 <= l < a ==> (#[trigger] alternates[l]).alternate_setting != alternate_setting) {
            assert forall|l: int| 0 <= l < a implies keys[l] != alternate_setting by {
                assert(alternates[l].alternate_setting != alternate_setting);
            }
            lemma_first_index_found(keys, alternate_setting, a);
        }
    }
}

/// Whether transfers can run on an endpoint of that type.
pub open spec fn carries_transfers(endpoint_type: UsbEndpointType) -> bool {
    endpoint_type == UsbEndpointType::Bulk || endpoint_type == UsbEndpointType::Interrupt
}

/// The first `n` bytes of the data, or all of it where there are fewer.
pub open spec fn is_start_of(part: Seq<u8>, data: Seq<u8>, n: nat) -> bool {
    &&& part.len() == (if n <= data.len() {
        n
    } else {
        data.len()
    })
    &&& forall|b: int| 0 <= b < part.len() ==> #[trigger] part[b] == data[b]
}

/// The result is that of a transfer with that status that brought in no data.
pub open spec fn brings_nothing(
    result: Result<UsbInTransferResult, Error>,
    status: UsbTransferStatus,
) -> bool {
    &&& result is Ok
    &&& result->Ok_0.status == status
    &&& result->Ok_0.data@.len() == 0
}

/// A transfer in needs an endpoint of that number, of a type that carries transfers, on a claimed
/// interface of an open device that is plugged in, each refused with its own error. A halted
/// endpoint stalls, a babbling one babbles, and neither brings data. Otherwise the transfer brings
/// the start of what the device is set up with for the endpoint, as much as was asked for, or
/// nothing where it is set up with nothing.
pub proof fn law_transfer_in(
    device: DeviceView,
    bus: BusView,
    endpoint_number: u8,
    length: nat,
    result: Result<UsbInTransferResult, Error>,
    i: int,
    j: int,
    k: int,
)
    requires
        reads(device, bus, endpoint_number, length, result),
    ensures
        no_endpoint(device, endpoint_number, Direction::In) ==> result == Err::<
            UsbInTransferResult,
            Error,
        >(Error::NotFound),
        is_endpoint(device, endpoint_number, Direction::In, i, j) ==> {
            let interface = device.configuration->Some_0.interfaces[i];
            let usable = carries_transfers(interface.alternate.endpoints[j].endpoint_type);
            let granted = usable && device.opened && interface.claimed;
            &&& !usable ==> result == Err::<UsbInTransferResult, Error>(Error::InvalidAccess)
            &&& usable && !(device.opened && interface.claimed) ==> result == Err::<
                UsbInTransferResult,
                Error,
            >(Error::InvalidState)
            &&& granted && unplugged(bus, device.id) ==> result == Err::<
                UsbInTransferResult,
                Error,
            >(Error::Disconnected)
            &&& granted && plugged_at(bus, device.id, k) ==> {
                let state = bus.devices[k].1;
                let address = 0x80u8 | endpoint_number;
                let halted = state.halted.contains(address);
                let babbles = state.config.babble_endpoints.contains(address);
                &&& halted ==> brings_nothing(result, UsbTransferStatus::Stall)
                &&& !halted && babbles ==> brings_nothing(result, UsbTransferStatus::Babble)
                &&& !halted && !babbles ==> {
                    &&& result is Ok
                    &&& result->Ok_0.status == UsbTransferStatus::Completed
                    &&& state.config.in_data.contains_key(endpoint_number) ==> is_start_of(
                        result->Ok_0.data@,
                        state.config.in_data[endpoint_number],
                        length,
                    )
                    &&& !state.config.in_data.contains_key(endpoint_number)
                        ==> result->Ok_0.data@.len() == 0
                }
            }
        },
{
    lemma_endpoint(device, endpoint_number, Direction::In, i, j);
    lemma_plugged(bus, device.id, k);
}

/// Everything on the bus is the same but the state of the device at that place.
pub open spec fn only_device_changed(before: BusView, after: BusView, k: int) -> bool {
    &&& after.subscribers == before.subscribers
    &&& after.gone == before.gone
    &&& after.devices.len() == before.devices.len()
    &&& after.devices[k].0 == before.devices[k].0
    &&& after.devices[k].1.config == before.devices[k].1.config
    &&& forall|l: int|
        0 <= l < before.devices.len() && l != k ==> #[trigger] after.devices[l]
            == before.devices[l]
}

/// The data is behind all that was written to the device at that place; nothing else changed.
pub open spec fn only_written(
    before: BusView,
    after: BusView,
    k: int,
    endpoint_number: u8,
    data: Seq<u8>,
) -> bool {
    let old_log = before.devices[k].1.written;
    let new_log = after.devices[k].1.written;
    &&& only_device_changed(before, after, k)
    &&& after.devices[k].1.halted == before.devices[k].1.halted
    &&& new_log.len() == old_log.len() + 1
    &&& new_log[old_log.len() as int] == (endpoint_number, data)
    &&& forall|l: int| 0 <= l < old_log.len() ==> #[trigger] new_log[l] == old_log[l]
}

/// The result is that of a transfer with that status that wrote so many bytes.
pub open spec fn wrote(
    result: Result<UsbOutTransferResult, Error>,
    status: UsbTransferStatus,
    bytes: nat,
) -> bool {
    &&& result is Ok
    &&& result->Ok_0.status == status
    &&& result->Ok_0.bytes_written == bytes
}

/// A transfer out needs what a transfer in needs, on an OUT endpoint. A halted endpoint stalls, a
/// babbling one babbles, and neither takes data; otherwise all of the data is taken and logged
/// under the number of the endpoint. Nothing else on the bus changes.
pub proof fn law_transfer_out(
    device: DeviceView,
    bus: BusView,
    endpoint_number: u8,
    data: Seq<u8>,
    result: Result<UsbOutTransferResult, Error>,
    after: BusView,
    i: int,
    j: int,
    k: int,
)
    requires
        writes(device, bus, endpoint_number, data, result, after),
        data.len() <= usize::MAX,
    ensures
        result is Err ==> after == bus,
        no_endpoint(device, endpoint_number, Direction::Out) ==> result == Err::<
            UsbOutTransferResult,
            Error,
        >(Error::NotFound),
        is_endpoint(device, endpoint_number, Direction::Out, i, j) ==> {
            let interface = device.configuration->Some_0.interfaces[i];
            let usable = carries_transfers(interface.alternate.endpoints[j].endpoint_type);
            let granted = usable && device.opened && interface.claimed;
            &&& !usable ==> result == Err::<UsbOutTransferResult, Error>(Error::InvalidAccess)
            &&& usable && !(device.opened && interface.claimed) ==> result == Err::<
                UsbOutTransferResult,
                Error,
            >(Error::InvalidState)
            &&& granted && unplugged(bus, device.id) ==> result == Err::<
                UsbOutTransferResult,
                Error,
            >(Error::Disconnected)
            &&& granted && plugged_at(bus, device.id, k) ==> {
                let state = bus.devices[k].1;
                let halted = state.halted.contains(endpoint_number);
                let babbles = state.config.babble_endpoints.contains(endpoint_number);
                &&& halted ==> wrote(result, UsbTransferStatus::Stall, 0) && after == bus
                &&& !halted && babbles ==> wrote(result, UsbTransferStatus::Babble, 0) && after
                    == bus
                &&& !halted && !babbles ==> {
                    &&& wrote(result, UsbTransferStatus::Completed, data.len())
                    &&& only_written(bus, after, k, endpoint_number, data)
                }
            }
        },
{
    lemma_endpoint(device, endpoint_number, Direction::Out, i, j);
    lemma_plugged(bus, device.id, k);
    lemma_plugged_or_not(bus, device.id);
    assert(0u8 | endpoint_number == endpoint_number) by (bit_vector);
    if plugged_at(bus, device.id, k) {
        assert(bus.devices.update(k, bus.devices[k]) =~= bus.devices);
    }
}

/// Whether and how a control transfer is refused. It needs an open device, and then what it is
/// addressed to: an interface, by the low byte of the index, must exist and be claimed; an
/// endpoint, by the low four bits of the index and its bit 7 for the direction, must exist; any
/// other recipient needs nothing more.
pub open spec fn control_refusal(
    device: DeviceView,
    setup: UsbControlTransferParameters,
    refusal: Option<Error>,
) -> bool {
    let number = (setup.index & 0xFF) as u8;
    let endpoint = (setup.index & 0x0F) as u8;
    let direction = if setup.index & 0x80 == 0 {
        Direction::Out
    } else {
        Direction::In
    };
    if !device.opened {
        refusal == Some(Error::InvalidState)
    } else if setup.recipient == UsbRecipient::Interface {
        &&& no_interface(device, number) ==> refusal == Some(Error::NotFound)
        &&& forall|i: int| #[trigger]
            is_interface(device, number, i) ==> refusal == (
            if device.configuration->Some_0.interfaces[i].claimed {
                None
            } else {
                Some(Error::InvalidState)
            })
    } else if setup.recipient == UsbRecipient::Endpoint {
        &&& no_endpoint(device, endpoint, direction) ==> refusal == Some(Error::NotFound)
        &&& !no_endpoint(device, endpoint, direction) ==> refusal is None
    } else {
        refusal is None
    }
}

/// The check on a control transfer refuses just what is to be refused.
pub proof fn lemma_control(device: DeviceView, setup: UsbControlTransferParameters)
    ensures
        control_refusal(
            device,
            setup,
            match device.control_check(setup) {
                Ok(_) => None,
                Err(error) => Some(error),
            },
        ),
{
    let index = setup.index;
    assert(index & 0xFF == index % 256 && index & 0x0F == index % 16) by (bit_vector);
    assert((index & 0x80 == 0) <==> ((index / 128) % 2 == 0)) by (bit_vector);
    let number = (index & 0xFF) as u8;
    let endpoint = (index & 0x0F) as u8;
    let direction = if index & 0x80 == 0 {
        Direction::Out
    } else {
        Direction::In
    };
    lemma_interface(device, number, 0);
    lemma_endpoint(device, endpoint, direction, 0, 0);
    assert forall|i: int| #[trigger] is_interface(device, number, i) implies device.interface_index(
        number,
    ) == Some(i) && device.interfaces() == device.configuration->Some_0.interfaces by {
        lemma_interface(device, number, i);
    }
}

/// A control transfer in that is not refused needs the device to be plugged in. The mock device
/// answers with as many bytes as were asked for: the request, the value and the index, low bytes
/// first, over and over.
pub proof fn law_control_transfer_in(
    device: DeviceView,
    bus: BusView,
    setup: UsbControlTransferParameters,
    length: nat,
    result: Result<UsbInTransferResult, Error>,
    b: int,
)
    requires
        control_reads(device, bus, setup, length, result),
    ensures
        control_refusal(
            device,
            setup,
            if result is Err && result->Err_0 != Error::Disconnected {
                Some(result->Err_0)
            } else {
                None
            },
        ),
        result is Ok ==> !unplugged(bus, device.id),
        result is Err && result->Err_0 == Error::Disconnected ==> unplugged(bus, device.id),
        result is Ok ==> {
            let data = result->Ok_0.data@;
            &&& result->Ok_0.status == UsbTransferStatus::Completed
            &&& data.len() == length
            &&& 0 <= b < length ==> {
                &&& b % 5 == 0 ==> data[b] == setup.request
                &&& b % 5 == 1 ==> data[b] == (setup.value & 0xFF) as u8
                &&& b % 5 == 2 ==> data[b] == (setup.value >> 8) as u8
                &&& b % 5 == 3 ==> data[b] == (setup.index & 0xFF) as u8
                &&& b % 5 == 4 ==> data[b] == (setup.index >> 8) as u8
            }
        },
{
    lemma_control(device, setup);
    lemma_plugged_or_not(bus, device.id);
    let value = setup.value;
    let index = setup.index;
    assert(value & 0xFF == value % 256 && value >> 8 == value / 256) by (bit_vector);
    assert(index & 0xFF == index % 256 && index >> 8 == index / 256) by (bit_vector);
}

/// A control transfer out that is not refused needs the device to be plugged in. All of its data
/// is taken, whatever is halted, and logged under endpoint 0. Nothing else on the bus changes.
pub proof fn law_control_transfer_out(
    device: DeviceView,
    bus: BusView,
    setup: UsbControlTransferParameters,
    data: Seq<u8>,
    result: Result<UsbOutTransferResult, Error>,
    after: BusView,
    k: int,
)
    requires
        control_writes(device, bus, setup, data, result, after),
        data.len() <= usize::MAX,
    ensures
        control_refusal(
            device,
            setup,
            if result is Err && result->Err_0 != Error::Disconnected {
                Some(result->Err_0)
            } else {
                None
            },
        ),
        result is Ok ==> !unplugged(bus, device.id),
        result is Err && result->Err_0 == Error::Disconnected ==> unplugged(bus, device.id),
        result is Err ==> after == bus,
        result is Ok && plugged_at(bus, device.id, k) ==> {
            &&& wrote(result, UsbTransferStatus::Completed, data.len())
            &&& only_written(bus, after, k, 0, data)
        },
{
    lemma_control(device, setup);
    lemma_plugged_or_not(bus, device.id);
    lemma_plugged(bus, device.id, k);
}

/// Clearing a halt needs an endpoint of that number and direction on a claimed interface of an
/// open device that is plugged in, whatever its type. It ends the halt of that endpoint and
/// changes nothing else.
pub proof fn law_clear_halt(
    device: DeviceView,
    bus: BusView,
    direction: Direction,
    endpoint_number: u8,
    result: Result<(), Error>,
    after: BusView,
    i: int,
    j: int,
    k: int,
)
    requires
        clears_halt(device, bus, direction, endpoint_number, result, after),
    ensures
        result is Err ==> after == bus,
        result is Ok ==> device.opened && !no_endpoint(device, endpoint_number, direction)
            && !unplugged(bus, device.id),
        no_endpoint(device, endpoint_number, direction) ==> result == Err::<(), Error>(
            Error::NotFound,
        ),
        is_endpoint(device, endpoint_number, direction, i, j) ==> {
            let granted = device.opened && device.configuration->Some_0.interfaces[i].claimed;
            &&& !granted ==> result == Err::<(), Error>(Error::InvalidState)
            &&& granted && unplugged(bus, device.id) ==> result == Err::<(), Error>(
                Error::Disconnected,
            )
            &&& granted && plugged_at(bus, device.id, k) ==> {
                let address = if direction == Direction::In {
                    0x80u8 | endpoint_number
                } else {
                    endpoint_number
                };
                &&& result == Ok::<(), Error>(())
                &&& only_device_changed(bus, after, k)
                &&& after.devices[k].1.written == bus.devices[k].1.written
                &&& !after.devices[k].1.halted.contains(address)
                &&& forall|other: u8|
                    other != address ==> (#[trigger] after.devices[k].1.halted.contains(other)
                        <==> bus.devices[k].1.halted.contains(other))
            }
        },
{
    lemma_endpoint(device, endpoint_number, direction, i, j);
    lemma_plugged(bus, device.id, k);
    lemma_plugged_or_not(bus, device.id);
    assert(0u8 | endpoint_number == endpoint_number) by (bit_vector);
}

/// A reset needs an open device that is plugged in.
pub proof fn law_reset(device: DeviceView, bus: BusView, result: Result<(), Error>)
    requires
        resets(device, bus, result),
    ensures
        !device.opened ==> result == Err::<(), Error>(Error::InvalidState),
        device.opened && unplugged(bus, device.id) ==> result == Err::<(), Error>(
            Error::Disconnected,
        ),
        device.opened && !unplugged(bus, device.id) ==> result == Ok::<(), Error>(()),
{
    lemma_plugged_or_not(bus, device.id);
}

} // verus!
