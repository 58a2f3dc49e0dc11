//! Laws of a device: what its operations undo, keep and need.
use crate::device::{alternate_settings, configuration_of_value, configuration_values,
    device_from_data, endpoint_keys, interface_numbers, interfaces_released,
    interfaces_with_claimed, lemma_endpoint_location, DataView, DeviceView};
use crate::error::Error;
use crate::search::{first_index, lemma_first_index};
use crate::types::{AlternateView, ConfigurationView, Direction, InterfaceView,
    UsbControlTransferParameters, UsbEndpointType, UsbRecipient};
use vstd::prelude::*;

verus! {

/// Opening twice is opening once.
pub proof fn law_open_is_idempotent(device: DeviceView)
    ensures
        device.after_open().opened,
        device.after_open().after_open() == device.after_open(),
{
}

/// Closing twice is closing once.
pub proof fn law_close_is_idempotent(device: DeviceView)
    ensures
        !device.after_close().opened,
        device.after_close().after_close() == device.after_close(),
{
    assert(device.after_close().after_close().interfaces() =~= device.after_close().interfaces());
    if let Some(c) = device.configuration {
        assert(device.after_close().after_close().configuration->Some_0
            =~= device.after_close().configuration->Some_0);
    }
}

/// Opening changes nothing else, so that closing a device without claims undoes it.
pub proof fn law_close_undoes_open(device: DeviceView)
    requires
        !device.opened,
        forall|i: int|
            0 <= i < device.interfaces().len() ==> !(#[trigger] device.interfaces()[i]).claimed,
    ensures
        device.after_open().after_close() == device,
{
    assert(interfaces_released(device.interfaces()) =~= device.interfaces());
}

/// Nothing but opening is granted on a closed device. What is refused is refused as an invalid
/// state, unless the configuration, interface, alternate setting or endpoint that it is about
/// does not exist or cannot be used in this way.
pub proof fn law_closed_device_refuses(
    device: DeviceView,
    value: u8,
    interface_number: u8,
    alternate_setting: u8,
    endpoint_number: u8,
    direction: Direction,
    setup: UsbControlTransferParameters,
)
    requires
        !device.opened,
    ensures
        device.select_configuration_check(value) == Err::<ConfigurationView, Error>(
            if configuration_of_value(device.configurations, Some(value)) is Some {
                Error::InvalidState
            } else {
                Error::NotFound
            },
        ),
        device.claim_check(interface_number) == Err::<bool, Error>(
            if device.interface_index(interface_number) is Some {
                Error::InvalidState
            } else {
                Error::NotFound
            },
        ),
        device.release_check(interface_number) == device.claim_check(interface_number),
        device.alternate_check(interface_number, alternate_setting) is Err,
        device.alternate_check(interface_number, alternate_setting)->Err_0
            == device.claim_check(interface_number)->Err_0,
        device.control_check(setup) == Err::<(), Error>(Error::InvalidState),
        device.clear_halt_check(direction, endpoint_number) is Err,
        device.clear_halt_check(direction, endpoint_number)->Err_0 == (if device.endpoint_index(
            endpoint_number,
            direction,
        ) is Some {
            Error::InvalidState
        } else {
            Error::NotFound
        }),
        device.transfer_check(endpoint_number, direction) is Err,
        device.reset_check() == Err::<(), Error>(Error::InvalidState),
{
}

/// A transfer is granted just where the device is open, the endpoint exists and is a bulk or an
/// interrupt endpoint, and the interface that has it is claimed.
pub proof fn law_transfer_needs_claim(
    device: DeviceView,
    endpoint_number: u8,
    direction: Direction,
)
    ensures
        device.transfer_check(endpoint_number, direction) is Ok <==> {
            &&& device.opened
            &&& device.endpoint_index(endpoint_number, direction) matches Some(place)
                && device.interfaces()[place.0].claimed && {
                let kind = device.target_at(place).endpoint_type;
                kind == UsbEndpointType::Bulk || kind == UsbEndpointType::Interrupt
            }
        },
        device.transfer_check(endpoint_number, direction) matches Ok(target) ==> {
            let (i, j) = device.endpoint_index(endpoint_number, direction)->Some_0;
            let endpoint = device.interfaces()[i].alternate.endpoints[j];
            &&& 0 <= i < device.interfaces().len()
            &&& 0 <= j < device.interfaces()[i].alternate.endpoints.len()
            &&& endpoint.endpoint_number == endpoint_number
            &&& endpoint.direction == direction
            &&& endpoint.endpoint_type == target.endpoint_type
            &&& device.interfaces()[i].interface_number == target.interface_number
        },
{
    lemma_endpoint_location(device.interfaces(), endpoint_number, direction);
    if let Some((i, j)) = device.endpoint_index(endpoint_number, direction) {
        let endpoints = device.interfaces()[i].alternate.endpoints;
        assert(endpoint_keys(endpoints)[j] == (
            endpoints[j].endpoint_number,
            endpoints[j].direction,
        ));
    }
}

/// An endpoint serves either transfers or isochronous transfers, or neither, but never both: the
/// one is granted only where the other is refused for the kind of the endpoint.
pub proof fn law_isochronous_excludes_transfer(
    device: DeviceView,
    endpoint_number: u8,
    direction: Direction,
)
    ensures
        device.isochronous_error(endpoint_number, direction) == Error::NotSupported ==> {
            &&& device.transfer_check(endpoint_number, direction) is Err
            &&& device.transfer_check(endpoint_number, direction)->Err_0 == Error::InvalidAccess
        },
        device.transfer_check(endpoint_number, direction) is Ok ==> device.isochronous_error(
            endpoint_number,
            direction,
        ) == Error::InvalidAccess,
{
}

/// Marking an interface moves no interface and changes no other.
proof fn lemma_with_claimed(interfaces: Seq<InterfaceView>, interface_number: u8, claimed: bool)
    ensures
        interfaces_with_claimed(interfaces, interface_number, claimed).len() == interfaces.len(),
        interface_numbers(interfaces_with_claimed(interfaces, interface_number, claimed))
            == interface_numbers(interfaces),
        forall|i: int|
            0 <= i < interfaces.len() ==> (#[trigger] interfaces_with_claimed(
                interfaces,
                interface_number,
                claimed,
            )[i]) == (InterfaceView {
                claimed: if Some(i) == first_index(
                    interface_numbers(interfaces),
                    interface_number,
                ) {
                    claimed
                } else {
                    interfaces[i].claimed
                },
                ..interfaces[i]
            }),
{
    let after = interfaces_with_claimed(interfaces, interface_number, claimed);
    lemma_first_index(interface_numbers(interfaces), interface_number);
    assert(interface_numbers(after) =~= interface_numbers(interfaces));
}

/// Claiming a claimed interface again asks nothing of the backend and changes nothing.
pub proof fn law_claim_is_idempotent(device: DeviceView, interface_number: u8)
    requires
        device.claim_check(interface_number) is Ok,
    ensures
        device.with_claimed(interface_number, true).claim_check(interface_number) == Ok::<
            bool,
            Error,
        >(false),
        device.with_claimed(interface_number, true).with_claimed(interface_number, true)
            == device.with_claimed(interface_number, true),
{
    lemma_with_claimed(device.interfaces(), interface_number, true);
    lemma_first_index(interface_numbers(device.interfaces()), interface_number);
    let once = device.with_claimed(interface_number, true);
    assert(once.with_claimed(interface_number, true).interfaces() =~= once.interfaces());
}

/// Releasing an interface that is not claimed asks nothing of the backend and changes nothing.
pub proof fn law_release_is_idempotent(device: DeviceView, interface_number: u8)
    requires
        device.release_check(interface_number) is Ok,
    ensures
        device.with_claimed(interface_number, false).release_check(interface_number) == Ok::<
            bool,
            Error,
        >(false),
        device.with_claimed(interface_number, false).with_claimed(interface_number, false)
            == device.with_claimed(interface_number, false),
{
    lemma_with_claimed(device.interfaces(), interface_number, false);
    lemma_first_index(interface_numbers(device.interfaces()), interface_number);
    let once = device.with_claimed(interface_number, false);
    assert(once.with_claimed(interface_number, false).interfaces() =~= once.interfaces());
}

/// Releasing an interface undoes claiming it.
pub proof fn law_release_undoes_claim(device: DeviceView, interface_number: u8)
    requires
        device.claim_check(interface_number) == Ok::<bool, Error>(true),
    ensures
        device.with_claimed(interface_number, true).release_check(interface_number) == Ok::<
            bool,
            Error,
        >(true),
        device.with_claimed(interface_number, true).with_claimed(interface_number, false)
            == device,
{
    lemma_with_claimed(device.interfaces(), interface_number, true);
    lemma_first_index(interface_numbers(device.interfaces()), interface_number);
    let claimed = device.with_claimed(interface_number, true);
    assert(claimed.with_claimed(interface_number, false).interfaces() =~= device.interfaces());
}

/// A claim makes no endpoint appear or disappear, and grants transfers on the bulk and interrupt
/// endpoints of that interface, while every other endpoint is answered as before.
pub proof fn law_claim_grants_transfers(
    device: DeviceView,
    interface_number: u8,
    endpoint_number: u8,
    direction: Direction,
)
    requires
        device.claim_check(interface_number) is Ok,
    ensures
        device.with_claimed(interface_number, true).endpoint_index(endpoint_number, direction)
            == device.endpoint_index(endpoint_number, direction),
        device.endpoint_index(endpoint_number, direction) matches Some((i, j)) ==> {
            let after = device.with_claimed(interface_number, true).transfer_check(
                endpoint_number,
                direction,
            );
            if device.interface_index(interface_number) == Some(i) {
                let kind = device.target_at((i, j)).endpoint_type;
                after is Ok <==> kind == UsbEndpointType::Bulk || kind
                    == UsbEndpointType::Interrupt
            } else {
                after == device.transfer_check(endpoint_number, direction)
            }
        },
{
    let after = device.with_claimed(interface_number, true);
    lemma_with_claimed(device.interfaces(), interface_number, true);
    lemma_first_index(interface_numbers(device.interfaces()), interface_number);
    lemma_endpoint_location(device.interfaces(), endpoint_number, direction);
    lemma_same_alternates(device.interfaces(), after.interfaces(), endpoint_number, direction);
}

/// Where the selected alternate settings are the same, endpoints stand at the same places.
proof fn lemma_same_alternates(
    interfaces: Seq<InterfaceView>,
    other: Seq<InterfaceView>,
    endpoint_number: u8,
    direction: Direction,
)
    requires
        interfaces.len() == other.len(),
        forall|i: int|
            0 <= i < interfaces.len() ==> (#[trigger] interfaces[i]).alternate
                == other[i].alternate,
    ensures
        crate::device::endpoint_location(interfaces, endpoint_number, direction)
            == crate::device::endpoint_location(other, endpoint_number, direction),
    decreases interfaces.len(),
{
    if interfaces.len() > 0 {
        assert(interfaces[0].alternate == other[0].alternate);
        let rest = interfaces.drop_first();
        assert forall|i: int| 0 <= i < rest.len() implies (#[trigger] rest[i]).alternate
            == other.drop_first()[i].alternate by {
            assert(rest[i] == interfaces[i + 1]);
        }
        lemma_same_alternates(rest, other.drop_first(), endpoint_number, direction);
    }
}

/// Closing gives up every claim: once the device is open again, every transfer that was granted
/// is refused until its interface is claimed anew, and so is every alternate setting.
pub proof fn law_close_releases_claims(
    device: DeviceView,
    interface_number: u8,
    alternate_setting: u8,
    endpoint_number: u8,
    direction: Direction,
)
    ensures
        forall|i: int|
            0 <= i < device.after_close().interfaces().len()
                ==> !(#[trigger] device.after_close().interfaces()[i]).claimed,
        device.transfer_check(endpoint_number, direction) is Ok ==> {
            let refusal = device.after_close().after_open().transfer_check(
                endpoint_number,
                direction,
            );
            refusal is Err && refusal->Err_0 == Error::InvalidState
        },
        device.alternate_check(interface_number, alternate_setting) is Ok ==> {
            let refusal = device.after_close().after_open().alternate_check(
                interface_number,
                alternate_setting,
            );
            refusal is Err && refusal->Err_0 == Error::InvalidState
        },
{
    let after = device.after_close().after_open();
    assert(interface_numbers(after.interfaces()) =~= interface_numbers(device.interfaces()));
    lemma_first_index(interface_numbers(device.interfaces()), interface_number);
    lemma_endpoint_location(device.interfaces(), endpoint_number, direction);
    lemma_same_alternates(device.interfaces(), after.interfaces(), endpoint_number, direction);
}

/// Selecting an alternate setting selects the one of that number that the interface lists, on
/// that interface alone; it moves no interface and changes no claim, so that the selection can be
/// changed again.
pub proof fn law_alternate_is_selected(
    device: DeviceView,
    interface_number: u8,
    alternate_setting: u8,
)
    requires
        device.alternate_check(interface_number, alternate_setting) is Ok,
    ensures
        ({
            let alternate = device.alternate_check(interface_number, alternate_setting)->Ok_0;
            let after = device.with_alternate(interface_number, alternate);
            let i = device.interface_index(interface_number)->Some_0;
            &&& 0 <= i < device.interfaces().len()
            &&& alternate.alternate_setting == alternate_setting
            &&& device.interfaces()[i].alternates.contains(alternate)
            &&& after.interface_index(interface_number) == Some(i)
            &&& after.interfaces() == device.interfaces().update(
                i,
                InterfaceView { alternate, ..device.interfaces()[i] },
            )
            &&& after.alternate_check(interface_number, alternate_setting) == Ok::<
                AlternateView,
                Error,
            >(alternate)
        }),
{
    let alternate = device.alternate_check(interface_number, alternate_setting)->Ok_0;
    let after = device.with_alternate(interface_number, alternate);
    lemma_first_index(interface_numbers(device.interfaces()), interface_number);
    let i = device.interface_index(interface_number)->Some_0;
    let settings = alternate_settings(device.interfaces()[i].alternates);
    lemma_first_index(settings, alternate_setting);
    let k = first_index(settings, alternate_setting)->Some_0;
    assert(device.interfaces()[i].alternates[k] == alternate);
    assert(interface_numbers(after.interfaces()) =~= interface_numbers(device.interfaces()));
}

/// Endpoints are looked for among the selected alternate settings alone: where neither the newly
/// selected setting nor any other interface has the endpoint, there is none to transfer on.
pub proof fn law_alternate_hides_endpoints(
    device: DeviceView,
    interface_number: u8,
    alternate_setting: u8,
    endpoint_number: u8,
    direction: Direction,
)
    requires
        device.alternate_check(interface_number, alternate_setting) is Ok,
        !endpoint_keys(
            device.alternate_check(interface_number, alternate_setting)->Ok_0.endpoints,
        ).contains((endpoint_number, direction)),
        forall|i: int|
            0 <= i < device.interfaces().len() && Some(i) != device.interface_index(
                interface_number,
            ) ==> !endpoint_keys((#[trigger] device.interfaces()[i]).alternate.endpoints).contains(
                (endpoint_number, direction),
            ),
    ensures
        ({
            let alternate = device.alternate_check(interface_number, alternate_setting)->Ok_0;
            let refusal = device.with_alternate(interface_number, alternate).transfer_check(
                endpoint_number,
                direction,
            );
            refusal is Err && refusal->Err_0 == Error::NotFound
        }),
{
    law_alternate_is_selected(device, interface_number, alternate_setting);
    let alternate = device.alternate_check(interface_number, alternate_setting)->Ok_0;
    let after = device.with_alternate(interface_number, alternate);
    lemma_endpoint_location(after.interfaces(), endpoint_number, direction);
    let n = device.interface_index(interface_number)->Some_0;
    assert forall|i: int| 0 <= i < after.interfaces().len() implies !endpoint_keys(
        (#[trigger] after.interfaces()[i]).alternate.endpoints,
    ).contains((endpoint_number, direction)) by {
        if i != n {
            assert(after.interfaces()[i] == device.interfaces()[i]);
        }
    }
    if let Some((i, j)) = after.endpoint_index(endpoint_number, direction) {
        let keys = endpoint_keys(after.interfaces()[i].alternate.endpoints);
        assert(keys[j] == (endpoint_number, direction));
        assert(keys.contains((endpoint_number, direction)));
    }
}

/// Selecting a configuration selects the one of that value as the device lists it.
pub proof fn law_configuration_is_selected(device: DeviceView, value: u8)
    requires
        device.select_configuration_check(value) is Ok,
    ensures
        ({
            let configuration = device.select_configuration_check(value)->Ok_0;
            &&& configuration.configuration_value == value
            &&& device.configurations.contains(configuration)
            &&& device.with_configuration(configuration).configuration == Some(configuration)
            &&& device.with_configuration(configuration).select_configuration_check(value) == Ok::<
                ConfigurationView,
                Error,
            >(configuration)
        }),
{
    lemma_first_index(configuration_values(device.configurations), value);
    let i = first_index(configuration_values(device.configurations), value)->Some_0;
    assert(device.configurations[i] == device.select_configuration_check(value)->Ok_0);
}

/// The interfaces are those, up to what is claimed and which alternate setting is selected.
pub open spec fn same_interfaces(
    interfaces: Seq<InterfaceView>,
    listed: Seq<InterfaceView>,
) -> bool {
    &&& interfaces.len() == listed.len()
    &&& forall|i: int|
        0 <= i < listed.len() ==> {
            &&& (#[trigger] interfaces[i]).interface_number == listed[i].interface_number
            &&& interfaces[i].alternates == listed[i].alternates
            &&& interfaces[i].alternate == listed[i].alternate
                || listed[i].alternates.contains(interfaces[i].alternate)
        }
}

/// The selected configuration is one that the device lists, up to what is claimed and which
/// alternate settings are selected.
pub open spec fn selection_is_listed(device: DeviceView) -> bool {
    device.configuration matches Some(c) ==> exists|k: int|
        0 <= k < device.configurations.len() && (#[trigger] device.configurations[k]).configuration_value
            == c.configuration_value && device.configurations[k].configuration_name
            == c.configuration_name && same_interfaces(
            c.interfaces,
            device.configurations[k].interfaces,
        )
}

/// No listed configuration comes with a claim.
pub open spec fn listed_unclaimed(configurations: Seq<ConfigurationView>) -> bool {
    forall|k: int, i: int|
        0 <= k < configurations.len() && 0 <= i < configurations[k].interfaces.len()
            ==> !(#[trigger] configurations[k].interfaces[i]).claimed
}

/// Nothing is claimed while the device is closed.
pub open spec fn unclaimed_while_closed(device: DeviceView) -> bool {
    !device.opened ==> forall|i: int|
        0 <= i < device.interfaces().len() ==> !(#[trigger] device.interfaces()[i]).claimed
}

/// A new device is closed, and its selected configuration is one that it lists.
pub proof fn law_new_device_selection(id: u64, data: DataView)
    ensures
        !device_from_data(id, data).opened,
        selection_is_listed(device_from_data(id, data)),
{
    if let Some(value) = data.active_configuration_value {
        lemma_first_index(configuration_values(data.configurations), value);
        if let Some(k) = first_index(configuration_values(data.configurations), value) {
            assert(device_from_data(id, data).configuration == Some(data.configurations[k]));
        }
    }
}

/// The selected configuration stays one that the device lists, whatever the device grants.
pub proof fn law_selection_stays_listed(
    device: DeviceView,
    value: u8,
    interface_number: u8,
    alternate_setting: u8,
)
    requires
        selection_is_listed(device),
    ensures
        selection_is_listed(device.after_open()),
        selection_is_listed(device.after_close()),
        device.select_configuration_check(value) matches Ok(c) ==> selection_is_listed(
            device.with_configuration(c),
        ),
        device.claim_check(interface_number) is Ok ==> selection_is_listed(
            device.with_claimed(interface_number, true),
        ),
        device.release_check(interface_number) is Ok ==> selection_is_listed(
            device.with_claimed(interface_number, false),
        ),
        device.alternate_check(interface_number, alternate_setting) matches Ok(a)
            ==> selection_is_listed(device.with_alternate(interface_number, a)),
{
    lemma_with_claimed(device.interfaces(), interface_number, true);
    lemma_with_claimed(device.interfaces(), interface_number, false);
    if let Some(c) = device.configuration {
        let k = choose|k: int|
            0 <= k < device.configurations.len() && (
            #[trigger] device.configurations[k]).configuration_value == c.configuration_value
                && device.configurations[k].configuration_name == c.configuration_name
                && same_interfaces(c.interfaces, device.configurations[k].interfaces);
        let listed = device.configurations[k].interfaces;
        assert(device.configurations[k] == device.after_open().configurations[k]);
        let closed = device.after_close();
        assert(same_interfaces(closed.interfaces(), listed)) by {
            assert forall|i: int| 0 <= i < listed.len() implies (
            #[trigger] closed.interfaces()[i]).alternate == c.interfaces[i].alternate by {}
        }
        assert(device.configurations[k] == closed.configurations[k]);
        let claimed = device.with_claimed(interface_number, true);
        assert(same_interfaces(claimed.interfaces(), listed));
        assert(device.configurations[k] == claimed.configurations[k]);
        let released = device.with_claimed(interface_number, false);
        assert(same_interfaces(released.interfaces(), listed));
        assert(device.configurations[k] == released.configurations[k]);
        if let Ok(a) = device.alternate_check(interface_number, alternate_setting) {
            law_alternate_is_selected(device, interface_number, alternate_setting);
            let changed = device.with_alternate(interface_number, a);
            assert(same_interfaces(changed.interfaces(), listed));
            assert(device.configurations[k] == changed.configurations[k]);
        }
    }
    if let Ok(c) = device.select_configuration_check(value) {
        law_configuration_is_selected(device, value);
        let k = choose|k: int| 0 <= k < device.configurations.len() && device.configurations[k] == c;
        assert(device.with_configuration(c).configurations[k] == c);
        assert(same_interfaces(c.interfaces, c.interfaces));
    }
}

/// A new device whose listed configurations come without claims has none.
pub proof fn law_new_device_has_no_claims(id: u64, data: DataView)
    requires
        listed_unclaimed(data.configurations),
    ensures
        unclaimed_while_closed(device_from_data(id, data)),
{
    if let Some(value) = data.active_configuration_value {
        lemma_first_index(configuration_values(data.configurations), value);
        if let Some(k) = first_index(configuration_values(data.configurations), value) {
            assert forall|i: int| 0 <= i < data.configurations[k].interfaces.len() implies !(
            #[trigger] device_from_data(id, data).interfaces()[i]).claimed by {
                assert(!data.configurations[k].interfaces[i].claimed);
            }
        }
    }
}

/// Whatever a device grants, nothing is claimed while it is closed.
pub proof fn law_claims_need_open_device(
    device: DeviceView,
    value: u8,
    interface_number: u8,
    alternate_setting: u8,
)
    requires
        unclaimed_while_closed(device),
    ensures
        unclaimed_while_closed(device.after_open()),
        unclaimed_while_closed(device.after_close()),
        device.select_configuration_check(value) matches Ok(c) ==> unclaimed_while_closed(
            device.with_configuration(c),
        ),
        device.claim_check(interface_number) is Ok ==> unclaimed_while_closed(
            device.with_claimed(interface_number, true),
        ),
        device.release_check(interface_number) is Ok ==> unclaimed_while_closed(
            device.with_claimed(interface_number, false),
        ),
        device.alternate_check(interface_number, alternate_setting) matches Ok(a)
            ==> unclaimed_while_closed(device.with_alternate(interface_number, a)),
{
}

/// No operation changes what a device is: its id, its descriptors and what it lists.
pub open spec fn same_device(device: DeviceView, other: DeviceView) -> bool {
    other == (DeviceView {
        configuration: other.configuration,
        opened: other.opened,
        ..device
    })
}

/// No operation changes what a device is.
pub proof fn law_operations_keep_identity(
    device: DeviceView,
    configuration: ConfigurationView,
    interface_number: u8,
    claimed: bool,
    alternate: AlternateView,
)
    ensures
        same_device(device, device.after_open()),
        same_device(device, device.after_close()),
        same_device(device, device.with_configuration(configuration)),
        same_device(device, device.with_claimed(interface_number, claimed)),
        same_device(device, device.with_alternate(interface_number, alternate)),
{
}

/// A control transfer to the device itself, or to no part of it, needs nothing but an open
/// device; one to an interface needs that very interface claimed.
pub proof fn law_control_transfer_needs(device: DeviceView, setup: UsbControlTransferParameters)
    ensures
        setup.recipient == UsbRecipient::Device || setup.recipient == UsbRecipient::Other ==> (
        device.control_check(setup) is Ok <==> device.opened),
        setup.recipient == UsbRecipient::Interface ==> (device.control_check(setup) is Ok <==> {
            &&& device.opened
            &&& device.interface_index((setup.index % 256) as u8) matches Some(i)
                && device.interfaces()[i].claimed
        }),
        device.control_check(setup) matches Err(error) ==> error == Error::InvalidState || error
            == Error::NotFound,
{
}

} // verus!
