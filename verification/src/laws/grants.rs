//! Laws of what a device grants before a backend is asked, in terms of what the device lists, what
//! is claimed and whether it is open; and of what a backend's reply makes of it.
use crate::device::{settles, DeviceView, EndpointTarget};
use crate::error::Error;
use crate::laws::outcomes::{carries_transfers, control_refusal, is_endpoint, is_interface,
    lemma_control, lemma_endpoint, lemma_interface, no_endpoint, no_interface, with_interface_at};
use crate::types::{AlternateView, ConfigurationView, Direction, InterfaceView,
    UsbControlTransferParameters, UsbEndpointType};
use vstd::prelude::*;

verus! {

/// The target is the endpoint at that place: the number of its interface, and its type.
pub open spec fn is_target(device: DeviceView, i: int, j: int, target: EndpointTarget) -> bool {
    let interface = device.configuration->Some_0.interfaces[i];
    &&& target.interface_number == interface.interface_number
    &&& target.endpoint_type == interface.alternate.endpoints[j].endpoint_type
}

/// Clearing a halt is granted just where the device is open, the endpoint exists in a selected
/// alternate setting and the interface that has it is claimed, whatever the type of the endpoint.
/// It is refused as not found without the endpoint, and as an invalid state otherwise.
pub proof fn law_clear_halt_needs_claim(
    device: DeviceView,
    direction: Direction,
    endpoint_number: u8,
    i: int,
    j: int,
)
    ensures
        ({
            let plan = device.clear_halt_check(direction, endpoint_number);
            &&& no_endpoint(device, endpoint_number, direction) <==> plan == Err::<
                EndpointTarget,
                Error,
            >(Error::NotFound)
            &&& is_endpoint(device, endpoint_number, direction, i, j) ==> {
                let claimed = device.configuration->Some_0.interfaces[i].claimed;
                &&& plan is Ok <==> device.opened && claimed
                &&& plan matches Ok(target) ==> is_target(device, i, j, target)
                &&& plan is Err ==> plan == Err::<EndpointTarget, Error>(Error::InvalidState)
                &&& device.opened && !claimed ==> plan == Err::<EndpointTarget, Error>(
                    Error::InvalidState,
                )
            }
            &&& !device.opened ==> plan is Err
        }),
{
    lemma_endpoint(device, endpoint_number, direction, i, j);
}

/// A transfer is granted just where the device is open, the endpoint exists in a selected alternate
/// setting, the interface that has it is claimed, and the endpoint is of a type that carries
/// transfers. It is refused as not found without the endpoint, then as an invalid access for the
/// type, and as an invalid state otherwise.
pub proof fn law_transfer_needs_usable_endpoint(
    device: DeviceView,
    endpoint_number: u8,
    direction: Direction,
    i: int,
    j: int,
)
    ensures
        ({
            let plan = device.transfer_check(endpoint_number, direction);
            &&& no_endpoint(device, endpoint_number, direction) <==> plan == Err::<
                EndpointTarget,
                Error,
            >(Error::NotFound)
            &&& is_endpoint(device, endpoint_number, direction, i, j) ==> {
                let interface = device.configuration->Some_0.interfaces[i];
                let usable = carries_transfers(interface.alternate.endpoints[j].endpoint_type);
                &&& plan is Ok <==> usable && device.opened && interface.claimed
                &&& plan matches Ok(target) ==> is_target(device, i, j, target)
                &&& !usable ==> plan == Err::<EndpointTarget, Error>(Error::InvalidAccess)
                &&& usable && plan is Err ==> plan == Err::<EndpointTarget, Error>(
                    Error::InvalidState,
                )
            }
            &&& !device.opened ==> plan is Err
        }),
{
    lemma_endpoint(device, endpoint_number, direction, i, j);
}

/// An isochronous transfer is refused as not found without the endpoint, as an invalid access for
/// any other type of endpoint, as an invalid state unless the device is open and the interface
/// claimed, and as not supported where nothing else is wrong.
pub proof fn law_isochronous_is_refused(
    device: DeviceView,
    endpoint_number: u8,
    direction: Direction,
    i: int,
    j: int,
)
    ensures
        ({
            let error = device.isochronous_error(endpoint_number, direction);
            &&& no_endpoint(device, endpoint_number, direction) <==> error == Error::NotFound
            &&& is_endpoint(device, endpoint_number, direction, i, j) ==> {
                let interface = device.configuration->Some_0.interfaces[i];
                let fits = interface.alternate.endpoints[j].endpoint_type
                    == UsbEndpointType::Isochronous;
                &&& !fits <==> error == Error::InvalidAccess
                &&& fits && !(device.opened && interface.claimed) <==> error
                    == Error::InvalidState
                &&& fits && device.opened && interface.claimed <==> error == Error::NotSupported
            }
        }),
{
    lemma_endpoint(device, endpoint_number, direction, i, j);
}

/// Claiming and releasing are granted just where the interface exists and the device is open; the
/// backend is asked to claim what is not claimed, and to release what is.
pub proof fn law_claim_and_release_need_interface(
    device: DeviceView,
    interface_number: u8,
    i: int,
)
    ensures
        ({
            let claim = device.claim_check(interface_number);
            let release = device.release_check(interface_number);
            &&& no_interface(device, interface_number) ==> claim == Err::<bool, Error>(
                Error::NotFound,
            ) && release == Err::<bool, Error>(Error::NotFound)
            &&& is_interface(device, interface_number, i) && !device.opened ==> claim == Err::<
                bool,
                Error,
            >(Error::InvalidState) && release == Err::<bool, Error>(Error::InvalidState)
            &&& is_interface(device, interface_number, i) && device.opened ==> {
                let claimed = device.configuration->Some_0.interfaces[i].claimed;
                claim == Ok::<bool, Error>(!claimed) && release == Ok::<bool, Error>(claimed)
            }
        }),
{
    lemma_interface(device, interface_number, i);
}

/// A control transfer is granted unless it is to be refused for what it is addressed to, and a
/// reset just where the device is open.
pub proof fn law_control_transfer_and_reset_need(
    device: DeviceView,
    setup: UsbControlTransferParameters,
)
    ensures
        control_refusal(
            device,
            setup,
            match device.control_check(setup) {
                Ok(_) => None,
                Err(error) => Some(error),
            },
        ),
        device.control_setup_check(setup) == (DeviceView {
            opened: true,
            ..device
        }).control_check(setup),
        device.reset_check() == (if device.opened {
            Ok::<(), Error>(())
        } else {
            Err(Error::InvalidState)
        }),
{
    lemma_control(device, setup);
}

/// What a backend answers is the result of the request, whatever the answer; where it agrees, the
/// device has changed as asked, and otherwise it has not changed.
pub proof fn law_reply_settles_the_request(
    reply: Result<(), Error>,
    result: Result<(), Error>,
    before: DeviceView,
    changed: DeviceView,
    after: DeviceView,
)
    requires
        settles(reply, result, before, changed, after),
    ensures
        result == reply,
        after == (if result is Ok {
            changed
        } else {
            before
        }),
{
}

/// What each agreed request changes: opening and selecting a configuration that one field; a claim,
/// a release and an alternate setting that one field of the first interface of the number, and
/// nothing where there is no such interface.
pub proof fn law_agreed_changes(
    device: DeviceView,
    configuration: ConfigurationView,
    interface_number: u8,
    alternate: AlternateView,
    claimed: bool,
    i: int,
)
    ensures
        device.after_open() == (DeviceView { opened: true, ..device }),
        device.with_configuration(configuration) == (DeviceView {
            configuration: Some(configuration),
            ..device
        }),
        is_interface(device, interface_number, i) ==> {
            let interface = device.configuration->Some_0.interfaces[i];
            &&& device.with_claimed(interface_number, claimed) == with_interface_at(
                device,
                i,
                InterfaceView { claimed, ..interface },
            )
            &&& device.with_alternate(interface_number, alternate) == with_interface_at(
                device,
                i,
                InterfaceView { alternate, ..interface },
            )
        },
        no_interface(device, interface_number) ==> device.with_claimed(interface_number, claimed)
            == device && device.with_alternate(interface_number, alternate) == device,
        device.after_close() == (DeviceView {
            opened: false,
            configuration: device.after_close().configuration,
            ..device
        }),
        device.configuration is None ==> device.after_close().configuration is None,
        device.configuration matches Some(c) ==> {
            let closed = device.after_close().configuration;
            &&& closed is Some
            &&& closed->Some_0.configuration_value == c.configuration_value
            &&& closed->Some_0.configuration_name == c.configuration_name
            &&& closed->Some_0.interfaces.len() == c.interfaces.len()
            &&& 0 <= i < c.interfaces.len() ==> closed->Some_0.interfaces[i] == (InterfaceView {
                claimed: false,
                ..c.interfaces[i]
            })
        },
{
    lemma_interface(device, interface_number, i);
    if let Some(c) = device.configuration {
        assert(device.with_interfaces(c.interfaces) == device);
    }
}

} // verus!
