use std::collections::HashMap;

use webusb::{
    DeviceData, DeviceIds, Direction, EndpointTarget, Error, MockController, MockDeviceConfig,
    TransferOutcome, Usb, UsbAlternateInterface, UsbConfiguration, UsbConnectionEvent,
    UsbControlTransferParameters, UsbDevice, UsbDeviceFilter, UsbEndpoint, UsbEndpointType,
    UsbInterface, UsbRecipient, UsbRequestType, UsbTransferStatus,
};

fn endpoint(number: u8, direction: Direction, kind: UsbEndpointType) -> UsbEndpoint {
    UsbEndpoint {
        endpoint_number: number,
        direction,
        endpoint_type: kind,
        packet_size: 64,
    }
}

fn alternate(setting: u8, class: u8, endpoints: Vec<UsbEndpoint>) -> UsbAlternateInterface {
    UsbAlternateInterface {
        alternate_setting: setting,
        interface_class: class,
        interface_subclass: 7,
        interface_protocol: 9,
        interface_name: None,
        endpoints,
    }
}

fn interface(number: u8, alternates: Vec<UsbAlternateInterface>) -> UsbInterface {
    UsbInterface {
        interface_number: number,
        alternate: alternates[0].clone(),
        alternates,
        claimed: false,
    }
}

/// Two configurations: the first with two interfaces, the second with one.
fn config() -> MockDeviceConfig {
    MockDeviceConfig {
        vendor_id: 10,
        product_id: 20,
        configurations: vec![
            UsbConfiguration {
                configuration_name: None,
                configuration_value: 1,
                interfaces: vec![
                    interface(
                        0,
                        vec![
                            alternate(
                                0,
                                3,
                                vec![
                                    endpoint(1, Direction::In, UsbEndpointType::Interrupt),
                                    endpoint(1, Direction::Out, UsbEndpointType::Bulk),
                                ],
                            ),
                            alternate(1, 3, vec![]),
                        ],
                    ),
                    interface(
                        5,
                        vec![alternate(
                            0,
                            8,
                            vec![
                                endpoint(2, Direction::Out, UsbEndpointType::Isochronous),
                                endpoint(3, Direction::In, UsbEndpointType::Control),
                                endpoint(4, Direction::Out, UsbEndpointType::Bulk),
                            ],
                        )],
                    ),
                ],
            },
            UsbConfiguration {
                configuration_name: Some("second".into()),
                configuration_value: 2,
                interfaces: vec![interface(9, vec![alternate(0, 1, vec![])])],
            },
        ],
        active_configuration: Some(1),
        in_data: HashMap::from([(1, vec![1, 2, 3])]),
        stalled_endpoints: vec![4],
        ..Default::default()
    }
}

fn plugged_in() -> (Usb, MockController, UsbDevice) {
    let (usb, mut bus) = Usb::mock();
    bus.add_device(&mut DeviceIds::new(), config());
    let device = usb.devices(&bus).unwrap().remove(0);
    (usb, bus, device)
}

fn opened() -> (Usb, MockController, UsbDevice) {
    let (usb, bus, mut device) = plugged_in();
    device.open(&bus).unwrap();
    (usb, bus, device)
}

fn setup(recipient: UsbRecipient, index: u16) -> UsbControlTransferParameters {
    UsbControlTransferParameters {
        request_type: UsbRequestType::Vendor,
        recipient,
        request: 0xAB,
        value: 0x1234,
        index,
    }
}

#[test]
fn error_messages() {
    assert_eq!(Error::NotFound.message(), "not found");
    assert_eq!(Error::InvalidState.message(), "invalid state");
    assert_eq!(Error::InvalidAccess.message(), "invalid access");
    assert_eq!(Error::NotSupported.message(), "not supported");
    assert_eq!(Error::Disconnected.message(), "device disconnected");
    assert_eq!(Error::Busy.message(), "device busy");
    assert_eq!(Error::Access.message(), "permission denied");
    assert_eq!(Error::Io("pipe".into()).message(), "pipe");
}

#[test]
fn active_configuration_must_be_listed() {
    let mut unknown = config();
    unknown.active_configuration = Some(3);
    let (usb, mut bus) = Usb::mock();
    bus.add_device(&mut DeviceIds::new(), unknown);
    let mut device = usb.devices(&bus).unwrap().remove(0);
    assert!(device.configuration.is_none());
    device.open(&bus).unwrap();
    assert_eq!(device.claim_interface(&bus, 0), Err(Error::NotFound));
    assert_eq!(
        device.begin_transfer(1, Direction::In),
        Err(Error::NotFound)
    );
    device.select_configuration(&bus, 1).unwrap();
    device.claim_interface(&bus, 0).unwrap();
    assert_eq!(
        device.transfer_in(&bus, 1, 64).unwrap().data,
        vec![1, 2, 3]
    );
}

#[test]
fn selecting_a_configuration_drops_claims() {
    let (_usb, bus, mut device) = opened();
    device.claim_interface(&bus, 0).unwrap();
    device.select_configuration(&bus, 2).unwrap();
    let selected = device.configuration.as_ref().unwrap();
    assert_eq!(selected.configuration_value, 2);
    assert_eq!(selected.configuration_name.as_deref(), Some("second"));
    assert_eq!(device.claim_interface(&bus, 0), Err(Error::NotFound));
    device.select_configuration(&bus, 1).unwrap();
    assert!(!device.configuration.as_ref().unwrap().interfaces[0].claimed);
    assert_eq!(
        device.transfer_in(&bus, 1, 64).unwrap_err(),
        Error::InvalidState
    );
}

#[test]
fn release_undoes_claim() {
    let (_usb, bus, mut device) = opened();
    device.claim_interface(&bus, 5).unwrap();
    let claims: Vec<bool> = device.configuration.as_ref().unwrap().interfaces
        .iter()
        .map(|interface| interface.claimed)
        .collect();
    assert_eq!(claims, vec![false, true]);
    device.release_interface(&bus, 5).unwrap();
    assert!(device
        .configuration
        .as_ref()
        .unwrap()
        .interfaces
        .iter()
        .all(|interface| !interface.claimed));
}

#[test]
fn closed_device_refuses_release_and_alternate() {
    let (_usb, bus, mut device) = plugged_in();
    assert_eq!(device.release_interface(&bus, 0), Err(Error::InvalidState));
    assert_eq!(device.release_interface(&bus, 1), Err(Error::NotFound));
    assert_eq!(
        device.select_alternate_interface(&bus, 0, 1),
        Err(Error::InvalidState)
    );
    assert_eq!(
        device.control_transfer_in(&bus, setup(UsbRecipient::Device, 0), 8).unwrap_err(),
        Error::InvalidState
    );
}

#[test]
fn alternate_setting_can_be_changed_back() {
    let (_usb, bus, mut device) = opened();
    device.claim_interface(&bus, 0).unwrap();
    device.select_alternate_interface(&bus, 0, 1).unwrap();
    assert_eq!(
        device.transfer_in(&bus, 1, 64).unwrap_err(),
        Error::NotFound
    );
    device.select_alternate_interface(&bus, 0, 0).unwrap();
    assert_eq!(
        device.transfer_in(&bus, 1, 2).unwrap().data,
        vec![1, 2]
    );
}

#[test]
fn endpoint_kinds() {
    let (_usb, mut bus, mut device) = opened();
    // The kind of the endpoint is checked before the claim.
    assert_eq!(
        device.transfer_out(&mut bus, 2, b"x").unwrap_err(),
        Error::InvalidAccess
    );
    assert_eq!(
        device.transfer_in(&bus, 3, 1).unwrap_err(),
        Error::InvalidAccess
    );
    assert_eq!(
        device.isochronous_transfer_out(4, b"x", &[1]).unwrap_err(),
        Error::InvalidAccess
    );
    assert_eq!(
        device.isochronous_transfer_out(2, b"x", &[1]).unwrap_err(),
        Error::InvalidState
    );
    device.claim_interface(&bus, 5).unwrap();
    assert_eq!(
        device.isochronous_transfer_out(2, b"x", &[1]).unwrap_err(),
        Error::NotSupported
    );
    assert_eq!(
        device.isochronous_transfer_out(9, b"x", &[1]).unwrap_err(),
        Error::NotFound
    );
    assert_eq!(
        device.begin_transfer(4, Direction::Out),
        Ok(EndpointTarget {
            interface_number: 5,
            endpoint_type: UsbEndpointType::Bulk,
        })
    );
    assert_eq!(
        device.begin_clear_halt(Direction::In, 3),
        Ok(EndpointTarget {
            interface_number: 5,
            endpoint_type: UsbEndpointType::Control,
        })
    );
}

#[test]
fn same_number_in_both_directions() {
    let (_usb, mut bus, mut device) = opened();
    device.claim_interface(&bus, 0).unwrap();
    let id = device.id;
    // A halt of the IN endpoint does not touch the OUT endpoint of that number.
    bus.halt_endpoint(id, 0x81).unwrap();
    assert_eq!(
        device.transfer_in(&bus, 1, 8).unwrap().status,
        UsbTransferStatus::Stall
    );
    let sent = device.transfer_out(&mut bus, 1, &[7]).unwrap();
    assert_eq!(sent.status, UsbTransferStatus::Completed);
    assert_eq!(bus.written(id).unwrap(), vec![(1, vec![7])]);
}

#[test]
fn stalled_write_is_not_recorded() {
    let (_usb, mut bus, mut device) = opened();
    device.claim_interface(&bus, 5).unwrap();
    let sent = device.transfer_out(&mut bus, 4, &[1, 2]).unwrap();
    assert_eq!(sent.status, UsbTransferStatus::Stall);
    assert_eq!(sent.bytes_written, 0);
    assert_eq!(bus.written(device.id).unwrap(), vec![]);
    device.clear_halt(&mut bus, Direction::Out, 4).unwrap();
    let sent = device.transfer_out(&mut bus, 4, &[1, 2]).unwrap();
    assert_eq!(sent.status, UsbTransferStatus::Completed);
    assert_eq!(sent.bytes_written, 2);
    assert_eq!(bus.written(device.id).unwrap(), vec![(4, vec![1, 2])]);
}

#[test]
fn babbling_write_is_not_recorded() {
    let mut babbling = config();
    babbling.babble_endpoints = vec![1];
    let (usb, mut bus) = Usb::mock();
    bus.add_device(&mut DeviceIds::new(), babbling);
    let mut device = usb.devices(&bus).unwrap().remove(0);
    device.open(&bus).unwrap();
    device.claim_interface(&bus, 0).unwrap();
    let sent = device.transfer_out(&mut bus, 1, &[5]).unwrap();
    assert_eq!(sent.status, UsbTransferStatus::Babble);
    assert_eq!(sent.bytes_written, 0);
    assert_eq!(bus.written(device.id).unwrap(), vec![]);
    // A halt comes before babble.
    bus.halt_endpoint(device.id, 1).unwrap();
    let sent = device.transfer_out(&mut bus, 1, &[5]).unwrap();
    assert_eq!(sent.status, UsbTransferStatus::Stall);
}

#[test]
fn control_transfers_echo_and_record() {
    let (_usb, mut bus, mut device) = opened();
    let read = device
        .control_transfer_in(&bus, setup(UsbRecipient::Device, 0x5678), 12)
        .unwrap();
    assert_eq!(
        read.data,
        vec![0xAB, 0x34, 0x12, 0x78, 0x56, 0xAB, 0x34, 0x12, 0x78, 0x56, 0xAB, 0x34]
    );
    let read = device
        .control_transfer_in(&bus, setup(UsbRecipient::Other, 0), 0)
        .unwrap();
    assert_eq!(read.data, Vec::<u8>::new());
    // The low byte of the index numbers the interface.
    device.claim_interface(&bus, 5).unwrap();
    let sent = device
        .control_transfer_out(&mut bus, setup(UsbRecipient::Interface, 0x0305), b"ab")
        .unwrap();
    assert_eq!(sent.bytes_written, 2);
    assert_eq!(bus.written(device.id).unwrap(), vec![(0, b"ab".to_vec())]);
    // Bit 7 of the index gives the direction of the endpoint.
    assert!(device.control_transfer_in(&bus, setup(UsbRecipient::Endpoint, 0x83), 1).is_ok());
    assert_eq!(
        device.control_transfer_in(&bus, setup(UsbRecipient::Endpoint, 0x03), 1).unwrap_err(),
        Error::NotFound
    );
}

#[test]
fn unplugged_device() {
    let (_usb, mut bus, mut device) = opened();
    device.claim_interface(&bus, 0).unwrap();
    bus.remove_device(device.id).unwrap();
    let gone = Err(Error::Disconnected);
    assert_eq!(device.reset(&bus), gone);
    assert_eq!(device.select_configuration(&bus, 2), gone);
    assert_eq!(device.claim_interface(&bus, 5), gone);
    assert_eq!(device.select_alternate_interface(&bus, 0, 1), gone);
    assert_eq!(device.clear_halt(&mut bus, Direction::In, 1), gone);
    assert_eq!(device.release_interface(&bus, 0), gone);
    assert_eq!(
        device.transfer_out(&mut bus, 1, b"x").unwrap_err(),
        Error::Disconnected
    );
    assert_eq!(
        device.control_transfer_in(&bus, setup(UsbRecipient::Device, 0), 1).unwrap_err(),
        Error::Disconnected
    );
    assert_eq!(
        device.control_transfer_out(&mut bus, setup(UsbRecipient::Device, 0), b"x").unwrap_err(),
        Error::Disconnected
    );
    // A failed operation leaves the device as it was.
    assert!(device.configuration.as_ref().unwrap().interfaces[0].claimed);
    assert_eq!(device.configuration.as_ref().unwrap().configuration_value, 1);
    // Closing still works; opening again does not.
    device.close().unwrap();
    assert!(!device.opened);
    assert_eq!(device.open(&bus), gone);
    assert!(!device.opened);
    // The controller no longer knows the device.
    assert_eq!(bus.remove_device(device.id), Err(Error::NotFound));
    assert_eq!(bus.written(device.id), Err(Error::NotFound));
    assert_eq!(bus.halt_endpoint(device.id, 1), Err(Error::NotFound));
}

#[test]
fn reset_keeps_claims() {
    let (_usb, bus, mut device) = opened();
    device.claim_interface(&bus, 0).unwrap();
    device.reset(&bus).unwrap();
    assert!(device.opened);
    assert!(device.configuration.as_ref().unwrap().interfaces[0].claimed);
}

#[test]
fn ids_are_fresh_and_devices_keep_their_order() {
    let mut ids = DeviceIds::new();
    let (usb, mut bus) = Usb::mock();
    let first = bus.add_device(&mut ids, config());
    let second = bus.add_device(&mut ids, config());
    let third = bus.add_device(&mut ids, config());
    assert_eq!((first, second, third), (1, 2, 3));
    bus.remove_device(second).unwrap();
    let listed: Vec<u64> = usb.devices(&bus).unwrap().iter().map(|d| d.id).collect();
    assert_eq!(listed, vec![1, 3]);
    assert_eq!(bus.add_device(&mut ids, config()), 4);
}

#[test]
fn dropped_subscriptions_are_forgotten() {
    let mut ids = DeviceIds::new();
    let (usb, mut bus) = Usb::mock();
    let first = usb.events(&mut bus).unwrap();
    let second = usb.events(&mut bus).unwrap();
    drop(first);
    let id = bus.add_device(&mut ids, config());
    let third = usb.events(&mut bus).unwrap();
    bus.remove_device(id).unwrap();
    match second.receiver.try_recv().unwrap() {
        UsbConnectionEvent::Connect(device) => assert_eq!(device.id, id),
        _ => panic!("expected connect event"),
    }
    for events in [&second, &third] {
        match events.receiver.try_recv().unwrap() {
            UsbConnectionEvent::Disconnect {
                id: gone,
                vendor_id,
                product_id,
            } => {
                assert_eq!((gone, vendor_id, product_id), (id, 10, 20));
            }
            _ => panic!("expected disconnect event"),
        }
        assert!(events.receiver.try_recv().is_err());
    }
}

#[test]
fn subclass_needs_a_class() {
    let (usb, bus, device) = plugged_in();
    let filter = |class_code, subclass_code, protocol_code| UsbDeviceFilter {
        class_code,
        subclass_code,
        protocol_code,
        ..Default::default()
    };
    assert!(UsbDeviceFilter::default().matches(&device));
    // A subclass or protocol without a class asks for nothing.
    assert!(filter(None, Some(99), Some(99)).matches(&device));
    // A protocol without a subclass asks for nothing.
    assert!(filter(Some(8), None, Some(99)).matches(&device));
    assert!(filter(Some(8), Some(7), Some(9)).matches(&device));
    assert!(!filter(Some(8), Some(7), Some(10)).matches(&device));
    assert!(!filter(Some(8), Some(6), None).matches(&device));
    // The class of the device itself counts, and so does that of a configuration that is not
    // selected.
    assert!(filter(Some(0), Some(0), Some(0)).matches(&device));
    assert!(filter(Some(1), Some(7), None).matches(&device));
    assert!(!filter(Some(2), None, None).matches(&device));
    // Any filter of the list may match.
    let found = usb.request_device(
        &bus,
        &[filter(Some(2), None, None), filter(Some(3), None, None)],
    );
    assert_eq!(found.unwrap().id, device.id);
}

#[test]
fn serial_number_must_be_there_to_match() {
    let (_usb, _bus, device) = plugged_in();
    let filter = UsbDeviceFilter {
        serial_number: Some("X".into()),
        ..Default::default()
    };
    assert!(!filter.matches(&device));
}

#[test]
fn replies_of_a_backend_are_recorded() {
    let data = DeviceData {
        configurations: config().configurations,
        active_configuration_value: Some(1),
        device_class: 1,
        device_subclass: 2,
        device_protocol: 3,
        device_version_major: 4,
        device_version_minor: 5,
        device_version_subminor: 6,
        manufacturer_name: Some("maker".into()),
        product_id: 7,
        product_name: None,
        serial_number: None,
        usb_version_major: 2,
        usb_version_minor: 1,
        usb_version_subminor: 0,
        vendor_id: 8,
        url: None,
    };
    let mut device = UsbDevice::from_parts(42, data);
    assert_eq!(device.id, 42);
    assert_eq!(device.manufacturer_name.as_deref(), Some("maker"));
    assert!(device.begin_open());
    let busy = Err(Error::Busy);
    assert_eq!(device.finish_open(busy.clone()), busy);
    assert!(!device.opened);
    device.finish_open(Ok(())).unwrap();
    assert!(!device.begin_open());
    assert_eq!(device.begin_claim_interface(0), Ok(true));
    assert_eq!(device.finish_claim_interface(0, busy.clone()), busy);
    assert_eq!(device.begin_claim_interface(0), Ok(true));
    device.finish_claim_interface(0, Ok(())).unwrap();
    assert_eq!(device.begin_claim_interface(0), Ok(false));
    assert_eq!(device.begin_release_interface(0), Ok(true));
    // A close that fails leaves the device open.
    assert_eq!(device.finish_close(busy.clone()), busy);
    assert!(device.opened);
    device.finish_close(Ok(())).unwrap();
    assert!(!device.begin_close());
    assert!(!device.configuration.as_ref().unwrap().interfaces[0].claimed);
}

#[test]
fn outcomes_become_results() {
    let read = webusb::transfer::finish_in_transfer(Ok(TransferOutcome::Completed(vec![1, 2])));
    let read = read.unwrap();
    assert_eq!((read.data, read.status), (vec![1, 2], UsbTransferStatus::Completed));
    let read = webusb::transfer::finish_in_transfer(Ok(TransferOutcome::Babble)).unwrap();
    assert_eq!((read.data, read.status), (vec![], UsbTransferStatus::Babble));
    let sent = webusb::transfer::finish_out_transfer(Ok(TransferOutcome::Completed(5))).unwrap();
    assert_eq!((sent.bytes_written, sent.status), (5, UsbTransferStatus::Completed));
    let sent = webusb::transfer::finish_out_transfer(Ok(TransferOutcome::Stall)).unwrap();
    assert_eq!((sent.bytes_written, sent.status), (0, UsbTransferStatus::Stall));
    let failed = webusb::transfer::finish_out_transfer(Err(Error::Io("gone".into())));
    assert_eq!(failed.unwrap_err(), Error::Io("gone".into()));
}
