use std::collections::HashMap;

use webusb::filter::{find_matching_device, matches_any};
use webusb::{
    DeviceIds, Direction, Error, MockController, MockDeviceConfig, Usb, UsbAlternateInterface,
    UsbConfiguration, UsbDevice, UsbDeviceFilter, UsbEndpoint, UsbEndpointType, UsbInterface,
    UsbTransferStatus,
};

fn config(vendor_id: u16) -> MockDeviceConfig {
    let endpoint = |endpoint_number, direction| UsbEndpoint {
        endpoint_number,
        direction,
        endpoint_type: UsbEndpointType::Bulk,
        packet_size: 64,
    };
    let alternate = UsbAlternateInterface {
        alternate_setting: 0,
        interface_class: 0xFF,
        interface_subclass: 0,
        interface_protocol: 0,
        interface_name: None,
        endpoints: vec![endpoint(1, Direction::In), endpoint(2, Direction::Out)],
    };
    MockDeviceConfig {
        vendor_id,
        configurations: vec![UsbConfiguration {
            configuration_name: Some("only".into()),
            configuration_value: 1,
            interfaces: vec![UsbInterface {
                interface_number: 0,
                alternate: alternate.clone(),
                alternates: vec![alternate],
                claimed: false,
            }],
        }],
        active_configuration: Some(1),
        in_data: HashMap::from([(1, b"payload".to_vec())]),
        ..Default::default()
    }
}

/// Two devices on a bus, both open and claimed.
fn pair() -> (Usb, MockController, UsbDevice, UsbDevice) {
    let mut ids = DeviceIds::new();
    let (usb, mut bus) = Usb::mock();
    bus.add_device(&mut ids, config(1));
    bus.add_device(&mut ids, config(2));
    let mut devices = usb.devices(&bus).unwrap();
    for device in &mut devices {
        device.open(&bus).unwrap();
        device.claim_interface(&bus, 0).unwrap();
    }
    let second = devices.remove(1);
    (usb, bus, devices.remove(0), second)
}

#[test]
fn devices_do_not_disturb_each_other() {
    let (_usb, mut bus, first, second) = pair();
    first.transfer_out(&mut bus, 2, b"a").unwrap();
    bus.halt_endpoint(first.id, 0x02).unwrap();
    second.transfer_out(&mut bus, 2, b"b").unwrap();
    assert_eq!(bus.written(first.id).unwrap(), vec![(2, b"a".to_vec())]);
    assert_eq!(bus.written(second.id).unwrap(), vec![(2, b"b".to_vec())]);
    bus.remove_device(first.id).unwrap();
    assert_eq!(
        first.transfer_in(&bus, 1, 9).unwrap_err(),
        Error::Disconnected
    );
    assert_eq!(second.transfer_in(&bus, 1, 9).unwrap().data, b"payload");
    assert_eq!(bus.written(second.id).unwrap(), vec![(2, b"b".to_vec())]);
}

#[test]
fn writes_add_up_and_leave_reads_alone() {
    let (_usb, mut bus, first, _second) = pair();
    let before = first.transfer_in(&bus, 1, 3).unwrap().data;
    first.transfer_out(&mut bus, 2, b"one").unwrap();
    first.transfer_out(&mut bus, 2, b"").unwrap();
    first.transfer_out(&mut bus, 2, b"two").unwrap();
    assert_eq!(
        bus.written(first.id).unwrap(),
        vec![(2, b"one".to_vec()), (2, vec![]), (2, b"two".to_vec())]
    );
    assert_eq!(first.transfer_in(&bus, 1, 3).unwrap().data, before);
    assert_eq!(before, b"pay");
}

#[test]
fn halt_lasts_until_it_is_cleared() {
    let (_usb, mut bus, first, _second) = pair();
    bus.halt_endpoint(first.id, 0x81).unwrap();
    first.transfer_out(&mut bus, 2, b"x").unwrap();
    first.clear_halt(&mut bus, Direction::Out, 2).unwrap();
    bus.halt_endpoint(first.id, 0x02).unwrap();
    for _ in 0..3 {
        let read = first.transfer_in(&bus, 1, 9).unwrap();
        assert_eq!(read.status, UsbTransferStatus::Stall);
        assert!(read.data.is_empty());
    }
    first.clear_halt(&mut bus, Direction::In, 1).unwrap();
    assert_eq!(first.transfer_in(&bus, 1, 9).unwrap().data, b"payload");
}

#[test]
fn listing_does_not_show_what_was_done() {
    let (usb, mut bus, first, second) = pair();
    first.transfer_out(&mut bus, 2, b"x").unwrap();
    bus.halt_endpoint(second.id, 0x81).unwrap();
    let listed = usb.devices(&bus).unwrap();
    assert_eq!(listed.len(), 2);
    assert_eq!((listed[0].id, listed[0].vendor_id), (first.id, 1));
    assert_eq!((listed[1].id, listed[1].vendor_id), (second.id, 2));
    // A device that is listed anew is closed, whatever other handles do.
    assert!(listed.iter().all(|device| !device.opened));
}

#[test]
fn operations_keep_what_a_device_is() {
    let (_usb, bus, mut first, _second) = pair();
    let before = first.clone();
    first.select_alternate_interface(&bus, 0, 0).unwrap();
    first.release_interface(&bus, 0).unwrap();
    first.select_configuration(&bus, 1).unwrap();
    first.close().unwrap();
    assert_eq!(first.id, before.id);
    assert_eq!(first.vendor_id, before.vendor_id);
    assert_eq!(first.configurations.len(), before.configurations.len());
    // The selected configuration is still one that the device lists.
    let selected = first.configuration.as_ref().unwrap();
    let listed = &first.configurations[0];
    assert_eq!(selected.configuration_value, listed.configuration_value);
    assert_eq!(selected.configuration_name, listed.configuration_name);
    assert_eq!(selected.interfaces.len(), listed.interfaces.len());
    assert!(!selected.interfaces[0].claimed);
    assert!(!listed.interfaces[0].claimed);
}

#[test]
fn filters_look_at_what_a_device_is() {
    let (usb, bus, first, second) = pair();
    let vendor = |vendor_id| UsbDeviceFilter {
        vendor_id: Some(vendor_id),
        ..Default::default()
    };
    // Neither the order of the filters nor the state of the device matters.
    for filters in [[vendor(2), vendor(9)], [vendor(9), vendor(2)]] {
        assert!(!matches_any(&filters, &first));
        assert!(matches_any(&filters, &second));
        assert_eq!(usb.request_device(&bus, &filters).unwrap().id, second.id);
    }
    let devices = vec![first, second];
    assert_eq!(find_matching_device(&devices, &[vendor(9)]), Err(Error::NotFound));
    assert_eq!(find_matching_device(&devices, &[vendor(9), vendor(2)]), Ok(1));
    assert_eq!(
        find_matching_device(&devices, &[vendor(9), vendor(2), UsbDeviceFilter::default()]),
        Ok(0)
    );
    assert_eq!(find_matching_device(&devices, &[]), Ok(0));
    assert_eq!(find_matching_device(&vec![], &[]), Err(Error::NotFound));
}

#[test]
fn ids_count_up() {
    let mut ids = DeviceIds::new();
    let given: Vec<u64> = (0..5).map(|_| ids.next_device_id()).collect();
    assert_eq!(given, vec![1, 2, 3, 4, 5]);
}

#[test]
fn log_holds_completed_writes_and_nothing_else() {
    let (usb, mut bus, first, second) = pair();
    let setup = webusb::UsbControlTransferParameters {
        request_type: webusb::UsbRequestType::Vendor,
        recipient: webusb::UsbRecipient::Device,
        request: 1,
        value: 0,
        index: 0,
    };
    // Another handle of the same device, closed.
    let closed = usb.devices(&bus).unwrap().remove(0);
    first.transfer_out(&mut bus, 2, b"one").unwrap();
    assert!(closed.transfer_out(&mut bus, 2, b"refused").is_err());
    second.transfer_out(&mut bus, 2, b"elsewhere").unwrap();
    bus.halt_endpoint(first.id, 2).unwrap();
    first.transfer_out(&mut bus, 2, b"stalled").unwrap();
    first.control_transfer_out(&mut bus, setup, b"two").unwrap();
    assert!(closed.control_transfer_out(&mut bus, setup, b"refused").is_err());
    first.clear_halt(&mut bus, Direction::Out, 2).unwrap();
    bus.remove_device(second.id).unwrap();
    first.transfer_out(&mut bus, 2, b"three").unwrap();
    assert!(first.transfer_out(&mut bus, 9, b"no endpoint").is_err());
    assert_eq!(
        bus.written(first.id).unwrap(),
        vec![
            (2, b"one".to_vec()),
            (0, b"two".to_vec()),
            (2, b"three".to_vec())
        ]
    );
}

#[test]
fn every_live_stream_gets_each_event_once() {
    let mut ids = DeviceIds::new();
    let (usb, mut bus) = Usb::mock();
    let streams: Vec<_> = (0..4).map(|_| usb.events(&mut bus).unwrap()).collect();
    let mut streams: Vec<_> = streams.into_iter().map(Some).collect();
    streams[1] = None;
    let id = bus.add_device(&mut ids, config(1));
    streams[3] = None;
    bus.remove_device(id).unwrap();
    for events in streams.iter().flatten() {
        match events.receiver.try_recv().unwrap() {
            webusb::UsbConnectionEvent::Connect(device) => {
                assert_eq!(device.id, id);
                assert!(!device.opened);
            }
            _ => panic!("expected connect event"),
        }
        match events.receiver.try_recv().unwrap() {
            webusb::UsbConnectionEvent::Disconnect { id: gone, .. } => assert_eq!(gone, id),
            _ => panic!("expected disconnect event"),
        }
        assert!(events.receiver.try_recv().is_err());
    }
    assert_eq!(streams.iter().flatten().count(), 2);
}

#[test]
fn ended_streams_give_what_is_in_them() {
    let mut ids = DeviceIds::new();
    let (usb, mut bus) = Usb::mock();
    let events = usb.events(&mut bus).unwrap();
    let id = bus.add_device(&mut ids, config(1));
    bus.end_subscriptions();
    bus.remove_device(id).unwrap();
    match events.receiver.recv_blocking() {
        Ok(webusb::UsbConnectionEvent::Connect(device)) => assert_eq!(device.id, id),
        _ => panic!("expected connect event"),
    }
    // Nobody can send any more, so this does not wait.
    assert!(events.receiver.recv_blocking().is_err());
    assert!(usb.devices(&bus).unwrap().is_empty());
}
