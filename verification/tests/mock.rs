use std::collections::HashMap;

use futures_lite::future::block_on;
use webusb::{
    DeviceIds, Direction, Error, MockController, MockDeviceConfig, Usb, UsbAlternateInterface,
    UsbConfiguration, UsbConnectionEvent, UsbControlTransferParameters, UsbDevice,
    UsbDeviceFilter, UsbEndpoint, UsbEndpointType, UsbInterface, UsbRecipient, UsbRequestType,
    UsbTransferStatus,
};

const EP_OUT: u8 = 4;
const EP_IN: u8 = 5;
const EP_ISO_IN: u8 = 6;
const INTERFACE: u8 = 2;

fn test_config() -> MockDeviceConfig {
    let alt0 = UsbAlternateInterface {
        alternate_setting: 0,
        interface_class: 0xFF,
        interface_subclass: 0x01,
        interface_protocol: 0x02,
        interface_name: Some("test interface".into()),
        endpoints: vec![
            UsbEndpoint {
                endpoint_number: EP_OUT,
                direction: Direction::Out,
                endpoint_type: UsbEndpointType::Bulk,
                packet_size: 64,
            },
            UsbEndpoint {
                endpoint_number: EP_IN,
                direction: Direction::In,
                endpoint_type: UsbEndpointType::Bulk,
                packet_size: 64,
            },
            UsbEndpoint {
                endpoint_number: EP_ISO_IN,
                direction: Direction::In,
                endpoint_type: UsbEndpointType::Isochronous,
                packet_size: 1023,
            },
        ],
    };
    let alt1 = UsbAlternateInterface {
        alternate_setting: 1,
        endpoints: vec![],
        ..alt0.clone()
    };

    MockDeviceConfig {
        vendor_id: 0x2341,
        product_id: 0x8036,
        manufacturer_name: Some("Arduino LLC".into()),
        product_name: Some("Arduino Leonardo".into()),
        serial_number: Some("TEST123".into()),
        configurations: vec![UsbConfiguration {
            configuration_name: Some("Default".into()),
            configuration_value: 1,
            interfaces: vec![UsbInterface {
                interface_number: INTERFACE,
                alternate: alt0.clone(),
                alternates: vec![alt0, alt1],
                claimed: false,
            }],
        }],
        active_configuration: Some(1),
        url: Some("https://example.com/device".into()),
        in_data: HashMap::from([(EP_IN, b"hello from device".to_vec())]),
        ..Default::default()
    }
}

fn test_device() -> (Usb, MockController, UsbDevice) {
    let (usb, mut controller) = Usb::mock();
    controller.add_device(&mut DeviceIds::new(), test_config());
    let device = usb.devices(&controller).unwrap().remove(0);
    (usb, controller, device)
}

fn claim_setup() -> UsbControlTransferParameters {
    UsbControlTransferParameters {
        request_type: UsbRequestType::Class,
        recipient: UsbRecipient::Interface,
        request: 0x22,
        value: 0x01,
        index: INTERFACE as u16,
    }
}

#[test]
fn device_metadata() {
    let (_usb, _controller, device) = test_device();
    assert_eq!(device.vendor_id, 0x2341);
    assert_eq!(device.product_id, 0x8036);
    assert_eq!(device.serial_number.as_deref(), Some("TEST123"));
    assert_eq!(device.url.as_deref(), Some("https://example.com/device"));
    assert!(!device.opened);
    // Active configuration is populated from the config list.
    assert_eq!(
        device.configuration.as_ref().unwrap().configuration_value,
        1
    );
}

#[test]
fn open_close_idempotent() {
    let (_usb, controller, mut device) = test_device();
    device.open(&controller).unwrap();
    device.open(&controller).unwrap();
    assert!(device.opened);
    device.close().unwrap();
    device.close().unwrap();
    assert!(!device.opened);
}

#[test]
fn invalid_state_before_open() {
    let (_usb, mut controller, mut device) = test_device();

    assert_eq!(
        device.select_configuration(&controller, 1).unwrap_err(),
        Error::InvalidState
    );
    assert_eq!(
        device.claim_interface(&controller, INTERFACE).unwrap_err(),
        Error::InvalidState
    );
    assert_eq!(
        device
            .select_alternate_interface(&controller, INTERFACE, 0)
            .unwrap_err(),
        Error::InvalidState
    );
    assert_eq!(
        device
            .control_transfer_out(&mut controller, claim_setup(), &[])
            .unwrap_err(),
        Error::InvalidState
    );
    assert_eq!(
        device
            .transfer_out(&mut controller, EP_OUT, b"H")
            .unwrap_err(),
        Error::InvalidState
    );
    assert_eq!(
        device
            .clear_halt(&mut controller, Direction::Out, EP_OUT)
            .unwrap_err(),
        Error::InvalidState
    );
    assert_eq!(device.reset(&controller).unwrap_err(), Error::InvalidState);
}

#[test]
fn not_found_errors() {
    let (_usb, controller, mut device) = test_device();
    device.open(&controller).unwrap();

    assert_eq!(
        device.select_configuration(&controller, 255).unwrap_err(),
        Error::NotFound
    );
    assert_eq!(
        device.claim_interface(&controller, 255).unwrap_err(),
        Error::NotFound
    );
    assert_eq!(
        device.release_interface(&controller, 255).unwrap_err(),
        Error::NotFound
    );
    assert_eq!(
        device
            .select_alternate_interface(&controller, 255, 0)
            .unwrap_err(),
        Error::NotFound
    );
    assert_eq!(
        device.transfer_in(&controller, 255, 64).unwrap_err(),
        Error::NotFound
    );
}

#[test]
fn transfers_require_claimed_interface() {
    let (_usb, mut controller, mut device) = test_device();
    device.open(&controller).unwrap();

    // Opened but not claimed: transfers must be rejected.
    assert_eq!(
        device
            .transfer_out(&mut controller, EP_OUT, b"H")
            .unwrap_err(),
        Error::InvalidState
    );
    assert_eq!(
        device.transfer_in(&controller, EP_IN, 64).unwrap_err(),
        Error::InvalidState
    );

    device.claim_interface(&controller, INTERFACE).unwrap();
    device.transfer_out(&mut controller, EP_OUT, b"H").unwrap();
    device.transfer_in(&controller, EP_IN, 64).unwrap();
}

#[test]
fn transfer_roundtrip() {
    let (_usb, mut controller, mut device) = test_device();
    let id = device.id;
    device.open(&controller).unwrap();
    device.claim_interface(&controller, INTERFACE).unwrap();

    let out = device
        .transfer_out(&mut controller, EP_OUT, b"LED ON")
        .unwrap();
    assert_eq!(out.status, UsbTransferStatus::Completed);
    assert_eq!(out.bytes_written, 6);
    assert_eq!(
        controller.written(id).unwrap(),
        vec![(EP_OUT, b"LED ON".to_vec())]
    );

    let result = device.transfer_in(&controller, EP_IN, 64).unwrap();
    assert_eq!(result.status, UsbTransferStatus::Completed);
    assert_eq!(result.data, b"hello from device");

    // Length limits the read.
    let result = device.transfer_in(&controller, EP_IN, 5).unwrap();
    assert_eq!(result.data, b"hello");
}

#[test]
fn transfer_on_wrong_endpoint_type() {
    let (_usb, controller, mut device) = test_device();
    device.open(&controller).unwrap();
    device.claim_interface(&controller, INTERFACE).unwrap();

    // EP_ISO_IN is isochronous: transfer_in must reject with InvalidAccess.
    assert_eq!(
        device.transfer_in(&controller, EP_ISO_IN, 64).unwrap_err(),
        Error::InvalidAccess
    );
}

#[test]
fn stall_and_clear_halt() {
    let (_usb, mut controller, mut device) = test_device();
    let id = device.id;
    device.open(&controller).unwrap();
    device.claim_interface(&controller, INTERFACE).unwrap();

    controller.halt_endpoint(id, 0x80 | EP_IN).unwrap();
    let result = device.transfer_in(&controller, EP_IN, 64).unwrap();
    assert_eq!(result.status, UsbTransferStatus::Stall);
    assert!(result.data.is_empty());

    device
        .clear_halt(&mut controller, Direction::In, EP_IN)
        .unwrap();
    let result = device.transfer_in(&controller, EP_IN, 64).unwrap();
    assert_eq!(result.status, UsbTransferStatus::Completed);
}

#[test]
fn babble_status() {
    let (usb, controller) = {
        let (usb, mut controller) = Usb::mock();
        let mut config = test_config();
        config.babble_endpoints = vec![0x80 | EP_IN];
        controller.add_device(&mut DeviceIds::new(), config);
        (usb, controller)
    };
    let mut device = usb.devices(&controller).unwrap().remove(0);
    device.open(&controller).unwrap();
    device.claim_interface(&controller, INTERFACE).unwrap();

    let result = device.transfer_in(&controller, EP_IN, 64).unwrap();
    assert_eq!(result.status, UsbTransferStatus::Babble);
    drop(controller);
}

#[test]
fn control_transfer_validation() {
    let (_usb, mut controller, mut device) = test_device();
    let id = device.id;
    device.open(&controller).unwrap();

    // Interface recipient requires the interface to be claimed.
    assert_eq!(
        device
            .control_transfer_out(&mut controller, claim_setup(), &[])
            .unwrap_err(),
        Error::InvalidState
    );
    // Unknown interface number.
    let mut bad = claim_setup();
    bad.index = 255;
    assert_eq!(
        device
            .control_transfer_out(&mut controller, bad, &[])
            .unwrap_err(),
        Error::NotFound
    );

    device.claim_interface(&controller, INTERFACE).unwrap();
    let result = device
        .control_transfer_out(&mut controller, claim_setup(), b"x")
        .unwrap();
    assert_eq!(result.status, UsbTransferStatus::Completed);
    assert_eq!(result.bytes_written, 1);
    assert_eq!(controller.written(id).unwrap(), vec![(0, b"x".to_vec())]);

    // Endpoint recipient: endpoint must exist.
    let endpoint_setup = UsbControlTransferParameters {
        request_type: UsbRequestType::Standard,
        recipient: UsbRecipient::Endpoint,
        request: 0x01,
        value: 0,
        index: 0x80 | EP_IN as u16,
    };
    let result = device
        .control_transfer_in(&controller, endpoint_setup, 4)
        .unwrap();
    assert_eq!(result.status, UsbTransferStatus::Completed);

    let missing_endpoint = UsbControlTransferParameters {
        request_type: UsbRequestType::Standard,
        recipient: UsbRecipient::Endpoint,
        request: 0x01,
        value: 0,
        index: 0x0F,
    };
    assert_eq!(
        device
            .control_transfer_in(&controller, missing_endpoint, 4)
            .unwrap_err(),
        Error::NotFound
    );
}

#[test]
fn control_transfer_in_data() {
    let (_usb, controller, mut device) = test_device();
    device.open(&controller).unwrap();

    let setup = UsbControlTransferParameters {
        request_type: UsbRequestType::Standard,
        recipient: UsbRecipient::Device,
        request: 0x06,
        value: 0x0100,
        index: 0,
    };
    let result = device.control_transfer_in(&controller, setup, 5).unwrap();
    assert_eq!(result.status, UsbTransferStatus::Completed);
    // Mock echoes the setup packet: [request, value_lo, value_hi, index_lo, index_hi].
    assert_eq!(result.data, vec![0x06, 0x00, 0x01, 0x00, 0x00]);
}

#[test]
fn isochronous_transfers_validated_then_unsupported() {
    let (_usb, controller, mut device) = test_device();

    // Not open.
    device.open(&controller).unwrap();

    // Bulk endpoint is not isochronous.
    assert_eq!(
        device.isochronous_transfer_in(EP_IN, &[64]).unwrap_err(),
        Error::InvalidAccess
    );
    // Unknown endpoint.
    assert_eq!(
        device.isochronous_transfer_in(15, &[64]).unwrap_err(),
        Error::NotFound
    );
    // Correct endpoint, interface not claimed.
    assert_eq!(
        device
            .isochronous_transfer_in(EP_ISO_IN, &[64])
            .unwrap_err(),
        Error::InvalidState
    );

    device.claim_interface(&controller, INTERFACE).unwrap();
    assert_eq!(
        device
            .isochronous_transfer_in(EP_ISO_IN, &[64])
            .unwrap_err(),
        Error::NotSupported
    );
}

#[test]
fn alternate_interface_selection() {
    let (_usb, controller, mut device) = test_device();
    device.open(&controller).unwrap();

    // Requires the interface to be claimed.
    assert_eq!(
        device
            .select_alternate_interface(&controller, INTERFACE, 1)
            .unwrap_err(),
        Error::InvalidState
    );

    device.claim_interface(&controller, INTERFACE).unwrap();

    // Unknown alternate setting.
    assert_eq!(
        device
            .select_alternate_interface(&controller, INTERFACE, 9)
            .unwrap_err(),
        Error::NotFound
    );

    device
        .select_alternate_interface(&controller, INTERFACE, 1)
        .unwrap();
    let configuration = device.configuration.as_ref().unwrap();
    assert_eq!(configuration.interfaces[0].alternate.alternate_setting, 1);
    // Alternate 1 has no endpoints, so the bulk transfer target is gone.
    assert_eq!(
        device.transfer_in(&controller, EP_IN, 64).unwrap_err(),
        Error::NotFound
    );
}

#[test]
fn close_releases_claimed_interfaces() {
    let (_usb, controller, mut device) = test_device();
    device.open(&controller).unwrap();
    device.claim_interface(&controller, INTERFACE).unwrap();
    device.close().unwrap();

    device.open(&controller).unwrap();
    // The claim did not survive the close.
    assert_eq!(
        device.transfer_in(&controller, EP_IN, 64).unwrap_err(),
        Error::InvalidState
    );
}

#[test]
fn release_interface_flow() {
    let (_usb, controller, mut device) = test_device();
    device.open(&controller).unwrap();
    device.claim_interface(&controller, INTERFACE).unwrap();
    // Claiming twice is a no-op.
    device.claim_interface(&controller, INTERFACE).unwrap();

    device.release_interface(&controller, INTERFACE).unwrap();
    // Releasing twice is a no-op.
    device.release_interface(&controller, INTERFACE).unwrap();

    assert_eq!(
        device.transfer_in(&controller, EP_IN, 64).unwrap_err(),
        Error::InvalidState
    );
}

#[test]
fn request_device_filters() {
    let mut ids = DeviceIds::new();
    let (usb, mut controller) = Usb::mock();
    controller.add_device(&mut ids, test_config());
    let mut other = test_config();
    other.vendor_id = 0x1234;
    other.product_id = 0x5678;
    other.serial_number = Some("OTHER".into());
    controller.add_device(&mut ids, other);

    // Vendor/product match.
    let device = usb
        .request_device(
            &controller,
            &[UsbDeviceFilter {
                vendor_id: Some(0x1234),
                product_id: Some(0x5678),
                ..Default::default()
            }],
        )
        .unwrap();
    assert_eq!(device.serial_number.as_deref(), Some("OTHER"));

    // Interface class triple match.
    let device = usb
        .request_device(
            &controller,
            &[UsbDeviceFilter {
                class_code: Some(0xFF),
                subclass_code: Some(0x01),
                protocol_code: Some(0x02),
                ..Default::default()
            }],
        )
        .unwrap();
    assert_eq!(device.vendor_id, 0x2341);

    // Serial number match.
    let device = usb
        .request_device(
            &controller,
            &[UsbDeviceFilter {
                serial_number: Some("TEST123".into()),
                ..Default::default()
            }],
        )
        .unwrap();
    assert_eq!(device.vendor_id, 0x2341);

    // Empty filter list matches the first device.
    let device = usb.request_device(&controller, &[]).unwrap();
    assert_eq!(device.vendor_id, 0x2341);

    // No match.
    assert_eq!(
        usb.request_device(
            &controller,
            &[UsbDeviceFilter {
                vendor_id: Some(0xDEAD),
                ..Default::default()
            }],
        )
        .unwrap_err(),
        Error::NotFound
    );
}

#[test]
fn connect_and_disconnect_events() {
    let mut ids = DeviceIds::new();
    let (usb, mut controller) = Usb::mock();
    let events = usb.events(&mut controller).unwrap();

    let id = controller.add_device(&mut ids, test_config());
    match block_on(events.receiver.recv()).unwrap() {
        UsbConnectionEvent::Connect(device) => {
            assert_eq!(device.id, id);
            assert_eq!(device.vendor_id, 0x2341);
        }
        _ => panic!("expected connect event"),
    }

    controller.remove_device(id).unwrap();
    match block_on(events.receiver.recv()).unwrap() {
        UsbConnectionEvent::Disconnect {
            id: gone,
            vendor_id,
            product_id,
        } => {
            assert_eq!(gone, id);
            assert_eq!(vendor_id, 0x2341);
            assert_eq!(product_id, 0x8036);
        }
        _ => panic!("expected disconnect event"),
    }
}

#[test]
fn disconnected_device_errors() {
    let mut ids = DeviceIds::new();
    let (usb, mut controller) = Usb::mock();
    let id = controller.add_device(&mut ids, test_config());
    let mut device = usb.devices(&controller).unwrap().remove(0);
    device.open(&controller).unwrap();
    device.claim_interface(&controller, INTERFACE).unwrap();

    controller.remove_device(id).unwrap();
    assert_eq!(
        device.transfer_in(&controller, EP_IN, 64).unwrap_err(),
        Error::Disconnected
    );
    // Gone from enumeration too.
    assert!(usb.devices(&controller).unwrap().is_empty());
}

#[test]
fn device_ids_are_stable_across_enumerations() {
    let mut ids = DeviceIds::new();
    let (usb, mut controller) = Usb::mock();
    let id = controller.add_device(&mut ids, test_config());
    let first = usb.devices(&controller).unwrap().remove(0);
    let second = usb.devices(&controller).unwrap().remove(0);
    assert_eq!(first.id, id);
    assert_eq!(second.id, id);
}
