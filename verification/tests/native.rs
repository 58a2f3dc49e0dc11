use webusb::configurations::{convert_configuration, string_indices};
use webusb::descriptors::{
    bos_header_request, bos_request, parse_bos, parse_webusb_url, url_request,
};
use webusb::native::{
    completion_in, control_in_outcome, device_data, enumerate, halt_pipe, has_landing_page,
    hotplug_event, is_listed, map_err, map_transfer_err, next_event, out_outcome, split_version,
    transfer_pipe, ErrorKind, HotplugNotice, NativeDevice, NativeFound, NativeInfo,
    NativeReadings, Pipe, Registry, TransferFailure,
};
use webusb::{
    DeviceIds, Direction, Error, TransferOutcome, UsbConnectionEvent,
    UsbControlTransferParameters, UsbEndpointType, UsbRecipient, UsbRequestType,
};

/// The configuration of a root hub: one interface with one interrupt endpoint.
const ROOT_HUB: [u8; 25] = [
    0x09, 0x02, 0x19, 0x00, 0x01, 0x01, 0x00, 0xe0, 0x00, 0x09, 0x04, 0x00, 0x00, 0x01, 0x09,
    0x00, 0x00, 0x00, 0x07, 0x05, 0x81, 0x03, 0x04, 0x00, 0x0c,
];

/// Configuration 3, named by string 4: interface 2 with alternate settings 1 and 0, the first of
/// them listed before interface 1.
fn composite() -> Vec<u8> {
    let mut bytes = vec![0x09, 0x02, 0x00, 0x00, 0x02, 0x03, 0x04, 0x80, 0x32];
    bytes.extend([0x09, 0x04, 0x02, 0x01, 0x02, 0xff, 0x01, 0x02, 0x06]);
    bytes.extend([0x07, 0x05, 0x02, 0x02, 0x00, 0x02, 0x00]);
    bytes.extend([0x07, 0x05, 0x86, 0x01, 0xff, 0x0b, 0x01]);
    bytes.extend([0x09, 0x04, 0x02, 0x00, 0x00, 0xff, 0x01, 0x02, 0x00]);
    bytes.extend([0x09, 0x04, 0x01, 0x05, 0x00, 0x03, 0x00, 0x00, 0x07]);
    let length = bytes.len() as u8;
    bytes[2] = length;
    bytes
}

#[test]
fn root_hub_configuration() {
    let configuration = convert_configuration(&ROOT_HUB, &vec![]).unwrap();
    assert_eq!(configuration.configuration_value, 1);
    assert_eq!(configuration.configuration_name, None);
    assert_eq!(configuration.interfaces.len(), 1);
    let interface = &configuration.interfaces[0];
    assert_eq!(interface.interface_number, 0);
    assert!(!interface.claimed);
    assert_eq!(interface.alternates.len(), 1);
    assert_eq!(interface.alternate.interface_class, 9);
    let endpoint = interface.alternate.endpoints[0];
    assert_eq!(endpoint.endpoint_number, 1);
    assert_eq!(endpoint.direction, Direction::In);
    assert_eq!(endpoint.endpoint_type, UsbEndpointType::Interrupt);
    assert_eq!(endpoint.packet_size, 4);
    assert_eq!(string_indices(&ROOT_HUB), Vec::<u8>::new());
}

#[test]
fn composite_configuration() {
    let bytes = composite();
    assert_eq!(string_indices(&bytes), vec![4, 7, 6]);
    let names = vec![Some("main".to_string()), None, Some("data".to_string())];
    let configuration = convert_configuration(&bytes, &names).unwrap();
    assert_eq!(configuration.configuration_value, 3);
    assert_eq!(configuration.configuration_name.as_deref(), Some("main"));
    // Interfaces come by increasing numbers.
    let numbers: Vec<u8> = configuration
        .interfaces
        .iter()
        .map(|interface| interface.interface_number)
        .collect();
    assert_eq!(numbers, vec![1, 2]);
    // The first setting is selected where none is numbered 0; a name that was not read is none.
    let control = &configuration.interfaces[0];
    assert_eq!(control.alternate.alternate_setting, 5);
    assert_eq!(control.alternate.interface_name, None);
    assert!(control.alternate.endpoints.is_empty());
    // The setting numbered 0 is selected wherever it stands.
    let data = &configuration.interfaces[1];
    assert_eq!(data.alternate.alternate_setting, 0);
    assert_eq!(data.alternates[0].alternate_setting, 1);
    assert_eq!(data.alternates[0].interface_name.as_deref(), Some("data"));
    assert_eq!(data.alternates[0].interface_class, 0xff);
    assert_eq!(data.alternates[0].interface_subclass, 1);
    assert_eq!(data.alternates[0].interface_protocol, 2);
    let endpoints = &data.alternates[0].endpoints;
    assert_eq!(endpoints.len(), 2);
    assert_eq!(endpoints[0].endpoint_number, 2);
    assert_eq!(endpoints[0].direction, Direction::Out);
    assert_eq!(endpoints[0].endpoint_type, UsbEndpointType::Bulk);
    assert_eq!(endpoints[0].packet_size, 512);
    assert_eq!(endpoints[1].endpoint_number, 6);
    assert_eq!(endpoints[1].direction, Direction::In);
    assert_eq!(endpoints[1].endpoint_type, UsbEndpointType::Isochronous);
    // The packet size is eleven bits.
    assert_eq!(endpoints[1].packet_size, 0x3ff);
}

#[test]
fn names_go_by_place() {
    // The same index at all three places, read with three results.
    let mut bytes = composite();
    bytes[6] = 5;
    bytes[17] = 5;
    let last = bytes.len() - 1;
    bytes[last] = 5;
    assert_eq!(string_indices(&bytes), vec![5, 5, 5]);
    let names = vec![Some("a".to_string()), Some("b".to_string()), None];
    let configuration = convert_configuration(&bytes, &names).unwrap();
    assert_eq!(configuration.configuration_name.as_deref(), Some("a"));
    let interfaces = &configuration.interfaces;
    assert_eq!(interfaces[0].alternates[0].interface_name.as_deref(), Some("b"));
    assert_eq!(interfaces[1].alternates[0].interface_name, None);
    assert_eq!(interfaces[1].alternates[1].interface_name, None);
    // Names that were not read are none.
    let configuration = convert_configuration(&bytes, &vec![]).unwrap();
    assert_eq!(configuration.configuration_name, None);
}

#[test]
fn malformed_configurations() {
    // Too short, of another type, and longer than what is there.
    assert!(convert_configuration(&ROOT_HUB[..8], &vec![]).is_none());
    let mut other = ROOT_HUB;
    other[1] = 4;
    assert!(convert_configuration(&other, &vec![]).is_none());
    assert!(convert_configuration(&ROOT_HUB[..24], &vec![]).is_none());
    assert_eq!(string_indices(&ROOT_HUB[..24]), Vec::<u8>::new());
    // Nothing but the configuration itself.
    let bare = [0x09, 0x02, 0x09, 0x00, 0x00, 0x07, 0x00, 0x80, 0x00];
    let configuration = convert_configuration(&bare, &vec![]).unwrap();
    assert_eq!(configuration.configuration_value, 7);
    assert!(configuration.interfaces.is_empty());
}

fn webusb_capability(vendor_code: u8, landing_page: u8) -> Vec<u8> {
    let mut bytes = vec![24, 0x10, 0x05, 0x00];
    bytes.extend([
        0x38, 0xB6, 0x08, 0x34, 0xA9, 0x09, 0xA0, 0x47, 0x8B, 0xFD, 0xA0, 0x76, 0x88, 0x15, 0xB6,
        0x65,
    ]);
    bytes.extend([0x00, 0x01, vendor_code, landing_page]);
    bytes
}

fn bos(capabilities: &[Vec<u8>]) -> Vec<u8> {
    let length: usize = 5 + capabilities.iter().map(Vec::len).sum::<usize>();
    let mut bytes = vec![5, 0x0F, length as u8, 0, capabilities.len() as u8];
    for capability in capabilities {
        bytes.extend(capability);
    }
    bytes
}

#[test]
fn landing_page_is_found() {
    let usb2 = vec![7, 0x10, 0x02, 2, 0, 0, 0];
    let store = bos(&[usb2.clone(), webusb_capability(0x21, 3)]);
    assert_eq!(parse_bos(&store), Some((0x21, 3)));
    assert_eq!(parse_bos(&bos(&[webusb_capability(0x21, 1), usb2.clone()])), Some((0x21, 1)));
    // No landing page, no capability, another platform, and a store that is cut off.
    assert_eq!(parse_bos(&bos(&[webusb_capability(0x21, 0)])), None);
    assert_eq!(parse_bos(&bos(&[usb2])), None);
    let mut other = webusb_capability(0x21, 3);
    other[4] = 0;
    assert_eq!(parse_bos(&bos(&[other])), None);
    assert_eq!(parse_bos(&store[..store.len() - 1]), None);
    assert_eq!(parse_bos(&store[..4]), None);
}

#[test]
fn landing_page_requests() {
    let first = bos_header_request();
    assert_eq!(first.length, 5);
    assert_eq!(first.setup.request_type, UsbRequestType::Standard);
    assert_eq!(first.setup.recipient, UsbRecipient::Device);
    assert_eq!((first.setup.request, first.setup.value, first.setup.index), (6, 0x0F00, 0));
    let second = bos_request(&[5, 0x0F, 0x22, 0x01, 1]).unwrap();
    assert_eq!(second.length, 0x0122);
    assert_eq!(second.setup.value, 0x0F00);
    assert!(bos_request(&[5, 0x0F, 0x22, 0x01]).is_none());
    let third = url_request(&bos(&[webusb_capability(0x21, 3)])).unwrap();
    assert_eq!(third.length, 255);
    assert_eq!(third.setup.request_type, UsbRequestType::Vendor);
    assert_eq!((third.setup.request, third.setup.value, third.setup.index), (0x21, 3, 2));
    assert!(url_request(&[]).is_none());
}

fn url_descriptor(scheme: u8, rest: &[u8]) -> Vec<u8> {
    let mut bytes = vec![3 + rest.len() as u8, 3, scheme];
    bytes.extend(rest);
    bytes
}

#[test]
fn landing_page_urls() {
    let url = |scheme, rest: &[u8]| parse_webusb_url(&url_descriptor(scheme, rest));
    assert_eq!(url(0, b"example.com").as_deref(), Some("http://example.com"));
    assert_eq!(url(1, b"example.com/x").as_deref(), Some("https://example.com/x"));
    assert_eq!(url(255, b"ftp://a").as_deref(), Some("ftp://a"));
    assert_eq!(url(1, "b\u{fc}cher.example".as_bytes()).as_deref(), Some("https://b\u{fc}cher.example"));
    assert_eq!(url(2, b"example.com"), None);
    assert_eq!(url(1, &[0xff]), None);
    assert_eq!(url(1, b"").as_deref(), Some("https://"));
    // Too short, of another type, and cut off; what follows the descriptor does not count.
    assert_eq!(parse_webusb_url(&[3, 3]), None);
    assert_eq!(parse_webusb_url(&[3, 4, 1]), None);
    assert_eq!(parse_webusb_url(&[6, 3, 1, b'a', b'b']), None);
    assert_eq!(parse_webusb_url(&[4, 3, 1, b'a', b'b']).as_deref(), Some("https://a"));
}

#[test]
fn system_errors() {
    let message = || "no such file".to_string();
    assert_eq!(map_err(ErrorKind::Disconnected, message()), Error::Disconnected);
    assert_eq!(map_err(ErrorKind::Busy, message()), Error::Busy);
    assert_eq!(map_err(ErrorKind::PermissionDenied, message()), Error::Access);
    assert_eq!(map_err(ErrorKind::NotFound, message()), Error::NotFound);
    assert_eq!(map_err(ErrorKind::Unsupported, message()), Error::NotSupported);
    assert_eq!(map_err(ErrorKind::Other, message()), Error::Io("no such file".into()));
}

#[test]
fn transfer_failures() {
    let io = |words: &str| Error::Io(words.to_string());
    assert_eq!(map_transfer_err(TransferFailure::Disconnected), Error::Disconnected);
    assert_eq!(map_transfer_err(TransferFailure::InvalidArgument), Error::NotSupported);
    assert_eq!(map_transfer_err(TransferFailure::Cancelled), io("transfer was cancelled"));
    assert_eq!(map_transfer_err(TransferFailure::Stall), io("endpoint stalled"));
    assert_eq!(
        map_transfer_err(TransferFailure::Fault),
        io("hardware fault or protocol violation")
    );
    match map_transfer_err(TransferFailure::Unknown(5)) {
        Error::Io(words) => {
            assert!(words.starts_with("unknown ("));
            assert!(words.ends_with(")"));
        }
        _ => panic!("expected an error of the system"),
    }
}

#[test]
fn transfer_outcomes() {
    match control_in_outcome(Ok(vec![1, 2])).unwrap() {
        TransferOutcome::Completed(data) => assert_eq!(data, vec![1, 2]),
        _ => panic!("expected data"),
    }
    assert!(matches!(
        control_in_outcome(Err(TransferFailure::Stall)),
        Ok(TransferOutcome::Stall)
    ));
    assert_eq!(
        control_in_outcome(Err(TransferFailure::Disconnected)).unwrap_err(),
        Error::Disconnected
    );
    assert!(matches!(out_outcome(Ok(()), 9), Ok(TransferOutcome::Completed(9))));
    assert!(matches!(
        out_outcome(Err(TransferFailure::Stall), 9),
        Ok(TransferOutcome::Stall)
    ));
    assert_eq!(
        out_outcome(Err(TransferFailure::Cancelled), 9).unwrap_err(),
        Error::Io("transfer was cancelled".into())
    );
    // Only what was transferred counts.
    match completion_in(Ok(()), vec![1, 2, 3, 4], 2).unwrap() {
        TransferOutcome::Completed(data) => assert_eq!(data, vec![1, 2]),
        _ => panic!("expected data"),
    }
    match completion_in(Ok(()), vec![1, 2], 9).unwrap() {
        TransferOutcome::Completed(data) => assert_eq!(data, vec![1, 2]),
        _ => panic!("expected data"),
    }
    assert!(matches!(
        completion_in(Err(TransferFailure::Stall), vec![1], 1),
        Ok(TransferOutcome::Stall)
    ));
}

#[test]
fn pipes() {
    assert_eq!(transfer_pipe(UsbEndpointType::Bulk), Ok(Pipe::Bulk));
    assert_eq!(transfer_pipe(UsbEndpointType::Interrupt), Ok(Pipe::Interrupt));
    assert_eq!(transfer_pipe(UsbEndpointType::Control), Err(Error::InvalidAccess));
    assert_eq!(halt_pipe(UsbEndpointType::Bulk), Ok(Pipe::Bulk));
    assert_eq!(halt_pipe(UsbEndpointType::Isochronous), Err(Error::NotSupported));
}

#[test]
fn handles() {
    let mut native: NativeDevice<&str, &str> = NativeDevice::new();
    assert_eq!(native.device(), Err(Error::InvalidState));
    assert_eq!(native.interface(1), Err(Error::InvalidState));
    native.open("device");
    native.claim_interface(1, "one");
    assert_eq!(native.device(), Ok(&"device"));
    assert_eq!(native.interface(1), Ok(&"one"));
    assert_eq!(native.release_interface(2), None);
    assert_eq!(native.release_interface(1), Some("one"));
    assert_eq!(native.interface(1), Err(Error::InvalidState));
    native.claim_interface(1, "one");
    // A reset gives up the interfaces and keeps the device.
    assert_eq!(native.reset(), Ok(&"device"));
    assert_eq!(native.interface(1), Err(Error::InvalidState));
    native.claim_interface(1, "one");
    native.close();
    assert_eq!(native.device(), Err(Error::InvalidState));
    assert_eq!(native.interface(1), Err(Error::InvalidState));
    native.claim_interface(1, "one");
    assert_eq!(native.reset(), Err(Error::InvalidState));
    assert_eq!(native.interface(1), Err(Error::InvalidState));
}

#[test]
fn control_transfer_routes() {
    let setup = |recipient, index| UsbControlTransferParameters {
        request_type: UsbRequestType::Class,
        recipient,
        request: 1,
        value: 0,
        index,
    };
    let mut native: NativeDevice<(), u8> = NativeDevice::new();
    let to_device = setup(UsbRecipient::Device, 0);
    assert_eq!(native.control_target(&to_device, false), Ok(None));
    assert_eq!(native.control_target(&to_device, true), Err(Error::NotSupported));
    native.claim_interface(7, 70);
    native.claim_interface(3, 30);
    assert_eq!(native.control_target(&to_device, false), Ok(None));
    assert_eq!(native.control_target(&to_device, true), Ok(Some(&30)));
    let to_interface = setup(UsbRecipient::Interface, 0x0107);
    assert_eq!(native.control_target(&to_interface, false), Ok(Some(&70)));
    assert_eq!(native.control_target(&to_interface, true), Ok(Some(&70)));
    // An interface that is not claimed is no route.
    let to_other = setup(UsbRecipient::Interface, 4);
    assert_eq!(native.control_target(&to_other, false), Ok(None));
    assert_eq!(native.control_target(&to_other, true), Ok(Some(&30)));
}

fn info(class: u8, product_id: u16) -> NativeInfo {
    NativeInfo {
        vendor_id: 0x1000,
        product_id,
        class,
        subclass: 2,
        protocol: 3,
        device_version: 0x1234,
        usb_version: 0x0210,
        manufacturer: Some("maker".into()),
        product: Some("thing".into()),
        serial_number: None,
    }
}

fn readings() -> NativeReadings {
    NativeReadings {
        configurations: vec![convert_configuration(&ROOT_HUB, &vec![]).unwrap()],
        active_configuration_value: Some(1),
        url: Some("https://example.com".into()),
    }
}

fn found(key: u32, class: u8) -> NativeFound<u32> {
    NativeFound {
        key,
        info: info(class, key as u16),
        readings: None,
    }
}

#[test]
fn versions() {
    assert_eq!(split_version(0x1234), (0x12, 3, 4));
    assert_eq!(split_version(0x0210), (2, 1, 0));
    assert_eq!(split_version(0xFFFF), (255, 15, 15));
    assert!(has_landing_page(0x0210));
    assert!(has_landing_page(0x0300));
    assert!(!has_landing_page(0x020F));
    assert!(is_listed(0));
    assert!(!is_listed(9));
}

#[test]
fn data_of_a_device() {
    let data = device_data(info(1, 0x22), Some(readings()));
    assert_eq!(data.url.as_deref(), Some("https://example.com"));
    assert_eq!(data.configurations.len(), 1);
    assert_eq!(data.active_configuration_value, Some(1));
    assert_eq!(
        (data.device_version_major, data.device_version_minor, data.device_version_subminor),
        (0x12, 3, 4)
    );
    assert_eq!(
        (data.usb_version_major, data.usb_version_minor, data.usb_version_subminor),
        (2, 1, 0)
    );
    assert_eq!((data.vendor_id, data.product_id), (0x1000, 0x22));
    assert_eq!((data.device_class, data.device_subclass, data.device_protocol), (1, 2, 3));
    assert_eq!(data.manufacturer_name.as_deref(), Some("maker"));
    assert_eq!(data.product_name.as_deref(), Some("thing"));
    assert_eq!(data.serial_number, None);
    // A device that cannot be opened has no configurations and no landing page.
    let data = device_data(info(1, 0x22), None);
    assert!(data.configurations.is_empty());
    assert_eq!(data.active_configuration_value, None);
    assert_eq!(data.url, None);
    // Nor has an old one a landing page.
    let mut old = info(1, 0x22);
    old.usb_version = 0x0200;
    assert_eq!(device_data(old, Some(readings())).url, None);
}

#[test]
fn enumeration_gives_lasting_ids() {
    let mut registry = Registry::new();
    let mut ids = DeviceIds::new();
    let first = enumerate(
        &mut registry,
        &mut ids,
        vec![found(100, 0), found(101, 9), found(102, 3)],
    );
    let listed: Vec<(u64, u16)> = first.iter().map(|d| (d.id, d.product_id)).collect();
    // The hub is passed over and gets no id.
    assert_eq!(listed, vec![(1, 100), (2, 102)]);
    assert!(first.iter().all(|d| !d.opened && d.configurations.is_empty()));
    let second = enumerate(
        &mut registry,
        &mut ids,
        vec![found(103, 0), found(102, 3), found(100, 0)],
    );
    let listed: Vec<(u64, u16)> = second.iter().map(|d| (d.id, d.product_id)).collect();
    assert_eq!(listed, vec![(3, 103), (2, 102), (1, 100)]);
}

#[test]
fn hotplug() {
    let mut registry = Registry::new();
    let mut ids = DeviceIds::new();
    assert!(hotplug_event(&mut registry, &mut ids, HotplugNotice::Connected(found(7, 9))).is_none());
    match hotplug_event(&mut registry, &mut ids, HotplugNotice::Connected(found(8, 0))) {
        Some(UsbConnectionEvent::Connect(device)) => assert_eq!(device.id, 1),
        _ => panic!("expected connect event"),
    }
    // Enumerating does not change the id.
    assert_eq!(enumerate(&mut registry, &mut ids, vec![found(8, 0)])[0].id, 1);
    match hotplug_event(&mut registry, &mut ids, HotplugNotice::Disconnected(8)) {
        Some(UsbConnectionEvent::Disconnect {
            id,
            vendor_id,
            product_id,
        }) => assert_eq!((id, vendor_id, product_id), (1, 0x1000, 8)),
        _ => panic!("expected disconnect event"),
    }
    // A device that is not registered, or not any more, makes no event.
    assert!(hotplug_event(&mut registry, &mut ids, HotplugNotice::Disconnected(8)).is_none());
    assert!(hotplug_event(&mut registry, &mut ids, HotplugNotice::Disconnected(7)).is_none());
    // When it comes back it is a new device.
    match hotplug_event(&mut registry, &mut ids, HotplugNotice::Connected(found(8, 0))) {
        Some(UsbConnectionEvent::Connect(device)) => assert_eq!(device.id, 2),
        _ => panic!("expected connect event"),
    }
}

#[test]
fn first_notice_that_counts() {
    let mut registry = Registry::new();
    let mut ids = DeviceIds::new();
    enumerate(&mut registry, &mut ids, vec![found(8, 0)]);
    let mut notices = vec![
        HotplugNotice::Connected(found(7, 9)),
        HotplugNotice::Disconnected(7),
        HotplugNotice::Disconnected(8),
        HotplugNotice::Disconnected(8),
        HotplugNotice::Connected(found(9, 0)),
        HotplugNotice::Connected(found(6, 9)),
    ];
    match next_event(&mut registry, &mut ids, &mut notices) {
        Some(UsbConnectionEvent::Disconnect { id, .. }) => assert_eq!(id, 1),
        _ => panic!("expected disconnect event"),
    }
    assert_eq!(notices.len(), 3);
    match next_event(&mut registry, &mut ids, &mut notices) {
        Some(UsbConnectionEvent::Connect(device)) => assert_eq!(device.id, 2),
        _ => panic!("expected connect event"),
    }
    assert_eq!(notices.len(), 1);
    assert!(next_event(&mut registry, &mut ids, &mut notices).is_none());
    assert!(notices.is_empty());
}
