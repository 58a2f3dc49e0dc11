use webusb::ffi::{
    check_in_pointers, check_out_pointers, device_op, direction_from, error_code, events_start,
    in_reply, initialized, mock_add_device, mock_halt_endpoint, mock_remove_device, mock_written, op_code,
    out_reply, recipient_from, request_type_from, setup_from, status_code, tracked_device,
    with_device, EventsStart, FfiState,
};
use webusb::{
    Backend, DeviceIds, Direction, Error, MockDeviceConfig, UsbInTransferResult,
    UsbOutTransferResult, UsbRecipient, UsbRequestType, UsbTransferStatus,
};

type State = FfiState<String, u8>;

#[test]
fn codes() {
    let errors = [
        Error::NotFound,
        Error::InvalidState,
        Error::InvalidAccess,
        Error::NotSupported,
        Error::Disconnected,
        Error::Busy,
        Error::Access,
        Error::Io("x".into()),
    ];
    let codes: Vec<i32> = errors.iter().map(error_code).collect();
    assert_eq!(codes, vec![-1, -2, -3, -4, -5, -6, -7, -8]);
    assert_eq!(op_code(&Ok(())), 0);
    assert_eq!(op_code(&Err(Error::Busy)), -6);
    assert_eq!(status_code(UsbTransferStatus::Completed), 0);
    assert_eq!(status_code(UsbTransferStatus::Stall), 1);
    assert_eq!(status_code(UsbTransferStatus::Babble), 2);
}

#[test]
fn raw_values() {
    assert_eq!(direction_from(0), Direction::Out);
    assert_eq!(direction_from(1), Direction::In);
    assert_eq!(direction_from(200), Direction::In);
    assert_eq!(request_type_from(2), Ok(UsbRequestType::Vendor));
    assert_eq!(request_type_from(3), Err(Error::NotSupported));
    assert_eq!(recipient_from(3), Ok(UsbRecipient::Other));
    assert_eq!(recipient_from(4), Err(Error::NotSupported));
    let setup = setup_from(1, 2, 3, 4, 5).unwrap();
    assert_eq!(setup.request_type, UsbRequestType::Class);
    assert_eq!(setup.recipient, UsbRecipient::Endpoint);
    assert_eq!((setup.request, setup.value, setup.index), (3, 4, 5));
    assert_eq!(setup_from(3, 0, 0, 0, 0).unwrap_err(), Error::NotSupported);
    assert_eq!(setup_from(0, 4, 0, 0, 0).unwrap_err(), Error::NotSupported);
}

#[test]
fn pointers() {
    assert_eq!(check_in_pointers(false, false), None);
    assert_eq!(check_in_pointers(true, false), Some(-10));
    assert_eq!(check_in_pointers(false, true), Some(-10));
    assert_eq!(check_out_pointers(false, 4, false), None);
    assert_eq!(check_out_pointers(true, 0, false), None);
    assert_eq!(check_out_pointers(true, 1, false), Some(-10));
    assert_eq!(check_out_pointers(false, 4, true), Some(-10));
}

#[test]
fn transfer_replies() {
    let read = |data: &[u8], status| {
        Ok(UsbInTransferResult {
            data: data.to_vec(),
            status,
        })
    };
    let reply = in_reply(read(b"hello", UsbTransferStatus::Completed), 64);
    assert_eq!((reply.code, reply.status, reply.data), (5, Some(0), b"hello".to_vec()));
    // The buffer of the caller is never overrun.
    let reply = in_reply(read(b"hello", UsbTransferStatus::Completed), 2);
    assert_eq!((reply.code, reply.status, reply.data), (2, Some(0), b"he".to_vec()));
    let reply = in_reply(read(b"", UsbTransferStatus::Stall), 2);
    assert_eq!((reply.code, reply.status, reply.data), (0, Some(1), vec![]));
    let reply = in_reply(Err(Error::Disconnected), 2);
    assert_eq!((reply.code, reply.status, reply.data), (-5, None, vec![]));
    let reply = out_reply(Ok(UsbOutTransferResult {
        bytes_written: 7,
        status: UsbTransferStatus::Completed,
    }));
    assert_eq!((reply.code, reply.status), (7, Some(0)));
    let reply = out_reply(Err(Error::InvalidAccess));
    assert_eq!((reply.code, reply.status), (-3, None));
}

#[test]
fn initialization() {
    let mock = State::init(1).unwrap();
    assert_eq!(mock.usb.backend(), Backend::Mock);
    assert!(mock.controller.is_some());
    let native = State::init(0).unwrap();
    assert_eq!(native.usb.backend(), Backend::Native);
    assert!(native.controller.is_none());
    assert!(native.devices.is_empty());
    assert!(native.events.is_none());
}

#[test]
fn tracking_keeps_the_first_handle() {
    let mut state = State::init(1).unwrap();
    assert_eq!(state.track_device(5, "first".into()), "first");
    assert_eq!(state.track_device(5, "again".into()), "first");
    assert_eq!(state.track_device(6, "other".into()), "other");
    state.forget_device(5);
    let state = Some(state);
    assert_eq!(tracked_device(&state, 5), Err(Error::NotFound));
    assert_eq!(tracked_device(&state, 6), Ok(&"other".to_string()));
    assert_eq!(tracked_device::<String, u8>(&None, 6), Err(Error::InvalidState));
    let length = with_device(tracked_device(&state, 6), |name| Ok(name.len()));
    assert_eq!(length, Ok(5));
    assert_eq!(device_op(tracked_device(&state, 6), |_| Err(Error::Busy)), -6);
    assert_eq!(device_op(tracked_device(&state, 6), |_| Ok(())), 0);
    assert_eq!(device_op(tracked_device(&state, 5), |_| Ok(())), -1);
}

#[test]
fn delivery_of_events() {
    assert_eq!(initialized::<String, u8>(&mut None).err(), Some(-9));
    assert_eq!(events_start::<String, u8>(&None), EventsStart::Answer(-9));
    let mut state = State::init(1).unwrap();
    assert_eq!(state.events_stop(), None);
    let mut state = Some(state);
    assert_eq!(events_start(&state), EventsStart::Subscribe);
    initialized(&mut state).unwrap().events_started(3);
    assert_eq!(events_start(&state), EventsStart::Answer(0));
    assert_eq!(state.as_mut().unwrap().events_stop(), Some(3));
    assert_eq!(events_start(&state), EventsStart::Subscribe);
}

#[test]
fn mock_devices() {
    let mut ids = DeviceIds::new();
    let mut none: Option<State> = None;
    assert_eq!(mock_add_device(&mut none, &mut ids, MockDeviceConfig::default()), -9);
    assert_eq!(mock_remove_device(&mut none, 1), -9);
    assert_eq!(mock_written(&none, 1), Err(-9));
    assert_eq!(mock_halt_endpoint(&mut none, 1, 0x81), -9);
    let mut native = Some(State::init(0).unwrap());
    assert_eq!(mock_add_device(&mut native, &mut ids, MockDeviceConfig::default()), -9);
    let mut state = Some(State::init(1).unwrap());
    assert_eq!(mock_add_device(&mut state, &mut ids, MockDeviceConfig::default()), 1);
    assert_eq!(mock_add_device(&mut state, &mut ids, MockDeviceConfig::default()), 2);
    assert_eq!(mock_written(&state, 2), Ok(vec![]));
    assert_eq!(mock_halt_endpoint(&mut state, 2, 0x81), 0);
    assert_eq!(mock_halt_endpoint(&mut state, 3, 0x81), -1);
    assert_eq!(mock_remove_device(&mut state, 2), 0);
    assert_eq!(mock_remove_device(&mut state, 2), -1);
    assert_eq!(mock_written(&state, 2), Err(-1));
}
