//! The operations of a device on the mock bus: check, ask the bus, record its reply.
use crate::device::{DeviceView, UsbDevice};
use crate::error::Error;
use crate::mock::{after_mock_clear_halt, after_mock_control_write, after_mock_write,
    mock_control_read, mock_control_write, mock_read, mock_write, BusView, MockController,
    MockDeviceHandle};
use crate::transfer::{finish_in_transfer, finish_out_transfer, reports_out};
use crate::types::{Direction, UsbControlTransferParameters, UsbInTransferResult,
    UsbOutTransferResult, UsbTransferStatus};
use vstd::prelude::*;

verus! {

/// The result of an IN transfer carries that status and those bytes, or that error.
pub open spec fn shows(
    result: Result<UsbInTransferResult, Error>,
    answer: Result<(UsbTransferStatus, Seq<u8>), Error>,
) -> bool {
    match answer {
        Err(error) => result == Err::<UsbInTransferResult, Error>(error),
        Ok((status, data)) => {
            &&& result is Ok
            &&& result->Ok_0.status == status
            &&& result->Ok_0.data@ == data
        },
    }
}

/// How the request to open a device is met.
pub open spec fn opens(
    before: DeviceView,
    bus: BusView,
    result: Result<(), Error>,
    after: DeviceView,
) -> bool {
    if before.opened {
        result == Ok::<(), Error>(()) && after == before
    } else {
        &&& result == bus.connection(before.id)
        &&& result is Ok ==> after == before.after_open()
        &&& result is Err ==> after == before
    }
}

/// How the request to close a device is met.
pub open spec fn closes(before: DeviceView, result: Result<(), Error>, after: DeviceView) -> bool {
    &&& result == Ok::<(), Error>(())
    &&& after == (if before.opened {
        before.after_close()
    } else {
        before
    })
}

/// How the request to select a configuration is met.
pub open spec fn selects_configuration(
    before: DeviceView,
    bus: BusView,
    configuration_value: u8,
    result: Result<(), Error>,
    after: DeviceView,
) -> bool {
    match before.select_configuration_check(configuration_value) {
        Err(error) => result == Err::<(), Error>(error) && after == before,
        Ok(configuration) => {
            &&& result == bus.connection(before.id)
            &&& result is Ok ==> after == before.with_configuration(configuration)
            &&& result is Err ==> after == before
        },
    }
}

/// How the request to claim an interface is met.
pub open spec fn claims(
    before: DeviceView,
    bus: BusView,
    interface_number: u8,
    result: Result<(), Error>,
    after: DeviceView,
) -> bool {
    match before.claim_check(interface_number) {
        Err(error) => result == Err::<(), Error>(error) && after == before,
        Ok(false) => result == Ok::<(), Error>(()) && after == before,
        Ok(true) => {
            &&& result == bus.connection(before.id)
            &&& result is Ok ==> after == before.with_claimed(interface_number, true)
            &&& result is Err ==> after == before
        },
    }
}

/// How the request to release an interface is met.
pub open spec fn releases(
    before: DeviceView,
    bus: BusView,
    interface_number: u8,
    result: Result<(), Error>,
    after: DeviceView,
) -> bool {
    match before.release_check(interface_number) {
        Err(error) => result == Err::<(), Error>(error) && after == before,
        Ok(false) => result == Ok::<(), Error>(()) && after == before,
        Ok(true) => {
            &&& result == bus.connection(before.id)
            &&& result is Ok ==> after == before.with_claimed(interface_number, false)
            &&& result is Err ==> after == before
        },
    }
}

/// How the request to select an alternate setting is met.
pub open spec fn selects_alternate(
    before: DeviceView,
    bus: BusView,
    interface_number: u8,
    alternate_setting: u8,
    result: Result<(), Error>,
    after: DeviceView,
) -> bool {
    match before.alternate_check(interface_number, alternate_setting) {
        Err(error) => result == Err::<(), Error>(error) && after == before,
        Ok(alternate) => {
            &&& result == bus.connection(before.id)
            &&& result is Ok ==> after == before.with_alternate(interface_number, alternate)
            &&& result is Err ==> after == before
        },
    }
}

/// How a control transfer in is met.
pub open spec fn control_reads(
    device: DeviceView,
    bus: BusView,
    setup: UsbControlTransferParameters,
    length: nat,
    result: Result<UsbInTransferResult, Error>,
) -> bool {
    match device.control_check(setup) {
        Err(error) => result == Err::<UsbInTransferResult, Error>(error),
        Ok(_) => shows(result, mock_control_read(bus, device.id, setup, length)),
    }
}

/// How a control transfer out is met.
pub open spec fn control_writes(
    device: DeviceView,
    bus: BusView,
    setup: UsbControlTransferParameters,
    data: Seq<u8>,
    result: Result<UsbOutTransferResult, Error>,
    after: BusView,
) -> bool {
    match device.control_check(setup) {
        Err(error) => result == Err::<UsbOutTransferResult, Error>(error) && after == bus,
        Ok(_) => {
            &&& reports_out(mock_control_write(bus, device.id, data), result)
            &&& after == after_mock_control_write(bus, device.id, data)
        },
    }
}

/// How the request to clear a halt is met.
pub open spec fn clears_halt(
    device: DeviceView,
    bus: BusView,
    direction: Direction,
    endpoint_number: u8,
    result: Result<(), Error>,
    after: BusView,
) -> bool {
    match device.clear_halt_check(direction, endpoint_number) {
        Err(error) => result == Err::<(), Error>(error) && after == bus,
        Ok(_) => {
            &&& result == bus.connection(device.id)
            &&& after == after_mock_clear_halt(bus, device.id, direction, endpoint_number)
        },
    }
}

/// How a transfer in is met.
pub open spec fn reads(
    device: DeviceView,
    bus: BusView,
    endpoint_number: u8,
    length: nat,
    result: Result<UsbInTransferResult, Error>,
) -> bool {
    match device.transfer_check(endpoint_number, Direction::In) {
        Err(error) => result == Err::<UsbInTransferResult, Error>(error),
        Ok(_) => shows(result, mock_read(bus, device.id, endpoint_number, length)),
    }
}

/// How a transfer out is met.
pub open spec fn writes(
    device: DeviceView,
    bus: BusView,
    endpoint_number: u8,
    data: Seq<u8>,
    result: Result<UsbOutTransferResult, Error>,
    after: BusView,
) -> bool {
    match device.transfer_check(endpoint_number, Direction::Out) {
        Err(error) => result == Err::<UsbOutTransferResult, Error>(error) && after == bus,
        Ok(_) => {
            &&& reports_out(mock_write(bus, device.id, endpoint_number, data), result)
            &&& after == after_mock_write(bus, device.id, endpoint_number, data)
        },
    }
}

/// How the request to reset a device is met.
pub open spec fn resets(device: DeviceView, bus: BusView, result: Result<(), Error>) -> bool {
    match device.reset_check() {
        Err(error) => result == Err::<(), Error>(error),
        Ok(_) => result == bus.connection(device.id),
    }
}

impl UsbDevice {
    /// The device on the mock bus.
    fn handle(&self) -> (handle: MockDeviceHandle)
        ensures
            handle.id == self@.id,
    {
        MockDeviceHandle { id: self.id }
    }

    /// Open the device; an open device stays as it is.
    pub fn open(&mut self, bus: &MockController) -> (result: Result<(), Error>)
        ensures
            opens(old(self)@, bus@, result, final(self)@),
    {
        if !self.begin_open() {
            return Ok(());
        }
        let reply = self.handle().check_connected(bus);
        self.finish_open(reply)
    }

    /// Close the device and give up every claim; a closed device stays as it is. An unplugged
    /// device can be closed too.
    pub fn close(&mut self) -> (result: Result<(), Error>)
        ensures
            closes(old(self)@, result, final(self)@),
    {
        if !self.begin_close() {
            return Ok(());
        }
        let reply = self.handle().close();
        self.finish_close(reply)
    }

    /// Select the configuration of that bConfigurationValue, as the device lists it.
    pub fn select_configuration(&mut self, bus: &MockController, configuration_value: u8) -> (result:
        Result<(), Error>)
        ensures
            selects_configuration(
                old(self)@,
                bus@,
                configuration_value,
                result,
                final(self)@,
            ),
    {
        match self.begin_select_configuration(configuration_value) {
            Err(error) => Err(error),
            Ok(configuration) => {
                let reply = self.handle().check_connected(bus);
                self.finish_select_configuration(configuration, reply)
            },
        }
    }

    /// Claim an interface of the selected configuration; a claimed one stays claimed.
    pub fn claim_interface(&mut self, bus: &MockController, interface_number: u8) -> (result: Result<
        (),
        Error,
    >)
        ensures
            claims(old(self)@, bus@, interface_number, result, final(self)@),
    {
        match self.begin_claim_interface(interface_number) {
            Err(error) => Err(error),
            Ok(ask) => {
                if !ask {
                    return Ok(());
                }
                let reply = self.handle().check_connected(bus);
                self.finish_claim_interface(interface_number, reply)
            },
        }
    }

    /// Release an interface of the selected configuration; one that is not claimed stays so.
    pub fn release_interface(&mut self, bus: &MockController, interface_number: u8) -> (result:
        Result<(), Error>)
        ensures
            releases(old(self)@, bus@, interface_number, result, final(self)@),
    {
        match self.begin_release_interface(interface_number) {
            Err(error) => Err(error),
            Ok(ask) => {
                if !ask {
                    return Ok(());
                }
                let reply = self.handle().check_connected(bus);
                self.finish_release_interface(interface_number, reply)
            },
        }
    }

    /// Select an alternate setting of a claimed interface, as the interface lists it.
    pub fn select_alternate_interface(
        &mut self,
        bus: &MockController,
        interface_number: u8,
        alternate_setting: u8,
    ) -> (result: Result<(), Error>)
        ensures
            selects_alternate(
                old(self)@,
                bus@,
                interface_number,
                alternate_setting,
                result,
                final(self)@,
            ),
    {
        match self.begin_select_alternate_interface(interface_number, alternate_setting) {
            Err(error) => Err(error),
            Ok(alternate) => {
                let reply = self.handle().check_connected(bus);
                self.finish_select_alternate_interface(interface_number, alternate, reply)
            },
        }
    }

    /// Read through the control endpoint.
    pub fn control_transfer_in(
        &self,
        bus: &MockController,
        setup: UsbControlTransferParameters,
        length: u16,
    ) -> (result: Result<UsbInTransferResult, Error>)
        ensures
            control_reads(self@, bus@, setup, length as nat, result),
    {
        match self.begin_control_transfer(&setup) {
            Err(error) => Err(error),
            Ok(()) => finish_in_transfer(
                self.handle().control_transfer_in(bus, &setup, length),
            ),
        }
    }

    /// Write through the control endpoint.
    pub fn control_transfer_out(
        &self,
        bus: &mut MockController,
        setup: UsbControlTransferParameters,
        data: &[u8],
    ) -> (result: Result<UsbOutTransferResult, Error>)
        ensures
            control_writes(self@, old(bus)@, setup, data@, result, final(bus)@),
    {
        match self.begin_control_transfer(&setup) {
            Err(error) => Err(error),
            Ok(()) => finish_out_transfer(self.handle().control_transfer_out(bus, data)),
        }
    }

    /// Clear the halt of an endpoint of a claimed interface.
    pub fn clear_halt(&self, bus: &mut MockController, direction: Direction, endpoint_number: u8) -> (result:
        Result<(), Error>)
        ensures
            clears_halt(
                self@,
                old(bus)@,
                direction,
                endpoint_number,
                result,
                final(bus)@,
            ),
    {
        match self.begin_clear_halt(direction, endpoint_number) {
            Err(error) => Err(error),
            Ok(_) => self.handle().clear_halt(bus, direction, endpoint_number),
        }
    }

    /// Read from a bulk or interrupt endpoint of a claimed interface.
    pub fn transfer_in(&self, bus: &MockController, endpoint_number: u8, length: usize) -> (result:
        Result<UsbInTransferResult, Error>)
        ensures
            reads(self@, bus@, endpoint_number, length as nat, result),
    {
        match self.begin_transfer(endpoint_number, Direction::In) {
            Err(error) => Err(error),
            Ok(_) => finish_in_transfer(self.handle().transfer_in(bus, endpoint_number, length)),
        }
    }

    /// Write to a bulk or interrupt endpoint of a claimed interface.
    pub fn transfer_out(&self, bus: &mut MockController, endpoint_number: u8, data: &[u8]) -> (result:
        Result<UsbOutTransferResult, Error>)
        ensures
            writes(self@, old(bus)@, endpoint_number, data@, result, final(bus)@),
    {
        match self.begin_transfer(endpoint_number, Direction::Out) {
            Err(error) => Err(error),
            Ok(_) => finish_out_transfer(self.handle().transfer_out(bus, endpoint_number, data)),
        }
    }

    /// Reset the device.
    pub fn reset(&self, bus: &MockController) -> (result: Result<(), Error>)
        ensures
            resets(self@, bus@, result),
    {
        match self.begin_reset() {
            Err(error) => Err(error),
            Ok(()) => self.handle().check_connected(bus),
        }
    }
}

} // verus!
