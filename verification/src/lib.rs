//! WebUSB devices: their state, the rules for operating on them, and the backends behind them.
//!
//! A [`UsbDevice`] is a state machine: open it, claim an interface, transfer. Every operation
//! checks the request against the state, asks a backend, and records the reply. On the in-memory
//! mock bus of a [`MockController`] the whole of that runs here. Real devices are reached through
//! the operating system, so their operations come in halves, one for before and one for after the
//! system call, and what is asked and what a reply means is decided in [`native`].
//!
//! What holds across operations is stated and proved in [`laws`].
pub mod configurations;
pub mod descriptors;
pub mod device;
pub mod error;
pub mod events;
pub mod ffi;
pub mod filter;
pub mod ids;
pub mod laws;
pub mod mock;
pub mod native;
pub mod operations;
pub mod search;
pub mod transfer;
pub mod types;
pub mod usb;

pub use device::{DeviceData, EndpointTarget, UsbDevice};
pub use error::Error;
pub use events::{Subscribers, UsbConnectionEvent, UsbEvents};
pub use filter::UsbDeviceFilter;
pub use ids::DeviceIds;
pub use mock::{MockController, MockDeviceConfig, MockDeviceHandle};
pub use transfer::TransferOutcome;
pub use types::{Direction, UsbAlternateInterface, UsbConfiguration, UsbControlTransferParameters,
    UsbEndpoint, UsbEndpointType, UsbInTransferResult, UsbInterface, UsbIsochronousInTransferPacket,
    UsbIsochronousInTransferResult, UsbIsochronousOutTransferPacket,
    UsbIsochronousOutTransferResult, UsbOutTransferResult, UsbRecipient, UsbRequestType,
    UsbTransferStatus};
pub use usb::{Backend, Usb};
