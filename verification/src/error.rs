//! The error type of the library.
use vstd::prelude::*;

verus! {

/// Why a device operation was refused or failed.
#[derive(Debug, PartialEq, Eq, Clone)]
#[non_exhaustive]
pub enum Error {
    /// Equivalent of DOMException `NotFoundError`.
    NotFound,
    /// Equivalent of DOMException `InvalidStateError`.
    InvalidState,
    /// Equivalent of DOMException `InvalidAccessError`.
    InvalidAccess,
    /// Equivalent of DOMException `NotSupportedError`.
    NotSupported,
    /// The device has been disconnected.
    Disconnected,
    /// The device or interface is in use by another program or driver.
    Busy,
    /// Permission denied by the operating system.
    Access,
    /// Any other OS or transport level error.
    Io(String),
}

impl Error {
    /// The words that describe the error.
    pub open spec fn spec_message(self) -> Seq<char> {
        match self {
            Error::NotFound => "not found"@,
            Error::InvalidState => "invalid state"@,
            Error::InvalidAccess => "invalid access"@,
            Error::NotSupported => "not supported"@,
            Error::Disconnected => "device disconnected"@,
            Error::Busy => "device busy"@,
            Error::Access => "permission denied"@,
            Error::Io(msg) => msg@,
        }
    }

    /// A description of the error for people; an `Io` error gives its own message.
    pub fn message(&self) -> (text: String)
        ensures
            text@ == self.spec_message(),
    {
        match self {
            Error::NotFound => "not found".to_string(),
            Error::InvalidState => "invalid state".to_string(),
            Error::InvalidAccess => "invalid access".to_string(),
            Error::NotSupported => "not supported".to_string(),
            Error::Disconnected => "device disconnected".to_string(),
            Error::Busy => "device busy".to_string(),
            Error::Access => "permission denied".to_string(),
            Error::Io(msg) => msg.clone(),
        }
    }
}

} // verus!
