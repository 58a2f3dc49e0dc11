//! Device identifiers.
use vstd::prelude::*;

verus! {

/// Monotonic source of device ids. A process keeps one, shared by all backends, so that ids are
/// unique in it and stable for as long as a device stays connected.
#[derive(Debug)]
pub struct DeviceIds {
    next: u64,
}

impl View for DeviceIds {
    type V = u64;

    /// The id that is given out next.
    closed spec fn view(&self) -> u64 {
        self.next
    }
}

/// The id that a process gives out first.
pub open spec fn first_id() -> u64 {
    1
}

/// The id that follows another. The ids start over once all of them have been given out.
pub open spec fn next_id(id: u64) -> u64 {
    if id == u64::MAX {
        0
    } else {
        (id + 1) as u64
    }
}

impl DeviceIds {
    /// The source of ids of a process that has seen no device.
    pub fn new() -> (ids: Self)
        ensures
            ids@ == first_id(),
    {
        DeviceIds { next: 1 }
    }

    /// A fresh id.
    pub fn next_device_id(&mut self) -> (id: u64)
        ensures
            id == old(self)@,
            final(self)@ == next_id(old(self)@),
    {
        let id: u64 = self.next;
        self.next = id.wrapping_add(1);
        id
    }
}

} // verus!
