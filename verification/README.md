# webusb

WebUSB devices in Rust, with their behaviour stated in contracts and proved with Verus.

- Enumeration, filter-based selection and connect and disconnect events.
- Control, bulk and interrupt transfers whose stalls and babble are statuses, not errors.
- State validation for every operation: open and claim checks, alternate settings, halts, resets.
- Isochronous transfers are validated; the transfer itself is refused as not supported.

## Layout

- `src/` is the verified library.
  - `device`: the state of a device, and the two halves of every operation on it.
  - `mock`, `operations`: an in-memory bus, and the operations of a device on it.
  - `native`: the rules for real devices: ids, handles, errors, what is listed.
  - `configurations`, `descriptors`: configurations and landing pages from descriptor bytes.
  - `filter`, `usb`, `events`: selection, the entry point, and event channels.
  - `ffi`: codes, checks and state of the C interface.
  - `laws`: what holds across operations.
- `app/` is ordinary Rust around it: system calls through `nusb`, `async` plumbing, JSON, and the C
  interface itself.
- `tests/` runs the library, on the mock bus and on descriptor bytes.

## What is trusted

The library calls `nusb` to take descriptors apart and to word transfer errors, `async_channel` to
carry events, and `String::from_utf8`. Each such call stands in a small function whose contract is
believed; its doc comment says what it claims.
