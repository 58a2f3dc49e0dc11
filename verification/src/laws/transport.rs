//! Laws of the backend for real devices: what the operating system reports is what comes out, and
//! what is asked of it.
use crate::error::Error;
use crate::events::UsbConnectionEvent;
use crate::laws::natives::{law_first_notice_that_counts_is_reported, law_lowest_is_smallest};
use crate::native::{ends_control_in, ends_in, ends_out, error_of_kind, first_event, is_halt_pipe,
    is_transfer_pipe, notice_views, reports_failure, reports_next, ErrorKind, HandlesView,
    HotplugNotice, Pipe, RegistryEntry, TransferFailure};
use crate::transfer::{reports_in, reports_out, TransferOutcome};
use crate::types::{UsbControlTransferParameters, UsbEndpointType, UsbInTransferResult,
    UsbOutTransferResult, UsbRecipient, UsbTransferStatus};
use vstd::prelude::*;

verus! {

/// Each kind of system error is reported by the error that stands for it, and the kind that stands
/// for nothing else by its message.
pub proof fn law_error_kinds(kind: ErrorKind, message: String)
    ensures
        kind == ErrorKind::Disconnected <==> error_of_kind(kind, message) == Error::Disconnected,
        kind == ErrorKind::Busy <==> error_of_kind(kind, message) == Error::Busy,
        kind == ErrorKind::PermissionDenied <==> error_of_kind(kind, message) == Error::Access,
        kind == ErrorKind::NotFound <==> error_of_kind(kind, message) == Error::NotFound,
        kind == ErrorKind::Unsupported <==> error_of_kind(kind, message) == Error::NotSupported,
        kind == ErrorKind::Other ==> error_of_kind(kind, message) == Error::Io(message),
{
}

/// The error is a transport error with those words.
pub open spec fn says(error: Error, words: Seq<char>) -> bool {
    error matches Error::Io(message) && message@ == words
}

/// A failed transfer is reported as a disconnected device or an unsupported request where it is
/// one, and otherwise as a transport error with the words for it.
pub proof fn law_failures_are_told(failure: TransferFailure, error: Error)
    requires
        reports_failure(failure, error),
    ensures
        failure == TransferFailure::Disconnected <==> error == Error::Disconnected,
        failure == TransferFailure::InvalidArgument <==> error == Error::NotSupported,
        failure == TransferFailure::Cancelled ==> says(error, "transfer was cancelled"@),
        failure == TransferFailure::Stall ==> says(error, "endpoint stalled"@),
        failure == TransferFailure::Fault ==> says(
            error,
            "hardware fault or protocol violation"@,
        ),
        failure is Unknown ==> error is Io && exists|name: Seq<char>|
            error->Io_0@ == #[trigger] ("unknown ("@ + name) + ")"@,
{
}

/// The outcome of a transfer that failed: a stall is an outcome, anything else is an error that
/// tells the failure.
pub open spec fn tells_failure<T>(
    failure: TransferFailure,
    outcome: Result<TransferOutcome<T>, Error>,
) -> bool {
    &&& failure == TransferFailure::Stall <==> outcome is Ok
    &&& outcome matches Ok(o) ==> o is Stall
    &&& outcome matches Err(error) ==> {
        &&& failure == TransferFailure::Disconnected <==> error == Error::Disconnected
        &&& failure == TransferFailure::InvalidArgument <==> error == Error::NotSupported
        &&& failure == TransferFailure::Cancelled ==> says(error, "transfer was cancelled"@)
        &&& failure == TransferFailure::Fault ==> says(
            error,
            "hardware fault or protocol violation"@,
        )
        &&& failure is Unknown ==> error is Io
    }
}

/// A control transfer in completes with the data that came, all of it, or tells why it failed.
pub proof fn law_control_in_completes(
    status: Result<Vec<u8>, TransferFailure>,
    outcome: Result<TransferOutcome<Vec<u8>>, Error>,
)
    requires
        ends_control_in(status, outcome),
    ensures
        status matches Ok(data) ==> outcome is Ok && outcome->Ok_0 is Completed
            && outcome->Ok_0->Completed_0 == data,
        status matches Err(failure) ==> tells_failure(failure, outcome),
{
}

/// A transfer out completes with the number of bytes that was reported, or tells why it failed.
pub proof fn law_out_completes(
    status: Result<(), TransferFailure>,
    written: usize,
    outcome: Result<TransferOutcome<usize>, Error>,
)
    requires
        ends_out(status, written, outcome),
    ensures
        status is Ok ==> outcome is Ok && outcome->Ok_0 is Completed && outcome->Ok_0->Completed_0
            == written,
        status matches Err(failure) ==> tells_failure(failure, outcome),
{
}

/// A transfer in completes with the start of the buffer, as long as what was transferred, or as the
/// buffer where that is shorter; or it tells why it failed.
pub proof fn law_in_completes(
    status: Result<(), TransferFailure>,
    buffer: Seq<u8>,
    actual_len: usize,
    outcome: Result<TransferOutcome<Vec<u8>>, Error>,
    b: int,
)
    requires
        ends_in(status, buffer, actual_len, outcome),
    ensures
        status is Ok ==> {
            &&& outcome is Ok
            &&& outcome->Ok_0 is Completed
            &&& {
                let data = outcome->Ok_0->Completed_0@;
                &&& data.len() == (if buffer.len() < actual_len {
                    buffer.len() as int
                } else {
                    actual_len as int
                })
                &&& 0 <= b < data.len() ==> data[b] == buffer[b]
            }
        },
        status matches Err(failure) ==> tells_failure(failure, outcome),
{
}

/// Users are told what a backend replies to a transfer in: an error as it is, and every outcome as
/// a result with its status, with data only where it completed.
pub proof fn law_in_outcome_is_reported(
    reply: Result<TransferOutcome<Vec<u8>>, Error>,
    result: Result<UsbInTransferResult, Error>,
)
    requires
        reports_in(reply, result),
    ensures
        reply matches Err(error) ==> result == Err::<UsbInTransferResult, Error>(error),
        reply matches Ok(TransferOutcome::Completed(data)) ==> result is Ok
            && result->Ok_0.status == UsbTransferStatus::Completed && result->Ok_0.data@ == data@,
        reply matches Ok(TransferOutcome::Stall) ==> result is Ok && result->Ok_0.status
            == UsbTransferStatus::Stall && result->Ok_0.data@.len() == 0,
        reply matches Ok(TransferOutcome::Babble) ==> result is Ok && result->Ok_0.status
            == UsbTransferStatus::Babble && result->Ok_0.data@.len() == 0,
{
}

/// Users are told what a backend replies to a transfer out: an error as it is, and every outcome as
/// a result with its status, with bytes written only where it completed.
pub proof fn law_out_outcome_is_reported(
    reply: Result<TransferOutcome<usize>, Error>,
    result: Result<UsbOutTransferResult, Error>,
)
    requires
        reports_out(reply, result),
    ensures
        reply matches Err(error) ==> result == Err::<UsbOutTransferResult, Error>(error),
        reply matches Ok(TransferOutcome::Completed(written)) ==> result is Ok
            && result->Ok_0.status == UsbTransferStatus::Completed && result->Ok_0.bytes_written
            == written,
        reply matches Ok(TransferOutcome::Stall) ==> result is Ok && result->Ok_0.status
            == UsbTransferStatus::Stall && result->Ok_0.bytes_written == 0,
        reply matches Ok(TransferOutcome::Babble) ==> result is Ok && result->Ok_0.status
            == UsbTransferStatus::Babble && result->Ok_0.bytes_written == 0,
{
}

/// Bulk and interrupt endpoints have pipes of their own; through any other, transfers are an
/// invalid access, and clearing a halt is not supported.
pub proof fn law_pipes(
    endpoint_type: UsbEndpointType,
    transfer: Result<Pipe, Error>,
    halt: Result<Pipe, Error>,
)
    requires
        is_transfer_pipe(endpoint_type, transfer),
        is_halt_pipe(endpoint_type, halt),
    ensures
        endpoint_type == UsbEndpointType::Bulk <==> transfer == Ok::<Pipe, Error>(Pipe::Bulk),
        endpoint_type == UsbEndpointType::Bulk <==> halt == Ok::<Pipe, Error>(Pipe::Bulk),
        endpoint_type == UsbEndpointType::Interrupt <==> transfer == Ok::<Pipe, Error>(
            Pipe::Interrupt,
        ),
        endpoint_type == UsbEndpointType::Interrupt <==> halt == Ok::<Pipe, Error>(
            Pipe::Interrupt,
        ),
        transfer is Err ==> transfer == Err::<Pipe, Error>(Error::InvalidAccess),
        halt is Err ==> halt == Err::<Pipe, Error>(Error::NotSupported),
        endpoint_type == UsbEndpointType::Isochronous || endpoint_type == UsbEndpointType::Control
            <==> transfer is Err && halt is Err,
{
}

/// The handle of the device is there from opening to closing, also across a reset; that of an
/// interface from claiming to releasing, closing or a reset. A missing handle is an invalid state,
/// and no handle is changed by what is done with another.
pub proof fn law_handles<D, I>(
    handles: HandlesView<D, I>,
    device: D,
    interface_number: u8,
    interface: I,
    other: u8,
)
    ensures
        handles.device is Some ==> handles.device_handle() == Ok::<D, Error>(
            handles.device->Some_0,
        ),
        handles.device is None ==> handles.device_handle() == Err::<D, Error>(Error::InvalidState),
        handles.interfaces.contains_key(other) ==> handles.interface_handle(other) == Ok::<
            I,
            Error,
        >(handles.interfaces[other]),
        !handles.interfaces.contains_key(other) ==> handles.interface_handle(other) == Err::<
            I,
            Error,
        >(Error::InvalidState),
        handles.after_open(device).device_handle() == Ok::<D, Error>(device),
        handles.after_open(device).interfaces == handles.interfaces,
        handles.after_claim(interface_number, interface).device == handles.device,
        handles.after_claim(interface_number, interface).interface_handle(other) == (if other
            == interface_number {
            Ok::<I, Error>(interface)
        } else {
            handles.interface_handle(other)
        }),
        handles.after_release(interface_number).device == handles.device,
        handles.after_release(interface_number).interface_handle(other) == (if other
            == interface_number {
            Err::<I, Error>(Error::InvalidState)
        } else {
            handles.interface_handle(other)
        }),
        handles.after_reset().device == handles.device,
        handles.after_reset().interface_handle(other) == Err::<I, Error>(Error::InvalidState),
        HandlesView::<D, I>::none().device_handle() == Err::<D, Error>(Error::InvalidState),
        HandlesView::<D, I>::none().interface_handle(other) == Err::<I, Error>(
            Error::InvalidState,
        ),
{
}

/// A control transfer to an interface that is claimed goes through it. Any other goes to the device
/// where the system lets it, else through the claimed interface of the lowest number, and is not
/// supported where nothing is claimed.
pub proof fn law_control_transfers_are_routed<D, I>(
    handles: HandlesView<D, I>,
    setup: UsbControlTransferParameters,
    interface_only: bool,
    lowest: u8,
)
    ensures
        ({
            let route = handles.control_route(setup, interface_only);
            let own = (setup.index & 0xFF) as u8;
            let direct = setup.recipient == UsbRecipient::Interface
                && handles.interfaces.contains_key(own);
            &&& direct ==> route == Ok::<Option<u8>, Error>(Some(own))
            &&& !direct && !interface_only ==> route == Ok::<Option<u8>, Error>(None)
            &&& !direct && interface_only && handles.interfaces.contains_key(lowest) && (forall|
                n: u8,
            |
                n < lowest ==> !#[trigger] handles.interfaces.contains_key(n)) ==> route == Ok::<
                Option<u8>,
                Error,
            >(Some(lowest))
            &&& !direct && interface_only && (forall|n: u8|
                !#[trigger] handles.interfaces.contains_key(n)) ==> route == Err::<
                Option<u8>,
                Error,
            >(Error::NotSupported)
        }),
{
    let index = setup.index;
    assert(index & 0xFF == index % 256) by (bit_vector);
    law_lowest_is_smallest(handles.interfaces, 0);
}

/// The notice is about a hub, or about the removal of a device that is not registered.
pub open spec fn counts_for_nothing<K>(
    notice: HotplugNotice<K>,
    entries: Map<K, RegistryEntry>,
) -> bool {
    match notice {
        HotplugNotice::Connected(found) => found.info.class == 9,
        HotplugNotice::Disconnected(key) => !entries.contains_key(key),
    }
}

/// Going through notices ends behind the first that counts for something, which makes the event
/// and the change; what follows it is left. Where none does, all are gone through and nothing
/// happens. (What the event and the change are is `law_notice_is_reported`.)
pub proof fn law_notices_are_gone_through<K>(
    entries: Map<K, RegistryEntry>,
    next: u64,
    notices: Seq<HotplugNotice<K>>,
    event: Option<UsbConnectionEvent>,
    after: Map<K, RegistryEntry>,
    after_next: u64,
    rest: Seq<HotplugNotice<K>>,
    i: int,
)
    requires
        reports_next(entries, next, notices, event, after, after_next, rest),
    ensures
        (forall|j: int|
            0 <= j < notices.len() ==> counts_for_nothing(#[trigger] notices[j], entries)) ==> {
            &&& event is None
            &&& after == entries
            &&& after_next == next
            &&& rest.len() == 0
        },
        0 <= i < notices.len() && !counts_for_nothing(notices[i], entries) && (forall|j: int|
            0 <= j < i ==> counts_for_nothing(#[trigger] notices[j], entries)) ==> {
            &&& event is Some
            &&& Some(event->Some_0@) == notices[i]@.event(entries, next)
            &&& after == notices[i]@.entries_after(entries, next)
            &&& after_next == notices[i]@.next_after(entries, next)
            &&& rest.len() == notices.len() - i - 1
            &&& forall|j: int| 0 <= j < rest.len() ==> #[trigger] rest[j] == notices[i + 1 + j]
        },
{
    let views = notice_views(notices);
    law_first_notice_that_counts_is_reported(entries, next, views);
    assert forall|j: int| 0 <= j < notices.len() implies (counts_for_nothing(
        #[trigger] notices[j],
        entries,
    ) <==> views[j].event(entries, next) is None) by {
        assert(views[j] == notices[j]@);
    }
    match first_event(entries, next, views) {
        Some(f) => {
            assert(views[f] == notices[f]@);
            if 0 <= i < notices.len() && f < i {
                assert(!counts_for_nothing(notices[f], entries));
            }
            if 0 <= i < f {
                assert(views[i] == notices[i]@);
            }
        },
        None => {
            if 0 <= i < notices.len() {
                assert(views[i] == notices[i]@);
            }
        },
    }
}

} // verus!
