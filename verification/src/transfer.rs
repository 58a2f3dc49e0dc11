//! The outcome of a transfer and the results reported for it.
use crate::error::Error;
use crate::types::{UsbInTransferResult, UsbOutTransferResult, UsbTransferStatus};
use vstd::prelude::*;

verus! {

/// Outcome of a transfer that completed at the protocol level: stalls and babble are reported
/// as statuses, not errors.
#[derive(Debug)]
pub enum TransferOutcome<T> {
    Completed(T),
    Stall,
    Babble,
}

impl<T> TransferOutcome<T> {
    /// The status that reports this outcome.
    pub open spec fn status(self) -> UsbTransferStatus {
        match self {
            TransferOutcome::Completed(_) => UsbTransferStatus::Completed,
            TransferOutcome::Stall => UsbTransferStatus::Stall,
            TransferOutcome::Babble => UsbTransferStatus::Babble,
        }
    }
}

/// The bytes that an IN transfer delivers: none unless it completed.
pub open spec fn received(outcome: TransferOutcome<Vec<u8>>) -> Seq<u8> {
    match outcome {
        TransferOutcome::Completed(data) => data@,
        _ => Seq::empty(),
    }
}

/// The number of bytes that an OUT transfer wrote: none unless it completed.
pub open spec fn accepted(outcome: TransferOutcome<usize>) -> usize {
    match outcome {
        TransferOutcome::Completed(bytes_written) => bytes_written,
        _ => 0,
    }
}

/// `result` reports the backend's reply to an IN transfer: an error stays that error, and every
/// outcome, stall and babble among them, is a result with its status.
pub open spec fn reports_in(
    reply: Result<TransferOutcome<Vec<u8>>, Error>,
    result: Result<UsbInTransferResult, Error>,
) -> bool {
    match reply {
        Err(error) => result == Err::<UsbInTransferResult, Error>(error),
        Ok(outcome) => {
            &&& result is Ok
            &&& result->Ok_0.status == outcome.status()
            &&& result->Ok_0.data@ == received(outcome)
        },
    }
}

/// `result` reports the backend's reply to an OUT transfer: an error stays that error, and every
/// outcome, stall and babble among them, is a result with its status.
pub open spec fn reports_out(
    reply: Result<TransferOutcome<usize>, Error>,
    result: Result<UsbOutTransferResult, Error>,
) -> bool {
    match reply {
        Err(error) => result == Err::<UsbOutTransferResult, Error>(error),
        Ok(outcome) => {
            &&& result is Ok
            &&& result->Ok_0.status == outcome.status()
            &&& result->Ok_0.bytes_written == accepted(outcome)
        },
    }
}

/// The result of an IN transfer, control or endpoint, for the backend's reply to it.
pub fn finish_in_transfer(reply: Result<TransferOutcome<Vec<u8>>, Error>) -> (result: Result<
    UsbInTransferResult,
    Error,
>)
    ensures
        reports_in(reply, result),
{
    match reply {
        Ok(TransferOutcome::Completed(data)) => Ok(
            UsbInTransferResult { data, status: UsbTransferStatus::Completed },
        ),
        Ok(TransferOutcome::Stall) => Ok(
            UsbInTransferResult { data: Vec::new(), status: UsbTransferStatus::Stall },
        ),
        Ok(TransferOutcome::Babble) => Ok(
            UsbInTransferResult { data: Vec::new(), status: UsbTransferStatus::Babble },
        ),
        Err(error) => Err(error),
    }
}

/// The result of an OUT transfer, control or endpoint, for the backend's reply to it.
pub fn finish_out_transfer(reply: Result<TransferOutcome<usize>, Error>) -> (result: Result<
    UsbOutTransferResult,
    Error,
>)
    ensures
        reports_out(reply, result),
{
    match reply {
        Ok(TransferOutcome::Completed(bytes_written)) => Ok(
            UsbOutTransferResult { bytes_written, status: UsbTransferStatus::Completed },
        ),
        Ok(TransferOutcome::Stall) => Ok(
            UsbOutTransferResult { bytes_written: 0, status: UsbTransferStatus::Stall },
        ),
        Ok(TransferOutcome::Babble) => Ok(
            UsbOutTransferResult { bytes_written: 0, status: UsbTransferStatus::Babble },
        ),
        Err(error) => Err(error),
    }
}

} // verus!
