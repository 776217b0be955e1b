//! Error kinds reported by the driver.
use vstd::prelude::*;

verus! {

/// A transport or device failure.
#[derive(Clone, Copy, Debug, PartialEq, Eq, Structural)]
pub enum IoError {
    /// A bus transaction failed.
    Transport,
    /// A register held a bit pattern that no setting encodes to.
    InvalidValue,
    /// The chip reported a silicon revision this driver does not know.
    UnsupportedRevision,
}

/// A caller-supplied value is outside what the hardware can represent.
#[derive(Clone, Copy, Debug, PartialEq, Eq, Structural)]
pub enum InvalidArgumentError {
    /// The TX payload is empty or does not fit into the FIFO.
    InvalidTxLength,
    /// The RX timeout does not fit into a signed 32-bit count of microseconds.
    TimeoutTooLong,
    /// The RX timeout needs more symbols than the 10-bit symbol counter holds.
    TimeoutTooManySymbols,
}

/// Why a transmission could not be scheduled.
#[derive(Clone, Copy, Debug, PartialEq, Eq, Structural)]
pub enum TxStartError {
    Io(IoError),
    InvalidArgument(InvalidArgumentError),
}

/// Why a reception could not be scheduled.
#[derive(Clone, Copy, Debug, PartialEq, Eq, Structural)]
pub enum RxStartError {
    Io(IoError),
    InvalidArgument(InvalidArgumentError),
}

/// Why a reception ended without a message.
#[derive(Clone, Copy, Debug, PartialEq, Eq, Structural)]
pub enum RxCompleteError {
    Io(IoError),
    /// The hardware symbol timeout expired before a packet arrived.
    Timeout,
    /// The received packet failed its payload CRC check.
    InvalidMessage,
}

} // verus!
