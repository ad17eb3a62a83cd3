//! Error taxonomy of the LED core.

use vstd::prelude::*;

verus! {

/// Everything that can go wrong between a control request and the wire.
///
/// * `InvalidFormat` — a hex color string does not have exactly six
///   digits after the optional `#` prefix, or a request body is not a
///   well-formed color request.
/// * `InvalidDigit` — a six-character hex color string holds a
///   character that is not a hexadecimal digit.
/// * `ChainTooLong` — a requested chain exceeds the transmitter's
///   configured capacity; detected before any waveform is composed.
/// * `TransmissionFailure` — the hardware failed to emit a composed
///   waveform; raised only by the unverified driver layer.
/// * `LockContention` — the store's lock was poisoned by an earlier
///   panic; raised only by the unverified driver layer.
#[derive(Clone, Copy, Debug, PartialEq, Eq, Structural)]
pub enum LedError {
    InvalidFormat,
    InvalidDigit,
    ChainTooLong,
    TransmissionFailure,
    LockContention,
}

} // verus!
