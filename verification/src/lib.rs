//! Driver core for a chain of WS2812-style addressable RGB LEDs.
//!
//! The crate holds the logic that a small LED controller needs once all
//! I/O has been stripped away: a color model (hex parsing, HSV
//! conversion, GRB wire packing), a pulse encoder that turns a color
//! into the timed high/low pulse pairs the single-wire protocol wants,
//! a chain transmitter that composes one waveform for a whole chain of
//! LEDs, a store for the last applied chain, and the request/response
//! text format of the HTTP control surface.
//!
//! Everything here is pure computation over plain values; the hardware
//! that emits a composed waveform, and the network listener that hands
//! request bodies in, live outside the crate and exchange plain values
//! with it.

pub mod color;
pub mod error;
pub mod http;
pub mod pulse;
pub mod store;
pub mod transmit;
