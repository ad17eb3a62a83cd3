//! Chain transmitter: composes the waveform for a whole chain of
//! LEDs.
//!
//! The chain is sent over one data line, first LED first, by
//! concatenating each color's 48-pulse encoding into one composite
//! waveform. The transmitter is built with a fixed capacity,
//! `max_chain_length`; a longer chain is refused up front, before any
//! waveform exists, so nothing reaches the wire. Physically emitting
//! a composed waveform is the unverified driver layer's job: it takes
//! the pulse sequence built here and performs one blocking
//! transmission.

use vstd::prelude::*;

use crate::color::Rgb;
use crate::error::LedError;
use crate::pulse::{spec_encode_color, encode_color, Pulse};

verus! {

/// The composite waveform of a chain: the 48-pulse encodings of its
/// colors, in chain order.
pub open spec fn spec_encode_chain(colors: Seq<Rgb>, hz: int) -> Seq<Pulse> {
    Seq::new(48 * colors.len(), |j: int| spec_encode_color(colors[j / 48], hz)[j % 48])
}

/// Composes the waveform of a chain of colors at reference clock
/// frequency `hz`, first LED first.
pub fn encode_chain(colors: &Vec<Rgb>, hz: u32) -> (v: Vec<Pulse>)
    requires
        48 * colors@.len() <= usize::MAX,
    ensures
        v@ == spec_encode_chain(colors@, hz as int),
        v@.len() == 48 * colors@.len(),
{
    let mut v: Vec<Pulse> = Vec::new();
    let mut i: usize = 0;
    while i < colors.len()
        invariant
            0 <= i <= colors@.len(),
            48 * colors@.len() <= usize::MAX,
            v@.len() == 48 * i,
            forall|j: int|
                0 <= j < 48 * i ==> v@[j] == spec_encode_chain(colors@, hz as int)[j],
        decreases colors@.len() - i,
    {
        let mut one = encode_color(&colors[i], hz);
        v.append(&mut one);
        i = i + 1;
    }
    proof {
        assert(v@ =~= spec_encode_chain(colors@, hz as int));
    }
    v
}

/// The chain transmitter. It owns the configured capacity; the
/// physical line itself is driven by the unverified layer that emits
/// what [`Transmitter::compose`] builds.
pub struct Transmitter {
    max_chain_length: usize,
}

impl Transmitter {
    /// The capacity makes every composed waveform length fit a
    /// `usize`.
    #[verifier::type_invariant]
    pub closed spec fn wf(self) -> bool {
        48 * self.max_chain_length <= usize::MAX
    }

    /// The capacity the transmitter was built with.
    pub closed spec fn spec_max_chain_length(self) -> nat {
        self.max_chain_length as nat
    }

    /// Builds a transmitter for chains of at most `max_chain_length`
    /// LEDs. The bound is a machine limit: the composed waveform's
    /// length must fit a `usize`.
    pub fn new(max_chain_length: usize) -> (t: Self)
        requires
            48 * max_chain_length <= usize::MAX,
        ensures
            t.spec_max_chain_length() == max_chain_length,
    {
        Transmitter { max_chain_length }
    }

    /// The configured capacity.
    pub fn max_chain_length(&self) -> (m: usize)
        ensures
            m == self.spec_max_chain_length(),
    {
        self.max_chain_length
    }

    /// Composes the waveform for one transmission of the chain:
    /// `48 * len` pulses, first LED first. A chain longer than the
    /// configured capacity is refused with `ChainTooLong` before any
    /// waveform is built, so a failed call yields zero pulses.
    pub fn compose(&self, colors: &Vec<Rgb>, hz: u32) -> (r: Result<Vec<Pulse>, LedError>)
        ensures
            colors@.len() <= self.spec_max_chain_length() ==> (r matches Ok(v) && v@
                == spec_encode_chain(colors@, hz as int)),
            colors@.len() > self.spec_max_chain_length() ==> r == Err::<Vec<Pulse>, LedError>(
                LedError::ChainTooLong,
            ),
    {
        proof {
            use_type_invariant(self);
        }
        if colors.len() > self.max_chain_length {
            return Err(LedError::ChainTooLong);
        }
        Ok(encode_chain(colors, hz))
    }
}

} // verus!
