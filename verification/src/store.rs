//! Color state store: the last applied LED chain.
//!
//! The store owns the chain and the transmitter; request handlers
//! reach both only through [`ColorStore::set`] and
//! [`ColorStore::get`]. A `set` validates every hex string before it
//! mutates anything, so an invalid entry leaves the stored chain
//! untouched; on success it replaces the chain and then composes the
//! transmission waveform (write-then-apply: a chain refused by the
//! transmitter as too long is reported, but the stored chain stays
//! replaced, and no waveform is produced). Mutual exclusion between
//! concurrent handlers is the unverified layer's job: it wraps the
//! store in one lock and holds it for the duration of each access.

use vstd::prelude::*;

use crate::color::{
    hex_to_rgb,
    rgb_to_hex,
    spec_hex_color,
    spec_hex_result,
    spec_rgb_hex,
    Rgb,
};
use crate::error::LedError;
use crate::pulse::Pulse;
use crate::transmit::{spec_encode_chain, Transmitter};

verus! {

/// All-or-nothing validation of a list of hex color strings: the
/// decoded colors if every entry is valid, else the error of the
/// first invalid entry.
pub open spec fn spec_parse_chain(hs: Seq<Seq<char>>) -> Result<Seq<Rgb>, LedError>
    decreases hs.len(),
{
    if hs.len() == 0 {
        Ok(Seq::<Rgb>::empty())
    } else {
        match spec_hex_result(hs[0]) {
            Err(e) => Err(e),
            Ok(c) => match spec_parse_chain(hs.skip(1)) {
                Err(e) => Err(e),
                Ok(rest) => Ok(seq![c] + rest),
            },
        }
    }
}

/// The colors of a list of valid hex strings, element-wise.
pub open spec fn spec_chain_values(hs: Seq<Seq<char>>) -> Seq<Rgb> {
    Seq::new(hs.len(), |j: int| spec_hex_color(hs[j]))
}

/// The canonical hex form of a chain, element-wise.
pub open spec fn spec_chain_hex(cs: Seq<Rgb>) -> Seq<Seq<char>> {
    Seq::new(cs.len(), |j: int| spec_rgb_hex(cs[j]))
}

/// What [`ColorStore::set`] returns: the first validation error, or
/// `ChainTooLong` past the capacity, or the composed waveform.
pub open spec fn spec_set_result(hs: Seq<Seq<char>>, max: nat, hz: int) -> Result<
    Seq<Pulse>,
    LedError,
> {
    match spec_parse_chain(hs) {
        Err(e) => Err(e),
        Ok(cs) => if cs.len() <= max {
            Ok(spec_encode_chain(cs, hz))
        } else {
            Err(LedError::ChainTooLong)
        },
    }
}

/// What [`ColorStore::set`] leaves stored: the new chain when every
/// entry validates, else the old one.
pub open spec fn spec_set_chain(hs: Seq<Seq<char>>, old_chain: Seq<Rgb>) -> Seq<Rgb> {
    match spec_parse_chain(hs) {
        Err(_) => old_chain,
        Ok(cs) => cs,
    }
}

proof fn lemma_parse_chain_ok(hs: Seq<Seq<char>>)
    requires
        forall|j: int| 0 <= j < hs.len() ==> spec_hex_result(hs[j]) is Ok,
    ensures
        spec_parse_chain(hs) == Ok::<Seq<Rgb>, LedError>(spec_chain_values(hs)),
    decreases hs.len(),
{
    if hs.len() == 0 {
        assert(spec_chain_values(hs) =~= Seq::<Rgb>::empty());
    } else {
        assert(forall|j: int|
            0 <= j < hs.skip(1).len() ==> spec_hex_result(hs.skip(1)[j]) is Ok);
        lemma_parse_chain_ok(hs.skip(1));
        assert(spec_chain_values(hs.skip(1)) =~= spec_chain_values(hs).skip(1));
        assert(seq![spec_hex_color(hs[0])] + spec_chain_values(hs.skip(1)) =~= spec_chain_values(
            hs,
        ));
    }
}

proof fn lemma_parse_chain_err(hs: Seq<Seq<char>>, i: int)
    requires
        0 <= i < hs.len(),
        forall|j: int| 0 <= j < i ==> spec_hex_result(hs[j]) is Ok,
        spec_hex_result(hs[i]) is Err,
    ensures
        spec_parse_chain(hs) == Err::<Seq<Rgb>, LedError>(spec_hex_result(hs[i])->Err_0),
    decreases i,
{
    if i > 0 {
        lemma_parse_chain_err(hs.skip(1), i - 1);
    }
}

/// The shared color state: the last accepted chain and the
/// transmitter that drives it.
pub struct ColorStore {
    chain: Vec<Rgb>,
    transmitter: Transmitter,
}

impl ColorStore {
    /// The currently stored chain.
    pub closed spec fn spec_chain(&self) -> Seq<Rgb> {
        self.chain@
    }

    /// The capacity of the owned transmitter.
    pub closed spec fn spec_max_chain_length(&self) -> nat {
        self.transmitter.spec_max_chain_length()
    }

    /// Builds the store around its transmitter, holding the default
    /// startup chain: one green LED.
    pub fn new(transmitter: Transmitter) -> (s: Self)
        ensures
            s.spec_chain() == seq![Rgb { r: 0, g: 255, b: 0 }],
            s.spec_max_chain_length() == transmitter.spec_max_chain_length(),
    {
        let mut chain: Vec<Rgb> = Vec::new();
        chain.push(Rgb { r: 0, g: 255, b: 0 });
        proof {
            assert(chain@ =~= seq![Rgb { r: 0, g: 255, b: 0 }]);
        }
        ColorStore { chain, transmitter }
    }

    /// Returns a snapshot copy of the stored chain. Read-only: the
    /// store is unchanged and the caller gets no reference into it.
    pub fn get(&self) -> (c: Vec<Rgb>)
        ensures
            c@ == self.spec_chain(),
    {
        let mut out: Vec<Rgb> = Vec::new();
        let mut i: usize = 0;
        while i < self.chain.len()
            invariant
                0 <= i <= self.chain@.len(),
                out@ =~= self.chain@.take(i as int),
            decreases self.chain@.len() - i,
        {
            out.push(self.chain[i]);
            i = i + 1;
        }
        proof {
            assert(out@ =~= self.chain@);
        }
        out
    }

    /// Returns the stored chain in canonical hex form, one six-digit
    /// upper-case string per LED, in chain order.
    pub fn get_hex(&self) -> (v: Vec<String>)
        ensures
            v.deep_view() == spec_chain_hex(self.spec_chain()),
    {
        let mut out: Vec<String> = Vec::new();
        let mut i: usize = 0;
        while i < self.chain.len()
            invariant
                0 <= i <= self.chain@.len(),
                out@.len() == i,
                forall|j: int| 0 <= j < i ==> out@[j]@ == spec_rgb_hex(self.chain@[j]),
            decreases self.chain@.len() - i,
        {
            out.push(rgb_to_hex(&self.chain[i]));
            i = i + 1;
        }
        proof {
            assert forall|j: int| 0 <= j < out@.len() implies out.deep_view()[j]
                == spec_chain_hex(self.spec_chain())[j] by {
                assert(out.deep_view()[j] == out@[j]@);
            }
            assert(out.deep_view() =~= spec_chain_hex(self.spec_chain()));
        }
        out
    }

    /// Applies a new chain given as hex color strings.
    ///
    /// Every entry is validated before anything is mutated; the first
    /// invalid entry's error comes back and the stored chain stays as
    /// it was. When all entries validate the chain is replaced and
    /// the transmission waveform composed; a chain past the
    /// transmitter's capacity comes back as `ChainTooLong` with no
    /// waveform, the replacement already done.
    pub fn set(&mut self, hex_colors: &Vec<String>, hz: u32) -> (r: Result<Vec<Pulse>, LedError>)
        ensures
            final(self).spec_chain() == spec_set_chain(
                hex_colors.deep_view(),
                old(self).spec_chain(),
            ),
            final(self).spec_max_chain_length() == old(self).spec_max_chain_length(),
            match (r, spec_set_result(
                hex_colors.deep_view(),
                old(self).spec_max_chain_length(),
                hz as int,
            )) {
                (Ok(v), Ok(sv)) => v@ == sv,
                (Err(e), Err(se)) => e == se,
                _ => false,
            },
    {
        let ghost hs = hex_colors.deep_view();
        let mut parsed: Vec<Rgb> = Vec::new();
        let mut i: usize = 0;
        while i < hex_colors.len()
            invariant
                0 <= i <= hex_colors@.len(),
                hs == hex_colors.deep_view(),
                parsed@.len() == i,
                forall|j: int|
                    0 <= j < i ==> (#[trigger] spec_hex_result(hs[j])) is Ok && parsed@[j]
                        == spec_hex_color(hs[j]),
            decreases hex_colors@.len() - i,
        {
            let entry: &String = &hex_colors[i];
            match hex_to_rgb(entry.as_str()) {
                Ok(c) => {
                    parsed.push(c);
                },
                Err(e) => {
                    proof {
                        lemma_parse_chain_err(hs, i as int);
                    }
                    return Err(e);
                },
            }
            i = i + 1;
        }
        proof {
            lemma_parse_chain_ok(hs);
            assert forall|j: int| 0 <= j < hs.len() implies parsed@[j] == spec_chain_values(hs)[j]
                by {
                assert(spec_hex_result(hs[j]) is Ok);
            }
            assert(parsed@ =~= spec_chain_values(hs));
        }
        self.chain = parsed;
        self.transmitter.compose(&self.chain, hz)
    }
}

} // verus!
