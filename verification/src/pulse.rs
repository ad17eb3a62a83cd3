//! Pulse encoder: turns one color into the fixed sequence of timed
//! high/low pulses the single-wire LED protocol wants.
//!
//! Each of the 24 bits of the GRB wire word becomes one pulse pair,
//! most significant bit first. A `1` bit is high for 700 ns then low
//! for 600 ns; a `0` bit is high for 350 ns then low for 800 ns.
//! These four durations are protocol-mandated. They are translated
//! into tick counts with the transmitter's reference clock frequency,
//! queried from the hardware just before encoding, so an encoding is
//! only valid for the clock frequency it was made with.

use vstd::prelude::*;

use crate::color::{spec_to_u32, Rgb};

verus! {

/// Signal level of one pulse on the data line.
#[derive(Clone, Copy, Debug, PartialEq, Eq, Structural)]
pub enum Level {
    High,
    Low,
}

/// One pulse: a signal level held for a number of reference-clock
/// ticks.
#[derive(Clone, Copy, Debug, PartialEq, Eq, Structural)]
pub struct Pulse {
    pub level: Level,
    pub ticks: u16,
}

/// High time of a `1` bit, in nanoseconds.
pub const T1H_NS: u64 = 700;

/// Low time of a `1` bit, in nanoseconds.
pub const T1L_NS: u64 = 600;

/// High time of a `0` bit, in nanoseconds.
pub const T0H_NS: u64 = 350;

/// Low time of a `0` bit, in nanoseconds.
pub const T0L_NS: u64 = 800;

/// A duration in nanoseconds as a count of reference-clock ticks at
/// `hz` ticks per second, truncated.
pub open spec fn spec_ticks(ns: int, hz: int) -> int {
    ns * hz / 1_000_000_000
}

/// Bit `i` of the word, counting from the least significant bit.
pub open spec fn spec_bit(w: u32, i: u32) -> bool {
    (w >> i) & 1 == 1
}

/// The high-then-low pulse pair that encodes one bit at clock
/// frequency `hz`.
pub open spec fn spec_pulse_pair(bit: bool, hz: int) -> Seq<Pulse> {
    if bit {
        seq![
            Pulse { level: Level::High, ticks: spec_ticks(T1H_NS as int, hz) as u16 },
            Pulse { level: Level::Low, ticks: spec_ticks(T1L_NS as int, hz) as u16 },
        ]
    } else {
        seq![
            Pulse { level: Level::High, ticks: spec_ticks(T0H_NS as int, hz) as u16 },
            Pulse { level: Level::Low, ticks: spec_ticks(T0L_NS as int, hz) as u16 },
        ]
    }
}

/// The full 48-pulse waveform of one color: 24 pulse pairs, one per
/// bit of the GRB wire word, bit 23 first.
pub open spec fn spec_encode_color(c: Rgb, hz: int) -> Seq<Pulse> {
    Seq::new(48, |j: int| spec_pulse_pair(spec_bit(spec_to_u32(c), (23 - j / 2) as u32), hz)[j % 2])
}

/// Converts a protocol duration to ticks of the reference clock.
/// The `u16` result never truncates: at the largest expressible clock
/// frequency the longest protocol duration still stays far below the
/// `u16` range.
fn duration_ticks(ns: u64, hz: u32) -> (t: u16)
    requires
        ns <= 1000,
    ensures
        t == spec_ticks(ns as int, hz as int),
{
    proof {
        assert(ns as int * hz as int <= 4_294_967_295_000) by (nonlinear_arith)
            requires
                ns <= 1000 && hz <= 0xffff_ffffu32,
        ;
        vstd::arithmetic::div_mod::lemma_div_is_ordered(
            ns as int * hz as int,
            4_294_967_295_000,
            1_000_000_000,
        );
        assert(4_294_967_295_000int / 1_000_000_000 == 4294);
    }
    ((ns * (hz as u64)) / 1_000_000_000) as u16
}

/// Encodes one color as its 48-pulse waveform for a reference clock
/// of `hz` ticks per second.
pub fn encode_color(c: &Rgb, hz: u32) -> (v: Vec<Pulse>)
    ensures
        v@ == spec_encode_color(*c, hz as int),
        v@.len() == 48,
{
    let word = c.to_u32();
    let t1h = duration_ticks(T1H_NS, hz);
    let t1l = duration_ticks(T1L_NS, hz);
    let t0h = duration_ticks(T0H_NS, hz);
    let t0l = duration_ticks(T0L_NS, hz);
    let mut v: Vec<Pulse> = Vec::new();
    let mut i: u32 = 0;
    while i < 24
        invariant
            0 <= i <= 24,
            word == spec_to_u32(*c),
            t1h == spec_ticks(T1H_NS as int, hz as int) as u16,
            t1l == spec_ticks(T1L_NS as int, hz as int) as u16,
            t0h == spec_ticks(T0H_NS as int, hz as int) as u16,
            t0l == spec_ticks(T0L_NS as int, hz as int) as u16,
            v@.len() == 2 * i,
            forall|j: int|
                0 <= j < 2 * i ==> v@[j] == spec_encode_color(*c, hz as int)[j],
        decreases 24 - i,
    {
        let bit = (word >> (23 - i)) & 1 == 1;
        if bit {
            v.push(Pulse { level: Level::High, ticks: t1h });
            v.push(Pulse { level: Level::Low, ticks: t1l });
        } else {
            v.push(Pulse { level: Level::High, ticks: t0h });
            v.push(Pulse { level: Level::Low, ticks: t0l });
        }
        i = i + 1;
    }
    proof {
        assert(v@ =~= spec_encode_color(*c, hz as int));
    }
    v
}

/// Law: the encoder emits exactly 48 pulses — 24 high/low pulse
/// pairs — and pair `p` encodes bit `23 - p` of the GRB wire word,
/// so the most significant bit goes first.
pub proof fn lemma_pulse_pair_layout(c: Rgb, hz: int)
    ensures
        spec_encode_color(c, hz).len() == 48,
        forall|j: int|
            0 <= j < 48 ==> #[trigger] spec_encode_color(c, hz)[j] == spec_pulse_pair(
                spec_bit(spec_to_u32(c), (23 - j / 2) as u32),
                hz,
            )[j % 2],
{
}

} // verus!
