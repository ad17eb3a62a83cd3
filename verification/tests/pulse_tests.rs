use xmas_leds::color::Rgb;
use xmas_leds::error::LedError;
use xmas_leds::pulse::{encode_color, Level, Pulse};
use xmas_leds::transmit::{encode_chain, Transmitter};

// 80 MHz is a typical reference clock for this kind of transmitter.
const HZ: u32 = 80_000_000;

// At 80 MHz: 350 ns -> 28 ticks, 800 ns -> 64, 700 ns -> 56,
// 600 ns -> 48.
fn zero_pair() -> (Pulse, Pulse) {
    (
        Pulse { level: Level::High, ticks: 28 },
        Pulse { level: Level::Low, ticks: 64 },
    )
}

fn one_pair() -> (Pulse, Pulse) {
    (
        Pulse { level: Level::High, ticks: 56 },
        Pulse { level: Level::Low, ticks: 48 },
    )
}

#[test]
fn forty_eight_pulses_per_color() {
    let v = encode_color(&Rgb::new(0, 0, 0), HZ);
    assert_eq!(v.len(), 48);
    let v = encode_color(&Rgb::new(255, 255, 255), HZ);
    assert_eq!(v.len(), 48);
}

#[test]
fn msb_of_grb_word_goes_first() {
    // Pure green: GRB word 0xff0000, so bits 23..16 are ones.
    let v = encode_color(&Rgb::new(0, 255, 0), HZ);
    let (h1, l1) = one_pair();
    let (h0, l0) = zero_pair();
    for p in 0..8 {
        assert_eq!(v[2 * p], h1);
        assert_eq!(v[2 * p + 1], l1);
    }
    for p in 8..24 {
        assert_eq!(v[2 * p], h0);
        assert_eq!(v[2 * p + 1], l0);
    }
}

#[test]
fn red_sits_in_middle_byte_of_waveform() {
    // Pure red: GRB word 0x00ff00, pairs 8..16 are ones.
    let v = encode_color(&Rgb::new(255, 0, 0), HZ);
    let (h1, _) = one_pair();
    let (h0, _) = zero_pair();
    for p in 0..8 {
        assert_eq!(v[2 * p], h0);
    }
    for p in 8..16 {
        assert_eq!(v[2 * p], h1);
    }
    for p in 16..24 {
        assert_eq!(v[2 * p], h0);
    }
}

#[test]
fn every_pulse_pair_is_high_then_low() {
    let v = encode_color(&Rgb::new(0x12, 0x34, 0x56), HZ);
    for p in 0..24 {
        assert_eq!(v[2 * p].level, Level::High);
        assert_eq!(v[2 * p + 1].level, Level::Low);
    }
}

#[test]
fn ticks_truncate_at_odd_clock_rates() {
    let v = encode_color(&Rgb::new(0, 255, 0), 123_456_789);
    // one bit first: 700 ns -> 86 ticks, 600 ns -> 74 ticks
    assert_eq!(v[0], Pulse { level: Level::High, ticks: 86 });
    assert_eq!(v[1], Pulse { level: Level::Low, ticks: 74 });
    // zero bits at the tail: 350 ns -> 43 ticks, 800 ns -> 98 ticks
    assert_eq!(v[46], Pulse { level: Level::High, ticks: 43 });
    assert_eq!(v[47], Pulse { level: Level::Low, ticks: 98 });
}

#[test]
fn chain_concatenates_in_order() {
    let red = Rgb::new(255, 0, 0);
    let green = Rgb::new(0, 255, 0);
    let chain = vec![red, green];
    let v = encode_chain(&chain, HZ);
    assert_eq!(v.len(), 96);
    let first = encode_color(&red, HZ);
    let second = encode_color(&green, HZ);
    assert_eq!(&v[..48], &first[..]);
    assert_eq!(&v[48..], &second[..]);
}

#[test]
fn empty_chain_is_empty_waveform() {
    let v = encode_chain(&Vec::new(), HZ);
    assert_eq!(v.len(), 0);
}

#[test]
fn compose_accepts_up_to_capacity() {
    let tx = Transmitter::new(2);
    assert_eq!(tx.max_chain_length(), 2);
    let chain = vec![Rgb::new(1, 2, 3), Rgb::new(4, 5, 6)];
    let w = tx.compose(&chain, HZ).unwrap();
    assert_eq!(w.len(), 96);
    assert_eq!(w, encode_chain(&chain, HZ));
}

#[test]
fn compose_refuses_long_chain_with_zero_pulses() {
    let tx = Transmitter::new(2);
    let chain = vec![Rgb::new(1, 2, 3); 3];
    let r = tx.compose(&chain, HZ);
    assert_eq!(r, Err(LedError::ChainTooLong));
}
