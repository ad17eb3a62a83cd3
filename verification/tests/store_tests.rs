use xmas_leds::color::Rgb;
use xmas_leds::error::LedError;
use xmas_leds::store::ColorStore;
use xmas_leds::transmit::{encode_chain, Transmitter};

const HZ: u32 = 80_000_000;

fn store_with_capacity(max: usize) -> ColorStore {
    ColorStore::new(Transmitter::new(max))
}

fn strings(items: &[&str]) -> Vec<String> {
    items.iter().map(|s| s.to_string()).collect()
}

#[test]
fn starts_with_one_green_led() {
    let store = store_with_capacity(21);
    assert_eq!(store.get(), vec![Rgb::new(0, 255, 0)]);
    assert_eq!(store.get_hex(), vec!["00FF00".to_string()]);
}

#[test]
fn set_replaces_chain_and_composes_waveform() {
    let mut store = store_with_capacity(21);
    let w = store.set(&strings(&["FF0000", "00FF00"]), HZ).unwrap();
    let expected = vec![Rgb::new(255, 0, 0), Rgb::new(0, 255, 0)];
    assert_eq!(store.get(), expected);
    assert_eq!(w, encode_chain(&expected, HZ));
}

#[test]
fn get_returns_a_snapshot_copy() {
    let mut store = store_with_capacity(21);
    store.set(&strings(&["123456"]), HZ).unwrap();
    let mut snapshot = store.get();
    snapshot.push(Rgb::new(9, 9, 9));
    assert_eq!(store.get(), vec![Rgb::new(0x12, 0x34, 0x56)]);
}

#[test]
fn one_invalid_entry_leaves_chain_unchanged() {
    let mut store = store_with_capacity(21);
    store.set(&strings(&["AABBCC"]), HZ).unwrap();
    let r = store.set(&strings(&["FF0000", "GG0000", "0000FF"]), HZ);
    assert_eq!(r, Err(LedError::InvalidDigit));
    assert_eq!(store.get(), vec![Rgb::new(0xaa, 0xbb, 0xcc)]);
}

#[test]
fn wrong_length_entry_leaves_chain_unchanged() {
    let mut store = store_with_capacity(21);
    let r = store.set(&strings(&["FF0000", "FFF"]), HZ);
    assert_eq!(r, Err(LedError::InvalidFormat));
    assert_eq!(store.get(), vec![Rgb::new(0, 255, 0)]);
}

#[test]
fn first_invalid_entry_decides_the_error() {
    let mut store = store_with_capacity(21);
    let r = store.set(&strings(&["FFF", "GG0000"]), HZ);
    assert_eq!(r, Err(LedError::InvalidFormat));
    let r = store.set(&strings(&["GG0000", "FFF"]), HZ);
    assert_eq!(r, Err(LedError::InvalidDigit));
}

#[test]
fn too_long_chain_reports_after_replacing() {
    // write-then-apply: the chain is validated and stored, then the
    // transmitter refuses it, with no waveform composed
    let mut store = store_with_capacity(2);
    let r = store.set(&strings(&["110000", "001100", "000011"]), HZ);
    assert_eq!(r, Err(LedError::ChainTooLong));
    assert_eq!(
        store.get(),
        vec![Rgb::new(0x11, 0, 0), Rgb::new(0, 0x11, 0), Rgb::new(0, 0, 0x11)]
    );
}

#[test]
fn empty_chain_is_allowed() {
    let mut store = store_with_capacity(21);
    let w = store.set(&strings(&[]), HZ).unwrap();
    assert_eq!(w.len(), 0);
    assert_eq!(store.get(), Vec::<Rgb>::new());
    assert_eq!(store.get_hex(), Vec::<String>::new());
}

#[test]
fn get_hex_is_canonical_upper_case() {
    let mut store = store_with_capacity(21);
    store.set(&strings(&["#ff00aa", "0b0c0d"]), HZ).unwrap();
    assert_eq!(
        store.get_hex(),
        vec!["FF00AA".to_string(), "0B0C0D".to_string()]
    );
}

#[test]
fn capacity_boundary_is_inclusive() {
    let mut store = store_with_capacity(2);
    assert!(store.set(&strings(&["FF0000", "00FF00"]), HZ).is_ok());
    assert!(store.set(&strings(&["FF0000"]), HZ).is_ok());
}
