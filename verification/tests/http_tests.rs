use xmas_leds::color::Rgb;
use xmas_leds::error::LedError;
use xmas_leds::http::{
    colors_json, handle_get_request, handle_set_request, index_html, parse_color_request,
    success_body,
};
use xmas_leds::store::ColorStore;
use xmas_leds::transmit::{encode_chain, Transmitter};

const HZ: u32 = 80_000_000;

fn strings(items: &[&str]) -> Vec<String> {
    items.iter().map(|s| s.to_string()).collect()
}

#[test]
fn parses_plain_request() {
    let r = parse_color_request("{\"leds\":[\"FF0000\",\"00FF00\"]}");
    assert_eq!(r, Some(strings(&["FF0000", "00FF00"])));
}

#[test]
fn parses_request_with_blanks() {
    let r = parse_color_request(" {\t\"leds\" : [ \"AA0011\" ,\n\"BB0022\" ] }\r\n");
    assert_eq!(r, Some(strings(&["AA0011", "BB0022"])));
}

#[test]
fn parses_empty_list() {
    assert_eq!(parse_color_request("{\"leds\":[]}"), Some(Vec::new()));
    assert_eq!(parse_color_request("{ \"leds\" : [ ] }"), Some(Vec::new()));
}

#[test]
fn refuses_malformed_bodies() {
    assert_eq!(parse_color_request(""), None);
    assert_eq!(parse_color_request("{}"), None);
    assert_eq!(parse_color_request("{\"leds\":}"), None);
    assert_eq!(parse_color_request("{\"leds\":[}"), None);
    assert_eq!(parse_color_request("{\"leds\":[\"FF0000\"]"), None);
    assert_eq!(parse_color_request("{\"leds\":[\"FF0000\",]}"), None);
    assert_eq!(parse_color_request("{\"colors\":[\"FF0000\"]}"), None);
    assert_eq!(parse_color_request("[\"FF0000\"]"), None);
    assert_eq!(parse_color_request("{\"leds\":[\"FF0000\"]} x"), None);
}

#[test]
fn refuses_escapes_in_strings() {
    assert_eq!(parse_color_request("{\"leds\":[\"FF\\u0030000\"]}"), None);
}

#[test]
fn parser_keeps_element_text_verbatim() {
    // validation is the color model's job, not the parser's
    let r = parse_color_request("{\"leds\":[\"not a color\"]}");
    assert_eq!(r, Some(strings(&["not a color"])));
}

#[test]
fn serializes_lists() {
    assert_eq!(colors_json(&Vec::new()), "[]");
    assert_eq!(colors_json(&strings(&["FF0000"])), "[\"FF0000\"]");
    assert_eq!(
        colors_json(&strings(&["FF0000", "00FF00"])),
        "[\"FF0000\",\"00FF00\"]"
    );
}

#[test]
fn set_request_end_to_end() {
    let mut store = ColorStore::new(Transmitter::new(21));
    let w = handle_set_request(&mut store, "{\"leds\":[\"FF0000\",\"00FF00\"]}", HZ).unwrap();
    let expected = vec![Rgb::new(255, 0, 0), Rgb::new(0, 255, 0)];
    assert_eq!(store.get(), expected);
    assert_eq!(w.len(), 96);
    assert_eq!(w, encode_chain(&expected, HZ));
    assert_eq!(handle_get_request(&store), "[\"FF0000\",\"00FF00\"]");
}

#[test]
fn bad_json_leaves_store_unchanged() {
    let mut store = ColorStore::new(Transmitter::new(21));
    let r = handle_set_request(&mut store, "{\"leds\": nonsense}", HZ);
    assert_eq!(r, Err(LedError::InvalidFormat));
    assert_eq!(handle_get_request(&store), "[\"00FF00\"]");
}

#[test]
fn bad_color_reported_through_handler() {
    let mut store = ColorStore::new(Transmitter::new(21));
    let r = handle_set_request(&mut store, "{\"leds\":[\"GG0000\"]}", HZ);
    assert_eq!(r, Err(LedError::InvalidDigit));
    assert_eq!(store.get(), vec![Rgb::new(0, 255, 0)]);
}

#[test]
fn success_body_is_fixed() {
    assert_eq!(success_body(), "{\"status\": \"success\"}");
}

#[test]
fn index_page_greets() {
    let page = index_html();
    assert!(page.contains("Hello World from ESP!"));
    assert!(page.starts_with("\n<!DOCTYPE html>"));
}
