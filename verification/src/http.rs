//! Text format of the HTTP control surface.
//!
//! The set-color request body is a structured payload of the shape
//! `{"leds": ["FF0000", "00FF00"]}`: one object with the single key
//! `leds`, holding an array of strings. The parser here accepts
//! exactly that shape, with arbitrary blanks (space, tab, newline,
//! carriage return) between the tokens; an element string may hold
//! any character except `"` and `\` — escape sequences do not occur
//! in hex color strings and are not part of the format. The get-color
//! response is the stored chain rendered as a plain array of strings.
//! What the strings hold is not this module's concern: the color
//! model validates them.

use vstd::prelude::*;

use crate::error::LedError;
use crate::pulse::Pulse;
use crate::store::{spec_chain_hex, spec_set_chain, spec_set_result, ColorStore};
use vstd::string::StrSliceExecFns;
use vstd::string::StringExecFns;

verus! {

/// Blank characters the request format allows between tokens.
pub open spec fn is_json_ws(c: char) -> bool {
    c == ' ' || c == '\t' || c == '\n' || c == '\r'
}

/// Position of the first non-blank character at or after `i`.
pub open spec fn spec_skip_ws(s: Seq<char>, i: int) -> int
    decreases s.len() - i,
{
    if i < s.len() && is_json_ws(s[i]) {
        spec_skip_ws(s, i + 1)
    } else {
        i
    }
}

/// Position of the closing quote of a string element whose content
/// starts at `i`, or `None` where the input ends first or holds a
/// backslash.
pub open spec fn spec_string_end(s: Seq<char>, i: int) -> Option<int>
    decreases s.len() - i,
{
    if i >= s.len() {
        None
    } else if s[i] == '"' {
        Some(i)
    } else if s[i] == '\\' {
        None
    } else {
        spec_string_end(s, i + 1)
    }
}

proof fn lemma_skip_ws_bounds(s: Seq<char>, i: int)
    requires
        0 <= i <= s.len(),
    ensures
        i <= spec_skip_ws(s, i) <= s.len(),
    decreases s.len() - i,
{
    if i < s.len() && is_json_ws(s[i]) {
        lemma_skip_ws_bounds(s, i + 1);
    }
}

proof fn lemma_string_end_bounds(s: Seq<char>, i: int)
    requires
        0 <= i <= s.len(),
    ensures
        spec_string_end(s, i) matches Some(e) ==> i <= e < s.len(),
    decreases s.len() - i,
{
    if i < s.len() && s[i] != '"' && s[i] != '\\' {
        lemma_string_end_bounds(s, i + 1);
    }
}

/// Whether the character is one of the allowed blanks.
fn is_ws_char(c: char) -> (b: bool)
    ensures
        b == is_json_ws(c),
{
    c == ' ' || c == '\t' || c == '\n' || c == '\r'
}

/// First non-blank position at or after `i`.
fn skip_ws(s: &str, n: usize, i: usize) -> (j: usize)
    requires
        i <= s@.len(),
        n == s@.len(),
    ensures
        j == spec_skip_ws(s@, i as int),
        i <= j <= n,
{
    let mut j = i;
    while j < n && is_ws_char(s.get_char(j))
        invariant
            i <= j <= n,
            n == s@.len(),
            spec_skip_ws(s@, i as int) == spec_skip_ws(s@, j as int),
        decreases n - j,
    {
        j = j + 1;
    }
    j
}

/// Scans for the closing quote of a string element whose content
/// starts at `i`.
fn string_end(s: &str, n: usize, i: usize) -> (r: Option<usize>)
    requires
        i <= s@.len(),
        n == s@.len(),
    ensures
        match (r, spec_string_end(s@, i as int)) {
            (Some(e), Some(se)) => e as int == se,
            (None, None) => true,
            _ => false,
        },
{
    let mut j = i;
    loop
        invariant
            i <= j <= n,
            n == s@.len(),
            spec_string_end(s@, i as int) == spec_string_end(s@, j as int),
        decreases n - j,
    {
        if j >= n {
            return None;
        }
        let c = s.get_char(j);
        if c == '"' {
            return Some(j);
        }
        if c == '\\' {
            return None;
        }
        j = j + 1;
    }
}

/// Parses `string (blanks ',' blanks string)* blanks ']'` from
/// position `i`, which must sit on the opening quote of the first
/// element. Yields the element contents and the position just past
/// the closing `]`.
pub open spec fn spec_parse_items(s: Seq<char>, i: int) -> Option<(Seq<Seq<char>>, int)>
    decreases s.len() - i,
        when 0 <= i <= s.len()
        via spec_parse_items_dec
{
    if i < s.len() && s[i] == '"' {
        match spec_string_end(s, i + 1) {
            None => None,
            Some(e) => {
                let content = s.subrange(i + 1, e);
                let j = spec_skip_ws(s, e + 1);
                if j < s.len() && s[j] == ']' {
                    Some((seq![content], j + 1))
                } else if j < s.len() && s[j] == ',' {
                    let k = spec_skip_ws(s, j + 1);
                    match spec_parse_items(s, k) {
                        None => None,
                        Some((rest, end)) => Some((seq![content] + rest, end)),
                    }
                } else {
                    None
                }
            },
        }
    } else {
        None
    }
}

#[via_fn]
proof fn spec_parse_items_dec(s: Seq<char>, i: int) {
    if i < s.len() && s[i] == '"' {
        lemma_string_end_bounds(s, i + 1);
        if let Some(e) = spec_string_end(s, i + 1) {
            lemma_skip_ws_bounds(s, e + 1);
            let j = spec_skip_ws(s, e + 1);
            if j < s.len() && s[j] == ',' {
                lemma_skip_ws_bounds(s, j + 1);
            }
        }
    }
}

/// Exec twin of [`spec_parse_items`].
fn parse_items(s: &str, n: usize, i: usize) -> (r: Option<(Vec<String>, usize)>)
    requires
        i <= s@.len(),
        n == s@.len(),
    ensures
        match (r, spec_parse_items(s@, i as int)) {
            (Some((v, e)), Some((sv, se))) => v.deep_view() == sv && e as int == se && e <= n,
            (None, None) => true,
            _ => false,
        },
    decreases n - i,
{
    if i >= n {
        return None;
    }
    if s.get_char(i) != '"' {
        return None;
    }
    match string_end(s, n, i + 1) {
        None => None,
        Some(e) => {
            proof {
                lemma_string_end_bounds(s@, i as int + 1);
            }
            let content = s.substring_char(i + 1, e).to_owned();
            let j = skip_ws(s, n, e + 1);
            if j < n && s.get_char(j) == ']' {
                let mut v: Vec<String> = Vec::new();
                v.push(content);
                proof {
                    assert(v.deep_view() =~= seq![s@.subrange(i as int + 1, e as int)]);
                }
                Some((v, j + 1))
            } else if j < n && s.get_char(j) == ',' {
                let k = skip_ws(s, n, j + 1);
                match parse_items(s, n, k) {
                    None => None,
                    Some((rest, end)) => {
                        let mut v: Vec<String> = Vec::new();
                        v.push(content);
                        let mut tail = rest;
                        let ghost tail_vals = tail@;
                        let ghost tail_view = tail.deep_view();
                        v.append(&mut tail);
                        proof {
                            assert forall|q: int| 0 <= q < v@.len() implies v.deep_view()[q] == (
                            seq![s@.subrange(i as int + 1, e as int)] + tail_view)[q] by {
                                assert(v.deep_view()[q] == v@[q]@);
                                if q > 0 {
                                    assert(v@[q] == tail_vals[q - 1]);
                                    assert(tail_view[q - 1] == tail_vals[q - 1]@);
                                }
                            }
                            assert(v.deep_view() =~= seq![s@.subrange(i as int + 1, e as int)]
                                + tail_view);
                        }
                        Some((v, end))
                    },
                }
            } else {
                None
            }
        },
    }
}

/// The whole request body: one object with the single key `leds`
/// holding an array of strings, nothing but blanks around the
/// tokens. `None` for anything else; `Some` carries the element
/// strings in order.
pub open spec fn spec_parse_request(s: Seq<char>) -> Option<Seq<Seq<char>>> {
    let i0 = spec_skip_ws(s, 0);
    if !(i0 < s.len() && s[i0] == '{') {
        None
    } else {
        let i1 = spec_skip_ws(s, i0 + 1);
        if !(i1 + 6 <= s.len() && s[i1] == '"' && s[i1 + 1] == 'l' && s[i1 + 2] == 'e' && s[i1 + 3]
            == 'd' && s[i1 + 4] == 's' && s[i1 + 5] == '"') {
            None
        } else {
            let i2 = spec_skip_ws(s, i1 + 6);
            if !(i2 < s.len() && s[i2] == ':') {
                None
            } else {
                let i3 = spec_skip_ws(s, i2 + 1);
                if !(i3 < s.len() && s[i3] == '[') {
                    None
                } else {
                    let i4 = spec_skip_ws(s, i3 + 1);
                    if i4 < s.len() && s[i4] == ']' {
                        spec_parse_close(s, Seq::<Seq<char>>::empty(), i4 + 1)
                    } else {
                        match spec_parse_items(s, i4) {
                            None => None,
                            Some((items, end)) => spec_parse_close(s, items, end),
                        }
                    }
                }
            }
        }
    }
}

/// The closing `}` of the request and the end of the input, with
/// blanks around both.
pub open spec fn spec_parse_close(s: Seq<char>, items: Seq<Seq<char>>, i: int) -> Option<
    Seq<Seq<char>>,
> {
    let j = spec_skip_ws(s, i);
    if j < s.len() && s[j] == '}' && spec_skip_ws(s, j + 1) == s.len() {
        Some(items)
    } else {
        None
    }
}

/// Parses a set-color request body into its list of color strings.
/// `None` exactly where the body does not have the documented shape.
pub fn parse_color_request(body: &str) -> (r: Option<Vec<String>>)
    ensures
        match (r, spec_parse_request(body@)) {
            (Some(v), Some(sv)) => v.deep_view() == sv,
            (None, None) => true,
            _ => false,
        },
{
    let n = body.unicode_len();
    let i0 = skip_ws(body, n, 0);
    if !(i0 < n && body.get_char(i0) == '{') {
        return None;
    }
    let i1 = skip_ws(body, n, i0 + 1);
    if !(n - i1 >= 6 && body.get_char(i1) == '"' && body.get_char(i1 + 1) == 'l' && body.get_char(
        i1 + 2,
    ) == 'e' && body.get_char(i1 + 3) == 'd' && body.get_char(i1 + 4) == 's' && body.get_char(
        i1 + 5,
    ) == '"') {
        return None;
    }
    let i2 = skip_ws(body, n, i1 + 6);
    if !(i2 < n && body.get_char(i2) == ':') {
        return None;
    }
    let i3 = skip_ws(body, n, i2 + 1);
    if !(i3 < n && body.get_char(i3) == '[') {
        return None;
    }
    let i4 = skip_ws(body, n, i3 + 1);
    if i4 < n && body.get_char(i4) == ']' {
        let items: Vec<String> = Vec::new();
        proof {
            assert(items.deep_view() =~= Seq::<Seq<char>>::empty());
        }
        parse_close(body, n, items, i4 + 1)
    } else {
        match parse_items(body, n, i4) {
            None => None,
            Some((items, end)) => parse_close(body, n, items, end),
        }
    }
}

/// Exec twin of [`spec_parse_close`].
fn parse_close(body: &str, n: usize, items: Vec<String>, i: usize) -> (r: Option<Vec<String>>)
    requires
        i <= body@.len(),
        n == body@.len(),
    ensures
        match (r, spec_parse_close(body@, items.deep_view(), i as int)) {
            (Some(v), Some(sv)) => v.deep_view() == sv,
            (None, None) => true,
            _ => false,
        },
{
    let j = skip_ws(body, n, i);
    if j < n && body.get_char(j) == '}' && skip_ws(body, n, j + 1) == n {
        Some(items)
    } else {
        None
    }
}

/// A string element as it appears in the response: quoted, verbatim.
pub open spec fn spec_quote(s: Seq<char>) -> Seq<char> {
    seq!['"'] + s + seq!['"']
}

/// The comma-separated quoted elements of a response array.
pub open spec fn spec_json_items(items: Seq<Seq<char>>) -> Seq<char>
    decreases items.len(),
{
    if items.len() == 0 {
        Seq::<char>::empty()
    } else if items.len() == 1 {
        spec_quote(items[0])
    } else {
        spec_quote(items[0]) + seq![','] + spec_json_items(items.skip(1))
    }
}

/// A whole response array: the quoted elements between brackets.
pub open spec fn spec_json_array(items: Seq<Seq<char>>) -> Seq<char> {
    seq!['['] + spec_json_items(items) + seq![']']
}

proof fn lemma_json_items_snoc(items: Seq<Seq<char>>, x: Seq<char>)
    ensures
        items.len() == 0 ==> spec_json_items(items.push(x)) == spec_quote(x),
        items.len() > 0 ==> spec_json_items(items.push(x)) == spec_json_items(items) + seq![',']
            + spec_quote(x),
    decreases items.len(),
{
    let p = items.push(x);
    if items.len() == 0 {
        assert(p[0] == x);
    } else if items.len() == 1 {
        assert(p[0] == items[0]);
        assert(p.skip(1) =~= seq![x]);
        assert(seq![x][0] == x);
        assert(spec_json_items(seq![x]) == spec_quote(x));
        assert(spec_json_items(p) =~= spec_json_items(items) + seq![','] + spec_quote(x));
    } else {
        lemma_json_items_snoc(items.skip(1), x);
        assert(p[0] == items[0]);
        assert(p.skip(1) =~= items.skip(1).push(x));
        assert(spec_json_items(p) =~= spec_json_items(items) + seq![','] + spec_quote(x));
    }
}

/// Renders a list of strings as the get-color response array, each
/// element quoted verbatim, in order.
pub fn colors_json(items: &Vec<String>) -> (out: String)
    ensures
        out@ == spec_json_array(items.deep_view()),
{
    proof {
        reveal_strlit("[");
        reveal_strlit("]");
        reveal_strlit(",");
        reveal_strlit("\"");
    }
    let ghost iv = items.deep_view();
    let mut out = String::new();
    out.append("[");
    proof {
        assert(out@ =~= seq!['['] + spec_json_items(iv.take(0)));
    }
    let mut i: usize = 0;
    while i < items.len()
        invariant
            0 <= i <= items@.len(),
            iv == items.deep_view(),
            out@ == seq!['['] + spec_json_items(iv.take(i as int)),
        decreases items@.len() - i,
    {
        proof {
            reveal_strlit(",");
            reveal_strlit("\"");
        }
        if i > 0 {
            out.append(",");
        }
        out.append("\"");
        let entry: &String = &items[i];
        out.append(entry.as_str());
        out.append("\"");
        proof {
            lemma_json_items_snoc(iv.take(i as int), iv[i as int]);
            assert(iv.take(i as int).push(iv[i as int]) =~= iv.take(i as int + 1));
            assert(iv[i as int] == items@[i as int]@);
            assert(out@ =~= seq!['['] + spec_json_items(iv.take(i as int + 1)));
        }
        i = i + 1;
    }
    out.append("]");
    proof {
        reveal_strlit("]");
        assert(iv.take(iv.len() as int) =~= iv);
        assert(out@ =~= spec_json_array(iv));
    }
    out
}

/// The response body that acknowledges an applied chain.
pub open spec fn spec_success_body() -> Seq<char> {
    "{\"status\": \"success\"}"@
}

/// The set-color success response body.
pub fn success_body() -> (r: String)
    ensures
        r@ == spec_success_body(),
{
    String::from_str("{\"status\": \"success\"}")
}

/// The static informational page of the control surface.
pub open spec fn spec_index_html() -> Seq<char> {
    "\n<!DOCTYPE html>\n<html>\n    <head>\n        <meta charset=\"utf-8\">\n        <title>esp-rs web server</title>\n    </head>\n    <body>\n    Hello World from ESP!\n    </body>\n</html>\n"@
}

/// The status page served at the root path.
pub fn index_html() -> (r: String)
    ensures
        r@ == spec_index_html(),
{
    String::from_str(
        "\n<!DOCTYPE html>\n<html>\n    <head>\n        <meta charset=\"utf-8\">\n        <title>esp-rs web server</title>\n    </head>\n    <body>\n    Hello World from ESP!\n    </body>\n</html>\n",
    )
}

/// The set-color request, end to end: parse the body, validate and
/// apply the chain, compose the waveform for the unverified layer to
/// emit. A body without the documented shape is refused as
/// `InvalidFormat` with the store untouched; everything else behaves
/// as [`ColorStore::set`].
pub fn handle_set_request(store: &mut ColorStore, body: &str, hz: u32) -> (r: Result<
    Vec<Pulse>,
    LedError,
>)
    ensures
        match spec_parse_request(body@) {
            None => final(store).spec_chain() == old(store).spec_chain()
                && final(store).spec_max_chain_length() == old(store).spec_max_chain_length()
                && r == Err::<Vec<Pulse>, LedError>(LedError::InvalidFormat),
            Some(hs) => final(store).spec_chain() == spec_set_chain(hs, old(store).spec_chain())
                && final(store).spec_max_chain_length() == old(store).spec_max_chain_length()
                && (match (r, spec_set_result(hs, old(store).spec_max_chain_length(), hz as int)) {
                (Ok(v), Ok(sv)) => v@ == sv,
                (Err(e), Err(se)) => e == se,
                _ => false,
            }),
        },
{
    match parse_color_request(body) {
        None => Err(LedError::InvalidFormat),
        Some(list) => store.set(&list, hz),
    }
}

/// The get-color request: the stored chain, rendered as the response
/// array of canonical hex strings.
pub fn handle_get_request(store: &ColorStore) -> (r: String)
    ensures
        r@ == spec_json_array(spec_chain_hex(store.spec_chain())),
{
    let hex = store.get_hex();
    colors_json(&hex)
}

} // verus!
