//! Color model: RGB triples, hex parsing, HSV conversion and the GRB
//! wire packing required by the LED protocol.

use vstd::prelude::*;

use crate::error::LedError;

verus! {

/// One color, as the three 8-bit channels the LEDs understand.
/// Every combination of channel values is valid.
#[derive(Clone, Copy, Debug, PartialEq, Eq, Structural)]
pub struct Rgb {
    pub r: u8,
    pub g: u8,
    pub b: u8,
}

/// A plain red/green/blue triple as it arrives from a structured
/// request payload, before it is turned into an [`Rgb`].
#[derive(Clone, Copy, Debug, PartialEq, Eq, Structural)]
pub struct RgbValue {
    pub r: u8,
    pub g: u8,
    pub b: u8,
}

/// The 24-bit word that goes on the wire for one LED: green in bits
/// 16..24, red in bits 8..16, blue in bits 0..8. The physical protocol
/// expects GRB order, not RGB.
pub open spec fn spec_to_u32(c: Rgb) -> u32 {
    ((c.g as u32) << 16) | ((c.r as u32) << 8) | (c.b as u32)
}

impl Rgb {
    /// Builds a color from its three channels.
    pub fn new(r: u8, g: u8, b: u8) -> (c: Self)
        ensures
            c == (Rgb { r, g, b }),
    {
        Self { r, g, b }
    }

    /// Packs the channels into the 24-bit GRB wire word.
    pub fn to_u32(&self) -> (w: u32)
        ensures
            w == spec_to_u32(*self),
    {
        ((self.g as u32) << 16) | ((self.r as u32) << 8) | (self.b as u32)
    }
}

/// True of the sixteen hexadecimal digit characters, upper or lower
/// case.
pub open spec fn is_hex_digit(c: char) -> bool {
    ('0' as u32) <= (c as u32) && (c as u32) <= ('9' as u32) || ('a' as u32) <= (c as u32) && (c
        as u32) <= ('f' as u32) || ('A' as u32) <= (c as u32) && (c as u32) <= ('F' as u32)
}

/// Numeric value of one hexadecimal digit character; meaningful only
/// where [`is_hex_digit`] holds.
pub open spec fn hex_digit_val(c: char) -> int {
    if ('0' as u32) <= (c as u32) && (c as u32) <= ('9' as u32) {
        c as u32 - '0' as u32
    } else if ('a' as u32) <= (c as u32) && (c as u32) <= ('f' as u32) {
        c as u32 - 'a' as u32 + 10
    } else {
        c as u32 - 'A' as u32 + 10
    }
}

/// Value of a two-digit hexadecimal group, high digit first.
pub open spec fn hex_pair_val(hi: char, lo: char) -> int {
    16 * hex_digit_val(hi) + hex_digit_val(lo)
}

/// The string with its optional `#` prefix removed: at most one
/// leading `#` is stripped, anything further counts as content.
pub open spec fn strip_hash(s: Seq<char>) -> Seq<char> {
    if s.len() > 0 && s[0] == '#' {
        s.skip(1)
    } else {
        s
    }
}

/// A valid hex color: exactly six hexadecimal digits once the `#`
/// prefix is stripped.
pub open spec fn valid_hex_color(s: Seq<char>) -> bool {
    &&& strip_hash(s).len() == 6
    &&& forall|j: int| 0 <= j < 6 ==> is_hex_digit(strip_hash(s)[j])
}

/// The color a valid hex string denotes: the three two-digit groups
/// decoded base 16, in red, green, blue order. Meaningful only where
/// [`valid_hex_color`] holds.
pub open spec fn spec_hex_color(s: Seq<char>) -> Rgb {
    let t = strip_hash(s);
    Rgb {
        r: hex_pair_val(t[0], t[1]) as u8,
        g: hex_pair_val(t[2], t[3]) as u8,
        b: hex_pair_val(t[4], t[5]) as u8,
    }
}

/// Exactly what [`hex_to_rgb`] returns for any input: the decoded
/// color where the string is valid, `InvalidFormat` where it is not
/// six digits long after stripping, `InvalidDigit` where some of the
/// six characters is not a hexadecimal digit.
pub open spec fn spec_hex_result(s: Seq<char>) -> Result<Rgb, LedError> {
    if strip_hash(s).len() != 6 {
        Err(LedError::InvalidFormat)
    } else if !valid_hex_color(s) {
        Err(LedError::InvalidDigit)
    } else {
        Ok(spec_hex_color(s))
    }
}

/// Value of one hexadecimal digit character, or `None` for any other
/// character.
fn hex_digit_value(c: char) -> (r: Option<u8>)
    ensures
        is_hex_digit(c) ==> r == Some(hex_digit_val(c) as u8),
        !is_hex_digit(c) ==> r is None,
{
    let u = c as u32;
    if ('0' as u32) <= u && u <= ('9' as u32) {
        Some((u - ('0' as u32)) as u8)
    } else if ('a' as u32) <= u && u <= ('f' as u32) {
        Some((u - ('a' as u32) + 10) as u8)
    } else if ('A' as u32) <= u && u <= ('F' as u32) {
        Some((u - ('A' as u32) + 10) as u8)
    } else {
        None
    }
}

/// Parses a hex color string, optionally prefixed with one `#`, into
/// a color: six hexadecimal digits, two per channel, red first.
pub fn hex_to_rgb(hex: &str) -> (res: Result<Rgb, LedError>)
    ensures
        res == spec_hex_result(hex@),
{
    let n = hex.unicode_len();
    let start: usize = if n > 0 && hex.get_char(0) == '#' {
        1
    } else {
        0
    };
    if n - start != 6 {
        return Err(LedError::InvalidFormat);
    }
    let ghost t = strip_hash(hex@);
    let d0 = hex_digit_value(hex.get_char(start));
    let d1 = hex_digit_value(hex.get_char(start + 1));
    let d2 = hex_digit_value(hex.get_char(start + 2));
    let d3 = hex_digit_value(hex.get_char(start + 3));
    let d4 = hex_digit_value(hex.get_char(start + 4));
    let d5 = hex_digit_value(hex.get_char(start + 5));
    match (d0, d1, d2, d3, d4, d5) {
        (Some(h0), Some(h1), Some(h2), Some(h3), Some(h4), Some(h5)) => {
            assert(forall|j: int| 0 <= j < 6 ==> t[j] == hex@[start + j]);
            let r = h0 * 16 + h1;
            let g = h2 * 16 + h3;
            let b = h4 * 16 + h5;
            Ok(Rgb { r, g, b })
        },
        _ => Err(LedError::InvalidDigit),
    }
}

/// The upper-case hexadecimal digit character for a value in
/// `[0, 16)`.
pub open spec fn hex_char_of(v: int) -> char {
    if v == 0 {
        '0'
    } else if v == 1 {
        '1'
    } else if v == 2 {
        '2'
    } else if v == 3 {
        '3'
    } else if v == 4 {
        '4'
    } else if v == 5 {
        '5'
    } else if v == 6 {
        '6'
    } else if v == 7 {
        '7'
    } else if v == 8 {
        '8'
    } else if v == 9 {
        '9'
    } else if v == 10 {
        'A'
    } else if v == 11 {
        'B'
    } else if v == 12 {
        'C'
    } else if v == 13 {
        'D'
    } else if v == 14 {
        'E'
    } else {
        'F'
    }
}

/// The two upper-case hexadecimal digits of one byte, high digit
/// first.
pub open spec fn spec_byte_hex(b: u8) -> Seq<char> {
    seq![hex_char_of(b as int / 16), hex_char_of(b as int % 16)]
}

/// The canonical six-digit upper-case hex form of a color, red group
/// first.
pub open spec fn spec_rgb_hex(c: Rgb) -> Seq<char> {
    spec_byte_hex(c.r) + spec_byte_hex(c.g) + spec_byte_hex(c.b)
}

/// Two strings hold the same hexadecimal digits, compared by value
/// and so case-insensitively.
pub open spec fn hex_ci_eq(a: Seq<char>, b: Seq<char>) -> bool {
    &&& a.len() == b.len()
    &&& forall|i: int|
        0 <= i < a.len() ==> is_hex_digit(a[i]) && is_hex_digit(b[i]) && hex_digit_val(a[i])
            == hex_digit_val(b[i])
}

/// The upper-case form of a hexadecimal digit character; any other
/// character is left alone.
pub open spec fn upper_hex_char(c: char) -> char {
    if c == 'a' {
        'A'
    } else if c == 'b' {
        'B'
    } else if c == 'c' {
        'C'
    } else if c == 'd' {
        'D'
    } else if c == 'e' {
        'E'
    } else if c == 'f' {
        'F'
    } else {
        c
    }
}

/// A string with each hexadecimal digit raised to upper case.
pub open spec fn upper_hex(s: Seq<char>) -> Seq<char> {
    s.map_values(|c: char| upper_hex_char(c))
}

proof fn lemma_hex_char_of_val(c: char)
    requires
        is_hex_digit(c),
    ensures
        hex_char_of(hex_digit_val(c)) == upper_hex_char(c),
{
}

proof fn lemma_hex_char_of_props(v: int)
    requires
        0 <= v < 16,
    ensures
        is_hex_digit(hex_char_of(v)),
        hex_digit_val(hex_char_of(v)) == v,
        hex_char_of(v) != '#',
{
}

/// One upper-case hexadecimal digit character as a string.
fn hex_char_str(v: u8) -> (s: &'static str)
    requires
        v < 16,
    ensures
        s@.len() == 1,
        s@[0] == hex_char_of(v as int),
{
    proof {
        reveal_strlit("0");
        reveal_strlit("1");
        reveal_strlit("2");
        reveal_strlit("3");
        reveal_strlit("4");
        reveal_strlit("5");
        reveal_strlit("6");
        reveal_strlit("7");
        reveal_strlit("8");
        reveal_strlit("9");
        reveal_strlit("A");
        reveal_strlit("B");
        reveal_strlit("C");
        reveal_strlit("D");
        reveal_strlit("E");
        reveal_strlit("F");
    }
    match v {
        0 => "0",
        1 => "1",
        2 => "2",
        3 => "3",
        4 => "4",
        5 => "5",
        6 => "6",
        7 => "7",
        8 => "8",
        9 => "9",
        10 => "A",
        11 => "B",
        12 => "C",
        13 => "D",
        14 => "E",
        _ => "F",
    }
}

/// Renders a color in its canonical hex form: six upper-case
/// hexadecimal digits, two per channel, red first, no `#` prefix.
pub fn rgb_to_hex(c: &Rgb) -> (s: String)
    ensures
        s@ == spec_rgb_hex(*c),
{
    let mut out = String::new();
    out.append(hex_char_str(c.r / 16));
    out.append(hex_char_str(c.r % 16));
    out.append(hex_char_str(c.g / 16));
    out.append(hex_char_str(c.g % 16));
    out.append(hex_char_str(c.b / 16));
    out.append(hex_char_str(c.b % 16));
    proof {
        assert(out@ =~= spec_rgb_hex(*c));
    }
    out
}

/// Law: encoding any color and parsing the result gives the color
/// back; the canonical form is always a valid hex color string.
pub proof fn lemma_hex_encode_parse(c: Rgb)
    ensures
        valid_hex_color(spec_rgb_hex(c)),
        spec_hex_color(spec_rgb_hex(c)) == c,
{
    let e = spec_rgb_hex(c);
    assert forall|v: int| 0 <= v < 16 implies is_hex_digit(hex_char_of(v)) && hex_digit_val(
        hex_char_of(v),
    ) == v && hex_char_of(v) != '#' by {
        lemma_hex_char_of_props(v);
    }
    assert(e.len() == 6);
    assert(e[0] == hex_char_of(c.r as int / 16));
    assert(e[0] != '#');
    assert(strip_hash(e) =~= e);
    assert(forall|j: int| 0 <= j < 6 ==> is_hex_digit(e[j]));
    assert(hex_pair_val(e[0], e[1]) == c.r as int);
    assert(hex_pair_val(e[2], e[3]) == c.g as int);
    assert(hex_pair_val(e[4], e[5]) == c.b as int);
}

/// Law: parsing a valid hex color string and re-encoding it is the
/// identity up to letter case. The re-encoded string is exactly the
/// stripped input raised to upper case, and parsing it again yields
/// the same color.
pub proof fn lemma_hex_round_trip(s: Seq<char>)
    requires
        valid_hex_color(s),
    ensures
        valid_hex_color(spec_rgb_hex(spec_hex_color(s))),
        spec_rgb_hex(spec_hex_color(s)) == upper_hex(strip_hash(s)),
        hex_ci_eq(spec_rgb_hex(spec_hex_color(s)), strip_hash(s)),
        spec_hex_color(spec_rgb_hex(spec_hex_color(s))) == spec_hex_color(s),
{
    let t = strip_hash(s);
    let c = spec_hex_color(s);
    let e = spec_rgb_hex(c);
    lemma_hex_encode_parse(c);
    assert forall|i: int| 0 <= i < 6 implies e[i] == upper_hex_char(t[i]) && hex_digit_val(e[i])
        == hex_digit_val(t[i]) by {
        assert(0 <= hex_digit_val(t[0]) < 16 && 0 <= hex_digit_val(t[1]) < 16 && 0
            <= hex_digit_val(t[2]) < 16 && 0 <= hex_digit_val(t[3]) < 16 && 0 <= hex_digit_val(
            t[4],
        ) < 16 && 0 <= hex_digit_val(t[5]) < 16);
        assert forall|v: int| 0 <= v < 16 implies hex_digit_val(hex_char_of(v)) == v by {
            lemma_hex_char_of_props(v);
        }
        assert(c.r as int == 16 * hex_digit_val(t[0]) + hex_digit_val(t[1]));
        assert(c.g as int == 16 * hex_digit_val(t[2]) + hex_digit_val(t[3]));
        assert(c.b as int == 16 * hex_digit_val(t[4]) + hex_digit_val(t[5]));
        assert(c.r as int / 16 == hex_digit_val(t[0]) && c.r as int % 16 == hex_digit_val(t[1]));
        assert(c.g as int / 16 == hex_digit_val(t[2]) && c.g as int % 16 == hex_digit_val(t[3]));
        assert(c.b as int / 16 == hex_digit_val(t[4]) && c.b as int % 16 == hex_digit_val(t[5]));
        lemma_hex_char_of_val(t[0]);
        lemma_hex_char_of_val(t[1]);
        lemma_hex_char_of_val(t[2]);
        lemma_hex_char_of_val(t[3]);
        lemma_hex_char_of_val(t[4]);
        lemma_hex_char_of_val(t[5]);
    }
    assert(e =~= upper_hex(t));
}

/// Clamps a non-negative value into `[0, 100]`.
pub open spec fn clamp100(x: int) -> int {
    if x > 100 {
        100
    } else {
        x
    }
}

/// Distance of the hue from the nearest boundary of its 120-degree
/// band: `|h mod 120 - 60|`. This is the integer form of the
/// `|h' mod 2 - 1|` term of the standard HSV-to-RGB conversion,
/// scaled by 60.
pub open spec fn hsv_dist(h: int) -> int {
    let r = h % 120;
    if r >= 60 {
        r - 60
    } else {
        60 - r
    }
}

/// The strongest channel of an HSV color: `255 * (v/100)`, truncated.
pub open spec fn channel_full(v: int) -> int {
    255 * v / 100
}

/// The middle channel of an HSV color. With chroma `c = s*v/10000`
/// and match value `m = v/100 - c`, this is
/// `255 * (c * (60 - d)/60 + m)` written as one exact integer
/// division, truncated.
pub open spec fn channel_mid(s: int, v: int, d: int) -> int {
    17 * v * (6000 - s * d) / 40000
}

/// The weakest channel of an HSV color: `255 * m` for the match value
/// `m = v/100 - s*v/10000`, written as one exact integer division,
/// truncated.
pub open spec fn channel_base(s: int, v: int) -> int {
    51 * v * (100 - s) / 2000
}

/// The color [`Rgb::from_hsv`] yields: hue reduced modulo 360,
/// saturation and value clamped into `[0, 100]`, then the standard
/// HSV-to-RGB conversion carried out in exact rational arithmetic and
/// truncated to each 8-bit channel.
pub open spec fn spec_from_hsv(h0: int, s0: int, v0: int) -> Rgb {
    let h = h0 % 360;
    let s = clamp100(s0);
    let v = clamp100(v0);
    let d = hsv_dist(h);
    let hi = channel_full(v) as u8;
    let md = channel_mid(s, v, d) as u8;
    let lo = channel_base(s, v) as u8;
    if h < 60 {
        Rgb { r: hi, g: md, b: lo }
    } else if h < 120 {
        Rgb { r: md, g: hi, b: lo }
    } else if h < 180 {
        Rgb { r: lo, g: hi, b: md }
    } else if h < 240 {
        Rgb { r: lo, g: md, b: hi }
    } else if h < 300 {
        Rgb { r: md, g: lo, b: hi }
    } else {
        Rgb { r: hi, g: lo, b: md }
    }
}

impl Rgb {
    /// Converts hue, saturation and value to a color.
    ///
    /// Policy: out-of-range inputs are never rejected. The hue is
    /// taken modulo 360 and saturation and value are clamped into
    /// `[0, 100]`, so the conversion always succeeds; the `Result`
    /// only keeps the call shape callers expect. The arithmetic is
    /// exact: each channel is the true rational channel value scaled
    /// to `[0, 255]` and truncated.
    pub fn from_hsv(h: u32, s: u32, v: u32) -> (res: Result<Rgb, LedError>)
        ensures
            res == Ok::<Rgb, LedError>(spec_from_hsv(h as int, s as int, v as int)),
    {
        let hm = h % 360;
        let sc = if s > 100 {
            100
        } else {
            s
        };
        let vc = if v > 100 {
            100
        } else {
            v
        };
        let r120 = hm % 120;
        let d = if r120 >= 60 {
            r120 - 60
        } else {
            60 - r120
        };
        proof {
            assert((sc as int) * (d as int) <= 6000) by (nonlinear_arith)
                requires
                    sc <= 100 && d <= 60,
            ;
            assert(17 * (vc as int) * (6000 - (sc as int) * (d as int)) <= 10200000)
                by (nonlinear_arith)
                requires
                    vc <= 100 && 0 <= (sc as int) * (d as int) <= 6000,
            ;
            assert(51 * (vc as int) * (100 - (sc as int)) <= 510000) by (nonlinear_arith)
                requires
                    vc <= 100 && sc <= 100,
            ;
        }
        let hi = ((255 * vc) / 100) as u8;
        let md = ((17 * vc * (6000 - sc * d)) / 40000) as u8;
        let lo = ((51 * vc * (100 - sc)) / 2000) as u8;
        if hm < 60 {
            Ok(Rgb { r: hi, g: md, b: lo })
        } else if hm < 120 {
            Ok(Rgb { r: md, g: hi, b: lo })
        } else if hm < 180 {
            Ok(Rgb { r: lo, g: hi, b: md })
        } else if hm < 240 {
            Ok(Rgb { r: lo, g: md, b: hi })
        } else if hm < 300 {
            Ok(Rgb { r: md, g: lo, b: hi })
        } else {
            Ok(Rgb { r: hi, g: lo, b: md })
        }
    }
}

/// Law: the three primary hues convert exactly. At full saturation
/// and value, hue 0 is pure red, hue 120 pure green, hue 240 pure
/// blue.
pub proof fn lemma_hsv_primaries()
    ensures
        spec_from_hsv(0, 100, 100) == (Rgb { r: 255, g: 0, b: 0 }),
        spec_from_hsv(120, 100, 100) == (Rgb { r: 0, g: 255, b: 0 }),
        spec_from_hsv(240, 100, 100) == (Rgb { r: 0, g: 0, b: 255 }),
{
    assert(hsv_dist(0) == 60 && hsv_dist(120) == 60 && hsv_dist(240) == 60);
    assert(channel_full(100) == 255) by {
        assert(255int * 100 == 25500);
        assert(25500int / 100 == 255);
    }
    assert(channel_mid(100, 100, 60) == 0) by {
        assert(6000 - 100 * 60 == 0);
        assert(17 * 100 * 0 == 0);
    }
    assert(channel_base(100, 100) == 0) by {
        assert(51 * 100 * (100 - 100) == 0);
    }
}

/// Law: in the wire word, green sits in the top used byte, red in the
/// middle byte and blue in the bottom byte, and the word is exactly
/// the base-256 composition of the three channels in that order.
pub proof fn lemma_wire_byte_order(c: Rgb)
    ensures
        (spec_to_u32(c) >> 16) & 0xff == c.g,
        (spec_to_u32(c) >> 8) & 0xff == c.r,
        spec_to_u32(c) & 0xff == c.b,
        spec_to_u32(c) == c.g as u32 * 0x10000 + c.r as u32 * 0x100 + c.b as u32,
{
    let g = c.g;
    let r = c.r;
    let b = c.b;
    assert(((((g as u32) << 16) | ((r as u32) << 8) | (b as u32)) >> 16) & 0xff == g
        && ((((g as u32) << 16) | ((r as u32) << 8) | (b as u32)) >> 8) & 0xff == r
        && (((g as u32) << 16) | ((r as u32) << 8) | (b as u32)) & 0xff == b
        && (((g as u32) << 16) | ((r as u32) << 8) | (b as u32)) == g as u32 * 0x10000
        + r as u32 * 0x100 + b as u32) by (bit_vector);
}

} // verus!


