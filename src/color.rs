//! Color arithmetic on six-digit hex colors: parsing, negation, the RGBA
//! template form and the luma sort key.

use vstd::prelude::*;
use crate::error::{Fault, WallbashError};
use crate::text::{chars_of, decimal_text, push_char, push_decimal};

verus! {

/// Upper-case hexadecimal digits, indexed by their value.
pub const HEX_DIGITS: [char; 16] = [
    '0', '1', '2', '3', '4', '5', '6', '7', '8', '9', 'A', 'B', 'C', 'D', 'E', 'F',
];

/// Increments of the linearised sRGB intensity of a channel level, in units of
/// 1e-11: entry `c` is the growth from level `c - 1` to level `c`, so that the
/// sum of the first `c + 1` entries is round(1e11 * lin(c / 255)), where
/// lin(x) = x / 12.92 for x <= 0.03928 and ((x + 0.055) / 1.055)^2.4 above.
pub const LEVEL_STEPS: [u32; 256] = [
    0, 30352698, 30352699, 30352698, 30352698, 30352699, 30352698, 30352698,
    30352699, 30352698, 30352699, 31126592, 32997156, 34820970, 36672502, 38551144,
    40456322, 42387492, 44344140, 46325777, 48331940, 50362185, 52416095, 54493263,
    56593308, 58715862, 60860571, 63027098, 65215117, 67424318, 69654398, 71905071,
    74176055, 76467082, 78777895, 81108238, 83457874, 85826564, 88214083, 90620210,
    93044732, 95487441, 97948139, 100426627, 102922718, 105436226, 107966975, 110514786,
    113079494, 115660929, 118258934, 120873350, 123504024, 126150807, 128813552, 131492120,
    134186368, 136896163, 139621371, 142361864, 145117513, 147888195, 150673789, 153474175,
    156289239, 159118865, 161962942, 164821361, 167694014, 170580797, 173481607, 176396342,
    179324904, 182267195, 185223120, 188192586, 191175498, 194171770, 197181310, 200204033,
    203239850, 206288682, 209350441, 212425050, 215512425, 218612489, 221725167, 224850378,
    227988051, 231138111, 234300484, 237475100, 240661889, 243860780, 247071706, 250294599,
    253529393, 256776023, 260034424, 263304533, 266586288, 269879625, 273184486, 276500811,
    279828537, 283167611, 286517972, 289879564, 293252331, 296636219, 300031171, 303437135,
    306854058, 310281886, 313720569, 317170054, 320630293, 324101232, 327582827, 331075025,
    334577780, 338091044, 341614770, 345148912, 348693423, 352248260, 355813376, 359388726,
    362974270, 366569962, 370175759, 373791619, 377417501, 381053364, 384699165, 388354866,
    392020424, 395695802, 399380960, 403075859, 406780461, 410494727, 414218621, 417952105,
    421695142, 425447695, 429209730, 432981209, 436762098, 440552362, 444351965, 448160875,
    451979056, 455806475, 459643098, 463488895, 467343829, 471207870, 475080986, 478963145,
    482854314, 486754465, 490663563, 494581582, 498508487, 502444252, 506388844, 510342236,
    514304396, 518275298, 522254910, 526243207, 530240158, 534245737, 538259914, 542282662,
    546313956, 550353767, 554402068, 558458832, 562524034, 566597647, 570679646, 574770004,
    578868695, 582975696, 587090979, 591214521, 595346297, 599486282, 603634453, 607790782,
    611955251, 616127830, 620308500, 624497236, 628694014, 632898812, 637111607, 641332376,
    645561097, 649797746, 654042303, 658294744, 662555050, 666823195, 671099161, 675382926,
    679674467, 683973764, 688280798, 692595545, 696917986, 701248100, 705585868, 709931267,
    714284281, 718644885, 723013064, 727388796, 731772062, 736162841, 740561117, 744966868,
    749380077, 753800724, 758228790, 762664257, 767107107, 771557321, 776014880, 780479768,
    784951966, 789431455, 793918218, 798412237, 802913497, 807421977, 811937661, 816460533,
    820990575, 825527769, 830072099, 834623549, 839182102, 843747740, 848320449, 852900210,
    857487008, 862080827, 866681652, 871289464, 875904251, 880525993, 885154678, 889790289,
];

/// A color as its three 8-bit channels.
#[derive(Clone, Copy, Debug, PartialEq, Eq, Structural)]
pub struct Rgb {
    pub r: u8,
    pub g: u8,
    pub b: u8,
}

pub open spec fn is_hex_digit(c: char) -> bool {
    ('0' <= c && c <= '9') || ('a' <= c && c <= 'f') || ('A' <= c && c <= 'F')
}

pub open spec fn hex_digit_value(c: char) -> int {
    if '0' <= c && c <= '9' {
        c as int - 48
    } else if 'a' <= c && c <= 'f' {
        c as int - 87
    } else {
        c as int - 55
    }
}

/// The digits of a color text: the text without one optional leading `#`.
pub open spec fn color_digits(s: Seq<char>) -> Seq<char> {
    if s.len() > 0 && s[0] == '#' {
        s.drop_first()
    } else {
        s
    }
}

/// A valid color text: exactly six hex digits after an optional `#`.
pub open spec fn is_hex_color(s: Seq<char>) -> bool {
    let d = color_digits(s);
    d.len() == 6 && forall|i: int| 0 <= i < 6 ==> is_hex_digit(#[trigger] d[i])
}

/// The value of the two hex digits at `d[2k]`, `d[2k + 1]`.
pub open spec fn digit_pair(d: Seq<char>, k: int) -> int {
    16 * hex_digit_value(d[2 * k]) + hex_digit_value(d[2 * k + 1])
}

/// The channels that a valid color text denotes.
pub open spec fn rgb_spec(s: Seq<char>) -> Rgb {
    let d = color_digits(s);
    Rgb { r: digit_pair(d, 0) as u8, g: digit_pair(d, 1) as u8, b: digit_pair(d, 2) as u8 }
}

/// Two upper-case hex digits for a byte.
pub open spec fn hex_byte(n: u8) -> Seq<char> {
    seq![HEX_DIGITS@[n as int / 16], HEX_DIGITS@[n as int % 16]]
}

/// The canonical text of a color: six upper-case hex digits, no marker.
pub open spec fn hex_of(c: Rgb) -> Seq<char> {
    hex_byte(c.r) + hex_byte(c.g) + hex_byte(c.b)
}

/// Each channel replaced by its complement to 255.
pub open spec fn negative(c: Rgb) -> Rgb {
    Rgb { r: (255 - c.r) as u8, g: (255 - c.g) as u8, b: (255 - c.b) as u8 }
}

/// `rgba(r,g,b,\1)`: the channels in decimal and a literal `\1` where the
/// alpha value is to be substituted later.
pub open spec fn rgba_text(c: Rgb) -> Seq<char> {
    seq!['r', 'g', 'b', 'a', '('] + decimal_text(c.r as nat) + seq![','] + decimal_text(c.g as nat)
        + seq![','] + decimal_text(c.b as nat) + seq![',', '\\', '1', ')']
}

/// Linearised intensity of a channel level, in units of 1e-11.
pub open spec fn channel_level(c: int) -> int
    decreases c,
{
    if c <= 0 {
        0
    } else {
        channel_level(c - 1) + LEVEL_STEPS@[c] as int
    }
}

/// Relative luminance, 0.2126 R + 0.7152 G + 0.0722 B over the linearised
/// channels, in units of 1e-15.
pub open spec fn luma_of(c: Rgb) -> int {
    2126 * channel_level(c.r as int) + 7152 * channel_level(c.g as int) + 722 * channel_level(
        c.b as int,
    )
}

/// The sort key of a color text: its luma, or 0 for a text that is no color.
pub open spec fn luma_key(s: Seq<char>) -> int {
    if is_hex_color(s) {
        luma_of(rgb_spec(s))
    } else {
        0
    }
}

pub(crate) fn hex_digit(c: char) -> (r: Option<u8>)
    ensures
        r is Some <==> is_hex_digit(c),
        r is Some ==> r->0 == hex_digit_value(c),
{
    if '0' <= c && c <= '9' {
        Some((c as u32 - 48) as u8)
    } else if 'a' <= c && c <= 'f' {
        Some((c as u32 - 87) as u8)
    } else if 'A' <= c && c <= 'F' {
        Some((c as u32 - 55) as u8)
    } else {
        None
    }
}

fn pair_value(hi: char, lo: char) -> (r: Option<u8>)
    ensures
        r is Some <==> (is_hex_digit(hi) && is_hex_digit(lo)),
        r is Some ==> r->0 == 16 * hex_digit_value(hi) + hex_digit_value(lo),
{
    match (hex_digit(hi), hex_digit(lo)) {
        (Some(h), Some(l)) => Some(h * 16 + l),
        _ => None,
    }
}

/// Parses a color text into its channels.
pub fn to_rgb(hex_color: &str) -> (r: Result<Rgb, WallbashError>)
    ensures
        r is Ok <==> is_hex_color(hex_color@),
        r is Ok ==> r->Ok_0 == rgb_spec(hex_color@),
        r is Err ==> r->Err_0@ == Fault::InvalidHexColor(hex_color@),
{
    let cs = chars_of(hex_color);
    let ghost d = color_digits(hex_color@);
    let start: usize = if cs.len() > 0 && cs[0] == '#' {
        1
    } else {
        0
    };
    assert(d == cs@.subrange(start as int, cs@.len() as int));
    if cs.len() - start != 6 {
        return Err(WallbashError::InvalidHexColor(hex_color.to_owned()));
    }
    let r = pair_value(cs[start], cs[start + 1]);
    let g = pair_value(cs[start + 2], cs[start + 3]);
    let b = pair_value(cs[start + 4], cs[start + 5]);
    assert(d[0] == cs@[start as int] && d[1] == cs@[start + 1] && d[2] == cs@[start + 2]);
    assert(d[3] == cs@[start + 3] && d[4] == cs@[start + 4] && d[5] == cs@[start + 5]);
    match (r, g, b) {
        (Some(r), Some(g), Some(b)) => Ok(Rgb { r, g, b }),
        _ => {
            assert(!(is_hex_digit(d[0]) && is_hex_digit(d[1]) && is_hex_digit(d[2])
                && is_hex_digit(d[3]) && is_hex_digit(d[4]) && is_hex_digit(d[5])));
            Err(WallbashError::InvalidHexColor(hex_color.to_owned()))
        },
    }
}

fn push_hex_byte(s: &mut String, n: u8)
    ensures
        final(s)@ == old(s)@ + hex_byte(n),
{
    push_char(s, HEX_DIGITS[(n / 16) as usize]);
    push_char(s, HEX_DIGITS[(n % 16) as usize]);
}

/// The canonical text of a color.
pub fn format_hex(c: Rgb) -> (r: String)
    ensures
        r@ == hex_of(c),
{
    let mut s = String::new();
    push_hex_byte(&mut s, c.r);
    push_hex_byte(&mut s, c.g);
    push_hex_byte(&mut s, c.b);
    s
}

/// The RGBA template form of a color.
pub fn format_rgba(c: Rgb) -> (r: String)
    ensures
        r@ == rgba_text(c),
{
    let mut s = String::new();
    push_char(&mut s, 'r');
    push_char(&mut s, 'g');
    push_char(&mut s, 'b');
    push_char(&mut s, 'a');
    push_char(&mut s, '(');
    push_decimal(&mut s, c.r as u64);
    push_char(&mut s, ',');
    push_decimal(&mut s, c.g as u64);
    push_char(&mut s, ',');
    push_decimal(&mut s, c.b as u64);
    push_char(&mut s, ',');
    push_char(&mut s, '\\');
    push_char(&mut s, '1');
    push_char(&mut s, ')');
    s
}

/// The negative of a color: each channel complemented to 255.
pub fn rgb_negative(hex_color: &str) -> (r: Result<String, WallbashError>)
    ensures
        r is Ok <==> is_hex_color(hex_color@),
        r is Ok ==> r->Ok_0@ == hex_of(negative(rgb_spec(hex_color@))),
        r is Err ==> r->Err_0@ == Fault::InvalidHexColor(hex_color@),
{
    let c = to_rgb(hex_color)?;
    Ok(format_hex(Rgb { r: 255 - c.r, g: 255 - c.g, b: 255 - c.b }))
}

/// The RGBA template form `rgba(r,g,b,\1)` of a color text.
pub fn rgba_convert(hex_color: &str) -> (r: Result<String, WallbashError>)
    ensures
        r is Ok <==> is_hex_color(hex_color@),
        r is Ok ==> r->Ok_0@ == rgba_text(rgb_spec(hex_color@)),
        r is Err ==> r->Err_0@ == Fault::InvalidHexColor(hex_color@),
{
    let c = to_rgb(hex_color)?;
    Ok(format_rgba(c))
}

fn level_of(c: u8) -> (r: u64)
    ensures
        r == channel_level(c as int),
        r <= 255 * 0xFFFF_FFFFu64,
{
    let mut acc: u64 = 0;
    let mut i: usize = 0;
    while i < c as usize
        invariant
            i <= c,
            acc == channel_level(i as int),
            acc <= i * 0xFFFF_FFFFu64,
        decreases c - i,
    {
        i = i + 1;
        acc = acc + LEVEL_STEPS[i] as u64;
    }
    acc
}

/// The luma sort key of a color text; 0 for a text that is no color, so that
/// sorting never fails.
pub fn calculate_luma(hex_color: &str) -> (r: u64)
    ensures
        r == luma_key(hex_color@),
{
    match to_rgb(hex_color) {
        Ok(c) => 2126 * level_of(c.r) + 7152 * level_of(c.g) + 722 * level_of(c.b),
        Err(_) => 0,
    }
}

/// The linearised intensity never decreases as the channel level grows.
pub proof fn lemma_channel_level_monotone(a: int, b: int)
    requires
        0 <= a <= b <= 255,
    ensures
        channel_level(a) <= channel_level(b),
    decreases b - a,
{
    if a < b {
        lemma_channel_level_monotone(a, b - 1);
    }
}

/// Luma is monotonically non-decreasing in each of R, G and B.
pub proof fn lemma_luma_monotone(x: Rgb, y: Rgb)
    requires
        x.r <= y.r,
        x.g <= y.g,
        x.b <= y.b,
    ensures
        luma_of(x) <= luma_of(y),
{
    lemma_channel_level_monotone(x.r as int, y.r as int);
    lemma_channel_level_monotone(x.g as int, y.g as int);
    lemma_channel_level_monotone(x.b as int, y.b as int);
}

/// A canonical color text: six upper-case hex digits and no marker.
pub open spec fn is_canonical_hex(s: Seq<char>) -> bool {
    s.len() == 6 && forall|i: int|
        0 <= i < 6 ==> ('0' <= #[trigger] s[i] && s[i] <= '9') || ('A' <= s[i] && s[i] <= 'F')
}

proof fn lemma_hex_digits_table()
    ensures
        forall|k: int|
            0 <= k < 16 ==> is_hex_digit(#[trigger] HEX_DIGITS@[k]) && hex_digit_value(
                HEX_DIGITS@[k],
            ) == k && HEX_DIGITS@[k] != '#',
        forall|c: char|
            ('0' <= c && c <= '9') || ('A' <= c && c <= 'F') ==> #[trigger] HEX_DIGITS@[hex_digit_value(c)] == c,
{
    assert(HEX_DIGITS@[0] == '0' && HEX_DIGITS@[1] == '1' && HEX_DIGITS@[2] == '2');
    assert(HEX_DIGITS@[3] == '3' && HEX_DIGITS@[4] == '4' && HEX_DIGITS@[5] == '5');
    assert(HEX_DIGITS@[6] == '6' && HEX_DIGITS@[7] == '7' && HEX_DIGITS@[8] == '8');
    assert(HEX_DIGITS@[9] == '9' && HEX_DIGITS@[10] == 'A' && HEX_DIGITS@[11] == 'B');
    assert(HEX_DIGITS@[12] == 'C' && HEX_DIGITS@[13] == 'D' && HEX_DIGITS@[14] == 'E');
    assert(HEX_DIGITS@[15] == 'F');
}

/// Whatever the color, its RGBA template form ends in the literal `,\1)`.
pub proof fn lemma_rgba_placeholder(c: Rgb)
    ensures
        rgba_text(c).len() >= 4,
        rgba_text(c).subrange(rgba_text(c).len() - 4, rgba_text(c).len() as int) == seq![
            ',',
            '\\',
            '1',
            ')',
        ],
{
    let t = rgba_text(c);
    assert(t.subrange(t.len() - 4, t.len() as int) =~= seq![',', '\\', '1', ')']);
}

/// The canonical text of a color is a valid color text that denotes it.
pub proof fn lemma_hex_of_round_trip(c: Rgb)
    ensures
        is_hex_color(hex_of(c)),
        is_canonical_hex(hex_of(c)),
        rgb_spec(hex_of(c)) == c,
{
    lemma_hex_digits_table();
    let h = hex_of(c);
    assert(h[0] == HEX_DIGITS@[c.r as int / 16] && h[1] == HEX_DIGITS@[c.r as int % 16]);
    assert(h[2] == HEX_DIGITS@[c.g as int / 16] && h[3] == HEX_DIGITS@[c.g as int % 16]);
    assert(h[4] == HEX_DIGITS@[c.b as int / 16] && h[5] == HEX_DIGITS@[c.b as int % 16]);
    assert(color_digits(h) == h);
}

/// A canonical color text is the canonical text of the color it denotes.
pub proof fn lemma_canonical_hex(s: Seq<char>)
    requires
        is_canonical_hex(s),
    ensures
        is_hex_color(s),
        hex_of(rgb_spec(s)) == s,
{
    lemma_hex_digits_table();
    assert(is_hex_digit(s[0]) && is_hex_digit(s[1]) && is_hex_digit(s[2]));
    assert(is_hex_digit(s[3]) && is_hex_digit(s[4]) && is_hex_digit(s[5]));
    assert(s[0] != '#');
    assert(color_digits(s) == s);
    let c = rgb_spec(s);
    assert(HEX_DIGITS@[hex_digit_value(s[0])] == s[0] && HEX_DIGITS@[hex_digit_value(s[1])] == s[1]);
    assert(HEX_DIGITS@[hex_digit_value(s[2])] == s[2] && HEX_DIGITS@[hex_digit_value(s[3])] == s[3]);
    assert(HEX_DIGITS@[hex_digit_value(s[4])] == s[4] && HEX_DIGITS@[hex_digit_value(s[5])] == s[5]);
    assert(hex_of(c) =~= s);
}

/// Negating twice gives back the color: as channels for every valid color
/// text, and as text for a canonical one.
pub proof fn lemma_negate_involutive(s: Seq<char>)
    requires
        is_hex_color(s),
    ensures
        is_hex_color(hex_of(negative(rgb_spec(s)))),
        rgb_spec(hex_of(negative(rgb_spec(hex_of(negative(rgb_spec(s))))))) == rgb_spec(s),
        is_canonical_hex(s) ==> hex_of(negative(rgb_spec(hex_of(negative(rgb_spec(s)))))) == s,
{
    let c = rgb_spec(s);
    lemma_hex_of_round_trip(negative(c));
    assert(negative(negative(c)) == c);
    lemma_hex_of_round_trip(c);
    if is_canonical_hex(s) {
        lemma_canonical_hex(s);
    }
}

} // verus!
