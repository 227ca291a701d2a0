//! Brush color resolution: CSS color text to its hex form.
//!
//! Color parsing is delegated to an outside crate; the library holds the
//! parsed color as four plain bytes and renders the hex form itself,
//! exactly as the crate's own hex rendering does: lowercase pairs, with
//! the alpha pair only when the color is not fully opaque.

use vstd::prelude::*;
use crate::fix::push_char;

verus! {

/// The red, green, blue and alpha bytes that the CSS color text `s`
/// denotes, rounded to 8 bits; text that does not parse denotes the
/// default color, opaque black.
pub uninterp spec fn css_rgba8_of(s: Seq<char>) -> (u8, u8, u8, u8);

/// Relies on `csscolorparser::parse` (falling back to
/// `Color::default`, opaque black, on error) and `Color::to_rgba8`: the
/// 8-bit RGBA form of a CSS color string, a function of the string
/// alone.
#[verifier::external_body]
pub fn css_parse_rgba8(s: &str) -> (r: (u8, u8, u8, u8))
    ensures
        r == css_rgba8_of(s@),
{
    let c = csscolorparser::parse(s).unwrap_or_default();
    let v = c.to_rgba8();
    (v[0], v[1], v[2], v[3])
}

/// The lowercase hex digit character for `d` (only meaningful for
/// `d < 16`).
pub open spec fn hex_digit(d: nat) -> char {
    if d < 10 {
        ((48 + d) as u8) as char
    } else {
        ((87 + d) as u8) as char
    }
}

/// The two lowercase hex digits of a byte.
pub open spec fn hex_byte(b: u8) -> Seq<char> {
    seq![hex_digit((b / 16) as nat), hex_digit((b % 16) as nat)]
}

/// The hex text of an RGBA color: `#` and the three color byte pairs,
/// with the alpha pair appended when the color is not fully opaque.
pub open spec fn rgba_hex_text(r: u8, g: u8, b: u8, a: u8) -> Seq<char> {
    if a < 255 {
        seq!['#'] + hex_byte(r) + hex_byte(g) + hex_byte(b) + hex_byte(a)
    } else {
        seq!['#'] + hex_byte(r) + hex_byte(g) + hex_byte(b)
    }
}

/// The hex text that a CSS color string resolves to.
pub open spec fn color_hex_of(s: Seq<char>) -> Seq<char> {
    let (r, g, b, a) = css_rgba8_of(s);
    rgba_hex_text(r, g, b, a)
}

/// The lowercase hex digit character for `d`.
fn hex_digit_char(d: u8) -> (c: char)
    requires
        d < 16,
    ensures
        c == hex_digit(d as nat),
{
    if d < 10 {
        (48 + d) as char
    } else {
        (87 + d) as char
    }
}

/// Appends the two hex digits of a byte.
fn push_hex_byte(s: &mut String, b: u8)
    ensures
        final(s)@ == old(s)@ + hex_byte(b),
{
    push_char(s, hex_digit_char(b / 16));
    push_char(s, hex_digit_char(b % 16));
    proof {
        assert(final(s)@ =~= old(s)@ + hex_byte(b));
    }
}

/// The hex string of an RGBA color, exactly `rgba_hex_text`.
pub fn rgba_hex_string(r: u8, g: u8, b: u8, a: u8) -> (s: String)
    ensures
        s@ == rgba_hex_text(r, g, b, a),
{
    let mut s = String::new();
    push_char(&mut s, '#');
    push_hex_byte(&mut s, r);
    push_hex_byte(&mut s, g);
    push_hex_byte(&mut s, b);
    if a < 255 {
        push_hex_byte(&mut s, a);
    }
    proof {
        assert(s@ =~= rgba_hex_text(r, g, b, a));
    }
    s
}

/// Resolves a CSS color string to its hex form, exactly `color_hex_of`.
pub fn resolve_color(text: &str) -> (s: String)
    ensures
        s@ == color_hex_of(text@),
{
    let (r, g, b, a) = css_parse_rgba8(text);
    rgba_hex_string(r, g, b, a)
}

} // verus!
