use crate::math::scalar::{div_tz, Scalar, SCALE};
use vstd::prelude::*;

verus! {

/// Why a color literal was rejected: not shaped like a color at all, or a
/// channel that is not made of hexadecimal digits.
#[derive(Clone, Copy, Debug, PartialEq, Eq, Structural)]
pub enum ColorError {
    InvalidColorError,
    ConversionError,
}

/// A color with one byte per channel. Every combining operator clamps each
/// channel at its maximum, so colors saturate and never wrap.
#[derive(Clone, Copy, Debug, PartialEq, Eq, Structural)]
pub struct Color {
    pub r: u8,
    pub g: u8,
    pub b: u8,
    pub a: u8,
}

/// Clamp a channel value at the channel maximum.
pub open spec fn sat_u8(x: int) -> u8
    recommends
        x >= 0,
{
    if x > 255 {
        255u8
    } else {
        x as u8
    }
}

/// The value of one hexadecimal digit, upper or lower case.
pub open spec fn spec_hex_digit(c: char) -> Option<u8> {
    let v = c as u32;
    if 48 <= v <= 57 {
        Some((v - 48) as u8)
    } else if 65 <= v <= 70 {
        Some((v - 55) as u8)
    } else if 97 <= v <= 102 {
        Some((v - 87) as u8)
    } else {
        None
    }
}

/// The value of a two-digit hexadecimal channel.
pub open spec fn spec_hex_pair(hi: char, lo: char) -> Option<u8> {
    match (spec_hex_digit(hi), spec_hex_digit(lo)) {
        (Some(h), Some(l)) => Some((h * 16 + l) as u8),
        _ => None,
    }
}

/// What `Color::from_str` returns: `#rrggbb` fills the three color channels
/// and leaves the alpha channel opaque, `#rrggbbaa` fills all four; anything
/// else is rejected.
pub open spec fn spec_parse_color(s: Seq<char>) -> Result<Color, ColorError> {
    if s.len() == 0 || s[0] != '#' {
        Err(ColorError::InvalidColorError)
    } else if s.len() == 7 {
        match (spec_hex_pair(s[1], s[2]), spec_hex_pair(s[3], s[4]), spec_hex_pair(s[5], s[6])) {
            (Some(r), Some(g), Some(b)) => Ok(Color { r, g, b, a: 255 }),
            _ => Err(ColorError::ConversionError),
        }
    } else if s.len() == 9 {
        match (
            spec_hex_pair(s[1], s[2]),
            spec_hex_pair(s[3], s[4]),
            spec_hex_pair(s[5], s[6]),
            spec_hex_pair(s[7], s[8]),
        ) {
            (Some(r), Some(g), Some(b), Some(a)) => Ok(Color { r, g, b, a }),
            _ => Err(ColorError::ConversionError),
        }
    } else {
        Err(ColorError::InvalidColorError)
    }
}

/// The value of one hexadecimal digit, upper or lower case.
fn hex_digit(c: char) -> (r: Option<u8>)
    ensures
        r == spec_hex_digit(c),
{
    let v = c as u32;
    if 48 <= v && v <= 57 {
        Some((v - 48) as u8)
    } else if 65 <= v && v <= 70 {
        Some((v - 55) as u8)
    } else if 97 <= v && v <= 102 {
        Some((v - 87) as u8)
    } else {
        None
    }
}

/// The value of a two-digit hexadecimal channel.
fn hex_pair(hi: char, lo: char) -> (r: Option<u8>)
    ensures
        r == spec_hex_pair(hi, lo),
{
    match (hex_digit(hi), hex_digit(lo)) {
        (Some(h), Some(l)) => Some(h * 16 + l),
        _ => None,
    }
}

impl Color {
    /// The black, fully transparent color that shading starts from.
    pub open spec fn spec_default() -> Color {
        Color { r: 0, g: 0, b: 0, a: 0 }
    }

    /// Read a color from `#rrggbb` or `#rrggbbaa` notation.
    pub fn from_str(src: &str) -> (res: Result<Color, ColorError>)
        ensures
            res == spec_parse_color(src@),
    {
        let len = src.unicode_len();
        if len == 0 || src.get_char(0) != '#' {
            return Err(ColorError::InvalidColorError);
        }
        if len == 7 {
            let r = hex_pair(src.get_char(1), src.get_char(2));
            let g = hex_pair(src.get_char(3), src.get_char(4));
            let b = hex_pair(src.get_char(5), src.get_char(6));
            match (r, g, b) {
                (Some(r), Some(g), Some(b)) => Ok(Color { r, g, b, a: 255 }),
                _ => Err(ColorError::ConversionError),
            }
        } else if len == 9 {
            let r = hex_pair(src.get_char(1), src.get_char(2));
            let g = hex_pair(src.get_char(3), src.get_char(4));
            let b = hex_pair(src.get_char(5), src.get_char(6));
            let a = hex_pair(src.get_char(7), src.get_char(8));
            match (r, g, b, a) {
                (Some(r), Some(g), Some(b), Some(a)) => Ok(Color { r, g, b, a }),
                _ => Err(ColorError::ConversionError),
            }
        } else {
            Err(ColorError::InvalidColorError)
        }
    }

    /// What `add` returns: channel-wise sum, clamped.
    pub open spec fn spec_color_add(self, rhs: Color) -> Color {
        Color {
            r: sat_u8(self.r + rhs.r),
            g: sat_u8(self.g + rhs.g),
            b: sat_u8(self.b + rhs.b),
            a: sat_u8(self.a + rhs.a),
        }
    }

    /// Channel-wise sum; a channel that would overflow clamps at the maximum.
    pub fn add(self, rhs: Color) -> (res: Color)
        ensures
            res == self.spec_color_add(rhs),
    {
        Color {
            r: sat_add_channel(self.r, rhs.r),
            g: sat_add_channel(self.g, rhs.g),
            b: sat_add_channel(self.b, rhs.b),
            a: sat_add_channel(self.a, rhs.a),
        }
    }

    /// Channel-wise sum in place.
    pub fn add_assign(&mut self, rhs: Color)
        ensures
            *final(self) == old(self).spec_color_add(rhs),
    {
        *self = self.add(rhs);
    }

    /// What `mul` returns: channel-wise product, scaled back to the channel
    /// range.
    pub open spec fn spec_color_mul(self, rhs: Color) -> Color {
        Color {
            r: ((self.r * rhs.r) / 255) as u8,
            g: ((self.g * rhs.g) / 255) as u8,
            b: ((self.b * rhs.b) / 255) as u8,
            a: ((self.a * rhs.a) / 255) as u8,
        }
    }

    /// Channel-wise product: full channels keep the other factor, darker
    /// channels darken it.
    pub fn mul(self, rhs: Color) -> (res: Color)
        ensures
            res == self.spec_color_mul(rhs),
    {
        Color {
            r: mul_channel(self.r, rhs.r),
            g: mul_channel(self.g, rhs.g),
            b: mul_channel(self.b, rhs.b),
            a: mul_channel(self.a, rhs.a),
        }
    }

    /// What `mul_scalar` returns: the color channels scaled and clamped, the
    /// alpha channel kept.
    pub open spec fn spec_color_mul_scalar(self, rhs: Scalar) -> Color
        recommends
            rhs.raw >= 0,
    {
        Color {
            r: sat_u8(div_tz(self.r * rhs.raw, SCALE as int)),
            g: sat_u8(div_tz(self.g * rhs.raw, SCALE as int)),
            b: sat_u8(div_tz(self.b * rhs.raw, SCALE as int)),
            a: self.a,
        }
    }

    /// Scale the color channels by a non-negative scalar, clamping at the
    /// channel maximum; the alpha channel is kept.
    pub fn mul_scalar(self, rhs: Scalar) -> (res: Color)
        requires
            rhs.raw >= 0,
        ensures
            res == self.spec_color_mul_scalar(rhs),
    {
        Color {
            r: scale_channel(self.r, rhs),
            g: scale_channel(self.g, rhs),
            b: scale_channel(self.b, rhs),
            a: self.a,
        }
    }
}

impl core::str::FromStr for Color {
    type Err = ColorError;

    /// `parse` reads the same notation as `Color::from_str`; nothing is
    /// stated of it, callers that need the contract call `Color::from_str`.
    fn from_str(src: &str) -> Result<Color, ColorError> {
        Color::from_str(src)
    }
}

impl Default for Color {
    /// The black, fully transparent color.
    fn default() -> (c: Color)
        ensures
            c == Color::spec_default(),
    {
        Color { r: 0, g: 0, b: 0, a: 0 }
    }
}

/// One channel of a clamped color sum.
fn sat_add_channel(a: u8, b: u8) -> (r: u8)
    ensures
        r == sat_u8(a + b),
{
    let s: u16 = a as u16 + b as u16;
    if s > 255 {
        255
    } else {
        s as u8
    }
}

/// One channel of a color product.
fn mul_channel(a: u8, b: u8) -> (r: u8)
    ensures
        r == ((a * b) / 255) as u8,
{
    proof {
        assert((a as int) * (b as int) <= 65025 && 0 <= (a as int) * (b as int)) by (nonlinear_arith)
            requires
                0 <= a <= 255,
                0 <= b <= 255,
        ;
    }
    let p: u16 = (a as u16) * (b as u16);
    (p / 255) as u8
}

/// One color channel scaled by a non-negative scalar, clamped.
fn scale_channel(c: u8, s: Scalar) -> (r: u8)
    requires
        s.raw >= 0,
    ensures
        r == sat_u8(div_tz(c * s.raw, SCALE as int)),
{
    proof {
        assert((c as int) * (s.raw as int) <= 255 * 0x7fff_ffff_ffff_ffff) by (nonlinear_arith)
            requires
                0 <= c <= 255,
                0 <= s.raw <= 0x7fff_ffff_ffff_ffff,
        ;
    }
    let p: u128 = (c as u128) * (s.raw as u128);
    let q: u128 = p / (SCALE as u128);
    if q > 255 {
        255
    } else {
        q as u8
    }
}

} // verus!
