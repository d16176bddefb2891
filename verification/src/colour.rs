use vstd::prelude::*;
use vstd::arithmetic::div_mod::{
    lemma_div_is_ordered, lemma_div_multiples_vanish, lemma_div_pos_is_pos,
    lemma_fundamental_div_mod, lemma_mod_division_less_than_divisor,
};
use crate::constants::SCALE;
use crate::math::{fmul, mul_fixed, tdiv, tdiv_i128};

verus! {

/// A colour as three fixed-point channels, nominally `0 .. SCALE` (black to
/// full) but deliberately unclamped: shading may push channels past full
/// and tone-mapping brings them back.
#[derive(Clone, Copy, Debug, PartialEq, Eq, Structural)]
pub struct Colour {
    pub red: i64,
    pub green: i64,
    pub blue: i64,
}

/// One channel truncated to byte range: scaled to `0..=255` and clamped,
/// as the hex codec stores it.
pub open spec fn channel_byte(c: int) -> int {
    let t = tdiv(c * 255, SCALE as int);
    if t < 0 {
        0
    } else if 255 < t {
        255
    } else {
        t
    }
}

/// What `as_hex` returns: the three channel bytes packed big-endian.
pub open spec fn as_hex_spec(c: Colour) -> int {
    channel_byte(c.red as int) * 0x10000 + channel_byte(c.green as int) * 0x100 + channel_byte(
        c.blue as int,
    )
}

/// One stored byte widened back to a fixed-point channel.
pub open spec fn byte_channel(b: int) -> int {
    tdiv(b * (SCALE as int), 255)
}

impl Colour {
    /// Holds when every channel's magnitude is at most `b`.
    pub open spec fn bounded(self, b: int) -> bool {
        &&& -b <= self.red <= b
        &&& -b <= self.green <= b
        &&& -b <= self.blue <= b
    }

    pub fn new(red: i64, green: i64, blue: i64) -> (r: Self)
        ensures
            r == (Colour { red, green, blue }),
    {
        Colour { red, green, blue }
    }

    /// Decodes a packed `0xRRGGBB` value, one byte per channel.
    pub fn from_hex(hex: u32) -> (r: Self)
        ensures
            r.red as int == byte_channel(((hex >> 16) & 0xff) as int),
            r.green as int == byte_channel(((hex >> 8) & 0xff) as int),
            r.blue as int == byte_channel((hex & 0xff) as int),
            r.bounded(SCALE as int),
            0 <= r.red && 0 <= r.green && 0 <= r.blue,
    {
        proof {
            assert((hex >> 16) & 0xff <= 255 && (hex >> 8) & 0xff <= 255 && hex & 0xff <= 255)
                by (bit_vector);
        }
        let red = Self::byte_to_channel((hex >> 16) & 0xff);
        let green = Self::byte_to_channel((hex >> 8) & 0xff);
        let blue = Self::byte_to_channel(hex & 0xff);
        Colour { red, green, blue }
    }

    /// One byte widened to a channel.
    fn byte_to_channel(b: u32) -> (r: i64)
        requires
            b <= 255,
        ensures
            r as int == byte_channel(b as int),
            0 <= r <= SCALE,
    {
        proof {
            lemma_div_pos_is_pos(b as int * SCALE as int, 255);
            lemma_div_is_ordered(b as int * SCALE as int, 255 * SCALE as int, 255);
            lemma_div_multiples_vanish(SCALE as int, 255);
        }
        ((b as u64 * SCALE as u64) / 255) as i64
    }

    /// Encodes the colour as a packed `0xRRGGBB` value; each channel is
    /// truncated to byte range first.
    pub fn as_hex(&self) -> (r: u32)
        ensures
            r as int == as_hex_spec(*self),
            r <= 0xffffff,
    {
        let red = Self::channel_to_byte(self.red);
        let green = Self::channel_to_byte(self.green);
        let blue = Self::channel_to_byte(self.blue);
        red * 0x10000 + green * 0x100 + blue
    }

    /// One channel truncated to byte range.
    pub(crate) fn channel_to_byte(c: i64) -> (r: u32)
        ensures
            r as int == channel_byte(c as int),
            r <= 255,
    {
        proof {
            crate::math::lemma_i64_product_fits(c as int, 255);
        }
        let t: i128 = tdiv_i128(c as i128 * 255, SCALE as i128);
        if t < 0 {
            0
        } else if t > 255 {
            255
        } else {
            t as u32
        }
    }

    /// The channels as an array, red then green then blue.
    pub fn as_rgb(self) -> (r: [i64; 3])
        ensures
            r@.len() == 3,
            r@[0] == self.red,
            r@[1] == self.green,
            r@[2] == self.blue,
    {
        [self.red, self.green, self.blue]
    }

    /// The gray colour with the given value in all three channels.
    pub fn gray(value: i64) -> (r: Self)
        ensures
            r == (Colour { red: value, green: value, blue: value }),
    {
        Colour { red: value, green: value, blue: value }
    }

    /// Componentwise sum of two colours.
    pub fn add(self, rhs: Self) -> (r: Self)
        requires
            i64::MIN <= self.red + rhs.red <= i64::MAX,
            i64::MIN <= self.green + rhs.green <= i64::MAX,
            i64::MIN <= self.blue + rhs.blue <= i64::MAX,
        ensures
            r.red == self.red + rhs.red,
            r.green == self.green + rhs.green,
            r.blue == self.blue + rhs.blue,
    {
        Colour {
            red: self.red + rhs.red,
            green: self.green + rhs.green,
            blue: self.blue + rhs.blue,
        }
    }

    /// Componentwise (filter) product of two colours.
    pub fn mul(self, rhs: Self) -> (r: Self)
        requires
            i64::MIN <= fmul(self.red as int, rhs.red as int) <= i64::MAX,
            i64::MIN <= fmul(self.green as int, rhs.green as int) <= i64::MAX,
            i64::MIN <= fmul(self.blue as int, rhs.blue as int) <= i64::MAX,
        ensures
            r.red as int == fmul(self.red as int, rhs.red as int),
            r.green as int == fmul(self.green as int, rhs.green as int),
            r.blue as int == fmul(self.blue as int, rhs.blue as int),
    {
        Colour {
            red: mul_fixed(self.red, rhs.red),
            green: mul_fixed(self.green, rhs.green),
            blue: mul_fixed(self.blue, rhs.blue),
        }
    }

    /// The colour scaled by a fixed-point factor.
    pub fn scale(self, f: i64) -> (r: Self)
        requires
            i64::MIN <= fmul(self.red as int, f as int) <= i64::MAX,
            i64::MIN <= fmul(self.green as int, f as int) <= i64::MAX,
            i64::MIN <= fmul(self.blue as int, f as int) <= i64::MAX,
        ensures
            r.red as int == fmul(self.red as int, f as int),
            r.green as int == fmul(self.green as int, f as int),
            r.blue as int == fmul(self.blue as int, f as int),
    {
        Colour {
            red: mul_fixed(self.red, f),
            green: mul_fixed(self.green, f),
            blue: mul_fixed(self.blue, f),
        }
    }
}

impl Default for Colour {
    /// Black.
    fn default() -> (r: Self)
        ensures
            r == (Colour { red: 0i64, green: 0i64, blue: 0i64 }),
    {
        Colour { red: 0, green: 0, blue: 0 }
    }
}

/// Encoding a channel to a byte and widening it back loses at most one part
/// in 255 (rounded up to a whole fixed-point step, 3922), and never gains.
pub proof fn lemma_byte_channel_close(c: int)
    requires
        0 <= c <= SCALE as int,
    ensures
        0 <= c - byte_channel(channel_byte(c)) <= 3922,
{
    let s = SCALE as int;
    lemma_div_pos_is_pos(c * 255, s);
    lemma_div_is_ordered(c * 255, s * 255, s);
    lemma_div_multiples_vanish(255, s);
    let b = (c * 255) / s;
    assert(channel_byte(c) == b);
    lemma_fundamental_div_mod(c * 255, s);
    lemma_mod_division_less_than_divisor(c * 255, s);
    let r1 = (c * 255) % s;
    assert(b * s == c * 255 - r1);
    // upper bound: decoding never exceeds the channel it came from
    lemma_div_is_ordered(b * s, c * 255, 255);
    lemma_div_multiples_vanish(c, 255);
    assert(byte_channel(b) <= c);
    // lower bound: the loss is under one part in 255
    assert(255 * (c - 3922) <= b * s);
    lemma_div_is_ordered(255 * (c - 3922), b * s, 255);
    lemma_div_multiples_vanish(c - 3922, 255);
    assert(b * s >= 0);
    lemma_div_pos_is_pos(b * s, 255);
    assert(byte_channel(b) >= c - 3922);
}

/// Round trip of the hex codec: decoding an encoded colour reproduces each
/// channel of `0 .. SCALE` to within one part in 255.
pub proof fn lemma_hex_round_trip(c: Colour, h: u32)
    requires
        0 <= c.red <= SCALE,
        0 <= c.green <= SCALE,
        0 <= c.blue <= SCALE,
        h as int == as_hex_spec(c),
    ensures
        0 <= c.red - byte_channel(((h >> 16) & 0xff) as int) <= 3922,
        0 <= c.green - byte_channel(((h >> 8) & 0xff) as int) <= 3922,
        0 <= c.blue - byte_channel((h & 0xff) as int) <= 3922,
{
    let s = SCALE as int;
    lemma_div_pos_is_pos(c.red * 255, s);
    lemma_div_is_ordered(c.red * 255, s * 255, s);
    lemma_div_pos_is_pos(c.green * 255, s);
    lemma_div_is_ordered(c.green * 255, s * 255, s);
    lemma_div_pos_is_pos(c.blue * 255, s);
    lemma_div_is_ordered(c.blue * 255, s * 255, s);
    lemma_div_multiples_vanish(255, s);
    let br = channel_byte(c.red as int) as u32;
    let bg = channel_byte(c.green as int) as u32;
    let bb = channel_byte(c.blue as int) as u32;
    assert((h >> 16) & 0xff == br && (h >> 8) & 0xff == bg && h & 0xff == bb) by (bit_vector)
        requires
            br <= 255,
            bg <= 255,
            bb <= 255,
            h == br * 0x10000 + bg * 0x100 + bb,
    ;
    lemma_byte_channel_close(c.red as int);
    lemma_byte_channel_close(c.green as int);
    lemma_byte_channel_close(c.blue as int);
}

} // verus!
