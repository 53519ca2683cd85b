//! Additive colors over fixed-point channels.

use vstd::prelude::*;
use crate::fixed::{clamp, narrow, floor_div, product, product32, lemma_product_bound, ONE};

verus! {

/// A color; each channel is a raw scalar, with `ONE` for full intensity.
/// Channels may leave `[0, ONE]` while light is accumulated.
#[derive(Clone, Copy, Debug, PartialEq, Eq, Structural)]
pub struct Color {
    pub r: i32,
    pub g: i32,
    pub b: i32,
}

/// A channel after light `l` was added at intensity `k`.
pub open spec fn lit_channel(c: i32, l: i32, k: i32) -> int {
    clamp(c + ((l as int) * (k as int)) / (ONE as int))
}

/// A channel moved from `c` toward `t` by the weight `w`.
pub open spec fn blend_channel(c: i32, t: i32, w: i32) -> int {
    clamp(c + ((t - c) * (w as int)) / (ONE as int))
}

/// A channel as an 8-bit value: scaled by 255, rounded down, and held to
/// `0..=255`.
pub open spec fn byte_spec(c: i32) -> int {
    let v = ((c as int) * 255) / (ONE as int);
    if v < 0 {
        0
    } else if v > 255 {
        255
    } else {
        v
    }
}

/// Whether adding `a` and `b` to `c` gives the same channel in either order:
/// the three have one sign, or neither first sum saturates.
pub open spec fn order_free(c: i32, a: i32, b: i32) -> bool {
    ||| (c >= 0 && a >= 0 && b >= 0)
    ||| (c <= 0 && a <= 0 && b <= 0)
    ||| (clamp(c + a) == c + a && clamp(c + b) == c + b)
}

/// Whether `c + (a + b)` and `(c + a) + b` give the same channel: the three
/// have one sign, or neither inner sum saturates.
pub open spec fn grouping_free(c: i32, a: i32, b: i32) -> bool {
    ||| (c >= 0 && a >= 0 && b >= 0)
    ||| (c <= 0 && a <= 0 && b <= 0)
    ||| (clamp(c + a) == c + a && clamp(a + b) == a + b)
}

/// Moves one channel toward a target.
fn blend(c: i32, t: i32, w: i32) -> (r: i32)
    ensures
        r as int == blend_channel(c, t, w),
{
    let step: i64 = t as i64 - c as i64;
    proof {
        lemma_product_bound(step as int, w as int, 0x1_0000_0000, 0x8000_0000);
    }
    narrow(c as i128 + floor_div(product(step, w as i64), 1_000_000))
}

/// Quantizes one channel to 8 bits.
pub fn channel_byte(c: i32) -> (v: u8)
    ensures
        v as int == byte_spec(c),
{
    let scaled: i128 = floor_div(product32(c, 255), 1_000_000);
    if scaled < 0 {
        0
    } else if scaled > 255 {
        255
    } else {
        scaled as u8
    }
}

impl Color {
    pub fn new(r: i32, g: i32, b: i32) -> (c: Color)
        ensures
            c == (Color { r, g, b }),
    {
        Color { r, g, b }
    }

    pub fn black() -> (c: Color)
        ensures
            c == (Color { r: 0, g: 0, b: 0 }),
    {
        Color { r: 0, g: 0, b: 0 }
    }

    pub fn white() -> (c: Color)
        ensures
            c == (Color { r: ONE, g: ONE, b: ONE }),
    {
        Color { r: ONE, g: ONE, b: ONE }
    }

    pub fn red() -> (c: Color)
        ensures
            c == (Color { r: ONE, g: 0, b: 0 }),
    {
        Color { r: ONE, g: 0, b: 0 }
    }

    pub fn green() -> (c: Color)
        ensures
            c == (Color { r: 0, g: ONE, b: 0 }),
    {
        Color { r: 0, g: ONE, b: 0 }
    }

    pub fn blue() -> (c: Color)
        ensures
            c == (Color { r: 0, g: 0, b: ONE }),
    {
        Color { r: 0, g: 0, b: ONE }
    }

    /// `self + light * intensity`, channel by channel.
    pub open spec fn with_directional(self, light: Color, intensity: i32) -> Color {
        Color {
            r: lit_channel(self.r, light.r, intensity) as i32,
            g: lit_channel(self.g, light.g, intensity) as i32,
            b: lit_channel(self.b, light.b, intensity) as i32,
        }
    }

    /// `self + light`, channel by channel.
    pub open spec fn with_ambient(self, light: Color) -> Color {
        Color {
            r: clamp(self.r + light.r) as i32,
            g: clamp(self.g + light.g) as i32,
            b: clamp(self.b + light.b) as i32,
        }
    }

    /// `self + (target - self) * weight`, channel by channel.
    pub open spec fn blended(self, target: Color, weight: i32) -> Color {
        Color {
            r: blend_channel(self.r, target.r, weight) as i32,
            g: blend_channel(self.g, target.g, weight) as i32,
            b: blend_channel(self.b, target.b, weight) as i32,
        }
    }

    /// The pixel of this color: red, green, blue, and an alpha of 255.
    pub open spec fn rgba_spec(self) -> Seq<u8> {
        seq![byte_spec(self.r) as u8, byte_spec(self.g) as u8, byte_spec(self.b) as u8, 255u8]
    }

    /// Adds a light scaled by `intensity`. The weight is taken as given:
    /// callers leave out lights that face away from the surface.
    pub fn add_directional(&mut self, light: Color, intensity: i32)
        ensures
            *final(self) == old(self).with_directional(light, intensity),
    {
        self.r = narrow(self.r as i128 + floor_div(product32(light.r, intensity), 1_000_000));
        self.g = narrow(self.g as i128 + floor_div(product32(light.g, intensity), 1_000_000));
        self.b = narrow(self.b as i128 + floor_div(product32(light.b, intensity), 1_000_000));
    }

    /// Adds a light at full weight.
    pub fn add_ambient(&mut self, light: Color)
        ensures
            *final(self) == old(self).with_ambient(light),
    {
        self.r = narrow(self.r as i128 + light.r as i128);
        self.g = narrow(self.g as i128 + light.g as i128);
        self.b = narrow(self.b as i128 + light.b as i128);
    }

    /// Moves this color toward `target` by `weight`, which is not held to
    /// `[0, ONE]`.
    pub fn change_towards(&mut self, target: Color, weight: i32)
        ensures
            *final(self) == old(self).blended(target, weight),
    {
        self.r = blend(self.r, target.r, weight);
        self.g = blend(self.g, target.g, weight);
        self.b = blend(self.b, target.b, weight);
    }

    /// The four bytes of this color's pixel.
    pub fn rgba(self) -> (px: [u8; 4])
        ensures
            px@ == self.rgba_spec(),
    {
        let px: [u8; 4] = [channel_byte(self.r), channel_byte(self.g), channel_byte(self.b), 255];
        assert(px@ =~= self.rgba_spec());
        px
    }

    /// Whether two ambient lights may be added to this color in either order.
    pub open spec fn ambient_order_free(self, a: Color, b: Color) -> bool {
        order_free(self.r, a.r, b.r) && order_free(self.g, a.g, b.g) && order_free(
            self.b,
            a.b,
            b.b,
        )
    }

    /// Whether two ambient lights may be summed before they are added.
    pub open spec fn ambient_grouping_free(self, a: Color, b: Color) -> bool {
        grouping_free(self.r, a.r, b.r) && grouping_free(self.g, a.g, b.g) && grouping_free(
            self.b,
            a.b,
            b.b,
        )
    }
}

/// Ambient light is commutative: two lights added in either order give the
/// same color, as long as no channel saturates between lights of opposite
/// sign.
pub proof fn lemma_ambient_commutes(c: Color, a: Color, b: Color)
    requires
        c.ambient_order_free(a, b),
    ensures
        c.with_ambient(a).with_ambient(b) == c.with_ambient(b).with_ambient(a),
{
}

/// Adding a color to a light is symmetric in the two.
pub proof fn lemma_ambient_symmetric(c: Color, a: Color)
    ensures
        c.with_ambient(a) == a.with_ambient(c),
{
}

/// Ambient light is associative: adding the sum of two lights is adding one
/// after the other, as long as no channel saturates between lights of
/// opposite sign.
pub proof fn lemma_ambient_associates(c: Color, a: Color, b: Color)
    requires
        c.ambient_grouping_free(a, b),
    ensures
        c.with_ambient(a.with_ambient(b)) == c.with_ambient(a).with_ambient(b),
{
}

/// A blend of weight one lands on the target.
pub proof fn lemma_blend_full(c: Color, target: Color)
    ensures
        c.blended(target, ONE) == target,
{
    lemma_scaled_back(target.r - c.r);
    lemma_scaled_back(target.g - c.g);
    lemma_scaled_back(target.b - c.b);
}

/// A blend of weight zero changes nothing.
pub proof fn lemma_blend_none(c: Color, target: Color)
    ensures
        c.blended(target, 0) == c,
{
    assert((target.r - c.r) * 0 == 0);
    assert((target.g - c.g) * 0 == 0);
    assert((target.b - c.b) * 0 == 0);
}

/// Multiplying by one and rescaling gives the value back.
proof fn lemma_scaled_back(v: int)
    ensures
        (v * (ONE as int)) / (ONE as int) == v,
{
    assert((v * 1_000_000) / 1_000_000 == v) by (nonlinear_arith);
}

} // verus!
