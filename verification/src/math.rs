//! Three-dimensional vectors over fixed-point scalars.

use vstd::prelude::*;
use crate::fixed::{
    clamp, floor_div, isqrt, lemma_root_exists, narrow, product32, rescale, root, ONE,
};

verus! {

/// A point or a direction in space; each component is a raw scalar.
#[derive(Clone, Copy, Debug, PartialEq, Eq, Structural)]
pub struct Vector3 {
    pub x: i32,
    pub y: i32,
    pub z: i32,
}

/// One component of a vector divided by the length `len > 0`.
pub open spec fn unit_component(c: i32, len: int) -> int {
    clamp(((c as int) * (ONE as int)) / len)
}

/// One component of a mirror image: `i - 2 * d * n`, where `d` is an exact
/// inner product of raw values.
pub open spec fn mirror_component(i: i32, d: int, n: i32) -> int {
    clamp((i as int) - (2 * d * (n as int)) / ((ONE as int) * (ONE as int)))
}

impl Vector3 {
    pub fn new(x: i32, y: i32, z: i32) -> (v: Vector3)
        ensures
            v == (Vector3 { x, y, z }),
    {
        Vector3 { x, y, z }
    }

    /// The componentwise sum.
    pub open spec fn add_spec(self, other: Vector3) -> Vector3 {
        Vector3 {
            x: clamp(self.x + other.x) as i32,
            y: clamp(self.y + other.y) as i32,
            z: clamp(self.z + other.z) as i32,
        }
    }

    /// The componentwise difference.
    pub open spec fn sub_spec(self, other: Vector3) -> Vector3 {
        Vector3 {
            x: clamp(self.x - other.x) as i32,
            y: clamp(self.y - other.y) as i32,
            z: clamp(self.z - other.z) as i32,
        }
    }

    /// Each component multiplied by the scalar `k`.
    pub open spec fn scale_spec(self, k: i32) -> Vector3 {
        Vector3 {
            x: rescale(self.x * k) as i32,
            y: rescale(self.y * k) as i32,
            z: rescale(self.z * k) as i32,
        }
    }

    /// The inner product of the raw components, before any rounding.
    pub open spec fn dot_exact(self, other: Vector3) -> int {
        self.x * other.x + self.y * other.y + self.z * other.z
    }

    /// The inner product as a scalar.
    pub open spec fn dot_spec(self, other: Vector3) -> int {
        rescale(self.dot_exact(other))
    }

    /// The Euclidean length as a raw value, before saturation.
    pub open spec fn length_exact(self) -> int {
        root(self.dot_exact(self))
    }

    /// The vector of length one in the same direction; the zero vector where
    /// the length rounds to zero.
    pub open spec fn normalize_spec(self) -> Vector3 {
        let len = self.length_exact();
        if len == 0 {
            Vector3 { x: 0, y: 0, z: 0 }
        } else {
            Vector3 {
                x: unit_component(self.x, len) as i32,
                y: unit_component(self.y, len) as i32,
                z: unit_component(self.z, len) as i32,
            }
        }
    }

    /// The mirror image of `self` about the plane with normal `normal`:
    /// `self - 2 * dot(self, normal) * normal`.
    pub open spec fn reflect_spec(self, normal: Vector3) -> Vector3 {
        let d = self.dot_exact(normal);
        Vector3 {
            x: mirror_component(self.x, d, normal.x) as i32,
            y: mirror_component(self.y, d, normal.y) as i32,
            z: mirror_component(self.z, d, normal.z) as i32,
        }
    }

    /// The sum, each component saturated.
    pub fn add(self, other: Vector3) -> (v: Vector3)
        ensures
            v == self.add_spec(other),
    {
        Vector3 {
            x: narrow(self.x as i128 + other.x as i128),
            y: narrow(self.y as i128 + other.y as i128),
            z: narrow(self.z as i128 + other.z as i128),
        }
    }

    /// The difference, each component saturated.
    pub fn sub(self, other: Vector3) -> (v: Vector3)
        ensures
            v == self.sub_spec(other),
    {
        Vector3 {
            x: narrow(self.x as i128 - other.x as i128),
            y: narrow(self.y as i128 - other.y as i128),
            z: narrow(self.z as i128 - other.z as i128),
        }
    }

    /// The vector multiplied by the scalar `k`.
    pub fn scale(self, k: i32) -> (v: Vector3)
        ensures
            v == self.scale_spec(k),
    {
        Vector3 {
            x: narrow(floor_div(product32(self.x, k), 1_000_000)),
            y: narrow(floor_div(product32(self.y, k), 1_000_000)),
            z: narrow(floor_div(product32(self.z, k), 1_000_000)),
        }
    }

    /// The exact inner product of the raw components.
    pub fn dot_wide(self, other: Vector3) -> (d: i128)
        ensures
            d as int == self.dot_exact(other),
            -0xC000_0000_0000_0000 <= d <= 0xC000_0000_0000_0000,
    {
        product32(self.x, other.x) + product32(self.y, other.y) + product32(self.z, other.z)
    }

    /// The inner product as a scalar, rounded down and saturated.
    pub fn dot(self, other: Vector3) -> (d: i32)
        ensures
            d as int == self.dot_spec(other),
    {
        narrow(floor_div(self.dot_wide(other), 1_000_000))
    }

    /// The vector scaled to length one, or the zero vector where the length
    /// rounds to zero.
    pub fn normalize(self) -> (v: Vector3)
        ensures
            v == self.normalize_spec(),
            -ONE <= v.x <= ONE,
            -ONE <= v.y <= ONE,
            -ONE <= v.z <= ONE,
    {
        proof {
            lemma_normalized_within_unit(self);
        }
        let squares: i128 = self.dot_wide(self);
        proof {
            assert(self.x * self.x >= 0) by (nonlinear_arith);
            assert(self.y * self.y >= 0) by (nonlinear_arith);
            assert(self.z * self.z >= 0) by (nonlinear_arith);
        }
        let len: i128 = isqrt(squares);
        if len == 0 {
            Vector3 { x: 0, y: 0, z: 0 }
        } else {
            Vector3 {
                x: narrow(floor_div(product32(self.x, 1_000_000), len)),
                y: narrow(floor_div(product32(self.y, 1_000_000), len)),
                z: narrow(floor_div(product32(self.z, 1_000_000), len)),
            }
        }
    }

    /// The mirror image of `self` about the plane with normal `normal`.
    pub fn reflect(self, normal: Vector3) -> (v: Vector3)
        ensures
            v == self.reflect_spec(normal),
    {
        let d: i128 = self.dot_wide(normal);
        Vector3 {
            x: mirror(self.x, d, normal.x),
            y: mirror(self.y, d, normal.y),
            z: mirror(self.z, d, normal.z),
        }
    }
}

/// No component of a normalized vector exceeds one in magnitude.
pub proof fn lemma_normalized_within_unit(v: Vector3)
    ensures
        -ONE <= v.normalize_spec().x <= ONE,
        -ONE <= v.normalize_spec().y <= ONE,
        -ONE <= v.normalize_spec().z <= ONE,
{
    let squares = v.dot_exact(v);
    assert(v.x * v.x >= 0 && v.y * v.y >= 0 && v.z * v.z >= 0) by (nonlinear_arith);
    lemma_root_exists(squares as nat);
    let len = v.length_exact();
    if len != 0 {
        lemma_component_within_unit(v.x as int, v.x * v.x, squares, len);
        lemma_component_within_unit(v.y as int, v.y * v.y, squares, len);
        lemma_component_within_unit(v.z as int, v.z * v.z, squares, len);
    }
}

/// A component whose square is at most `squares` is at most the root of
/// `squares` in magnitude, and so at most one after division by that root.
proof fn lemma_component_within_unit(c: int, square: int, squares: int, len: int)
    requires
        square == c * c,
        square <= squares,
        len > 0,
        squares < (len + 1) * (len + 1),
    ensures
        -(ONE as int) <= (c * (ONE as int)) / len <= ONE,
{
    assert(-len <= c <= len) by (nonlinear_arith)
        requires
            c * c < (len + 1) * (len + 1),
            len > 0,
    ;
    assert(-1_000_000 <= (c * 1_000_000) / len <= 1_000_000) by (nonlinear_arith)
        requires
            -len <= c <= len,
            len > 0,
    ;
}

/// Computes one component of a mirror image.
fn mirror(i: i32, d: i128, n: i32) -> (r: i32)
    requires
        -0xC000_0000_0000_0000 <= d <= 0xC000_0000_0000_0000,
    ensures
        r as int == mirror_component(i, d as int, n),
{
    proof {
        crate::fixed::lemma_product_bound(2 * d as int, n as int, 0x1_8000_0000_0000_0000, 0x8000_0000);
    }
    let twice: i128 = 2 * d * (n as i128);
    narrow(i as i128 - floor_div(twice, 1_000_000_000_000))
}

} // verus!
