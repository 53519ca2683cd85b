//! The pixel grid: one ray per pixel, one color per ray, four bytes per
//! color.

use vstd::prelude::*;
use crate::color::Color;
use crate::fixed::{clamp, narrow, ONE};
use crate::integrator::{calculate_color, color_spec};
use crate::math::Vector3;
use crate::ray::Ray;
use crate::scene::Scene;

verus! {

/// Where the ray of a pixel starts along one axis of the camera plane:
/// `p / 50 - 5.5`.
pub open spec fn plane_coordinate(p: u32) -> int {
    clamp(p * 20_000 - 5_500_000)
}

/// The ray of pixel `(x, y)`: it starts on the plane `x = 0` and runs along
/// the first axis.
pub open spec fn pixel_ray_spec(x: u32, y: u32) -> Ray {
    Ray {
        start: Vector3 { x: 0, y: plane_coordinate(x) as i32, z: plane_coordinate(y) as i32 },
        direction: Vector3 { x: ONE, y: 0, z: 0 },
    }
}

/// The camera ray of pixel `(x, y)`.
pub fn pixel_ray(x: u32, y: u32) -> (ray: Ray)
    ensures
        ray == pixel_ray_spec(x, y),
{
    Ray {
        start: Vector3 {
            x: 0,
            y: narrow(x as i128 * 20_000 - 5_500_000),
            z: narrow(y as i128 * 20_000 - 5_500_000),
        },
        direction: Vector3 { x: ONE, y: 0, z: 0 },
    }
}

/// Cell `(a, b)` of a grid with rows of `h` cells comes before cell `(x, y)`
/// where it does so row by row.
proof fn lemma_cell_before(a: int, b: int, x: int, y: int, h: int)
    requires
        0 <= a,
        0 <= b < h,
        0 <= y <= h,
        a < x || (a == x && b < y),
    ensures
        0 <= a * h + b < x * h + y,
{
    assert(0 <= a * h + b < x * h + y) by (nonlinear_arith)
        requires
            0 <= a,
            0 <= b < h,
            0 <= y <= h,
            a < x || (a == x && b < y),
    ;
}

/// The color of every pixel of a `width` by `height` grid, first coordinate
/// outermost: pixel `(x, y)` stands at `x * height + y`.
pub fn render(scene: &Scene, width: u32, height: u32, max_bounces: usize) -> (pixels: Vec<Color>)
    ensures
        pixels@.len() == width * height,
        forall|x: u32, y: u32|
            x < width && y < height ==> pixels@[x * height + y] == color_spec(
                *scene,
                #[trigger] pixel_ray_spec(x, y),
                max_bounces as nat,
            ),
{
    let mut pixels: Vec<Color> = Vec::new();
    let mut x: u32 = 0;
    proof {
        assert(0 * height == 0) by (nonlinear_arith);
    }
    while x < width
        invariant
            x <= width,
            pixels@.len() == x * height,
            forall|a: u32, b: u32|
                a < x && b < height ==> pixels@[a * height + b] == color_spec(
                    *scene,
                    #[trigger] pixel_ray_spec(a, b),
                    max_bounces as nat,
                ),
        decreases width - x,
    {
        let mut y: u32 = 0;
        while y < height
            invariant
                x < width,
                y <= height,
                pixels@.len() == x * height + y,
                forall|a: u32, b: u32|
                    b < height && (a < x || (a == x && b < y)) ==> pixels@[a * height + b]
                        == color_spec(*scene, #[trigger] pixel_ray_spec(a, b), max_bounces as nat),
            decreases height - y,
        {
            let ghost before = pixels@;
            let c = calculate_color(scene, pixel_ray(x, y), max_bounces);
            pixels.push(c);
            proof {
                assert forall|a: u32, b: u32|
                    b < height && (a < x || (a == x && b < y + 1)) implies pixels@[a * height + b]
                        == color_spec(
                        *scene,
                        #[trigger] pixel_ray_spec(a, b),
                        max_bounces as nat,
                    ) by {
                    if a == x && b == y {
                    } else {
                        lemma_cell_before(a as int, b as int, x as int, y as int, height as int);
                        assert(pixels@[a * height + b] == before[a * height + b]);
                    }
                }
            }
            y += 1;
        }
        proof {
            assert(x * height + height == (x + 1) * height) by (nonlinear_arith);
        }
        x += 1;
    }
    pixels
}

/// The pixels as bytes: red, green, blue and an alpha of 255 for each, in
/// the order of the pixels.
pub fn rgba_bytes(pixels: &Vec<Color>) -> (bytes: Vec<u8>)
    ensures
        bytes@.len() == 4 * pixels@.len(),
        forall|k: int|
            0 <= k < bytes@.len() ==> #[trigger] bytes@[k] == pixels@[k / 4].rgba_spec()[k % 4],
{
    let mut bytes: Vec<u8> = Vec::new();
    let mut i: usize = 0;
    while i < pixels.len()
        invariant
            i <= pixels@.len(),
            bytes@.len() == 4 * i,
            forall|k: int|
                0 <= k < bytes@.len() ==> #[trigger] bytes@[k] == pixels@[k / 4].rgba_spec()[k % 4],
        decreases pixels@.len() - i,
    {
        let px = pixels[i].rgba();
        bytes.push(px[0]);
        bytes.push(px[1]);
        bytes.push(px[2]);
        bytes.push(px[3]);
        i += 1;
    }
    bytes
}

} // verus!
