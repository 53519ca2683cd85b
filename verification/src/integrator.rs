//! Shading a hit and following a ray through its bounces.

use vstd::prelude::*;
use crate::color::Color;
use crate::math::Vector3;
use crate::ray::{Hit, Ray};
use crate::scene::Scene;

verus! {

/// `color` after the first `n` directional lights: each light whose
/// direction has a positive inner product with the normal is added at that
/// intensity; the others add nothing.
pub open spec fn lit_directional(
    color: Color,
    lights: Seq<(Vector3, Color)>,
    normal: Vector3,
    n: nat,
) -> Color
    decreases n,
{
    if n == 0 {
        color
    } else {
        let before = lit_directional(color, lights, normal, (n - 1) as nat);
        let shade = lights[n - 1].0.dot_spec(normal);
        if shade > 0 {
            before.with_directional(lights[n - 1].1, shade as i32)
        } else {
            before
        }
    }
}

/// `color` after the first `n` ambient lights.
pub open spec fn lit_ambient(color: Color, lights: Seq<Color>, n: nat) -> Color
    decreases n,
{
    if n == 0 {
        color
    } else {
        lit_ambient(color, lights, (n - 1) as nat).with_ambient(lights[n - 1])
    }
}

/// The color seen at a hit: the object's own color, then every directional
/// light that faces the surface, then every ambient light.
pub open spec fn surface_color(scene: Scene, hit: Hit) -> Color {
    lit_ambient(
        lit_directional(
            scene.objects@[hit.object as int].color_spec(),
            scene.directional_lights@,
            hit.normal,
            scene.directional_lights@.len(),
        ),
        scene.ambient_lights@,
        scene.ambient_lights@.len(),
    )
}

/// The weight with which bounce `i >= 1` is blended in: a tenth, divided by
/// the bounce's index.
pub open spec fn bounce_weight(i: nat) -> int {
    100_000int / (i as int)
}

/// The color gathered once bounces `i..max` are done, given what bounces
/// `0..i` left: the ray to cast, the object it may not strike, and the color
/// so far. The first miss ends the path.
pub open spec fn trace(
    scene: Scene,
    ray: Ray,
    exclude: Option<usize>,
    color: Option<Color>,
    i: nat,
    max: nat,
) -> Option<Color>
    decreases max - i,
{
    if i >= max {
        color
    } else {
        match scene.hit_spec(ray, exclude) {
            None => color,
            Some(hit) => {
                let seen = surface_color(scene, hit);
                let mixed = match color {
                    Some(c) => c.blended(seen, bounce_weight(i) as i32),
                    None => seen,
                };
                trace(
                    scene,
                    Ray { start: hit.position, direction: hit.out_angle_spec(ray.direction) },
                    Some(hit.object),
                    Some(mixed),
                    i + 1,
                    max,
                )
            },
        }
    }
}

/// The color of a ray after at most `max_bounces` bounces: the background
/// where the ray strikes nothing.
pub open spec fn color_spec(scene: Scene, ray: Ray, max_bounces: nat) -> Color {
    match trace(scene, ray, None, None, 0, max_bounces) {
        Some(c) => c,
        None => scene.background_color,
    }
}

/// Lights the struck object's color.
pub fn shade(scene: &Scene, hit: &Hit) -> (c: Color)
    requires
        hit.object < scene.objects@.len(),
    ensures
        c == surface_color(*scene, *hit),
{
    let mut c = scene.objects[hit.object].color();
    let ghost own = c;
    let mut j: usize = 0;
    while j < scene.directional_lights.len()
        invariant
            j <= scene.directional_lights@.len(),
            c == lit_directional(own, scene.directional_lights@, hit.normal, j as nat),
        decreases scene.directional_lights@.len() - j,
    {
        let shade = scene.directional_lights[j].0.dot(hit.normal);
        if shade > 0 {
            c.add_directional(scene.directional_lights[j].1, shade);
        }
        j += 1;
    }
    let ghost lit = c;
    let mut k: usize = 0;
    while k < scene.ambient_lights.len()
        invariant
            k <= scene.ambient_lights@.len(),
            c == lit_ambient(lit, scene.ambient_lights@, k as nat),
        decreases scene.ambient_lights@.len() - k,
    {
        c.add_ambient(scene.ambient_lights[k]);
        k += 1;
    }
    c
}

/// Follows `ray` through at most `max_bounces` mirror bounces and returns
/// the blended color, or the background where the ray strikes nothing.
pub fn calculate_color(scene: &Scene, ray: Ray, max_bounces: usize) -> (c: Color)
    ensures
        c == color_spec(*scene, ray, max_bounces as nat),
        max_bounces == 0 ==> c == scene.background_color,
        scene.hit_spec(ray, None) is None ==> c == scene.background_color,
{
    let ghost first = ray;
    let mut ray = ray;
    let mut exclude: Option<usize> = None;
    let mut color: Option<Color> = None;
    let mut i: usize = 0;
    let mut missed = false;
    while i < max_bounces && !missed
        invariant
            i <= max_bounces,
            i == 0 ==> color is None && exclude is None && ray == first,
            trace(*scene, first, None, None, 0, max_bounces as nat) == (if missed {
                color
            } else {
                trace(*scene, ray, exclude, color, i as nat, max_bounces as nat)
            }),
        decreases max_bounces - i + (if missed { 0int } else { 1int }),
    {
        match scene.calculate_hit(&ray, exclude) {
            Some(hit) => {
                exclude = Some(hit.object);
                let seen = shade(scene, &hit);
                color = Some(
                    match color {
                        Some(mut c) => {
                            let weight: i32 = (100_000 / i) as i32;
                            c.change_towards(seen, weight);
                            c
                        },
                        None => seen,
                    },
                );
                ray = Ray { start: hit.position, direction: hit.out_angle(ray.direction) };
                i += 1;
            },
            None => {
                missed = true;
            },
        }
    }
    match color {
        Some(c) => c,
        None => scene.background_color,
    }
}

/// A ray that strikes nothing has the background's color, whatever the
/// number of bounces.
pub proof fn lemma_miss_is_background(scene: Scene, ray: Ray, max_bounces: nat)
    requires
        scene.hit_spec(ray, None) is None,
    ensures
        color_spec(scene, ray, max_bounces) == scene.background_color,
{
}

/// With one bounce allowed a ray that strikes an object has the color seen
/// at that hit.
pub proof fn lemma_one_bounce_is_surface(scene: Scene, ray: Ray)
    requires
        scene.hit_spec(ray, None) is Some,
    ensures
        color_spec(scene, ray, 1) == surface_color(scene, scene.hit_spec(ray, None).unwrap()),
{
    reveal_with_fuel(trace, 2);
}

/// With no bounce allowed every ray has the background's color.
pub proof fn lemma_no_bounce_is_background(scene: Scene, ray: Ray)
    ensures
        color_spec(scene, ray, 0) == scene.background_color,
{
}

} // verus!
