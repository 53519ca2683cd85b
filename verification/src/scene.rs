//! Objects, lights, and the search for the nearest intersection.

use vstd::prelude::*;
use crate::color::Color;
use crate::fixed::{
    clamp, floor_div, is_root, isqrt, lemma_product_bound, lemma_root_exists, lemma_root_unique,
    narrow, product, product32, root, ONE,
};
use crate::math::Vector3;
use crate::ray::{Hit, Ray};

verus! {

/// A sphere; `size` is its radius.
#[derive(Clone, Copy, Debug, PartialEq, Eq, Structural)]
pub struct Sphere {
    pub center: Vector3,
    pub size: i32,
    pub color: Color,
}

/// Something a ray can strike.
#[derive(Clone, Copy, Debug, PartialEq, Eq, Structural)]
pub enum Object {
    Sphere(Sphere),
}

/// What is rendered: objects, lights, and the color of empty space.
pub struct Scene {
    pub background_color: Color,
    pub ambient_lights: Vec<Color>,
    pub directional_lights: Vec<(Vector3, Color)>,
    pub objects: Vec<Object>,
}

impl Sphere {
    /// A sphere has a positive radius.
    pub open spec fn well_formed(self) -> bool {
        self.size > 0
    }

    /// The coefficient of `t * t` in `|start + t * direction - center|^2 =
    /// size^2`, as a scalar.
    pub open spec fn lead(self, ray: Ray) -> int {
        ray.direction.dot_exact(ray.direction) / (ONE as int)
    }

    /// Half the coefficient of `t`, as a scalar.
    pub open spec fn slope(self, ray: Ray) -> int {
        ((ray.start.x - self.center.x) * ray.direction.x + (ray.start.y - self.center.y)
            * ray.direction.y + (ray.start.z - self.center.z) * ray.direction.z) / (ONE as int)
    }

    /// The constant term, as a scalar: negative where the ray starts inside.
    pub open spec fn gap(self, ray: Ray) -> int {
        ((ray.start.x - self.center.x) * (ray.start.x - self.center.x) + (ray.start.y
            - self.center.y) * (ray.start.y - self.center.y) + (ray.start.z - self.center.z) * (
        ray.start.z - self.center.z) - self.size * self.size) / (ONE as int)
    }

    /// A quarter of the quadratic's discriminant: negative where the line of
    /// the ray passes the sphere at more than its radius.
    pub open spec fn discriminant(self, ray: Ray) -> int {
        self.slope(ray) * self.slope(ray) - self.lead(ray) * self.gap(ray)
    }

    /// The smaller root, as a raw scalar before saturation.
    pub open spec fn near_root(self, ray: Ray) -> int {
        ((-self.slope(ray) - root(self.discriminant(ray))) * (ONE as int)) / self.lead(ray)
    }

    /// The larger root, as a raw scalar before saturation.
    pub open spec fn far_root(self, ray: Ray) -> int {
        ((-self.slope(ray) + root(self.discriminant(ray))) * (ONE as int)) / self.lead(ray)
    }

    /// The smallest positive root, if there is one. A direction too short to
    /// have a length gives none; a tangent ray gives its double root.
    pub open spec fn distance_spec(self, ray: Ray) -> Option<i32> {
        if self.lead(ray) <= 0 || self.discriminant(ray) < 0 {
            None
        } else if self.near_root(ray) > 0 {
            Some(clamp(self.near_root(ray)) as i32)
        } else if self.far_root(ray) > 0 {
            Some(clamp(self.far_root(ray)) as i32)
        } else {
            None
        }
    }

    /// The outward normal at a point of the surface.
    pub open spec fn normal_spec(self, p: Vector3) -> Vector3 {
        p.sub_spec(self.center).normalize_spec()
    }

    /// The distance along the ray to the sphere and the normal there.
    pub open spec fn intersect_spec(self, ray: Ray) -> Option<(i32, Vector3)> {
        match self.distance_spec(ray) {
            Some(t) => Some((t, self.normal_spec(ray.at_spec(t)))),
            None => None,
        }
    }

    /// Solves the quadratic for the smallest positive root.
    pub fn distance(&self, ray: &Ray) -> (r: Option<i32>)
        ensures
            r == self.distance_spec(*ray),
    {
        let d = ray.direction;
        let ox: i64 = ray.start.x as i64 - self.center.x as i64;
        let oy: i64 = ray.start.y as i64 - self.center.y as i64;
        let oz: i64 = ray.start.z as i64 - self.center.z as i64;
        proof {
            lemma_product_bound(ox as int, d.x as int, 0x1_0000_0000, 0x8000_0000);
            lemma_product_bound(oy as int, d.y as int, 0x1_0000_0000, 0x8000_0000);
            lemma_product_bound(oz as int, d.z as int, 0x1_0000_0000, 0x8000_0000);
            lemma_product_bound(ox as int, ox as int, 0x1_0000_0000, 0x1_0000_0000);
            lemma_product_bound(oy as int, oy as int, 0x1_0000_0000, 0x1_0000_0000);
            lemma_product_bound(oz as int, oz as int, 0x1_0000_0000, 0x1_0000_0000);
        }
        let lead: i128 = floor_div(d.dot_wide(d), 1_000_000);
        let slope: i128 = floor_div(
            product(ox, d.x as i64) + product(oy, d.y as i64) + product(oz, d.z as i64),
            1_000_000,
        );
        let gap: i128 = floor_div(
            product(ox, ox) + product(oy, oy) + product(oz, oz) - product32(self.size, self.size),
            1_000_000,
        );
        proof {
            lemma_product_bound(slope as int, slope as int, 0x1_0000_0000_0000, 0x1_0000_0000_0000);
            lemma_product_bound(lead as int, gap as int, 0x1_0000_0000_0000, 0x1_0000_0000_0000);
        }
        let disc: i128 = slope * slope - lead * gap;
        if lead <= 0 || disc < 0 {
            return None;
        }
        let spread: i128 = isqrt(disc);
        let near: i128 = floor_div((-slope - spread) * 1_000_000, lead);
        if near > 0 {
            return Some(narrow(near));
        }
        let far: i128 = floor_div((-slope + spread) * 1_000_000, lead);
        if far > 0 {
            Some(narrow(far))
        } else {
            None
        }
    }

    /// The outward normal at `p`.
    pub fn normal(&self, p: Vector3) -> (n: Vector3)
        ensures
            n == self.normal_spec(p),
    {
        p.sub(self.center).normalize()
    }

    /// Where the ray first meets the sphere, and the normal there.
    pub fn intersect(&self, ray: &Ray) -> (r: Option<(i32, Vector3)>)
        ensures
            r == self.intersect_spec(*ray),
    {
        match self.distance(ray) {
            Some(t) => Some((t, self.normal(ray.at(t)))),
            None => None,
        }
    }
}

impl Object {
    /// Where the ray first meets this object, and the normal there.
    pub open spec fn intersect_spec(self, ray: Ray) -> Option<(i32, Vector3)> {
        match self {
            Object::Sphere(s) => s.intersect_spec(ray),
        }
    }

    /// The object's own color, before any light.
    pub open spec fn color_spec(self) -> Color {
        match self {
            Object::Sphere(s) => s.color,
        }
    }

    /// Where the ray first meets this object, and the normal there.
    pub fn intersect(&self, ray: &Ray) -> (r: Option<(i32, Vector3)>)
        ensures
            r == self.intersect_spec(*ray),
    {
        match self {
            Object::Sphere(s) => s.intersect(ray),
        }
    }

    /// The object's own color, before any light.
    pub fn color(&self) -> (c: Color)
        ensures
            c == self.color_spec(),
    {
        match self {
            Object::Sphere(s) => s.color,
        }
    }
}

impl Scene {
    /// What the object at `i` offers a ray: its intersection, or nothing
    /// where it is the excluded one.
    pub open spec fn candidate(self, ray: Ray, exclude: Option<usize>, i: int) -> Option<
        (i32, Vector3),
    > {
        if exclude matches Some(e) && e == i {
            None
        } else {
            self.objects@[i].intersect_spec(ray)
        }
    }

    /// The nearest hit among the first `n` objects; of two at one distance
    /// the earlier object.
    pub open spec fn nearest_among(self, ray: Ray, exclude: Option<usize>, n: nat) -> Option<Hit>
        decreases n,
    {
        if n == 0 {
            None
        } else {
            let best = self.nearest_among(ray, exclude, (n - 1) as nat);
            match self.candidate(ray, exclude, n - 1) {
                Some((t, normal)) => if best is None || t < best.unwrap().distance {
                    Some(
                        Hit {
                            distance: t,
                            position: ray.at_spec(t),
                            normal,
                            object: (n - 1) as usize,
                        },
                    )
                } else {
                    best
                },
                None => best,
            }
        }
    }

    /// The nearest hit in the whole scene.
    pub open spec fn hit_spec(self, ray: Ray, exclude: Option<usize>) -> Option<Hit> {
        self.nearest_among(ray, exclude, self.objects@.len())
    }

    /// An empty scene with the given background.
    pub fn new(background_color: Color) -> (scene: Scene)
        ensures
            scene.background_color == background_color,
            scene.ambient_lights@.len() == 0,
            scene.directional_lights@.len() == 0,
            scene.objects@.len() == 0,
    {
        Scene {
            background_color,
            ambient_lights: Vec::new(),
            directional_lights: Vec::new(),
            objects: Vec::new(),
        }
    }

    /// Appends an object; its index is the number of objects before the call.
    pub fn add(&mut self, object: Object)
        ensures
            final(self).objects@ == old(self).objects@.push(object),
            final(self).background_color == old(self).background_color,
            final(self).ambient_lights@ == old(self).ambient_lights@,
            final(self).directional_lights@ == old(self).directional_lights@,
    {
        self.objects.push(object);
    }

    /// The nearest intersection of the ray with an object other than the
    /// excluded one.
    pub fn calculate_hit(&self, ray: &Ray, exclude: Option<usize>) -> (r: Option<Hit>)
        ensures
            r == self.hit_spec(*ray, exclude),
            r is None <==> forall|i: int|
                0 <= i < self.objects@.len() ==> self.candidate(*ray, exclude, i) is None,
            r matches Some(h) ==> {
                &&& h.object < self.objects@.len()
                &&& exclude != Some(h.object)
                &&& self.objects@[h.object as int].intersect_spec(*ray) == Some(
                    (h.distance, h.normal),
                )
                &&& h.position == ray.at_spec(h.distance)
                &&& forall|j: int|
                    0 <= j < self.objects@.len() ==> (#[trigger] self.candidate(
                        *ray,
                        exclude,
                        j,
                    ) matches Some(c) ==> h.distance <= c.0 && (j < h.object ==> h.distance < c.0))
            },
    {
        let mut best: Option<Hit> = None;
        let mut i: usize = 0;
        while i < self.objects.len()
            invariant
                i <= self.objects@.len(),
                best == self.nearest_among(*ray, exclude, i as nat),
            decreases self.objects@.len() - i,
        {
            let skip = match exclude {
                Some(e) => e == i,
                None => false,
            };
            if !skip {
                if let Some((t, normal)) = self.objects[i].intersect(ray) {
                    let closer = match best {
                        Some(b) => t < b.distance,
                        None => true,
                    };
                    if closer {
                        best = Some(Hit { distance: t, position: ray.at(t), normal, object: i });
                    }
                }
            }
            i += 1;
        }
        proof {
            lemma_nearest(*self, *ray, exclude, self.objects@.len());
        }
        best
    }
}

/// The normal of an intersection is the normalized vector from the sphere's
/// center to the point that was struck.
pub proof fn lemma_normal_from_center(s: Sphere, ray: Ray)
    ensures
        s.intersect_spec(ray) matches Some(r) ==> r.1 == ray.at_spec(r.0).sub_spec(
            s.center,
        ).normalize_spec(),
{
}

/// A ray whose line passes the sphere at more than its radius, so that the
/// quadratic has no real root, has no intersection with it.
pub proof fn lemma_passing_ray_misses(s: Sphere, ray: Ray)
    requires
        s.discriminant(ray) < 0,
    ensures
        s.intersect_spec(ray) is None,
{
}

/// A ray along the first axis misses a sphere where the squared distance of
/// its line from the center exceeds the squared radius by a millionth or
/// more.
pub proof fn lemma_offset_ray_misses(s: Sphere, ray: Ray)
    requires
        ray.direction == (Vector3 { x: ONE, y: 0, z: 0 }),
        (ray.start.y - s.center.y) * (ray.start.y - s.center.y) + (ray.start.z - s.center.z) * (
        ray.start.z - s.center.z) >= s.size * s.size + ONE,
    ensures
        s.intersect_spec(ray) is None,
{
    let o: int = ray.start.x - s.center.x;
    let d = ray.direction;
    assert(d.x * d.x == 1_000_000_000_000 && d.y * d.y == 0 && d.z * d.z == 0) by (nonlinear_arith)
        requires
            d.x == 1_000_000,
            d.y == 0,
            d.z == 0,
    ;
    let slope: int = s.slope(ray);
    let lead: int = s.lead(ray);
    let gap: int = s.gap(ray);
    assert(slope * slope == o * o && lead * gap == gap * 1_000_000) by (nonlinear_arith)
        requires
            slope == o,
            lead == 1_000_000,
    ;
}

/// A ray along the first axis that starts outside a sphere and points at its
/// center strikes it at the distance to the center less the radius: exactly
/// where the radius is at least one half, and otherwise at most 999 raw
/// units, under a thousandth, short of it.
pub proof fn lemma_head_on_distance(s: Sphere, ray: Ray)
    requires
        ray.direction == (Vector3 { x: ONE, y: 0, z: 0 }),
        ray.start.y == s.center.y,
        ray.start.z == s.center.z,
        s.well_formed(),
        s.center.x - ray.start.x > s.size + 1000 || (s.size >= 500_000 && s.center.x - ray.start.x
            > s.size),
        s.center.x - ray.start.x - s.size <= i32::MAX,
    ensures
        s.distance_spec(ray) matches Some(t) && {
            &&& s.center.x - ray.start.x - s.size - 999 <= t <= s.center.x - ray.start.x - s.size
            &&& s.size >= 500_000 ==> t == s.center.x - ray.start.x - s.size
        },
{
    let o: int = ray.start.x - s.center.x;
    let r: int = s.size as int;
    let square: int = o * o - r * r;
    assert(square >= 0) by (nonlinear_arith)
        requires
            -o > r > 0,
            square == o * o - r * r,
    ;
    let d = ray.direction;
    assert(d.x * d.x == 1_000_000_000_000 && d.y * d.y == 0 && d.z * d.z == 0) by (nonlinear_arith)
        requires
            d.x == 1_000_000,
            d.y == 0,
            d.z == 0,
    ;
    assert(s.lead(ray) == ONE);
    assert(s.slope(ray) == o);
    assert((ray.start.y - s.center.y) * (ray.start.y - s.center.y) == 0);
    assert((ray.start.z - s.center.z) * (ray.start.z - s.center.z) == 0);
    assert(s.gap(ray) == square / (ONE as int));
    let rest: int = square % (ONE as int);
    let disc: int = s.discriminant(ray);
    let slope: int = s.slope(ray);
    let lead: int = s.lead(ray);
    let gap: int = s.gap(ray);
    assert(slope * slope == o * o && lead * gap == square - rest) by (nonlinear_arith)
        requires
            slope == o,
            lead == 1_000_000,
            gap == square / 1_000_000,
            rest == square % 1_000_000,
    ;
    assert(disc == r * r + rest);
    lemma_root_exists(disc as nat);
    let spread: int = root(disc);
    assert(r <= spread) by (nonlinear_arith)
        requires
            0 <= spread,
            0 < r,
            r * r <= disc,
            disc < (spread + 1) * (spread + 1),
    ;
    assert(spread <= r + 999) by (nonlinear_arith)
        requires
            0 <= spread,
            0 < r,
            spread * spread <= disc,
            disc < r * r + 1_000_000,
    ;
    if r >= 500_000 {
        assert(is_root(disc, r)) by (nonlinear_arith)
            requires
                r >= 500_000,
                r * r <= disc,
                disc < r * r + 1_000_000,
        ;
        lemma_root_unique(disc, r);
    }
    assert(s.near_root(ray) == -o - spread);
}

/// The nearest hit among the first `n` objects is none exactly where none of
/// them offers an intersection; otherwise it is the intersection of one of
/// them, never the excluded one, no farther than any other on offer, and
/// strictly nearer than those before it.
pub proof fn lemma_nearest(scene: Scene, ray: Ray, exclude: Option<usize>, n: nat)
    requires
        n <= scene.objects@.len() <= usize::MAX,
    ensures
        scene.nearest_among(ray, exclude, n) is None <==> forall|i: int|
            0 <= i < n ==> scene.candidate(ray, exclude, i) is None,
        scene.nearest_among(ray, exclude, n) matches Some(h) ==> {
            &&& h.object < n
            &&& exclude != Some(h.object)
            &&& scene.objects@[h.object as int].intersect_spec(ray) == Some((h.distance, h.normal))
            &&& h.position == ray.at_spec(h.distance)
            &&& forall|j: int|
                0 <= j < n ==> (#[trigger] scene.candidate(ray, exclude, j) matches Some(c)
                    ==> h.distance <= c.0 && (j < h.object ==> h.distance < c.0))
        },
    decreases n,
{
    if n > 0 {
        lemma_nearest(scene, ray, exclude, (n - 1) as nat);
    }
}

} // verus!
