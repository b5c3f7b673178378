//! The tracer: camera rays, nearest-hit search, shadow tests and the
//! recursive shading function, with the render loop over all pixels.

use vstd::prelude::*;

verus! {

use crate::fixed::Fx;
use crate::fixed::SCALE;
use crate::color::Color;
use crate::color::spec_clamp_and_convert;
use crate::vec3::Vector3;
use crate::geom::Ray;
use crate::geom::Sphere;
use crate::geom::Sun;
use crate::geom::Bulb;
use crate::geom::spec_intersect;
use crate::geom::spec_normal;
use crate::geom::spec_ray_new;
use vstd::arithmetic::mul::lemma_mul_inequality;
use vstd::arithmetic::mul::lemma_mul_is_distributive_add_other_way;
use vstd::arithmetic::mul::lemma_mul_is_commutative;

/// Raw units of the offset that secondary rays start away from a
/// surface, to avoid immediate self-intersection (about 0.0001).
pub const BIAS_BITS: i64 = 7;

/// Raw units of the index of refraction of sphere material (1.458).
pub const IOR_BITS: i64 = 95551;

/// Clamp a scalar into [0, 1].
pub open spec fn spec_clamp01(value: Fx) -> Fx {
    if value.bits < 0 {
        Fx { bits: 0 }
    } else if value.bits > SCALE {
        Fx { bits: SCALE }
    } else {
        value
    }
}

/// Clamp a scalar into [0, 1]; light intensities use this.
pub fn clamp(value: Fx) -> (r: Fx)
    ensures
        r == spec_clamp01(value),
{
    if value.bits < 0 {
        Fx { bits: 0 }
    } else if value.bits > SCALE {
        Fx { bits: SCALE }
    } else {
        value
    }
}

/// The nearest-hit fold from sphere `i` on, given the best hit so far.
/// A new hit wins only if it is strictly positive and the best so far
/// is farther or a miss.
pub open spec fn spec_nearest_from(spheres: Seq<Sphere>, ray: Ray, i: int, d: Fx, idx: int)
    -> (Fx, int)
    decreases spheres.len() - i,
{
    if i < 0 || i >= spheres.len() {
        (d, idx)
    } else {
        let di = spec_intersect(spheres[i], ray);
        if di.bits > 0 && (di.bits < d.bits || d.bits < 0) {
            spec_nearest_from(spheres, ray, i + 1, di, i)
        } else {
            spec_nearest_from(spheres, ray, i + 1, d, idx)
        }
    }
}

/// The nearest hit over a whole scene, seeded with the first sphere.
pub open spec fn spec_nearest(spheres: Seq<Sphere>, ray: Ray) -> (Fx, int)
    recommends
        spheres.len() > 0,
{
    spec_nearest_from(spheres, ray, 1, spec_intersect(spheres[0], ray), 0)
}

/// Whether one sphere blocks the shadow ray toward a sun.
pub open spec fn spec_sun_occludes(s: Sphere, col_point: Vector3, sun: Sun) -> bool {
    spec_intersect(s, spec_ray_new(col_point, sun.direction)).bits >= 0
}

/// Whether any sphere shadows `col_point` from the sun.
pub open spec fn spec_in_sun_shadow(spheres: Seq<Sphere>, col_point: Vector3, sun: Sun)
    -> bool {
    exists|k: int| 0 <= k < spheres.len() && spec_sun_occludes(spheres[k], col_point, sun)
}

/// Whether one sphere blocks the segment from `col_point` to the bulb:
/// it must be hit strictly nearer than the bulb itself.
pub open spec fn spec_bulb_occludes(s: Sphere, col_point: Vector3, bulb: Bulb) -> bool {
    let to_bulb = bulb.position.spec_subtract(col_point);
    let dist_to_bulb = to_bulb.spec_magnitude();
    let d = spec_intersect(s, spec_ray_new(col_point, to_bulb));
    d.bits >= 0 && d.bits < dist_to_bulb.bits
}

/// Whether any sphere shadows `col_point` from the bulb; occluders
/// beyond the bulb do not count.
pub open spec fn spec_in_bulb_shadow(spheres: Seq<Sphere>, col_point: Vector3, bulb: Bulb)
    -> bool {
    exists|k: int| 0 <= k < spheres.len() && spec_bulb_occludes(spheres[k], col_point, bulb)
}

/// What one sun adds to the diffuse sum at a lit point: nothing when
/// shadowed, else albedo times light color times the clamped cosine,
/// with alpha forced to one.
pub open spec fn spec_sun_contribution(
    spheres: Seq<Sphere>,
    albedo: Color,
    col_point: Vector3,
    normal: Vector3,
    sun: Sun,
    acc: Color,
) -> Color {
    if !spec_in_sun_shadow(spheres, col_point, sun) {
        let intensity = spec_clamp01(normal.spec_dot(sun.direction));
        let c = albedo.spec_mul(sun.color).spec_scale(intensity);
        acc.spec_add(Color { r: c.r, g: c.g, b: c.b, a: Fx::spec_one() })
    } else {
        acc
    }
}

/// The diffuse sum over suns from index `i` on.
pub open spec fn spec_diffuse_suns(
    spheres: Seq<Sphere>,
    suns: Seq<Sun>,
    albedo: Color,
    col_point: Vector3,
    normal: Vector3,
    i: int,
    acc: Color,
) -> Color
    decreases suns.len() - i,
{
    if i < 0 || i >= suns.len() {
        acc
    } else {
        spec_diffuse_suns(
            spheres,
            suns,
            albedo,
            col_point,
            normal,
            i + 1,
            spec_sun_contribution(spheres, albedo, col_point, normal, suns[i], acc),
        )
    }
}

/// What one bulb adds to the diffuse sum: nothing when shadowed, else
/// the sun formula further scaled by the inverse square of the
/// distance to the bulb, with alpha forced to one.
pub open spec fn spec_bulb_contribution(
    spheres: Seq<Sphere>,
    albedo: Color,
    col_point: Vector3,
    normal: Vector3,
    bulb: Bulb,
    acc: Color,
) -> Color {
    if !spec_in_bulb_shadow(spheres, col_point, bulb) {
        let to_bulb = bulb.position.spec_subtract(col_point);
        let intensity = spec_clamp01(normal.spec_dot(to_bulb.spec_normalize()));
        let c = albedo.spec_mul(bulb.color).spec_scale(intensity).spec_scale(
            Fx::spec_one().spec_div(to_bulb.spec_dot(to_bulb)),
        );
        acc.spec_add(Color { r: c.r, g: c.g, b: c.b, a: Fx::spec_one() })
    } else {
        acc
    }
}

/// The diffuse sum over bulbs from index `i` on.
pub open spec fn spec_diffuse_bulbs(
    spheres: Seq<Sphere>,
    bulbs: Seq<Bulb>,
    albedo: Color,
    col_point: Vector3,
    normal: Vector3,
    i: int,
    acc: Color,
) -> Color
    decreases bulbs.len() - i,
{
    if i < 0 || i >= bulbs.len() {
        acc
    } else {
        spec_diffuse_bulbs(
            spheres,
            bulbs,
            albedo,
            col_point,
            normal,
            i + 1,
            spec_bulb_contribution(spheres, albedo, col_point, normal, bulbs[i], acc),
        )
    }
}

/// The whole direct-illumination term: the diffuse sums over all
/// suns and then all bulbs, from black.
pub open spec fn spec_direct_light(
    spheres: Seq<Sphere>,
    suns: Seq<Sun>,
    bulbs: Seq<Bulb>,
    shape: Sphere,
    lit_point: Vector3,
    normal: Vector3,
) -> Color {
    spec_diffuse_bulbs(
        spheres,
        bulbs,
        shape.color,
        lit_point,
        normal,
        0,
        spec_diffuse_suns(spheres, suns, shape.color, lit_point, normal, 0, Color::spec_black()),
    )
}

/// Mirror reflection of `dir` about `normal`: dir - 2 (normal . dir) normal.
pub open spec fn spec_reflect_dir(normal: Vector3, dir: Vector3) -> Vector3 {
    dir.spec_subtract(normal.spec_scale(Fx { bits: (2 * SCALE) as i64 }.spec_mul(normal.spec_dot(dir))))
}

/// The refraction discriminant 1 - eta^2 (1 - (normal . dir)^2);
/// negative exactly when total internal reflection applies.
pub open spec fn spec_refract_k(normal: Vector3, dir: Vector3, eta: Fx) -> Fx {
    let ndi = normal.spec_dot(dir);
    Fx::spec_one().spec_sub(
        eta.spec_mul(eta).spec_mul(Fx::spec_one().spec_sub(ndi.spec_mul(ndi))),
    )
}

/// Where a transparent surface sends the ray: Snell's transmitted
/// direction, or the mirror direction under total internal reflection.
pub open spec fn spec_refraction_dir(normal: Vector3, dir: Vector3, eta: Fx) -> Vector3 {
    let ndi = normal.spec_dot(dir);
    let k = spec_refract_k(normal, dir, eta);
    if k.bits < 0 {
        spec_reflect_dir(normal, dir)
    } else {
        dir.spec_scale(eta).spec_subtract(
            normal.spec_scale(eta.spec_mul(ndi).spec_add(k.spec_sqrt())),
        )
    }
}

/// The recursive shading function over a scene, as a mathematical
/// value: `level` counts the remaining bounces.
pub open spec fn spec_shade(
    spheres: Seq<Sphere>,
    suns: Seq<Sun>,
    bulbs: Seq<Bulb>,
    ray: Ray,
    level: int,
) -> Color
    recommends
        spheres.len() > 0,
    decreases (if level < 0 { 0int } else { level + 1 }),
{
    if level < 0 {
        Color::spec_transparent()
    } else {
        let nearest = spec_nearest(spheres, ray);
        let min_dist = nearest.0;
        if min_dist.bits < 0 {
            Color::spec_transparent()
        } else {
            let shape = spheres[nearest.1];
            let collision_point = ray.origin.spec_add(ray.direction.spec_scale(min_dist));
            let geo_normal = spec_normal(shape, collision_point);
            let flipped = ray.direction.spec_dot(geo_normal).bits > 0;
            let normal = if flipped {
                geo_normal.spec_scale(Fx { bits: (-SCALE) as i64 })
            } else {
                geo_normal
            };
            let ior = if flipped {
                Fx::spec_one().spec_div(Fx { bits: IOR_BITS })
            } else {
                Fx { bits: IOR_BITS }
            };
            let shiny_color = if shape.shininess.r.bits != 0 {
                let origin2 = collision_point.spec_add(normal.spec_scale(Fx { bits: BIAS_BITS }));
                let new_ray = spec_ray_new(origin2, spec_reflect_dir(normal, ray.direction));
                spec_shade(spheres, suns, bulbs, new_ray, level - 1)
            } else {
                Color::spec_black()
            };
            let trans_color = if shape.transparency.r.bits != 0 {
                let origin2 = collision_point.spec_subtract(
                    normal.spec_scale(Fx { bits: BIAS_BITS }),
                );
                let new_ray = spec_ray_new(
                    origin2,
                    spec_refraction_dir(normal, ray.direction, ior),
                );
                spec_shade(spheres, suns, bulbs, new_ray, level - 1)
            } else {
                Color::spec_black()
            };
            let lit_point = collision_point.spec_add(normal.spec_scale(Fx { bits: BIAS_BITS }));
            let diffuse_color = spec_direct_light(spheres, suns, bulbs, shape, lit_point, normal);
            let shiny_mult = shape.shininess.r;
            let trans_mult = Fx::spec_one().spec_sub(shiny_mult).spec_mul(shape.transparency.r);
            let diffuse_mult = Fx::spec_one().spec_sub(shiny_mult).spec_sub(trans_mult);
            let total = diffuse_color.spec_scale(diffuse_mult).spec_add(
                shiny_color.spec_scale(shiny_mult),
            ).spec_add(trans_color.spec_scale(trans_mult));
            Color { r: total.r, g: total.g, b: total.b, a: Fx::spec_one() }
        }
    }
}

/// Rendering a scene with no spheres is refused rather than undefined.
#[derive(Clone, Copy, PartialEq, Eq, Structural, Debug)]
pub enum RenderError {
    NoPrimitives,
}

/// A fully materialized scene plus the fixed camera frame: eye at the
/// origin looking along -z, x to the right, y up.
pub struct Raytracer {
    pub width: u32,
    pub height: u32,
    pub spheres: Vec<Sphere>,
    pub suns: Vec<Sun>,
    pub bulbs: Vec<Bulb>,
    pub bounces: i32,
    pub eye: Vector3,
    pub forward: Vector3,
    pub right: Vector3,
    pub up: Vector3,
}

pub open spec fn spec_eye() -> Vector3 {
    Vector3 { x: Fx { bits: 0 }, y: Fx { bits: 0 }, z: Fx { bits: 0 } }
}

pub open spec fn spec_forward() -> Vector3 {
    Vector3 { x: Fx { bits: 0 }, y: Fx { bits: 0 }, z: Fx { bits: (-SCALE) as i64 } }
}

pub open spec fn spec_right() -> Vector3 {
    Vector3 { x: Fx { bits: SCALE }, y: Fx { bits: 0 }, z: Fx { bits: 0 } }
}

pub open spec fn spec_up() -> Vector3 {
    Vector3 { x: Fx { bits: 0 }, y: Fx { bits: SCALE }, z: Fx { bits: 0 } }
}

/// Whether the eye point (the origin) lies strictly inside a sphere.
pub open spec fn spec_contains_camera(s: Sphere) -> bool {
    s.center.spec_dot(s.center).bits < s.r.spec_mul(s.r).bits
}

/// A sphere with its camera-containment flag computed.
pub open spec fn spec_with_camera_flag(s: Sphere) -> Sphere {
    Sphere {
        center: s.center,
        r: s.r,
        color: s.color,
        shininess: s.shininess,
        transparency: s.transparency,
        contains_camera: spec_contains_camera(s),
    }
}

/// The camera ray through pixel column `x`, row `y`: offsets on a
/// virtual image plane one unit along the forward axis, normalized
/// against the larger image dimension, with the row axis flipped.
pub open spec fn spec_ray_from_pixel(rt: Raytracer, x: Fx, y: Fx) -> Ray {
    let float_w = Fx { bits: (rt.width * 65536) as i64 };
    let float_h = Fx { bits: (rt.height * 65536) as i64 };
    let max_dim = if float_h.bits < float_w.bits {
        float_w
    } else {
        float_h
    };
    let sx = Fx { bits: (2 * SCALE) as i64 }.spec_mul(x).spec_sub(float_w).spec_div(max_dim);
    let sy = float_h.spec_sub(Fx { bits: (2 * SCALE) as i64 }.spec_mul(y)).spec_div(max_dim);
    let dir = rt.up.spec_scale(sy).spec_add(rt.right.spec_scale(sx)).spec_add(rt.forward);
    spec_ray_new(rt.eye, dir)
}

/// The color of pixel (i, j) of a scene, before byte conversion.
#[verifier::opaque]
pub open spec fn spec_pixel(rt: Raytracer, i: int, j: int) -> Color {
    spec_shade(
        rt.spheres@,
        rt.suns@,
        rt.bulbs@,
        spec_ray_from_pixel(rt, Fx { bits: (i * 65536) as i64 }, Fx { bits: (j * 65536) as i64 }),
        rt.bounces as int,
    )
}

/// The four bytes of pixel (i, j) stand at their row-major place in
/// the output buffer.
pub open spec fn spec_pixel_ok(rt: Raytracer, buf: Seq<u8>, i: int, j: int) -> bool {
    let base = (j * rt.width + i) * 4;
    &&& buf[base] == spec_clamp_and_convert(spec_pixel(rt, i, j).r)
    &&& buf[base + 1] == spec_clamp_and_convert(spec_pixel(rt, i, j).g)
    &&& buf[base + 2] == spec_clamp_and_convert(spec_pixel(rt, i, j).b)
    &&& buf[base + 3] == spec_clamp_and_convert(spec_pixel(rt, i, j).a)
}

impl Raytracer {
    /// Build the scene for rendering: fixed camera frame, and the
    /// camera-containment pre-pass over all spheres.
    pub fn new(
        width: u32,
        height: u32,
        spheres: Vec<Sphere>,
        suns: Vec<Sun>,
        bulbs: Vec<Bulb>,
        bounces: i32,
    ) -> (rt: Raytracer)
        ensures
            rt.width == width,
            rt.height == height,
            rt.suns == suns,
            rt.bulbs == bulbs,
            rt.bounces == bounces,
            rt.spheres@.len() == spheres@.len(),
            forall|k: int|
                0 <= k < spheres@.len() ==> rt.spheres@[k] == spec_with_camera_flag(spheres@[k]),
            rt.eye == spec_eye(),
            rt.forward == spec_forward(),
            rt.right == spec_right(),
            rt.up == spec_up(),
    {
        let mut marked: Vec<Sphere> = Vec::new();
        let mut i: usize = 0;
        while i < spheres.len()
            invariant
                i <= spheres@.len(),
                marked@.len() == i,
                forall|k: int| 0 <= k < i ==> marked@[k] == spec_with_camera_flag(spheres@[k]),
            decreases spheres@.len() - i,
        {
            let s = spheres[i];
            let flag = s.center.dot(&s.center).bits < s.r.mul(s.r).bits;
            marked.push(
                Sphere {
                    center: s.center,
                    r: s.r,
                    color: s.color,
                    shininess: s.shininess,
                    transparency: s.transparency,
                    contains_camera: flag,
                },
            );
            i += 1;
        }
        Raytracer {
            width,
            height,
            spheres: marked,
            suns,
            bulbs,
            bounces,
            eye: Vector3 { x: Fx { bits: 0 }, y: Fx { bits: 0 }, z: Fx { bits: 0 } },
            forward: Vector3 { x: Fx { bits: 0 }, y: Fx { bits: 0 }, z: Fx { bits: -SCALE } },
            right: Vector3 { x: Fx { bits: SCALE }, y: Fx { bits: 0 }, z: Fx { bits: 0 } },
            up: Vector3 { x: Fx { bits: 0 }, y: Fx { bits: SCALE }, z: Fx { bits: 0 } },
        }
    }

    /// The camera ray through a pixel, from column and row given as
    /// fixed-point numbers.
    pub fn get_ray_from_pixel(&self, x: Fx, y: Fx) -> (ray: Ray)
        ensures
            ray == spec_ray_from_pixel(*self, x, y),
    {
        let float_w = Fx { bits: (self.width as i64) * 65536 };
        let float_h = Fx { bits: (self.height as i64) * 65536 };

        let max_dim = if float_h.bits < float_w.bits {
            float_w
        } else {
            float_h
        };
        let sx = Fx { bits: 2 * SCALE }.mul(x).sub(float_w).div(max_dim);
        let sy = float_h.sub(Fx { bits: 2 * SCALE }.mul(y)).div(max_dim);

        let dir = self.up.scale(sy);
        let dir = dir.add(&self.right.scale(sx));
        let dir = dir.add(&self.forward);

        Ray::new(self.eye, dir)
    }

    /// The nearest forward hit along a ray, seeded with sphere 0.
    fn nearest_hit(&self, ray: &Ray) -> (res: (Fx, usize))
        requires
            self.spheres@.len() > 0,
        ensures
            (res.0, res.1 as int) == spec_nearest(self.spheres@, *ray),
            res.1 < self.spheres@.len(),
    {
        let mut min_dist = self.spheres[0].intersect(ray);
        let mut min_idx: usize = 0;
        let mut i: usize = 1;
        while i < self.spheres.len()
            invariant
                1 <= i <= self.spheres@.len(),
                min_idx < i,
                spec_nearest(self.spheres@, *ray) == spec_nearest_from(
                    self.spheres@,
                    *ray,
                    i as int,
                    min_dist,
                    min_idx as int,
                ),
            decreases self.spheres@.len() - i,
        {
            let d = self.spheres[i].intersect(ray);
            if d.bits > 0 && (d.bits < min_dist.bits || min_dist.bits < 0) {
                min_dist = d;
                min_idx = i;
            }
            i += 1;
        }
        (min_dist, min_idx)
    }

    /// Whether any sphere shadows `col_point` from the sun.
    pub fn is_in_sun_shadow(&self, col_point: &Vector3, sun: &Sun) -> (b: bool)
        ensures
            b == spec_in_sun_shadow(self.spheres@, *col_point, *sun),
    {
        let shadow_ray = Ray::new(*col_point, sun.direction);
        let mut k: usize = 0;
        while k < self.spheres.len()
            invariant
                k <= self.spheres@.len(),
                shadow_ray == spec_ray_new(*col_point, sun.direction),
                forall|j: int| 0 <= j < k ==> !spec_sun_occludes(self.spheres@[j], *col_point, *sun),
            decreases self.spheres@.len() - k,
        {
            if self.spheres[k].intersect(&shadow_ray).bits >= 0 {
                return true;
            }
            k += 1;
        }
        false
    }

    /// Whether any sphere shadows `col_point` from the bulb; a sphere
    /// hit beyond the bulb itself casts no shadow.
    pub fn is_in_bulb_shadow(&self, col_point: &Vector3, bulb: &Bulb) -> (b: bool)
        ensures
            b == spec_in_bulb_shadow(self.spheres@, *col_point, *bulb),
    {
        let to_bulb = bulb.position.subtract(col_point);
        let dist_to_bulb = to_bulb.magnitude();
        let shadow_ray = Ray::new(*col_point, to_bulb);
        let mut k: usize = 0;
        while k < self.spheres.len()
            invariant
                k <= self.spheres@.len(),
                to_bulb == bulb.position.spec_subtract(*col_point),
                dist_to_bulb == to_bulb.spec_magnitude(),
                shadow_ray == spec_ray_new(*col_point, to_bulb),
                forall|j: int|
                    0 <= j < k ==> !spec_bulb_occludes(self.spheres@[j], *col_point, *bulb),
            decreases self.spheres@.len() - k,
        {
            let d = self.spheres[k].intersect(&shadow_ray);
            if d.bits >= 0 && d.bits < dist_to_bulb.bits {
                return true;
            }
            k += 1;
        }
        false
    }

    /// Shade one ray: nearest hit, then reflected, refracted and
    /// direct-light contributions, composited by the material weights.
    pub fn shoot_ray(&self, ray: Ray, level: i32) -> (c: Color)
        requires
            self.spheres@.len() > 0,
        ensures
            c == spec_shade(self.spheres@, self.suns@, self.bulbs@, ray, level as int),
        decreases (if level < 0 { 0int } else { level + 1 }),
    {
        if level < 0 {
            return Color::transparent();
        }
        let (min_dist, min_idx) = self.nearest_hit(&ray);
        if min_dist.bits < 0 {
            return Color::transparent();
        }
        let shape = self.spheres[min_idx];

        let collision_point = ray.origin.add(&ray.direction.scale(min_dist));
        let geo_normal = shape.normal(&collision_point);

        let flipped = ray.direction.dot(&geo_normal).bits > 0;
        let normal = if flipped {
            geo_normal.scale(Fx { bits: -SCALE })
        } else {
            geo_normal
        };
        let ior = if flipped {
            Fx { bits: SCALE }.div(Fx { bits: IOR_BITS })
        } else {
            Fx { bits: IOR_BITS }
        };
        let mut shiny_color = Color::black();
        if shape.shininess.r.bits != 0 {
            let temp_scale = Fx { bits: 2 * SCALE }.mul(normal.dot(&ray.direction));
            let scaled_n = normal.scale(temp_scale);
            let new_dir = ray.direction.subtract(&scaled_n);
            let origin2 = collision_point.add(&normal.scale(Fx { bits: BIAS_BITS }));
            let new_ray = Ray::new(origin2, new_dir);
            shiny_color = self.shoot_ray(new_ray, level - 1);
        }

        let mut trans_color = Color::black();
        if shape.transparency.r.bits != 0 {
            let eta = ior;
            let normal_dot_incident = normal.dot(&ray.direction);
            let k = Fx { bits: SCALE }.sub(
                eta.mul(eta).mul(
                    Fx { bits: SCALE }.sub(normal_dot_incident.mul(normal_dot_incident)),
                ),
            );
            let new_dir = if k.bits < 0 {
                // total internal reflection: fall back to the mirror
                let temp_scale = Fx { bits: 2 * SCALE }.mul(normal_dot_incident);
                let scaled_n = normal.scale(temp_scale);
                ray.direction.subtract(&scaled_n)
            } else {
                let temp_scale = eta.mul(normal_dot_incident).add(k.sqrt());
                ray.direction.scale(eta).subtract(&normal.scale(temp_scale))
            };
            let origin2 = collision_point.subtract(&normal.scale(Fx { bits: BIAS_BITS }));
            let new_ray = Ray::new(origin2, new_dir);
            proof {
                assert(new_dir == spec_refraction_dir(normal, ray.direction, ior));
            }
            trans_color = self.shoot_ray(new_ray, level - 1);
        }

        let lit_point = collision_point.add(&normal.scale(Fx { bits: BIAS_BITS }));

        let mut diffuse_color = Color::black();
        let mut si: usize = 0;
        while si < self.suns.len()
            invariant
                si <= self.suns@.len(),
                self.spheres@.len() > 0,
                spec_diffuse_suns(
                    self.spheres@,
                    self.suns@,
                    shape.color,
                    lit_point,
                    normal,
                    0,
                    Color::spec_black(),
                ) == spec_diffuse_suns(
                    self.spheres@,
                    self.suns@,
                    shape.color,
                    lit_point,
                    normal,
                    si as int,
                    diffuse_color,
                ),
            decreases self.suns@.len() - si,
        {
            let sun = self.suns[si];
            if !self.is_in_sun_shadow(&lit_point, &sun) {
                let intensity = clamp(normal.dot(&sun.direction));
                let c = shape.color.mul(&sun.color).scale(intensity);
                let color_from_light = Color { r: c.r, g: c.g, b: c.b, a: Fx { bits: SCALE } };
                diffuse_color = diffuse_color.add(&color_from_light);
            }
            si += 1;
        }

        let mut bi: usize = 0;
        while bi < self.bulbs.len()
            invariant
                bi <= self.bulbs@.len(),
                self.spheres@.len() > 0,
                spec_diffuse_bulbs(
                    self.spheres@,
                    self.bulbs@,
                    shape.color,
                    lit_point,
                    normal,
                    0,
                    spec_diffuse_suns(
                        self.spheres@,
                        self.suns@,
                        shape.color,
                        lit_point,
                        normal,
                        0,
                        Color::spec_black(),
                    ),
                ) == spec_diffuse_bulbs(
                    self.spheres@,
                    self.bulbs@,
                    shape.color,
                    lit_point,
                    normal,
                    bi as int,
                    diffuse_color,
                ),
            decreases self.bulbs@.len() - bi,
        {
            let bulb = self.bulbs[bi];
            if !self.is_in_bulb_shadow(&lit_point, &bulb) {
                let to_bulb = bulb.position.subtract(&lit_point);
                let intensity = clamp(normal.dot(&to_bulb.normalize()));
                let c = shape.color.mul(&bulb.color).scale(intensity).scale(
                    Fx { bits: SCALE }.div(to_bulb.dot(&to_bulb)),
                );
                let color_from_light = Color { r: c.r, g: c.g, b: c.b, a: Fx { bits: SCALE } };
                diffuse_color = diffuse_color.add(&color_from_light);
            }
            bi += 1;
        }

        let shiny_mult = shape.shininess.r;
        let trans_mult = Fx { bits: SCALE }.sub(shiny_mult).mul(shape.transparency.r);
        let diffuse_mult = Fx { bits: SCALE }.sub(shiny_mult).sub(trans_mult);

        let weighted_diffuse = diffuse_color.scale(diffuse_mult);
        let weighted_shininess = shiny_color.scale(shiny_mult);
        let weighted_transparency = trans_color.scale(trans_mult);

        let total = weighted_diffuse.add(&weighted_shininess).add(&weighted_transparency);
        Color { r: total.r, g: total.g, b: total.b, a: Fx { bits: SCALE } }
    }

    /// Render every pixel into a row-major RGBA byte buffer; a scene
    /// without spheres is refused.
    #[verifier::rlimit(100)]
    pub fn trace_from_camera(&self) -> (res: Result<Vec<u8>, RenderError>)
        requires
            self.width * self.height * 4 <= usize::MAX,
        ensures
            res is Err <==> self.spheres@.len() == 0,
            res matches Ok(buf) ==> buf@.len() == self.width * self.height * 4
                && forall|i: int, j: int|
                    0 <= i < self.width && 0 <= j < self.height ==> spec_pixel_ok(
                        *self,
                        buf@,
                        i,
                        j,
                    ),
    {
        if self.spheres.len() == 0 {
            return Err(RenderError::NoPrimitives);
        }
        let mut buf: Vec<u8> = Vec::new();
        let mut j: u32 = 0;
        while j < self.height
            invariant
                j <= self.height,
                self.spheres@.len() > 0,
                self.width * self.height * 4 <= usize::MAX,
                buf@.len() == j * self.width * 4,
                forall|i2: int, j2: int|
                    0 <= i2 < self.width && 0 <= j2 < j ==> spec_pixel_ok(*self, buf@, i2, j2),
            decreases self.height - j,
        {
            let mut i: u32 = 0;
            while i < self.width
                invariant
                    i <= self.width,
                    j < self.height,
                    self.spheres@.len() > 0,
                    self.width * self.height * 4 <= usize::MAX,
                    buf@.len() == (j * self.width + i) * 4,
                    forall|i2: int, j2: int|
                        0 <= i2 < self.width && 0 <= j2 < j ==> spec_pixel_ok(
                            *self,
                            buf@,
                            i2,
                            j2,
                        ),
                    forall|i2: int| 0 <= i2 < i ==> spec_pixel_ok(*self, buf@, i2, j as int),
                decreases self.width - i,
            {
                proof {
                    lemma_mul_inequality(j as int + 1, self.height as int, self.width as int);
                    lemma_mul_is_distributive_add_other_way(self.width as int, j as int, 1);
                    lemma_mul_is_commutative(self.height as int, self.width as int);
                }
                let ray = self.get_ray_from_pixel(
                    Fx { bits: (i as i64) * 65536 },
                    Fx { bits: (j as i64) * 65536 },
                );
                let color = self.shoot_ray(ray, self.bounces);
                let bytes = color.to_bytes_color();
                let ghost old_buf = buf@;
                buf.push(bytes[0]);
                buf.push(bytes[1]);
                buf.push(bytes[2]);
                buf.push(bytes[3]);
                proof {
                    let w = self.width as int;
                    let jj = j as int;
                    let ii = i as int;
                    assert(color == spec_pixel(*self, ii, jj)) by {
                        reveal(spec_pixel);
                    }
                    assert forall|k: int| 0 <= k < old_buf.len() implies buf@[k] == old_buf[k]
                    by {
                    }
                    assert(buf@[(jj * w + ii) * 4] == bytes[0]);
                    assert(buf@[(jj * w + ii) * 4 + 1] == bytes[1]);
                    assert(buf@[(jj * w + ii) * 4 + 2] == bytes[2]);
                    assert(buf@[(jj * w + ii) * 4 + 3] == bytes[3]);
                    assert(spec_pixel_ok(*self, buf@, ii, jj));
                    assert forall|i2: int, j2: int|
                        0 <= i2 < w && 0 <= j2 < jj implies spec_pixel_ok(*self, buf@, i2, j2)
                    by {
                        lemma_mul_inequality(j2 + 1, jj, w);
                        lemma_mul_is_distributive_add_other_way(w, j2, 1);
                        assert(spec_pixel_ok(*self, old_buf, i2, j2));
                        assert((j2 * w + i2) * 4 + 3 < old_buf.len());
                    }
                    assert forall|i2: int| 0 <= i2 < ii implies spec_pixel_ok(*self, buf@, i2, jj)
                    by {
                        assert(spec_pixel_ok(*self, old_buf, i2, jj));
                        assert((jj * w + i2) * 4 + 3 < old_buf.len());
                    }
                }
                i += 1;
            }
            proof {
                lemma_mul_is_distributive_add_other_way(self.width as int, j as int, 1);
            }
            j += 1;
        }
        proof {
            lemma_mul_is_commutative(self.height as int, self.width as int);
        }
        Ok(buf)
    }
}

} // verus!
