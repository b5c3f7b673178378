//! Laws of the tracer, proved once and for all: how occluders decide
//! shadows, how the composite weights degenerate for plain diffuse
//! surfaces, when total internal reflection takes over, and what the
//! intersection and normalization formulas give on axis-aligned
//! configurations that the representation holds exactly.

use vstd::prelude::*;

verus! {

use crate::fixed::Fx;
use crate::fixed::SCALE;
use crate::fixed::abs_i;
use crate::fixed::tdiv;
use crate::fixed::lemma_sqrt_floor_unique;
use crate::fixed::lemma_square_lt;
use crate::fixed::lemma_mul_bounds;
use crate::fixed::lemma_tdiv_scale_cancel;
use crate::color::Color;
use crate::vec3::Vector3;
use crate::geom::Ray;
use crate::geom::Sphere;
use crate::geom::Sun;
use crate::geom::Bulb;
use crate::geom::spec_intersect;
use crate::geom::spec_normal;
use crate::geom::spec_ray_new;
use crate::trace::Raytracer;
use crate::trace::spec_pixel_ok;
use crate::trace::spec_nearest;
use crate::trace::spec_nearest_from;
use crate::trace::spec_in_sun_shadow;
use crate::trace::spec_in_bulb_shadow;
use crate::trace::spec_sun_occludes;
use crate::trace::spec_bulb_occludes;
use crate::trace::spec_diffuse_suns;
use crate::trace::spec_direct_light;
use crate::trace::spec_shade;
use crate::trace::spec_reflect_dir;
use crate::trace::spec_refract_k;
use crate::trace::spec_refraction_dir;
use crate::trace::BIAS_BITS;

/// The nearest-hit search always names a sphere of the scene.
pub proof fn lemma_nearest_from_index(spheres: Seq<Sphere>, ray: Ray, i: int, d: Fx, idx: int)
    requires
        0 <= idx < spheres.len(),
        0 <= i,
    ensures
        0 <= spec_nearest_from(spheres, ray, i, d, idx).1 < spheres.len(),
    decreases spheres.len() - i,
{
    if i < spheres.len() {
        let di = spec_intersect(spheres[i], ray);
        if di.bits > 0 && (di.bits < d.bits || d.bits < 0) {
            lemma_nearest_from_index(spheres, ray, i + 1, di, i);
        } else {
            lemma_nearest_from_index(spheres, ray, i + 1, d, idx);
        }
    }
}

/// The nearest hit of a nonempty scene names a sphere of the scene.
pub proof fn lemma_nearest_index_in_range(spheres: Seq<Sphere>, ray: Ray)
    requires
        spheres.len() > 0,
    ensures
        0 <= spec_nearest(spheres, ray).1 < spheres.len(),
{
    lemma_nearest_from_index(spheres, ray, 1, spec_intersect(spheres[0], ray), 0);
}

/// A sphere that the shadow ray toward a sun meets at any forward
/// distance puts the point in that sun's shadow.
pub proof fn lemma_occluder_shadows_sun(
    spheres: Seq<Sphere>,
    col_point: Vector3,
    sun: Sun,
    k: int,
)
    requires
        0 <= k < spheres.len(),
        spec_intersect(spheres[k], spec_ray_new(col_point, sun.direction)).bits >= 0,
    ensures
        spec_in_sun_shadow(spheres, col_point, sun),
{
    assert(spec_sun_occludes(spheres[k], col_point, sun));
}

/// A sun in whose shadow the point lies adds nothing to the diffuse
/// sum: the fold steps over it unchanged.
pub proof fn lemma_shadowed_sun_adds_nothing(
    spheres: Seq<Sphere>,
    suns: Seq<Sun>,
    albedo: Color,
    col_point: Vector3,
    normal: Vector3,
    i: int,
    acc: Color,
)
    requires
        0 <= i < suns.len(),
        spec_in_sun_shadow(spheres, col_point, suns[i]),
    ensures
        spec_diffuse_suns(spheres, suns, albedo, col_point, normal, i, acc)
            == spec_diffuse_suns(spheres, suns, albedo, col_point, normal, i + 1, acc),
{
}

/// Spheres that the bulb shadow ray misses, or meets only at or
/// beyond the bulb itself, cast no shadow from that bulb.
pub proof fn lemma_occluders_beyond_bulb_no_shadow(
    spheres: Seq<Sphere>,
    col_point: Vector3,
    bulb: Bulb,
)
    requires
        forall|k: int|
            0 <= k < spheres.len() ==> {
                let to_bulb = bulb.position.spec_subtract(col_point);
                let d = spec_intersect(#[trigger] spheres[k], spec_ray_new(col_point, to_bulb));
                d.bits < 0 || d.bits >= to_bulb.spec_magnitude().bits
            },
    ensures
        !spec_in_bulb_shadow(spheres, col_point, bulb),
{
    assert forall|k: int| 0 <= k < spheres.len() implies !spec_bulb_occludes(
        spheres[k],
        col_point,
        bulb,
    ) by {
        let to_bulb = bulb.position.spec_subtract(col_point);
        let d = spec_intersect(spheres[k], spec_ray_new(col_point, to_bulb));
        assert(d.bits < 0 || d.bits >= to_bulb.spec_magnitude().bits);
    }
}

/// Once the refraction discriminant is negative, the transparency
/// bounce leaves along the mirror direction: total internal
/// reflection, never the transmission formula.
pub proof fn lemma_total_internal_reflection(normal: Vector3, dir: Vector3, eta: Fx)
    requires
        spec_refract_k(normal, dir, eta).bits < 0,
    ensures
        spec_refraction_dir(normal, dir, eta) == spec_reflect_dir(normal, dir),
{
}

/// For a sphere whose reflective and refractive weights are both
/// zero, the shaded color is exactly the direct-illumination term
/// with alpha one: the composite weights reduce to one, zero, zero.
pub proof fn lemma_diffuse_only_shade(
    spheres: Seq<Sphere>,
    suns: Seq<Sun>,
    bulbs: Seq<Bulb>,
    ray: Ray,
    level: int,
)
    requires
        level >= 0,
        spheres.len() > 0,
        spec_nearest(spheres, ray).0.bits >= 0,
        spheres[spec_nearest(spheres, ray).1].shininess.r.bits == 0,
        spheres[spec_nearest(spheres, ray).1].transparency.r.bits == 0,
    ensures
        ({
            let nearest = spec_nearest(spheres, ray);
            let shape = spheres[nearest.1];
            let collision_point = ray.origin.spec_add(ray.direction.spec_scale(nearest.0));
            let geo_normal = spec_normal(shape, collision_point);
            let flipped = ray.direction.spec_dot(geo_normal).bits > 0;
            let normal = if flipped {
                geo_normal.spec_scale(Fx { bits: (-SCALE) as i64 })
            } else {
                geo_normal
            };
            let lit_point = collision_point.spec_add(normal.spec_scale(Fx { bits: BIAS_BITS }));
            let d = spec_direct_light(spheres, suns, bulbs, shape, lit_point, normal);
            spec_shade(spheres, suns, bulbs, ray, level) == (Color {
                r: d.r,
                g: d.g,
                b: d.b,
                a: Fx { bits: SCALE },
            })
        }),
{
    lemma_nearest_index_in_range(spheres, ray);
    let nearest = spec_nearest(spheres, ray);
    let shape = spheres[nearest.1];
    let collision_point = ray.origin.spec_add(ray.direction.spec_scale(nearest.0));
    let geo_normal = spec_normal(shape, collision_point);
    let flipped = ray.direction.spec_dot(geo_normal).bits > 0;
    let normal = if flipped {
        geo_normal.spec_scale(Fx { bits: (-SCALE) as i64 })
    } else {
        geo_normal
    };
    let lit_point = collision_point.spec_add(normal.spec_scale(Fx { bits: BIAS_BITS }));
    let d = spec_direct_light(spheres, suns, bulbs, shape, lit_point, normal);
    let one = Fx { bits: SCALE };
    let zero = Fx { bits: 0 };
    assert(shape.shininess.r == zero);
    assert(shape.transparency.r == zero);
    assert(one.spec_sub(zero) == one);
    one.lemma_mul_zero();
    assert(one.spec_sub(zero).spec_mul(shape.transparency.r) == zero);
    assert(one.spec_sub(zero).spec_sub(zero) == one);
    d.r.lemma_mul_one();
    d.g.lemma_mul_one();
    d.b.lemma_mul_one();
    d.a.lemma_mul_one();
    assert(d.spec_scale(one) == d);
    let black = Color::spec_black();
    black.r.lemma_mul_zero();
    black.g.lemma_mul_zero();
    black.b.lemma_mul_zero();
    black.a.lemma_mul_zero();
    assert(black.spec_scale(zero) == (Color { r: zero, g: zero, b: zero, a: zero }));
    d.r.lemma_add_zero();
    d.g.lemma_add_zero();
    d.b.lemma_add_zero();
    d.a.lemma_add_zero();
    assert(d.spec_add(Color { r: zero, g: zero, b: zero, a: zero }) == d);
}

/// Normalizing an axis-aligned vector whose length the representation
/// holds exactly yields a unit vector: its magnitude is exactly one.
pub proof fn lemma_normalize_axis_unit(v: Vector3)
    requires
        v.x.bits == 0,
        v.y.bits == 0,
        v.z.bits % 65536 == 0,
        v.z.bits != 0,
        -0x8000000000 <= v.z.bits <= 0x8000000000,
    ensures
        v.spec_normalize() == (Vector3 {
            x: Fx { bits: 0 },
            y: Fx { bits: 0 },
            z: Fx { bits: if v.z.bits > 0 { 65536i64 } else { -65536i64 } },
        }),
        v.spec_normalize().spec_magnitude() == (Fx { bits: SCALE }),
{
    let z = v.z.bits as int;
    let az = abs_i(z);
    lemma_square_multiple(z);
    lemma_mul_bounds(z, z, 0x8000000000, 0x8000000000);
    assert((0x8000000000 as int) * (0x8000000000 as int) == 0x40000000000000000000)
        by (nonlinear_arith);
    assert(z * z >= 0) by (nonlinear_arith);
    // the squared magnitude is exact
    let q = z * z / 65536;
    vstd::arithmetic::div_mod::lemma_fundamental_div_mod(z * z, 65536);
    assert(v.spec_dot(v) == Fx { bits: q as i64 });
    // its square root is the magnitude of v
    assert(q * 65536 == z * z);
    assert(az * az == z * z) by (nonlinear_arith)
        requires
            az == (if z >= 0 { z } else { -z }),
    ;
    assert((az + 1) * (az + 1) > az * az) by (nonlinear_arith)
        requires
            az >= 0,
    ;
    lemma_sqrt_floor_unique((q * 65536) as nat, az as nat);
    assert(v.spec_magnitude() == Fx { bits: az as i64 });
    // each component divided by the magnitude
    assert(tdiv(0int * 65536, 65536) == 0) by {
        lemma_tdiv_scale_cancel(0);
    }
    assert(z * 65536 == (if z >= 0 { az * 65536 } else { -(az * 65536) }));
    vstd::arithmetic::div_mod::lemma_div_multiples_vanish(65536, az);
    assert(abs_i(z * 65536) / az == 65536);
    assert(v.spec_normalize().z.bits == (if z > 0 { 65536int } else { -65536int }));
    // and the result is itself an exact axis vector of length one
    lemma_unit_z_magnitude(v.spec_normalize());
}

/// The magnitude of (0, 0, +-1) is exactly one.
pub proof fn lemma_unit_z_magnitude(u: Vector3)
    requires
        u.x.bits == 0,
        u.y.bits == 0,
        u.z.bits == 65536 || u.z.bits == -65536,
    ensures
        u.spec_magnitude() == (Fx { bits: SCALE }),
{
    assert(u.z.bits * u.z.bits == 0x100000000) by (nonlinear_arith)
        requires
            u.z.bits == 65536 || u.z.bits == -65536,
    ;
    assert(0x100000000int == 65536 * 65536) by (nonlinear_arith);
    vstd::arithmetic::div_mod::lemma_div_by_multiple(65536, 65536);
    assert(tdiv(0x100000000, 65536) == 65536);
    assert(u.spec_dot(u) == Fx { bits: 65536i64 });
    assert((65536 as int) * 65536 == 0x100000000) by (nonlinear_arith);
    assert((65537 as int) * 65537 > 0x100000000) by (nonlinear_arith);
    lemma_sqrt_floor_unique(0x100000000 as nat, 65536 as nat);
}

/// The truncated scaled square of a bounded value: nonnegative,
/// within the representation, and equal to the plain quotient.
pub proof fn lemma_sq_div_bound(x: int)
    requires
        -0x8000000000 <= x <= 0x8000000000,
    ensures
        0 <= x * x <= 0x40000000000000000000,
        0 <= (x * x) / 65536 <= 0x4000000000000000,
        tdiv(x * x, 65536) == (x * x) / 65536,
{
    lemma_mul_bounds(x, x, 0x8000000000, 0x8000000000);
    assert((0x8000000000 as int) * 0x8000000000 == 0x40000000000000000000) by (nonlinear_arith);
    assert(x * x >= 0) by (nonlinear_arith);
    assert(0x40000000000000000000int == 65536 * 0x4000000000000000) by (nonlinear_arith);
    vstd::arithmetic::div_mod::lemma_multiply_divide_le(x * x, 65536, 0x4000000000000000);
    vstd::arithmetic::div_mod::lemma_div_pos_is_pos(x * x, 65536);
}

/// From outside on the axis, a ray aimed through the center of a
/// sphere at the origin meets it at exactly the origin distance minus
/// the radius, whenever the distance and the squared radius are exact
/// in the representation.
pub proof fn lemma_axis_intersect_outside(s: Sphere, m: Fx)
    requires
        s.center == (Vector3 { x: Fx { bits: 0 }, y: Fx { bits: 0 }, z: Fx { bits: 0 } }),
        m.bits % 65536 == 0,
        (s.r.bits * s.r.bits) % 65536 == 0,
        0 < s.r.bits,
        s.r.bits < m.bits,
        m.bits <= 0x8000000000,
    ensures
        spec_intersect(
            s,
            Ray {
                origin: (Vector3 { x: Fx { bits: 0 }, y: Fx { bits: 0 }, z: m }),
                direction: (Vector3 {
                    x: Fx { bits: 0 },
                    y: Fx { bits: 0 },
                    z: Fx { bits: (-65536) as i64 },
                }),
            },
        ) == (Fx { bits: (m.bits - s.r.bits) as i64 }),
{
    let ray = Ray {
        origin: Vector3 { x: Fx { bits: 0 }, y: Fx { bits: 0 }, z: m },
        direction: Vector3 { x: Fx { bits: 0 }, y: Fx { bits: 0 }, z: Fx { bits: (-65536) as i64 } },
    };
    let zero = Fx { bits: 0 };
    let mb = m.bits as int;
    let rb = s.r.bits as int;
    zero.lemma_mul_zero();
    let oc = s.center.spec_subtract(ray.origin);
    assert(oc == (Vector3 { x: zero, y: zero, z: Fx { bits: (-mb) as i64 } }));
    // |oc|^2 = m^2, scaled down exactly
    assert(oc.z.bits * oc.z.bits == mb * mb) by (nonlinear_arith)
        requires
            oc.z.bits == -mb,
    ;
    lemma_sq_div_bound(mb);
    let ocm = oc.spec_dot(oc);
    assert(ocm == (Fx { bits: ((mb * mb) / 65536) as i64 }));
    // the direction is a unit vector
    lemma_unit_z_magnitude(ray.direction);
    assert(ray.direction.spec_magnitude() == (Fx { bits: 65536i64 }));
    // r^2, scaled down exactly
    lemma_sq_div_bound(rb);
    vstd::arithmetic::div_mod::lemma_fundamental_div_mod(rb * rb, 65536);
    let r2 = s.r.spec_mul(s.r);
    assert(r2 == (Fx { bits: ((rb * rb) / 65536) as i64 }));
    // the origin is outside the sphere
    lemma_square_lt(rb, mb);
    vstd::arithmetic::div_mod::lemma_div_is_ordered(rb * rb, mb * mb, 65536);
    assert(!(ocm.bits < r2.bits));
    // the center projects onto the ray at parameter m
    assert(oc.z.bits * ray.direction.z.bits == 65536 * mb) by (nonlinear_arith)
        requires
            oc.z.bits == -mb,
            ray.direction.z.bits == -65536,
    ;
    lemma_tdiv_scale_cancel(mb);
    let tcd = oc.spec_dot(ray.direction);
    assert(tcd == (Fx { bits: mb as i64 }));
    tcd.lemma_div_by_one();
    let tc = tcd.spec_div(ray.direction.spec_magnitude());
    assert(tc == (Fx { bits: mb as i64 }));
    // the closest approach is the center itself
    assert(ray.direction.z.bits * tc.bits == -(65536 * mb)) by (nonlinear_arith)
        requires
            ray.direction.z.bits == -65536,
            tc.bits == mb,
    ;
    assert(ray.direction.x.bits * tc.bits == 0) by (nonlinear_arith)
        requires
            ray.direction.x.bits == 0,
    ;
    lemma_tdiv_scale_cancel(-mb);
    let closest = ray.origin.spec_add(ray.direction.spec_scale(tc)).spec_subtract(s.center);
    assert(closest == (Vector3 { x: zero, y: zero, z: zero }));
    let d2 = closest.spec_dot(closest);
    assert(d2 == zero);
    // the half chord is exactly r
    let diff = r2.spec_sub(d2);
    assert(diff == r2);
    assert(r2.bits * (SCALE as int) == 65536 * ((rb * rb) / 65536)) by (nonlinear_arith)
        requires
            (SCALE as int) == 65536,
            r2.bits == (rb * rb) / 65536,
    ;
    assert(r2.bits * (SCALE as int) == rb * rb);
    assert((rb + 1) * (rb + 1) > rb * rb) by (nonlinear_arith)
        requires
            rb >= 0,
    ;
    lemma_sqrt_floor_unique((rb * rb) as nat, rb as nat);
    let toff0 = diff.spec_sqrt();
    assert(toff0 == (Fx { bits: rb as i64 }));
    toff0.lemma_div_by_one();
    assert(spec_intersect(s, ray) == tc.spec_sub(toff0));
    assert(tc.spec_sub(toff0) == (Fx { bits: (mb - rb) as i64 }));
}

/// From any point strictly inside on the axis, the same ray leaves
/// through the far surface: the distance is the axis offset plus the
/// radius, hence positive and at most the diameter.
pub proof fn lemma_axis_intersect_inside(s: Sphere, c: Fx)
    requires
        s.center == (Vector3 { x: Fx { bits: 0 }, y: Fx { bits: 0 }, z: Fx { bits: 0 } }),
        c.bits % 65536 == 0,
        (s.r.bits * s.r.bits) % 65536 == 0,
        0 < s.r.bits <= 0x8000000000,
        -s.r.bits < c.bits < s.r.bits,
    ensures
        spec_intersect(
            s,
            Ray {
                origin: (Vector3 { x: Fx { bits: 0 }, y: Fx { bits: 0 }, z: c }),
                direction: (Vector3 {
                    x: Fx { bits: 0 },
                    y: Fx { bits: 0 },
                    z: Fx { bits: (-65536) as i64 },
                }),
            },
        ) == (Fx { bits: (c.bits + s.r.bits) as i64 }),
        0 < c.bits + s.r.bits <= 2 * s.r.bits,
{
    let ray = Ray {
        origin: Vector3 { x: Fx { bits: 0 }, y: Fx { bits: 0 }, z: c },
        direction: Vector3 { x: Fx { bits: 0 }, y: Fx { bits: 0 }, z: Fx { bits: (-65536) as i64 } },
    };
    let zero = Fx { bits: 0 };
    let cb = c.bits as int;
    let rb = s.r.bits as int;
    let acb = abs_i(cb);
    zero.lemma_mul_zero();
    let oc = s.center.spec_subtract(ray.origin);
    assert(oc == (Vector3 { x: zero, y: zero, z: Fx { bits: (-cb) as i64 } }));
    // |oc|^2 = c^2, scaled down exactly
    assert(oc.z.bits * oc.z.bits == cb * cb) by (nonlinear_arith)
        requires
            oc.z.bits == -cb,
    ;
    lemma_sq_div_bound(cb);
    let ocm = oc.spec_dot(oc);
    assert(ocm == (Fx { bits: ((cb * cb) / 65536) as i64 }));
    lemma_unit_z_magnitude(ray.direction);
    lemma_sq_div_bound(rb);
    vstd::arithmetic::div_mod::lemma_fundamental_div_mod(rb * rb, 65536);
    let r2 = s.r.spec_mul(s.r);
    assert(r2 == (Fx { bits: ((rb * rb) / 65536) as i64 }));
    // the origin is strictly inside the sphere
    assert(acb * acb == cb * cb) by (nonlinear_arith)
        requires
            acb == (if cb >= 0 { cb } else { -cb }),
    ;
    if acb < rb {
        lemma_square_lt(acb, rb);
    }
    lemma_square_multiple(cb);
    crate::fixed::lemma_div_strict_of_multiples(cb * cb, rb * rb);
    assert(ocm.bits < r2.bits);
    // the center projects onto the ray at parameter c
    assert(oc.z.bits * ray.direction.z.bits == 65536 * cb) by (nonlinear_arith)
        requires
            oc.z.bits == -cb,
            ray.direction.z.bits == -65536,
    ;
    lemma_tdiv_scale_cancel(cb);
    let tcd = oc.spec_dot(ray.direction);
    assert(tcd == (Fx { bits: cb as i64 }));
    tcd.lemma_div_by_one();
    let tc = tcd.spec_div(ray.direction.spec_magnitude());
    assert(tc == (Fx { bits: cb as i64 }));
    // the closest approach is the center itself
    assert(ray.direction.z.bits * tc.bits == -(65536 * cb)) by (nonlinear_arith)
        requires
            ray.direction.z.bits == -65536,
            tc.bits == cb,
    ;
    assert(ray.direction.x.bits * tc.bits == 0) by (nonlinear_arith)
        requires
            ray.direction.x.bits == 0,
    ;
    lemma_tdiv_scale_cancel(-cb);
    let closest = ray.origin.spec_add(ray.direction.spec_scale(tc)).spec_subtract(s.center);
    assert(closest == (Vector3 { x: zero, y: zero, z: zero }));
    let d2 = closest.spec_dot(closest);
    assert(d2 == zero);
    // the half chord is exactly r, and the ray exits forward
    let diff = r2.spec_sub(d2);
    assert(diff == r2);
    assert(r2.bits * (SCALE as int) == 65536 * ((rb * rb) / 65536)) by (nonlinear_arith)
        requires
            (SCALE as int) == 65536,
            r2.bits == (rb * rb) / 65536,
    ;
    assert(r2.bits * (SCALE as int) == rb * rb);
    assert((rb + 1) * (rb + 1) > rb * rb) by (nonlinear_arith)
        requires
            rb >= 0,
    ;
    lemma_sqrt_floor_unique((rb * rb) as nat, rb as nat);
    let toff0 = diff.spec_sqrt();
    assert(toff0 == (Fx { bits: rb as i64 }));
    toff0.lemma_div_by_one();
    assert(spec_intersect(s, ray) == tc.spec_add(toff0));
    assert(tc.spec_add(toff0) == (Fx { bits: (cb + rb) as i64 }));
}

/// The rendered image is a function of the scene alone: any two
/// byte buffers that the renderer's contract admits for the same
/// scene are identical, byte for byte.
#[verifier::rlimit(60)]
pub proof fn lemma_render_unambiguous(rt: Raytracer, buf1: Seq<u8>, buf2: Seq<u8>)
    requires
        buf1.len() == rt.width * rt.height * 4,
        buf2.len() == rt.width * rt.height * 4,
        forall|i: int, j: int|
            0 <= i < rt.width && 0 <= j < rt.height ==> spec_pixel_ok(rt, buf1, i, j),
        forall|i: int, j: int|
            0 <= i < rt.width && 0 <= j < rt.height ==> spec_pixel_ok(rt, buf2, i, j),
    ensures
        buf1 =~= buf2,
{
    assert forall|k: int| 0 <= k < buf1.len() implies buf1[k] == buf2[k] by {
        let w = rt.width as int;
        let h = rt.height as int;
        let stride = w * 4;
        assert(stride * h == w * h * 4) by (nonlinear_arith)
            requires
                stride == w * 4,
        ;
        assert(w > 0 && h > 0) by {
            if w <= 0 || h <= 0 {
                assert(w * h * 4 == 0) by (nonlinear_arith)
                    requires
                        w >= 0,
                        h >= 0,
                        w == 0 || h == 0,
                ;
            }
        }
        let j = k / stride;
        let r = k % stride;
        let i = r / 4;
        let c = r % 4;
        vstd::arithmetic::div_mod::lemma_fundamental_div_mod(k, stride);
        vstd::arithmetic::div_mod::lemma_mod_division_less_than_divisor(k, stride);
        vstd::arithmetic::div_mod::lemma_fundamental_div_mod(r, 4);
        vstd::arithmetic::div_mod::lemma_mod_division_less_than_divisor(r, 4);
        vstd::arithmetic::div_mod::lemma_div_pos_is_pos(k, stride);
        vstd::arithmetic::div_mod::lemma_div_pos_is_pos(r, 4);
        vstd::arithmetic::div_mod::lemma_multiply_divide_lt(k, stride, h);
        vstd::arithmetic::div_mod::lemma_multiply_divide_lt(r, 4, w);
        assert(stride * j == (j * w) * 4) by (nonlinear_arith)
            requires
                stride == w * 4,
        ;
        assert(k == (j * w + i) * 4 + c);
        assert(spec_pixel_ok(rt, buf1, i, j));
        assert(spec_pixel_ok(rt, buf2, i, j));
    }
}

/// A square of a multiple of 2^16 is a multiple of 2^16.
pub proof fn lemma_square_multiple(mv: int)
    requires
        mv % 65536 == 0,
    ensures
        (mv * mv) % 65536 == 0,
{
    vstd::arithmetic::div_mod::lemma_fundamental_div_mod(mv, 65536);
    let q = mv / 65536;
    assert(mv * mv == (q * mv) * 65536) by (nonlinear_arith)
        requires
            mv == 65536 * q,
    ;
    vstd::arithmetic::div_mod::lemma_mod_multiples_basic(q * mv, 65536);
}

} // verus!
