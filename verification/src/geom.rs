//! Rays, lights and spheres, with the sphere intersection test.

use vstd::prelude::*;

verus! {

use crate::fixed::Fx;
use crate::fixed::SCALE;
use crate::color::Color;
use crate::vec3::Vector3;

/// A half line: origin plus a direction normalized at construction.
#[derive(Clone, Copy, PartialEq, Eq, Structural, Debug)]
pub struct Ray {
    pub origin: Vector3,
    pub direction: Vector3,
}

/// What `Ray::new` builds: the direction is normalized.
pub open spec fn spec_ray_new(origin: Vector3, direction: Vector3) -> Ray {
    Ray { origin, direction: direction.spec_normalize() }
}

impl Ray {
    pub fn new(origin: Vector3, direction: Vector3) -> (r: Ray)
        ensures
            r == spec_ray_new(origin, direction),
    {
        let direction = direction.normalize();
        Ray { origin, direction }
    }
}

/// A directional light infinitely far away: `direction` points from
/// every surface toward the light and is normalized at construction.
#[derive(Clone, Copy, PartialEq, Eq, Structural, Debug)]
pub struct Sun {
    pub direction: Vector3,
    pub color: Color,
}

impl Sun {
    pub fn new(direction: Vector3, color: Color) -> (s: Sun)
        ensures
            s == (Sun { direction: direction.spec_normalize(), color }),
    {
        Sun { direction: direction.normalize(), color }
    }
}

/// A point light whose intensity falls off with the square of the
/// distance from the shaded point.
#[derive(Clone, Copy, PartialEq, Eq, Structural, Debug)]
pub struct Bulb {
    pub position: Vector3,
    pub color: Color,
}

/// A sphere with its surface material: base color, reflectivity weight
/// and refractive weight (only the red channel of the last two acts as
/// the scalar weight), plus a flag for whether the eye sits inside it.
#[derive(Clone, Copy, PartialEq, Eq, Structural, Debug)]
pub struct Sphere {
    pub center: Vector3,
    pub r: Fx,
    pub color: Color,
    pub shininess: Color,
    pub transparency: Color,
    pub contains_camera: bool,
}

/// The parametric distance at which a ray meets a sphere: the smallest
/// forward hit from outside, the exit point from inside, and -1.0 when
/// there is no forward hit.
pub open spec fn spec_intersect(s: Sphere, ray: Ray) -> Fx {
    let oc = s.center.spec_subtract(ray.origin);
    let oc_mag_squared = oc.spec_dot(oc);
    let ray_d_mag = ray.direction.spec_magnitude();
    let r_squared = s.r.spec_mul(s.r);
    let inside = oc_mag_squared.bits < r_squared.bits;
    let t_center = oc.spec_dot(ray.direction).spec_div(ray_d_mag);
    if !inside && t_center.bits < 0 {
        Fx { bits: (-SCALE) as i64 }
    } else {
        let closest = ray.origin.spec_add(ray.direction.spec_scale(t_center)).spec_subtract(
            s.center,
        );
        let d_mag_squared = closest.spec_dot(closest);
        let r2_d2_diff = r_squared.spec_sub(d_mag_squared);
        if !inside && d_mag_squared.bits > r_squared.bits {
            Fx { bits: (-SCALE) as i64 }
        } else {
            let t_offset = r2_d2_diff.spec_sqrt().spec_div(ray_d_mag);
            if inside {
                t_center.spec_add(t_offset)
            } else {
                t_center.spec_sub(t_offset)
            }
        }
    }
}

/// The outward surface normal at a point of the sphere.
pub open spec fn spec_normal(s: Sphere, point: Vector3) -> Vector3 {
    point.spec_subtract(s.center).spec_normalize()
}

impl Sphere {
    pub fn new(center: Vector3, radius: Fx, color: Color, shininess: Color, transparency: Color)
        -> (s: Sphere)
        ensures
            s == (Sphere {
                center,
                r: radius,
                color,
                shininess,
                transparency,
                contains_camera: false,
            }),
    {
        Sphere { center, r: radius, color, shininess, transparency, contains_camera: false }
    }

    /// Geometric intersection: project the center onto the ray, reject
    /// rays that point away or pass outside, and step forward or back
    /// by the half-chord from the closest approach.
    pub fn intersect(&self, ray: &Ray) -> (t: Fx)
        ensures
            t == spec_intersect(*self, *ray),
    {
        let oc = self.center.subtract(&ray.origin);
        let oc_mag_squared = oc.dot(&oc);

        let ray_d_mag = ray.direction.magnitude();

        let r_squared = self.r.mul(self.r);
        let inside = oc_mag_squared.bits < r_squared.bits;
        let t_center = oc.dot(&ray.direction).div(ray_d_mag);

        if !inside && t_center.bits < 0 {
            return Fx { bits: -SCALE };
        }
        let closest = ray.origin.add(&ray.direction.scale(t_center)).subtract(&self.center);
        let d_mag_squared = closest.dot(&closest);

        let r2_d2_diff = r_squared.sub(d_mag_squared);

        if !inside && d_mag_squared.bits > r_squared.bits {
            return Fx { bits: -SCALE };
        }
        let t_offset = r2_d2_diff.sqrt().div(ray_d_mag);

        if inside {
            t_center.add(t_offset)
        } else {
            t_center.sub(t_offset)
        }
    }

    /// The outward unit normal at `point` on this sphere's surface.
    pub fn normal(&self, point: &Vector3) -> (n: Vector3)
        ensures
            n == spec_normal(*self, *point),
    {
        let center_to_point = point.subtract(&self.center);
        center_to_point.normalize()
    }
}

} // verus!
