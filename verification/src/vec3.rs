//! Three-component vectors over fixed-point scalars.

use vstd::prelude::*;

verus! {

use crate::fixed::Fx;

/// A point or direction in space; immutable value semantics.
#[derive(Clone, Copy, PartialEq, Eq, Structural, Debug)]
pub struct Vector3 {
    pub x: Fx,
    pub y: Fx,
    pub z: Fx,
}

impl Vector3 {
    pub open spec fn spec_add(self, other: Vector3) -> Vector3 {
        Vector3 {
            x: self.x.spec_add(other.x),
            y: self.y.spec_add(other.y),
            z: self.z.spec_add(other.z),
        }
    }

    pub open spec fn spec_subtract(self, other: Vector3) -> Vector3 {
        Vector3 {
            x: self.x.spec_sub(other.x),
            y: self.y.spec_sub(other.y),
            z: self.z.spec_sub(other.z),
        }
    }

    pub open spec fn spec_dot(self, other: Vector3) -> Fx {
        self.x.spec_mul(other.x).spec_add(self.y.spec_mul(other.y)).spec_add(
            self.z.spec_mul(other.z),
        )
    }

    pub open spec fn spec_scale(self, f: Fx) -> Vector3 {
        Vector3 { x: self.x.spec_mul(f), y: self.y.spec_mul(f), z: self.z.spec_mul(f) }
    }

    pub open spec fn spec_magnitude(self) -> Fx {
        self.spec_dot(self).spec_sqrt()
    }

    /// Componentwise division by the magnitude; a vector whose magnitude
    /// rounds to zero maps to the zero vector.
    pub open spec fn spec_normalize(self) -> Vector3 {
        let m = self.spec_magnitude();
        Vector3 { x: self.x.spec_div(m), y: self.y.spec_div(m), z: self.z.spec_div(m) }
    }

    pub fn add(&self, other: &Vector3) -> (r: Vector3)
        ensures
            r == self.spec_add(*other),
    {
        Vector3 { x: self.x.add(other.x), y: self.y.add(other.y), z: self.z.add(other.z) }
    }

    pub fn subtract(&self, other: &Vector3) -> (r: Vector3)
        ensures
            r == self.spec_subtract(*other),
    {
        Vector3 { x: self.x.sub(other.x), y: self.y.sub(other.y), z: self.z.sub(other.z) }
    }

    pub fn dot(&self, other: &Vector3) -> (r: Fx)
        ensures
            r == self.spec_dot(*other),
    {
        self.x.mul(other.x).add(self.y.mul(other.y)).add(self.z.mul(other.z))
    }

    pub fn scale(&self, f: Fx) -> (r: Vector3)
        ensures
            r == self.spec_scale(f),
    {
        Vector3 { x: self.x.mul(f), y: self.y.mul(f), z: self.z.mul(f) }
    }

    pub fn magnitude(&self) -> (r: Fx)
        ensures
            r == self.spec_magnitude(),
    {
        self.dot(self).sqrt()
    }

    pub fn normalize(&self) -> (r: Vector3)
        ensures
            r == self.spec_normalize(),
    {
        let mag = self.magnitude();
        Vector3 { x: self.x.div(mag), y: self.y.div(mag), z: self.z.div(mag) }
    }
}

} // verus!
