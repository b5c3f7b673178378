//! A small ray tracer over exact fixed-point arithmetic.
//!
//! Scenes hold spheres, directional ("sun") lights and point ("bulb")
//! lights. Rendering shoots one camera ray per pixel and shades it
//! recursively with Lambertian diffuse lighting, shadows, mirror
//! reflection and dielectric refraction. Every number is a [`fixed::Fx`]
//! value, so each operation has an exact integer semantics and every
//! function's result is pinned down by its contract.

pub mod color;
pub mod fixed;
pub mod geom;
pub mod laws;
pub mod parse;
pub mod trace;
pub mod vec3;
