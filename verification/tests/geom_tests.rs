use raytracer::color::Color;
use raytracer::fixed::Fx;
use raytracer::geom::Ray;
use raytracer::geom::Sphere;
use raytracer::geom::Sun;
use raytracer::vec3::Vector3;

fn fx(bits: i64) -> Fx {
    Fx { bits }
}

fn vec3(x: i64, y: i64, z: i64) -> Vector3 {
    Vector3 { x: fx(x), y: fx(y), z: fx(z) }
}

fn plain_sphere(center: Vector3, radius: Fx) -> Sphere {
    Sphere::new(center, radius, Color::white(), Color::black(), Color::black())
}

#[test]
fn ray_new_normalizes_the_direction() {
    let r = Ray::new(vec3(0, 0, 0), vec3(0, 0, -5 * 65536));
    assert_eq!((r.direction.x.bits, r.direction.y.bits, r.direction.z.bits), (0, 0, -65536));
    assert_eq!(r.origin, vec3(0, 0, 0));
}

#[test]
fn sun_new_normalizes_the_direction() {
    let s = Sun::new(vec3(65536, 0, 65536), Color::white());
    assert_eq!((s.direction.x.bits, s.direction.y.bits, s.direction.z.bits), (46341, 0, 46341));
}

#[test]
fn axis_ray_from_outside_hits_at_distance_minus_radius() {
    // sphere of radius 0.5 at the origin, ray from (0, 0, 5) inward:
    // first hit at 5 - 0.5 = 4.5
    let s = plain_sphere(vec3(0, 0, 0), fx(32768));
    let ray = Ray::new(vec3(0, 0, 5 * 65536), vec3(0, 0, -65536));
    assert_eq!(s.intersect(&ray).bits, 294912);
}

#[test]
fn intersect_from_inside_is_positive_and_at_most_the_diameter() {
    let s = plain_sphere(vec3(0, 0, 0), fx(32768));
    // from the exact center the exit is one radius away
    let from_center = Ray::new(vec3(0, 0, 0), vec3(0, 0, -65536));
    assert_eq!(s.intersect(&from_center).bits, 32768);
    // from (0, 0, 0.25) the exit is at 0.75, positive and below 2r
    let off_center = Ray::new(vec3(0, 0, 16384), vec3(0, 0, -65536));
    let t = s.intersect(&off_center).bits;
    assert_eq!(t, 49152);
    assert!(t > 0 && t <= 2 * 32768);
}

#[test]
fn sphere_behind_the_ray_is_missed() {
    let s = plain_sphere(vec3(0, 0, 0), fx(32768));
    let away = Ray::new(vec3(0, 0, 5 * 65536), vec3(0, 0, 65536));
    assert_eq!(s.intersect(&away).bits, -65536);
}

#[test]
fn ray_passing_outside_the_radius_misses() {
    let s = plain_sphere(vec3(0, 0, 0), fx(32768));
    let sideways = Ray::new(vec3(0, 0, 5 * 65536), vec3(65536, 0, 0));
    assert_eq!(s.intersect(&sideways).bits, -65536);
}

#[test]
fn normal_points_from_center_to_surface() {
    let s = plain_sphere(vec3(0, 0, -2 * 65536), fx(65536));
    let n = s.normal(&vec3(0, 0, -65536));
    assert_eq!((n.x.bits, n.y.bits, n.z.bits), (0, 0, 65536));
}
