use raytracer::color::Color;
use raytracer::fixed::Fx;
use raytracer::geom::Bulb;
use raytracer::geom::Ray;
use raytracer::geom::Sphere;
use raytracer::geom::Sun;
use raytracer::trace::clamp;
use raytracer::trace::Raytracer;
use raytracer::trace::RenderError;
use raytracer::vec3::Vector3;

fn fx(bits: i64) -> Fx {
    Fx { bits }
}

fn vec3(x: i64, y: i64, z: i64) -> Vector3 {
    Vector3 { x: fx(x), y: fx(y), z: fx(z) }
}

fn grey(bits: i64) -> Color {
    Color { r: fx(bits), g: fx(bits), b: fx(bits), a: fx(65536) }
}

fn diffuse_sphere(center: Vector3, radius: Fx, color: Color) -> Sphere {
    Sphere::new(center, radius, color, Color::black(), Color::black())
}

fn camera_ray() -> Ray {
    Ray::new(vec3(0, 0, 0), vec3(0, 0, -65536))
}

#[test]
fn clamp_limits_to_the_unit_interval() {
    assert_eq!(clamp(fx(-5)).bits, 0);
    assert_eq!(clamp(fx(40000)).bits, 40000);
    assert_eq!(clamp(fx(70000)).bits, 65536);
}

#[test]
fn new_computes_camera_containment() {
    let inside = diffuse_sphere(vec3(0, 0, -32768), fx(65536), Color::white());
    let outside = diffuse_sphere(vec3(0, 0, -2 * 65536), fx(65536), Color::white());
    let rt = Raytracer::new(1, 1, vec![inside, outside], Vec::new(), Vec::new(), 4);
    assert!(rt.spheres[0].contains_camera);
    assert!(!rt.spheres[1].contains_camera);
}

#[test]
fn pole_facing_the_camera_gets_full_diffuse_intensity() {
    // white sphere straight ahead, sun shining straight at the camera:
    // the pole pixel is exactly full intensity before clamping
    let sphere = diffuse_sphere(vec3(0, 0, -2 * 65536), fx(65536), Color::white());
    let sun = Sun::new(vec3(0, 0, 65536), Color::white());
    let rt = Raytracer::new(2, 2, vec![sphere], vec![sun], Vec::new(), 4);
    let c = rt.shoot_ray(camera_ray(), rt.bounces);
    assert_eq!((c.r.bits, c.g.bits, c.b.bits, c.a.bits), (65536, 65536, 65536, 65536));
    assert_eq!(c.to_bytes_color(), [255, 255, 255, 255]);
}

#[test]
fn missing_everything_yields_transparent_black() {
    let sphere = diffuse_sphere(vec3(0, 0, -2 * 65536), fx(65536), Color::white());
    let rt = Raytracer::new(2, 2, vec![sphere], Vec::new(), Vec::new(), 4);
    let away = Ray::new(vec3(0, 0, 0), vec3(0, 0, 65536));
    let c = rt.shoot_ray(away, rt.bounces);
    assert_eq!(c.to_bytes_color(), [0, 0, 0, 0]);
}

#[test]
fn occluder_between_point_and_sun_darkens_the_pixel() {
    let lit = diffuse_sphere(vec3(0, 0, -2 * 65536), fx(65536), Color::white());
    let occluder = diffuse_sphere(vec3(0, 0, 65536), fx(32768), Color::white());
    let sun = Sun::new(vec3(0, 0, 65536), Color::white());

    let open_scene = Raytracer::new(2, 2, vec![lit], vec![sun], Vec::new(), 4);
    assert_eq!(open_scene.shoot_ray(camera_ray(), 4).to_bytes_color(), [255, 255, 255, 255]);

    let blocked = Raytracer::new(2, 2, vec![lit, occluder], vec![sun], Vec::new(), 4);
    assert!(blocked.is_in_sun_shadow(&vec3(0, 0, -65529), &sun));
    assert_eq!(blocked.shoot_ray(camera_ray(), 4).to_bytes_color(), [0, 0, 0, 255]);
}

#[test]
fn occluder_beyond_the_bulb_casts_no_shadow() {
    // the bulb sits at z = 1; a sphere at z = 3 is behind it and must
    // not darken the lit point, which keeps its inverse-square term
    let lit = diffuse_sphere(vec3(0, 0, -2 * 65536), fx(65536), Color::white());
    let distant = diffuse_sphere(vec3(0, 0, 3 * 65536), fx(32768), Color::white());
    let bulb = Bulb { position: vec3(0, 0, 65536), color: Color::white() };
    let rt = Raytracer::new(2, 2, vec![lit, distant], Vec::new(), vec![bulb], 4);
    assert!(!rt.is_in_bulb_shadow(&vec3(0, 0, -65529), &bulb));
    let c = rt.shoot_ray(camera_ray(), 4);
    assert_eq!((c.r.bits, c.g.bits, c.b.bits), (16385, 16385, 16385));
    assert_eq!(c.to_bytes_color(), [64, 64, 64, 255]);
}

#[test]
fn zero_weights_leave_exactly_the_diffuse_term() {
    // shininess and transparency zero: the shaded color is the plain
    // albedo under a head-on white sun, channel for channel
    let albedo = Color { r: fx(32768), g: fx(16384), b: fx(65536), a: fx(65536) };
    let sphere = diffuse_sphere(vec3(0, 0, -2 * 65536), fx(65536), albedo);
    let sun = Sun::new(vec3(0, 0, 65536), Color::white());
    let rt = Raytracer::new(2, 2, vec![sphere], vec![sun], Vec::new(), 4);
    let c = rt.shoot_ray(camera_ray(), 4);
    assert_eq!((c.r.bits, c.g.bits, c.b.bits, c.a.bits), (32768, 16384, 65536, 65536));
    assert_eq!(c.to_bytes_color(), [128, 64, 255, 255]);
}

#[test]
fn refraction_transmits_head_on_but_reflects_past_the_critical_angle() {
    // a fully transparent sphere in front of a lit white sphere: the
    // head-on ray passes straight through and picks up the back
    // sphere's diffuse color, while a grazing ray meets the surface
    // past the critical angle, reflects internally and ends in the
    // background
    let glass = Sphere::new(
        vec3(0, 0, -2 * 65536),
        fx(65536),
        Color::white(),
        Color::black(),
        grey(65536),
    );
    let backdrop = diffuse_sphere(vec3(0, 0, -6 * 65536), fx(98304), Color::white());
    let sun = Sun::new(vec3(65536, 0, 65536), Color::white());
    let rt = Raytracer::new(2, 2, vec![glass, backdrop], vec![sun], Vec::new(), 4);

    let head_on = rt.shoot_ray(camera_ray(), rt.bounces);
    assert_eq!(head_on.to_bytes_color(), [180, 180, 180, 255]);

    let grazing = Ray::new(vec3(0, 0, 0), vec3(26214, 0, -65536));
    let reflected = rt.shoot_ray(grazing, rt.bounces);
    assert_eq!(reflected.to_bytes_color(), [0, 0, 0, 255]);
}

#[test]
fn rendering_without_spheres_is_refused() {
    let rt = Raytracer::new(2, 2, Vec::new(), Vec::new(), Vec::new(), 4);
    assert_eq!(rt.trace_from_camera(), Err(RenderError::NoPrimitives));
}

#[test]
fn negative_bounce_budget_shades_to_transparent_black() {
    let sphere = diffuse_sphere(vec3(0, 0, -2 * 65536), fx(65536), Color::white());
    let sun = Sun::new(vec3(0, 0, 65536), Color::white());
    let rt = Raytracer::new(2, 2, vec![sphere], vec![sun], Vec::new(), 4);
    let c = rt.shoot_ray(camera_ray(), -1);
    assert_eq!(c.to_bytes_color(), [0, 0, 0, 0]);
}
