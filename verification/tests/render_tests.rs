use raytracer::parse::parse;
use raytracer::trace::Raytracer;

fn render(scene: &[u8]) -> Vec<u8> {
    let img = parse(scene).unwrap();
    let rt = Raytracer::new(
        img.cfg.width,
        img.cfg.height,
        img.spheres,
        img.suns,
        img.bulbs,
        img.bounces,
    );
    rt.trace_from_camera().unwrap()
}

#[test]
fn two_by_two_scene_renders_deterministically() {
    // three pixel rays pass the small sphere by; the fourth, whose
    // screen offset is zero, hits it head on under full sunlight.
    // two runs agree byte for byte
    let scene = b"png 2 2 out.png\nsphere 0 0 -1 0.3\nsun 0 0 1\n";
    let first = render(scene);
    let second = render(scene);
    assert_eq!(first.len(), 16);
    assert_eq!(&first[..12], [0u8; 12]);
    assert_eq!(&first[12..], [255, 255, 255, 255]);
    assert_eq!(first, second);
}

#[test]
fn hit_pixels_carry_alpha_and_shading() {
    // a large unlit sphere fills the view: every pixel is a hit, so
    // alpha is full and the unlit surface shades to black
    let scene = b"png 2 2 out.png\nsphere 0 0 -3 2.5\n";
    let buf = render(scene);
    assert_eq!(buf.len(), 16);
    for pixel in buf.chunks(4) {
        assert_eq!(pixel, [0, 0, 0, 255]);
    }
}

#[test]
fn buffer_is_row_major_rgba() {
    let scene = b"png 3 2 out.png\nsphere 0 0 -1 0.3\n";
    let buf = render(scene);
    assert_eq!(buf.len(), 3 * 2 * 4);
}
