use raytracer::color::Color;
use raytracer::fixed::Fx;
use raytracer::fixed::SCALE;
use raytracer::vec3::Vector3;

fn fx(bits: i64) -> Fx {
    Fx { bits }
}

#[test]
fn add_and_sub_are_exact() {
    assert_eq!(fx(98304).add(fx(65536)).bits, 163840);
    assert_eq!(fx(98304).sub(fx(65536)).bits, 32768);
    assert_eq!(fx(0).sub(fx(65536)).bits, -65536);
}

#[test]
fn add_saturates_at_the_representation_bounds() {
    assert_eq!(fx(i64::MAX).add(fx(1)).bits, i64::MAX);
    assert_eq!(fx(i64::MIN).add(fx(-1)).bits, i64::MIN);
    assert_eq!(fx(i64::MIN).neg().bits, i64::MAX);
}

#[test]
fn mul_scales_and_truncates_toward_zero() {
    // 1.5 * 2 = 3
    assert_eq!(fx(98304).mul(fx(131072)).bits, 196608);
    // the smallest negative value times the smallest positive one
    // truncates to zero, not toward minus infinity
    assert_eq!(fx(-1).mul(fx(1)).bits, 0);
    assert_eq!(fx(0).mul(fx(12345)).bits, 0);
}

#[test]
fn div_rounds_toward_zero_and_tolerates_zero() {
    // 1 / 3
    assert_eq!(fx(65536).div(fx(196608)).bits, 21845);
    // division by zero is defined as zero
    assert_eq!(fx(65536).div(fx(0)).bits, 0);
    assert_eq!(fx(-65536).div(fx(131072)).bits, -32768);
}

#[test]
fn sqrt_is_exact_on_perfect_squares() {
    assert_eq!(fx(4 * 65536).sqrt().bits, 2 * 65536);
    assert_eq!(fx(65536).sqrt().bits, 65536);
    assert_eq!(fx(0).sqrt().bits, 0);
    // sqrt(2) rounds down
    assert_eq!(fx(131072).sqrt().bits, 92681);
    // negative inputs yield zero
    assert_eq!(fx(-65536).sqrt().bits, 0);
}

#[test]
fn dot_and_magnitude() {
    let v = Vector3 { x: fx(3 * 65536), y: fx(0), z: fx(4 * 65536) };
    assert_eq!(v.dot(&v).bits, 25 * 65536);
    assert_eq!(v.magnitude().bits, 5 * 65536);
}

#[test]
fn normalize_three_four_five() {
    let v = Vector3 { x: fx(3 * 65536), y: fx(0), z: fx(4 * 65536) };
    let n = v.normalize();
    assert_eq!(n.x.bits, 39321);
    assert_eq!(n.y.bits, 0);
    assert_eq!(n.z.bits, 52428);
}

#[test]
fn normalize_yields_magnitude_one_within_tolerance() {
    let samples = [
        (3 * 65536, 0, 4 * 65536),
        (65536, 2 * 65536, 3 * 65536),
        (-65536, 65536, 65536),
        (49152, -98304, 147456),
        (0, 0, -7 * 65536),
        (123456, 654321, -98765),
    ];
    for (x, y, z) in samples {
        let v = Vector3 { x: fx(x), y: fx(y), z: fx(z) };
        let m = v.normalize().magnitude();
        assert!(
            (m.bits - SCALE).abs() <= 8,
            "magnitude {} not within tolerance of one for ({x}, {y}, {z})",
            m.bits
        );
    }
    // far below one the representation gets coarse and the tolerance
    // widens with it
    let tiny = Vector3 { x: fx(1000), y: fx(-2000), z: fx(3000) };
    let m = tiny.normalize().magnitude();
    assert!((m.bits - SCALE).abs() <= 256);
}

#[test]
fn color_componentwise_operations() {
    let a = Color { r: fx(65536), g: fx(32768), b: fx(0), a: fx(65536) };
    let b = Color { r: fx(32768), g: fx(32768), b: fx(65536), a: fx(65536) };
    let sum = a.add(&b);
    assert_eq!(
        (sum.r.bits, sum.g.bits, sum.b.bits, sum.a.bits),
        (98304, 65536, 65536, 131072)
    );
    let prod = a.mul(&b);
    assert_eq!(
        (prod.r.bits, prod.g.bits, prod.b.bits, prod.a.bits),
        (32768, 16384, 0, 65536)
    );
    let scaled = a.scale(fx(32768));
    assert_eq!(
        (scaled.r.bits, scaled.g.bits, scaled.b.bits, scaled.a.bits),
        (32768, 16384, 0, 32768)
    );
}

#[test]
fn clamp_and_convert_rounds_half_away_and_clamps() {
    let c = Color::white();
    assert_eq!(c.clamp_and_convert(fx(65536)), 255);
    assert_eq!(c.clamp_and_convert(fx(0)), 0);
    // 0.5 * 255 = 127.5 rounds up to 128
    assert_eq!(c.clamp_and_convert(fx(32768)), 128);
    // 0.25 * 255 = 63.75 rounds to 64
    assert_eq!(c.clamp_and_convert(fx(16384)), 64);
    // 0.2 * 255 = 50.99... rounds to 51
    assert_eq!(c.clamp_and_convert(fx(13107)), 51);
    // out-of-range values clamp to the byte bounds
    assert_eq!(c.clamp_and_convert(fx(2 * 65536)), 255);
    assert_eq!(c.clamp_and_convert(fx(-65536)), 0);
}

#[test]
fn to_bytes_color_converts_each_channel() {
    let c = Color { r: fx(32768), g: fx(16384), b: fx(65536), a: fx(65536) };
    assert_eq!(c.to_bytes_color(), [128, 64, 255, 255]);
    let t = Color::transparent();
    assert_eq!(t.to_bytes_color(), [0, 0, 0, 0]);
}
