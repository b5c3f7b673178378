use raytracer::parse::parse;
use raytracer::parse::ParseError;

#[test]
fn png_directive_sets_the_image_configuration() {
    let img = parse(b"png 4 3 out.png\n").unwrap();
    assert_eq!(img.cfg.width, 4);
    assert_eq!(img.cfg.height, 3);
    assert_eq!(img.cfg.filename, "out.png");
    assert_eq!(img.bounces, 4);
    assert!(img.spheres.is_empty() && img.suns.is_empty() && img.bulbs.is_empty());
}

#[test]
fn defaults_apply_when_nothing_is_declared() {
    let img = parse(b"").unwrap();
    assert_eq!(img.cfg.width, 0);
    assert_eq!(img.cfg.height, 0);
    assert_eq!(img.cfg.filename, "test.png");
    assert_eq!(img.bounces, 4);
}

#[test]
fn sphere_takes_the_current_material_state() {
    let img = parse(
        b"color 0.5 0.25 1\nshininess 0.5\ntransparency 0.1 0.2 0.3\nsphere 0 0 -1.5 0.3\n",
    )
    .unwrap();
    assert_eq!(img.spheres.len(), 1);
    let s = &img.spheres[0];
    assert_eq!((s.center.x.bits, s.center.y.bits, s.center.z.bits), (0, 0, -98304));
    assert_eq!(s.r.bits, 19660);
    assert_eq!((s.color.r.bits, s.color.g.bits, s.color.b.bits), (32768, 16384, 65536));
    assert_eq!(
        (s.shininess.r.bits, s.shininess.g.bits, s.shininess.b.bits),
        (32768, 32768, 32768)
    );
    assert_eq!(
        (s.transparency.r.bits, s.transparency.g.bits, s.transparency.b.bits),
        (6553, 13107, 19660)
    );
    assert!(!s.contains_camera);
}

#[test]
fn later_state_does_not_affect_earlier_primitives() {
    let img = parse(b"sphere 0 0 -1 1\ncolor 0 1 0\nsphere 0 0 -3 1\n").unwrap();
    assert_eq!(img.spheres[0].color.r.bits, 65536);
    assert_eq!(img.spheres[1].color.r.bits, 0);
    assert_eq!(img.spheres[1].color.g.bits, 65536);
}

#[test]
fn sun_directions_are_normalized_at_parse_time() {
    let img = parse(b"sun 0 0 5\n").unwrap();
    let d = img.suns[0].direction;
    assert_eq!((d.x.bits, d.y.bits, d.z.bits), (0, 0, 65536));
}

#[test]
fn bulb_takes_the_current_color() {
    let img = parse(b"color 0.5 0.5 0.5\nbulb 1 2 3\n").unwrap();
    let b = &img.bulbs[0];
    assert_eq!(
        (b.position.x.bits, b.position.y.bits, b.position.z.bits),
        (65536, 131072, 196608)
    );
    assert_eq!(b.color.r.bits, 32768);
}

#[test]
fn number_grammar_handles_signs_dots_and_long_fractions() {
    let img = parse(
        b"sphere -0.25 .5 2. 1\nsphere 0.3333333333333 0 -1 1\n",
    )
    .unwrap();
    let a = &img.spheres[0];
    assert_eq!((a.center.x.bits, a.center.y.bits, a.center.z.bits), (-16384, 32768, 131072));
    // fraction digits beyond the ninth are read but ignored
    let b = &img.spheres[1];
    assert_eq!(b.center.x.bits, 333333333 * 65536 / 1000000000);
}

#[test]
fn bounces_directive_replaces_the_default() {
    let img = parse(b"bounces 7\n").unwrap();
    assert_eq!(img.bounces, 7);
}

#[test]
fn unknown_directives_blank_lines_and_crlf_are_tolerated() {
    let img = parse(b"wobble 1 2 3\n\npng 2 2 o.png\r\nsphere 0 0 -1 0.3\r\n").unwrap();
    assert_eq!(img.cfg.filename, "o.png");
    assert_eq!(img.spheres.len(), 1);
}

#[test]
fn missing_fields_are_rejected() {
    assert_eq!(parse(b"png 2 2\n").unwrap_err(), ParseError::MissingField);
    assert_eq!(parse(b"sphere 0 0 -1\n").unwrap_err(), ParseError::MissingField);
    assert_eq!(parse(b"shininess 1 2\n").unwrap_err(), ParseError::MissingField);
    assert_eq!(parse(b"bounces\n").unwrap_err(), ParseError::MissingField);
}

#[test]
fn malformed_numbers_are_rejected() {
    assert_eq!(parse(b"png a 2 f.png\n").unwrap_err(), ParseError::BadNumber);
    assert_eq!(parse(b"sphere 0 0 -1 1e3\n").unwrap_err(), ParseError::BadNumber);
    assert_eq!(parse(b"sphere 0 0 1..5 1\n").unwrap_err(), ParseError::BadNumber);
    assert_eq!(parse(b"sphere - 0 0 1\n").unwrap_err(), ParseError::BadNumber);
    // a doubled space makes an empty token where a number is expected
    assert_eq!(parse(b"sphere  0 0 -1 1\n").unwrap_err(), ParseError::BadNumber);
    // out-of-range values are rejected rather than wrapped
    assert_eq!(parse(b"bounces 9999999999\n").unwrap_err(), ParseError::BadNumber);
    assert_eq!(parse(b"png 4294967296 2 f.png\n").unwrap_err(), ParseError::BadNumber);
}

#[test]
fn degenerate_primitives_are_rejected() {
    assert_eq!(parse(b"sphere 0 0 -1 0\n").unwrap_err(), ParseError::NonPositiveRadius);
    assert_eq!(parse(b"sphere 0 0 -1 -2\n").unwrap_err(), ParseError::NonPositiveRadius);
    assert_eq!(parse(b"sun 0 0 0\n").unwrap_err(), ParseError::ZeroSunDirection);
}

#[test]
fn non_ascii_filenames_are_rejected() {
    let mut line = b"png 1 1 ".to_vec();
    line.extend_from_slice(&[0xC3, 0xA9]);
    line.push(b'\n');
    assert_eq!(parse(&line).unwrap_err(), ParseError::BadFilename);
}
