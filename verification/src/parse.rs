//! The scene-description parser.
//!
//! The format is line oriented: one directive per line, tokens split
//! on single spaces, blank lines and unknown directives ignored. The
//! directives `color`, `shininess` and `transparency` set state that
//! is applied to primitives and lights declared later. Numbers are
//! decimal, with an optional leading minus and an optional fraction;
//! fraction digits beyond the ninth are read but do not change the
//! value. The whole parse is defined by `spec_parse`, and `parse`
//! returns exactly what it says, error for error.

use vstd::prelude::*;

verus! {

use crate::fixed::Fx;
use crate::color::Color;
use crate::vec3::Vector3;
use crate::geom::Sphere;
use crate::geom::Sun;
use crate::geom::Bulb;
use vstd::arithmetic::div_mod::lemma_div_nonincreasing;

/// Why a scene description was rejected.
#[derive(Clone, Copy, PartialEq, Eq, Structural, Debug)]
pub enum ParseError {
    /// A directive has fewer fields than it needs.
    MissingField,
    /// A numeric field is malformed or out of range.
    BadNumber,
    /// A sphere was declared with radius not strictly positive.
    NonPositiveRadius,
    /// A sun was declared with the zero vector as its direction.
    ZeroSunDirection,
    /// An output filename holds a non-ASCII byte.
    BadFilename,
}

/// Raster size and output path of the image to render.
#[derive(Debug)]
pub struct ImageConfig {
    pub width: u32,
    pub height: u32,
    pub filename: String,
}

/// A fully parsed scene description.
#[derive(Debug)]
pub struct Image {
    pub suns: Vec<Sun>,
    pub bulbs: Vec<Bulb>,
    pub spheres: Vec<Sphere>,
    pub cfg: ImageConfig,
    pub bounces: i32,
}

/// The parser state: current material state, image configuration and
/// the scene collected so far.
pub ghost struct ParseState {
    pub color: Color,
    pub shininess: Color,
    pub transparency: Color,
    pub width: u32,
    pub height: u32,
    pub filename: Seq<u8>,
    pub bounces: i32,
    pub suns: Seq<Sun>,
    pub bulbs: Seq<Bulb>,
    pub spheres: Seq<Sphere>,
}

/// State while reading the digits of one number.
pub ghost struct NumSt {
    pub whole: int,
    pub frac: int,
    pub fdigits: int,
    pub seen_dot: bool,
    pub digits: bool,
}

/// Ten to the `k`.
pub open spec fn spec_pow10(k: int) -> int
    decreases k,
{
    if k <= 0 {
        1
    } else {
        10 * spec_pow10(k - 1)
    }
}

/// Read number digits from index `i` on: one optional dot, digits
/// before it into `whole` (rejected beyond 4294967295), the first
/// nine after it into `frac`; anything else is malformed.
pub open spec fn spec_num_fold(s: Seq<u8>, i: int, st: NumSt) -> Option<NumSt>
    decreases s.len() - i,
{
    if i < 0 || i >= s.len() {
        Some(st)
    } else {
        let b = s[i];
        if b == 46 {
            if st.seen_dot {
                None
            } else {
                spec_num_fold(
                    s,
                    i + 1,
                    NumSt {
                        whole: st.whole,
                        frac: st.frac,
                        fdigits: st.fdigits,
                        seen_dot: true,
                        digits: st.digits,
                    },
                )
            }
        } else if 48 <= b <= 57 {
            let d = (b - 48) as int;
            if !st.seen_dot {
                if st.whole * 10 + d > 0xFFFFFFFF {
                    None
                } else {
                    spec_num_fold(
                        s,
                        i + 1,
                        NumSt {
                            whole: st.whole * 10 + d,
                            frac: st.frac,
                            fdigits: st.fdigits,
                            seen_dot: false,
                            digits: true,
                        },
                    )
                }
            } else if st.fdigits < 9 {
                spec_num_fold(
                    s,
                    i + 1,
                    NumSt {
                        whole: st.whole,
                        frac: st.frac * 10 + d,
                        fdigits: st.fdigits + 1,
                        seen_dot: true,
                        digits: true,
                    },
                )
            } else {
                spec_num_fold(
                    s,
                    i + 1,
                    NumSt {
                        whole: st.whole,
                        frac: st.frac,
                        fdigits: st.fdigits,
                        seen_dot: true,
                        digits: true,
                    },
                )
            }
        } else {
            None
        }
    }
}

/// The fixed-point number a token denotes: optional minus, then
/// digits with at most one dot and at least one digit; the fraction
/// is scaled to raw units rounding down.
pub open spec fn spec_parse_fx(tok: Seq<u8>) -> Option<Fx> {
    let neg = tok.len() > 0 && tok[0] == 45;
    let start: int = if neg {
        1
    } else {
        0
    };
    match spec_num_fold(
        tok,
        start,
        NumSt { whole: 0, frac: 0, fdigits: 0, seen_dot: false, digits: false },
    ) {
        Option::None => Option::None,
        Option::Some(st) => {
            if !st.digits {
                Option::None
            } else {
                let mag = st.whole * 65536 + (st.frac * 65536) / spec_pow10(st.fdigits);
                Option::Some(Fx { bits: (if neg { -mag } else { mag }) as i64 })
            }
        },
    }
}

/// Read an unsigned integer: digits only, rejected beyond 4294967295.
pub open spec fn spec_u32_fold(s: Seq<u8>, i: int, acc: int) -> Option<int>
    decreases s.len() - i,
{
    if i < 0 || i >= s.len() {
        Some(acc)
    } else if !(48 <= s[i] <= 57) {
        None
    } else if acc * 10 + (s[i] - 48) > 0xFFFFFFFF {
        None
    } else {
        spec_u32_fold(s, i + 1, acc * 10 + (s[i] - 48))
    }
}

/// The unsigned integer a token denotes, if it is one.
pub open spec fn spec_parse_u32(tok: Seq<u8>) -> Option<int> {
    if tok.len() == 0 {
        Option::None
    } else {
        spec_u32_fold(tok, 0, 0)
    }
}

/// Split a line into tokens at single spaces; empty tokens stay.
pub open spec fn spec_tokens_from(line: Seq<u8>, i: int, cur: Seq<u8>, acc: Seq<Seq<u8>>)
    -> Seq<Seq<u8>>
    decreases line.len() - i,
{
    if i < 0 || i >= line.len() {
        acc.push(cur)
    } else if line[i] == 32 {
        spec_tokens_from(line, i + 1, Seq::empty(), acc.push(cur))
    } else {
        spec_tokens_from(line, i + 1, cur.push(line[i]), acc)
    }
}

pub open spec fn spec_tokens(line: Seq<u8>) -> Seq<Seq<u8>> {
    spec_tokens_from(line, 0, Seq::empty(), Seq::empty())
}

/// The directives this format knows.
#[derive(Clone, Copy, PartialEq, Eq, Structural, Debug)]
pub enum Directive {
    Png,
    SphereDecl,
    SunDecl,
    ColorState,
    BulbDecl,
    ShininessState,
    TransparencyState,
    Bounces,
    Unknown,
}

pub open spec fn kw_png() -> Seq<u8> {
    seq![112u8, 110u8, 103u8]
}

pub open spec fn kw_sphere() -> Seq<u8> {
    seq![115u8, 112u8, 104u8, 101u8, 114u8, 101u8]
}

pub open spec fn kw_sun() -> Seq<u8> {
    seq![115u8, 117u8, 110u8]
}

pub open spec fn kw_color() -> Seq<u8> {
    seq![99u8, 111u8, 108u8, 111u8, 114u8]
}

pub open spec fn kw_bulb() -> Seq<u8> {
    seq![98u8, 117u8, 108u8, 98u8]
}

pub open spec fn kw_shininess() -> Seq<u8> {
    seq![115u8, 104u8, 105u8, 110u8, 105u8, 110u8, 101u8, 115u8, 115u8]
}

pub open spec fn kw_transparency() -> Seq<u8> {
    seq![116u8, 114u8, 97u8, 110u8, 115u8, 112u8, 97u8, 114u8, 101u8, 110u8, 99u8, 121u8]
}

pub open spec fn kw_bounces() -> Seq<u8> {
    seq![98u8, 111u8, 117u8, 110u8, 99u8, 101u8, 115u8]
}

/// Which directive a first token names.
pub open spec fn spec_directive(w: Seq<u8>) -> Directive {
    if w == kw_png() {
        Directive::Png
    } else if w == kw_sphere() {
        Directive::SphereDecl
    } else if w == kw_sun() {
        Directive::SunDecl
    } else if w == kw_color() {
        Directive::ColorState
    } else if w == kw_bulb() {
        Directive::BulbDecl
    } else if w == kw_shininess() {
        Directive::ShininessState
    } else if w == kw_transparency() {
        Directive::TransparencyState
    } else if w == kw_bounces() {
        Directive::Bounces
    } else {
        Directive::Unknown
    }
}

/// All bytes of a filename must be ASCII.
pub open spec fn spec_ascii(s: Seq<u8>) -> bool {
    forall|k: int| 0 <= k < s.len() ==> s[k] < 128
}

/// Apply one line to the parser state.
pub open spec fn spec_line_step(st: ParseState, raw: Seq<u8>) -> Result<ParseState, ParseError> {
    let line = if raw.len() > 0 && raw[raw.len() - 1] == 13 {
        raw.subrange(0, raw.len() - 1)
    } else {
        raw
    };
    if line.len() == 0 {
        Ok(st)
    } else {
        let toks = spec_tokens(line);
        match spec_directive(toks[0]) {
            Directive::Png => spec_step_png(st, toks),
            Directive::SphereDecl => spec_step_sphere(st, toks),
            Directive::SunDecl => spec_step_sun(st, toks),
            Directive::ColorState => spec_step_color(st, toks),
            Directive::BulbDecl => spec_step_bulb(st, toks),
            Directive::ShininessState => spec_step_broadcast(st, toks, true),
            Directive::TransparencyState => spec_step_broadcast(st, toks, false),
            Directive::Bounces => spec_step_bounces(st, toks),
            Directive::Unknown => Ok(st),
        }
    }
}

pub open spec fn spec_step_png(st: ParseState, toks: Seq<Seq<u8>>) -> Result<
    ParseState,
    ParseError,
> {
    if toks.len() < 4 {
        Err(ParseError::MissingField)
    } else {
        match spec_parse_u32(toks[1]) {
            Option::None => Err(ParseError::BadNumber),
            Option::Some(w) => match spec_parse_u32(toks[2]) {
                Option::None => Err(ParseError::BadNumber),
                Option::Some(h) => {
                    if !spec_ascii(toks[3]) {
                        Err(ParseError::BadFilename)
                    } else {
                        Ok(
                            ParseState {
                                width: w as u32,
                                height: h as u32,
                                filename: toks[3],
                                ..st
                            },
                        )
                    }
                },
            },
        }
    }
}

pub open spec fn spec_step_sphere(st: ParseState, toks: Seq<Seq<u8>>) -> Result<
    ParseState,
    ParseError,
> {
    if toks.len() < 5 {
        Err(ParseError::MissingField)
    } else {
        match (
            spec_parse_fx(toks[1]),
            spec_parse_fx(toks[2]),
            spec_parse_fx(toks[3]),
            spec_parse_fx(toks[4]),
        ) {
            (Option::Some(x), Option::Some(y), Option::Some(z), Option::Some(radius)) => {
                if radius.bits <= 0 {
                    Err(ParseError::NonPositiveRadius)
                } else {
                    Ok(
                        ParseState {
                            spheres: st.spheres.push(
                                Sphere {
                                    center: Vector3 { x, y, z },
                                    r: radius,
                                    color: st.color,
                                    shininess: st.shininess,
                                    transparency: st.transparency,
                                    contains_camera: false,
                                },
                            ),
                            ..st
                        },
                    )
                }
            },
            _ => Err(ParseError::BadNumber),
        }
    }
}

pub open spec fn spec_step_sun(st: ParseState, toks: Seq<Seq<u8>>) -> Result<
    ParseState,
    ParseError,
> {
    if toks.len() < 4 {
        Err(ParseError::MissingField)
    } else {
        match (spec_parse_fx(toks[1]), spec_parse_fx(toks[2]), spec_parse_fx(toks[3])) {
            (Option::Some(x), Option::Some(y), Option::Some(z)) => {
                if x.bits == 0 && y.bits == 0 && z.bits == 0 {
                    Err(ParseError::ZeroSunDirection)
                } else {
                    Ok(
                        ParseState {
                            suns: st.suns.push(
                                Sun {
                                    direction: Vector3 { x, y, z }.spec_normalize(),
                                    color: st.color,
                                },
                            ),
                            ..st
                        },
                    )
                }
            },
            _ => Err(ParseError::BadNumber),
        }
    }
}

pub open spec fn spec_step_color(st: ParseState, toks: Seq<Seq<u8>>) -> Result<
    ParseState,
    ParseError,
> {
    if toks.len() < 4 {
        Err(ParseError::MissingField)
    } else {
        match (spec_parse_fx(toks[1]), spec_parse_fx(toks[2]), spec_parse_fx(toks[3])) {
            (Option::Some(r), Option::Some(g), Option::Some(b)) => Ok(
                ParseState { color: Color { r, g, b, a: st.color.a }, ..st },
            ),
            _ => Err(ParseError::BadNumber),
        }
    }
}

pub open spec fn spec_step_bulb(st: ParseState, toks: Seq<Seq<u8>>) -> Result<
    ParseState,
    ParseError,
> {
    if toks.len() < 4 {
        Err(ParseError::MissingField)
    } else {
        match (spec_parse_fx(toks[1]), spec_parse_fx(toks[2]), spec_parse_fx(toks[3])) {
            (Option::Some(x), Option::Some(y), Option::Some(z)) => Ok(
                ParseState {
                    bulbs: st.bulbs.push(
                        Bulb { position: Vector3 { x, y, z }, color: st.color },
                    ),
                    ..st
                },
            ),
            _ => Err(ParseError::BadNumber),
        }
    }
}

/// `shininess` and `transparency` take one value broadcast to all
/// channels, or three values.
pub open spec fn spec_step_broadcast(st: ParseState, toks: Seq<Seq<u8>>, shiny: bool) -> Result<
    ParseState,
    ParseError,
> {
    if toks.len() == 2 {
        match spec_parse_fx(toks[1]) {
            Option::Some(c) => Ok(spec_set_material(st, c, c, c, shiny)),
            Option::None => Err(ParseError::BadNumber),
        }
    } else if toks.len() >= 4 {
        match (spec_parse_fx(toks[1]), spec_parse_fx(toks[2]), spec_parse_fx(toks[3])) {
            (Option::Some(r), Option::Some(g), Option::Some(b)) => Ok(
                spec_set_material(st, r, g, b, shiny),
            ),
            _ => Err(ParseError::BadNumber),
        }
    } else {
        Err(ParseError::MissingField)
    }
}

pub open spec fn spec_set_material(st: ParseState, r: Fx, g: Fx, b: Fx, shiny: bool)
    -> ParseState {
    if shiny {
        ParseState { shininess: Color { r, g, b, a: st.shininess.a }, ..st }
    } else {
        ParseState { transparency: Color { r, g, b, a: st.transparency.a }, ..st }
    }
}

pub open spec fn spec_step_bounces(st: ParseState, toks: Seq<Seq<u8>>) -> Result<
    ParseState,
    ParseError,
> {
    if toks.len() < 2 {
        Err(ParseError::MissingField)
    } else {
        match spec_parse_u32(toks[1]) {
            Option::None => Err(ParseError::BadNumber),
            Option::Some(n) => {
                if n > i32::MAX {
                    Err(ParseError::BadNumber)
                } else {
                    Ok(ParseState { bounces: n as i32, ..st })
                }
            },
        }
    }
}

/// The state every parse starts from: white color, black material
/// state, no lights or spheres, four bounces, placeholder image
/// configuration.
pub open spec fn spec_init_state() -> ParseState {
    ParseState {
        color: Color::spec_white(),
        shininess: Color::spec_black(),
        transparency: Color::spec_black(),
        width: 0,
        height: 0,
        filename: seq![116u8, 101u8, 115u8, 116u8, 46u8, 112u8, 110u8, 103u8],
        bounces: 4,
        suns: Seq::empty(),
        bulbs: Seq::empty(),
        spheres: Seq::empty(),
    }
}

/// Fold the whole input, applying one line at each newline and once
/// more at the end.
pub open spec fn spec_parse_lines(s: Seq<u8>, i: int, cur: Seq<u8>, st: ParseState) -> Result<
    ParseState,
    ParseError,
>
    decreases s.len() - i,
{
    if i < 0 || i >= s.len() {
        spec_line_step(st, cur)
    } else if s[i] == 10 {
        match spec_line_step(st, cur) {
            Err(e) => Err(e),
            Ok(st2) => spec_parse_lines(s, i + 1, Seq::empty(), st2),
        }
    } else {
        spec_parse_lines(s, i + 1, cur.push(s[i]), st)
    }
}

/// What parsing a scene description yields.
pub open spec fn spec_parse(s: Seq<u8>) -> Result<ParseState, ParseError> {
    spec_parse_lines(s, 0, Seq::empty(), spec_init_state())
}

/// Ten to the `k` stays within nine digits for k of at most 9.
pub proof fn lemma_pow10_le(k: int)
    requires
        0 <= k <= 9,
    ensures
        1 <= spec_pow10(k) <= 1000000000,
{
    reveal_with_fuel(spec_pow10, 11);
    if k == 0 {
    } else if k == 1 {
    } else if k == 2 {
    } else if k == 3 {
    } else if k == 4 {
    } else if k == 5 {
    } else if k == 6 {
    } else if k == 7 {
    } else if k == 8 {
    } else {
        assert(spec_pow10(9) == 1000000000);
    }
}

fn pow10(k: u8) -> (p: u64)
    requires
        k <= 9,
    ensures
        p as int == spec_pow10(k as int),
        p >= 1,
{
    proof {
        reveal_with_fuel(spec_pow10, 11);
    }
    if k == 0 {
        1
    } else if k == 1 {
        10
    } else if k == 2 {
        100
    } else if k == 3 {
        1000
    } else if k == 4 {
        10000
    } else if k == 5 {
        100000
    } else if k == 6 {
        1000000
    } else if k == 7 {
        10000000
    } else if k == 8 {
        100000000
    } else {
        1000000000
    }
}

/// Read one number token as a fixed-point value.
fn parse_fx_token(tok: &Vec<u8>) -> (r: Option<Fx>)
    ensures
        r == spec_parse_fx(tok@),
{
    let neg = tok.len() > 0 && tok[0] == 45;
    let start: usize = if neg {
        1
    } else {
        0
    };
    let mut i: usize = start;
    let mut whole: u64 = 0;
    let mut frac: u64 = 0;
    let mut fdigits: u8 = 0;
    let mut seen_dot = false;
    let mut digits = false;
    while i < tok.len()
        invariant
            start <= i <= tok@.len(),
            start == (if neg { 1int } else { 0int }),
            neg == (tok@.len() > 0 && tok@[0] == 45),
            whole <= 0xFFFFFFFF,
            fdigits <= 9,
            frac < spec_pow10(fdigits as int),
            spec_pow10(fdigits as int) <= 1000000000,
            spec_num_fold(
                tok@,
                i as int,
                NumSt {
                    whole: whole as int,
                    frac: frac as int,
                    fdigits: fdigits as int,
                    seen_dot,
                    digits,
                },
            ) == spec_num_fold(
                tok@,
                start as int,
                NumSt { whole: 0, frac: 0, fdigits: 0, seen_dot: false, digits: false },
            ),
        decreases tok@.len() - i,
    {
        let b = tok[i];
        let ghost st_now = NumSt {
            whole: whole as int,
            frac: frac as int,
            fdigits: fdigits as int,
            seen_dot,
            digits,
        };
        proof {
            reveal_with_fuel(spec_pow10, 11);
        }
        if b == 46 {
            if seen_dot {
                proof {
                    assert(spec_num_fold(tok@, i as int, st_now) is None);
                }
                return None;
            }
            seen_dot = true;
        } else if 48 <= b && b <= 57 {
            let d = (b - 48) as u64;
            if !seen_dot {
                let w2 = whole * 10 + d;
                if w2 > 0xFFFFFFFF {
                    proof {
                        assert(spec_num_fold(tok@, i as int, st_now) is None);
                    }
                    return None;
                }
                whole = w2;
            } else if fdigits < 9 {
                proof {
                    lemma_pow10_le(fdigits as int);
                    lemma_pow10_le(fdigits as int + 1);
                }
                frac = frac * 10 + d;
                fdigits = fdigits + 1;
            }
            digits = true;
        } else {
            proof {
                assert(spec_num_fold(tok@, i as int, st_now) is None);
            }
            return None;
        }
        i = i + 1;
    }
    if !digits {
        return None;
    }
    proof {
        lemma_pow10_le(fdigits as int);
    }
    let p = pow10(fdigits);
    let fb = frac * 65536 / p;
    proof {
        lemma_div_nonincreasing((frac * 65536) as int, p as int);
    }
    let mag = whole * 65536 + fb;
    let bits = if neg {
        -(mag as i64)
    } else {
        mag as i64
    };
    Some(Fx { bits })
}

/// Read one token as an unsigned integer.
fn parse_u32_token(tok: &Vec<u8>) -> (r: Option<u32>)
    ensures
        match r {
            Option::Some(v) => spec_parse_u32(tok@) == Option::Some(v as int),
            Option::None => spec_parse_u32(tok@) is None,
        },
{
    if tok.len() == 0 {
        return None;
    }
    let mut acc: u64 = 0;
    let mut i: usize = 0;
    while i < tok.len()
        invariant
            i <= tok@.len(),
            tok@.len() > 0,
            acc <= 0xFFFFFFFF,
            spec_u32_fold(tok@, i as int, acc as int) == spec_u32_fold(tok@, 0, 0),
        decreases tok@.len() - i,
    {
        let b = tok[i];
        if !(48 <= b && b <= 57) {
            proof {
                assert(spec_u32_fold(tok@, i as int, acc as int) is None);
            }
            return None;
        }
        let a2 = acc * 10 + (b - 48) as u64;
        if a2 > 0xFFFFFFFF {
            proof {
                assert(spec_u32_fold(tok@, i as int, acc as int) is None);
            }
            return None;
        }
        acc = a2;
        i = i + 1;
    }
    Some(acc as u32)
}

/// Which directive a first token names.
fn directive(tok: &Vec<u8>) -> (d: Directive)
    ensures
        d == spec_directive(tok@),
{
    if tok.len() == 3 && tok[0] == 112 && tok[1] == 110 && tok[2] == 103 {
        proof {
            assert(tok@ =~= kw_png());
        }
        Directive::Png
    } else if tok.len() == 6 && tok[0] == 115 && tok[1] == 112 && tok[2] == 104 && tok[3] == 101
        && tok[4] == 114 && tok[5] == 101 {
        proof {
            assert(tok@ =~= kw_sphere());
        }
        Directive::SphereDecl
    } else if tok.len() == 3 && tok[0] == 115 && tok[1] == 117 && tok[2] == 110 {
        proof {
            assert(tok@ =~= kw_sun());
        }
        Directive::SunDecl
    } else if tok.len() == 5 && tok[0] == 99 && tok[1] == 111 && tok[2] == 108 && tok[3] == 111
        && tok[4] == 114 {
        proof {
            assert(tok@ =~= kw_color());
        }
        Directive::ColorState
    } else if tok.len() == 4 && tok[0] == 98 && tok[1] == 117 && tok[2] == 108 && tok[3] == 98 {
        proof {
            assert(tok@ =~= kw_bulb());
        }
        Directive::BulbDecl
    } else if tok.len() == 9 && tok[0] == 115 && tok[1] == 104 && tok[2] == 105 && tok[3] == 110
        && tok[4] == 105 && tok[5] == 110 && tok[6] == 101 && tok[7] == 115 && tok[8] == 115 {
        proof {
            assert(tok@ =~= kw_shininess());
        }
        Directive::ShininessState
    } else if tok.len() == 12 && tok[0] == 116 && tok[1] == 114 && tok[2] == 97 && tok[3] == 110
        && tok[4] == 115 && tok[5] == 112 && tok[6] == 97 && tok[7] == 114 && tok[8] == 101
        && tok[9] == 110 && tok[10] == 99 && tok[11] == 121 {
        proof {
            assert(tok@ =~= kw_transparency());
        }
        Directive::TransparencyState
    } else if tok.len() == 7 && tok[0] == 98 && tok[1] == 111 && tok[2] == 117 && tok[3] == 110
        && tok[4] == 99 && tok[5] == 101 && tok[6] == 115 {
        proof {
            assert(tok@ =~= kw_bounces());
        }
        Directive::Bounces
    } else {
        proof {
            assert(tok@ != kw_png());
            assert(tok@ != kw_sphere());
            assert(tok@ != kw_sun());
            assert(tok@ != kw_color());
            assert(tok@ != kw_bulb());
            assert(tok@ != kw_shininess());
            assert(tok@ != kw_transparency());
            assert(tok@ != kw_bounces());
        }
        Directive::Unknown
    }
}

/// Relies on `String::from_utf8`: ASCII bytes decode one to one into
/// the same sequence of characters.
#[verifier::external_body]
fn bytes_to_string(v: &Vec<u8>) -> (s: String)
    requires
        forall|k: int| 0 <= k < v@.len() ==> v@[k] < 128,
    ensures
        s@.len() == v@.len(),
        forall|k: int| 0 <= k < v@.len() ==> s@[k] == v@[k] as char,
{
    String::from_utf8(v.clone()).unwrap_or_default()
}

/// The element views of a vector of byte vectors are its deep view.
proof fn lemma_deep_view_bytes(toks: Vec<Vec<u8>>)
    ensures
        toks.deep_view().len() == toks@.len(),
        forall|k: int| 0 <= k < toks@.len() ==> toks.deep_view()[k] == toks@[k]@,
{
    assert forall|k: int| 0 <= k < toks@.len() implies toks.deep_view()[k] == toks@[k]@ by {
        assert(toks@[k].deep_view() =~= toks@[k]@);
    }
}

/// The mutable state threaded through the parse, one field per piece
/// of `ParseState`.
struct SceneBuilder {
    color: Color,
    shininess: Color,
    transparency: Color,
    width: u32,
    height: u32,
    filename: Vec<u8>,
    bounces: i32,
    suns: Vec<Sun>,
    bulbs: Vec<Bulb>,
    spheres: Vec<Sphere>,
}

impl SceneBuilder {
    spec fn st(self) -> ParseState {
        ParseState {
            color: self.color,
            shininess: self.shininess,
            transparency: self.transparency,
            width: self.width,
            height: self.height,
            filename: self.filename@,
            bounces: self.bounces,
            suns: self.suns@,
            bulbs: self.bulbs@,
            spheres: self.spheres@,
        }
    }

    /// Apply one raw line to the builder.
    fn line_step(&mut self, raw: &Vec<u8>) -> (r: Result<(), ParseError>)
        ensures
            match spec_line_step(old(self).st(), raw@) {
                Ok(st2) => r is Ok && final(self).st() == st2,
                Err(e) => r == Err::<(), ParseError>(e),
            },
    {
        let n0 = raw.len();
        let n: usize = if n0 > 0 && raw[n0 - 1] == 13 {
            n0 - 1
        } else {
            n0
        };
        proof {
            assert(raw@.subrange(0, n as int) =~= (if raw@.len() > 0 && raw@[raw@.len() - 1]
                == 13 {
                raw@.subrange(0, raw@.len() - 1)
            } else {
                raw@
            }));
        }
        if n == 0 {
            return Ok(());
        }
        let mut toks: Vec<Vec<u8>> = Vec::new();
        let mut cur: Vec<u8> = Vec::new();
        proof {
            assert(cur@ =~= Seq::<u8>::empty());
            assert(toks.deep_view() =~= Seq::<Seq<u8>>::empty());
        }
        let mut i: usize = 0;
        while i < n
            invariant
                i <= n <= raw@.len(),
                spec_tokens(raw@.subrange(0, n as int)) == spec_tokens_from(
                    raw@.subrange(0, n as int),
                    i as int,
                    cur@,
                    toks.deep_view(),
                ),
            decreases n - i,
        {
            let b = raw[i];
            proof {
                assert(raw@.subrange(0, n as int)[i as int] == raw@[i as int]);
            }
            if b == 32 {
                let ghost prev_dv = toks.deep_view();
                let ghost prev_cur = cur@;
                toks.push(cur);
                cur = Vec::new();
                proof {
                    assert(toks@.last().deep_view() =~= prev_cur);
                    assert(toks.deep_view() =~~= prev_dv.push(prev_cur));
                    assert(cur@ =~= Seq::<u8>::empty());
                }
            } else {
                cur.push(b);
            }
            i = i + 1;
        }
        let ghost prev_dv = toks.deep_view();
        let ghost prev_cur = cur@;
        toks.push(cur);
        let ghost line = raw@.subrange(0, n as int);
        proof {
            assert(toks@.last().deep_view() =~= prev_cur);
            assert(toks.deep_view() =~~= prev_dv.push(prev_cur));
            assert(toks.deep_view() == spec_tokens(line));
            assert(toks.deep_view().len() >= 1);
            lemma_deep_view_bytes(toks);
        }
        let d = directive(&toks[0]);
        match d {
            Directive::Png => self.step_png(&toks),
            Directive::SphereDecl => self.step_sphere(&toks),
            Directive::SunDecl => self.step_sun(&toks),
            Directive::ColorState => self.step_color(&toks),
            Directive::BulbDecl => self.step_bulb(&toks),
            Directive::ShininessState => self.step_broadcast(&toks, true),
            Directive::TransparencyState => self.step_broadcast(&toks, false),
            Directive::Bounces => self.step_bounces(&toks),
            Directive::Unknown => Ok(()),
        }
    }

    fn step_png(&mut self, toks: &Vec<Vec<u8>>) -> (r: Result<(), ParseError>)
        requires
            toks@.len() >= 1,
        ensures
            match spec_step_png(old(self).st(), toks.deep_view()) {
                Ok(st2) => r is Ok && final(self).st() == st2,
                Err(e) => r == Err::<(), ParseError>(e) && *final(self) == *old(self),
            },
    {
        proof {
            lemma_deep_view_bytes(*toks);
        }
        if toks.len() < 4 {
            return Err(ParseError::MissingField);
        }
        let wv = match parse_u32_token(&toks[1]) {
            Some(v) => v,
            None => {
                return Err(ParseError::BadNumber);
            },
        };
        let hv = match parse_u32_token(&toks[2]) {
            Some(v) => v,
            None => {
                return Err(ParseError::BadNumber);
            },
        };
        let f = &toks[3];
        let mut fname: Vec<u8> = Vec::new();
        let mut k: usize = 0;
        while k < f.len()
            invariant
                k <= f@.len(),
                f@ == toks.deep_view()[3],
                toks@.len() >= 4,
                toks.deep_view().len() == toks@.len(),
                spec_parse_u32(toks.deep_view()[1]) == Option::Some(wv as int),
                spec_parse_u32(toks.deep_view()[2]) == Option::Some(hv as int),
                *self == *old(self),
                fname@ == f@.subrange(0, k as int),
                forall|t: int| 0 <= t < k ==> f@[t] < 128,
            decreases f@.len() - k,
        {
            let b = f[k];
            if b >= 128 {
                proof {
                    assert(!spec_ascii(f@));
                }
                return Err(ParseError::BadFilename);
            }
            fname.push(b);
            proof {
                assert(fname@ =~= f@.subrange(0, k + 1));
            }
            k = k + 1;
        }
        proof {
            assert(fname@ =~= f@);
        }
        self.width = wv;
        self.height = hv;
        self.filename = fname;
        Ok(())
    }

    fn step_sphere(&mut self, toks: &Vec<Vec<u8>>) -> (r: Result<(), ParseError>)
        requires
            toks@.len() >= 1,
        ensures
            match spec_step_sphere(old(self).st(), toks.deep_view()) {
                Ok(st2) => r is Ok && final(self).st() == st2,
                Err(e) => r == Err::<(), ParseError>(e) && *final(self) == *old(self),
            },
    {
        proof {
            lemma_deep_view_bytes(*toks);
        }
        if toks.len() < 5 {
            return Err(ParseError::MissingField);
        }
        let x = match parse_fx_token(&toks[1]) {
            Some(v) => v,
            None => {
                return Err(ParseError::BadNumber);
            },
        };
        let y = match parse_fx_token(&toks[2]) {
            Some(v) => v,
            None => {
                return Err(ParseError::BadNumber);
            },
        };
        let z = match parse_fx_token(&toks[3]) {
            Some(v) => v,
            None => {
                return Err(ParseError::BadNumber);
            },
        };
        let radius = match parse_fx_token(&toks[4]) {
            Some(v) => v,
            None => {
                return Err(ParseError::BadNumber);
            },
        };
        if radius.bits <= 0 {
            return Err(ParseError::NonPositiveRadius);
        }
        self.spheres.push(
            Sphere {
                center: Vector3 { x, y, z },
                r: radius,
                color: self.color,
                shininess: self.shininess,
                transparency: self.transparency,
                contains_camera: false,
            },
        );
        Ok(())
    }

    fn step_sun(&mut self, toks: &Vec<Vec<u8>>) -> (r: Result<(), ParseError>)
        requires
            toks@.len() >= 1,
        ensures
            match spec_step_sun(old(self).st(), toks.deep_view()) {
                Ok(st2) => r is Ok && final(self).st() == st2,
                Err(e) => r == Err::<(), ParseError>(e) && *final(self) == *old(self),
            },
    {
        proof {
            lemma_deep_view_bytes(*toks);
        }
        if toks.len() < 4 {
            return Err(ParseError::MissingField);
        }
        let x = match parse_fx_token(&toks[1]) {
            Some(v) => v,
            None => {
                return Err(ParseError::BadNumber);
            },
        };
        let y = match parse_fx_token(&toks[2]) {
            Some(v) => v,
            None => {
                return Err(ParseError::BadNumber);
            },
        };
        let z = match parse_fx_token(&toks[3]) {
            Some(v) => v,
            None => {
                return Err(ParseError::BadNumber);
            },
        };
        if x.bits == 0 && y.bits == 0 && z.bits == 0 {
            return Err(ParseError::ZeroSunDirection);
        }
        let direction = Vector3 { x, y, z }.normalize();
        self.suns.push(Sun { direction, color: self.color });
        Ok(())
    }

    fn step_color(&mut self, toks: &Vec<Vec<u8>>) -> (r: Result<(), ParseError>)
        requires
            toks@.len() >= 1,
        ensures
            match spec_step_color(old(self).st(), toks.deep_view()) {
                Ok(st2) => r is Ok && final(self).st() == st2,
                Err(e) => r == Err::<(), ParseError>(e) && *final(self) == *old(self),
            },
    {
        proof {
            lemma_deep_view_bytes(*toks);
        }
        if toks.len() < 4 {
            return Err(ParseError::MissingField);
        }
        let cr = match parse_fx_token(&toks[1]) {
            Some(v) => v,
            None => {
                return Err(ParseError::BadNumber);
            },
        };
        let cg = match parse_fx_token(&toks[2]) {
            Some(v) => v,
            None => {
                return Err(ParseError::BadNumber);
            },
        };
        let cb = match parse_fx_token(&toks[3]) {
            Some(v) => v,
            None => {
                return Err(ParseError::BadNumber);
            },
        };
        self.color = Color { r: cr, g: cg, b: cb, a: self.color.a };
        Ok(())
    }

    fn step_bulb(&mut self, toks: &Vec<Vec<u8>>) -> (r: Result<(), ParseError>)
        requires
            toks@.len() >= 1,
        ensures
            match spec_step_bulb(old(self).st(), toks.deep_view()) {
                Ok(st2) => r is Ok && final(self).st() == st2,
                Err(e) => r == Err::<(), ParseError>(e) && *final(self) == *old(self),
            },
    {
        proof {
            lemma_deep_view_bytes(*toks);
        }
        if toks.len() < 4 {
            return Err(ParseError::MissingField);
        }
        let x = match parse_fx_token(&toks[1]) {
            Some(v) => v,
            None => {
                return Err(ParseError::BadNumber);
            },
        };
        let y = match parse_fx_token(&toks[2]) {
            Some(v) => v,
            None => {
                return Err(ParseError::BadNumber);
            },
        };
        let z = match parse_fx_token(&toks[3]) {
            Some(v) => v,
            None => {
                return Err(ParseError::BadNumber);
            },
        };
        self.bulbs.push(Bulb { position: Vector3 { x, y, z }, color: self.color });
        Ok(())
    }

    fn step_broadcast(&mut self, toks: &Vec<Vec<u8>>, shiny: bool) -> (r: Result<(), ParseError>)
        requires
            toks@.len() >= 1,
        ensures
            match spec_step_broadcast(old(self).st(), toks.deep_view(), shiny) {
                Ok(st2) => r is Ok && final(self).st() == st2,
                Err(e) => r == Err::<(), ParseError>(e) && *final(self) == *old(self),
            },
    {
        proof {
            lemma_deep_view_bytes(*toks);
        }
        if toks.len() == 2 {
            let c = match parse_fx_token(&toks[1]) {
                Some(v) => v,
                None => {
                    return Err(ParseError::BadNumber);
                },
            };
            self.set_material(c, c, c, shiny);
            Ok(())
        } else if toks.len() >= 4 {
            let cr = match parse_fx_token(&toks[1]) {
                Some(v) => v,
                None => {
                    return Err(ParseError::BadNumber);
                },
            };
            let cg = match parse_fx_token(&toks[2]) {
                Some(v) => v,
                None => {
                    return Err(ParseError::BadNumber);
                },
            };
            let cb = match parse_fx_token(&toks[3]) {
                Some(v) => v,
                None => {
                    return Err(ParseError::BadNumber);
                },
            };
            self.set_material(cr, cg, cb, shiny);
            Ok(())
        } else {
            Err(ParseError::MissingField)
        }
    }

    fn set_material(&mut self, cr: Fx, cg: Fx, cb: Fx, shiny: bool)
        ensures
            final(self).st() == spec_set_material(old(self).st(), cr, cg, cb, shiny),
    {
        if shiny {
            self.shininess = Color { r: cr, g: cg, b: cb, a: self.shininess.a };
        } else {
            self.transparency = Color { r: cr, g: cg, b: cb, a: self.transparency.a };
        }
    }

    fn step_bounces(&mut self, toks: &Vec<Vec<u8>>) -> (r: Result<(), ParseError>)
        requires
            toks@.len() >= 1,
        ensures
            match spec_step_bounces(old(self).st(), toks.deep_view()) {
                Ok(st2) => r is Ok && final(self).st() == st2,
                Err(e) => r == Err::<(), ParseError>(e) && *final(self) == *old(self),
            },
    {
        proof {
            lemma_deep_view_bytes(*toks);
        }
        if toks.len() < 2 {
            return Err(ParseError::MissingField);
        }
        let v = match parse_u32_token(&toks[1]) {
            Some(v) => v,
            None => {
                return Err(ParseError::BadNumber);
            },
        };
        if v > 0x7FFFFFFF {
            return Err(ParseError::BadNumber);
        }
        self.bounces = v as i32;
        Ok(())
    }
}

/// A directive that replaces the filename checks it for ASCII, so the
/// filename stays ASCII through every accepted line.
proof fn lemma_line_step_ascii(st: ParseState, raw: Seq<u8>)
    requires
        spec_ascii(st.filename),
    ensures
        spec_line_step(st, raw) matches Ok(st2) ==> spec_ascii(st2.filename),
{
}

/// The filename stays ASCII through the whole parse.
proof fn lemma_parse_lines_ascii(s: Seq<u8>, i: int, cur: Seq<u8>, st: ParseState)
    requires
        spec_ascii(st.filename),
    ensures
        spec_parse_lines(s, i, cur, st) matches Ok(st2) ==> spec_ascii(st2.filename),
    decreases s.len() - i,
{
    if i < 0 || i >= s.len() {
        lemma_line_step_ascii(st, cur);
    } else if s[i] == 10 {
        lemma_line_step_ascii(st, cur);
        match spec_line_step(st, cur) {
            Ok(st2) => lemma_parse_lines_ascii(s, i + 1, Seq::empty(), st2),
            Err(_) => {},
        }
    } else {
        lemma_parse_lines_ascii(s, i + 1, cur.push(s[i]), st);
    }
}

/// Parse a whole scene description, exactly as `spec_parse` says:
/// the same scene on success and the same error otherwise.
pub fn parse(input: &[u8]) -> (res: Result<Image, ParseError>)
    ensures
        match spec_parse(input@) {
            Ok(st) => res matches Ok(img) && img.suns@ == st.suns && img.bulbs@ == st.bulbs
                && img.spheres@ == st.spheres && img.bounces == st.bounces && img.cfg.width
                == st.width && img.cfg.height == st.height && img.cfg.filename@.len()
                == st.filename.len() && (forall|k: int|
                0 <= k < st.filename.len() ==> img.cfg.filename@[k] == st.filename[k] as char),
            Err(e) => res matches Err(e2) && e2 == e,
        },
{
    let mut fname: Vec<u8> = Vec::new();
    fname.push(116);
    fname.push(101);
    fname.push(115);
    fname.push(116);
    fname.push(46);
    fname.push(112);
    fname.push(110);
    fname.push(103);
    let mut b = SceneBuilder {
        color: Color::white(),
        shininess: Color::black(),
        transparency: Color::black(),
        width: 0,
        height: 0,
        filename: fname,
        bounces: 4,
        suns: Vec::new(),
        bulbs: Vec::new(),
        spheres: Vec::new(),
    };
    proof {
        assert(b.filename@ =~= spec_init_state().filename);
        assert(b.suns@ =~= Seq::<Sun>::empty());
        assert(b.bulbs@ =~= Seq::<Bulb>::empty());
        assert(b.spheres@ =~= Seq::<Sphere>::empty());
        assert(b.st() == spec_init_state());
    }
    let mut cur: Vec<u8> = Vec::new();
    let mut i: usize = 0;
    while i < input.len()
        invariant
            i <= input@.len(),
            spec_parse(input@) == spec_parse_lines(input@, i as int, cur@, b.st()),
        decreases input@.len() - i,
    {
        let c = input[i];
        if c == 10 {
            match b.line_step(&cur) {
                Err(e) => {
                    return Err(e);
                },
                Ok(()) => {},
            }
            cur = Vec::new();
            proof {
                assert(cur@ =~= Seq::<u8>::empty());
            }
        } else {
            cur.push(c);
        }
        i = i + 1;
    }
    match b.line_step(&cur) {
        Err(e) => {
            return Err(e);
        },
        Ok(()) => {},
    }
    proof {
        assert(spec_ascii(spec_init_state().filename)) by {
            assert(forall|k: int|
                0 <= k < spec_init_state().filename.len() ==> spec_init_state().filename[k]
                    < 128);
        }
        lemma_parse_lines_ascii(input@, 0, Seq::empty(), spec_init_state());
    }
    let filename = bytes_to_string(&b.filename);
    Ok(
        Image {
            suns: b.suns,
            bulbs: b.bulbs,
            spheres: b.spheres,
            cfg: ImageConfig { width: b.width, height: b.height, filename },
            bounces: b.bounces,
        },
    )
}

} // verus!
