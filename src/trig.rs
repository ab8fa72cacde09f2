use vstd::prelude::*;
use crate::geometry::{tdiv, lemma_tdiv_bound};

verus! {

/// Fixed-point scale of a unit direction: a unit vector has length `DIR_SCALE`.
pub const DIR_SCALE: i64 = 1_000_000;

/// How far `cos² + sin²` of a tabulated direction may stray from `DIR_SCALE²`
/// (the table is rounded to the nearest millionth).
pub const ROUNDING_SLACK: i64 = 1_200_000;

/// Sine of `d` degrees for `0 <= d <= 90`, rounded to millionths.
#[verifier::opaque]
pub open spec fn quarter_sine(d: int) -> int {
    if d == 0 {
        0
    } else if d == 1 {
        17452
    } else if d == 2 {
        34899
    } else if d == 3 {
        52336
    } else if d == 4 {
        69756
    } else if d == 5 {
        87156
    } else if d == 6 {
        104528
    } else if d == 7 {
        121869
    } else if d == 8 {
        139173
    } else if d == 9 {
        156434
    } else if d == 10 {
        173648
    } else if d == 11 {
        190809
    } else if d == 12 {
        207912
    } else if d == 13 {
        224951
    } else if d == 14 {
        241922
    } else if d == 15 {
        258819
    } else if d == 16 {
        275637
    } else if d == 17 {
        292372
    } else if d == 18 {
        309017
    } else if d == 19 {
        325568
    } else if d == 20 {
        342020
    } else if d == 21 {
        358368
    } else if d == 22 {
        374607
    } else if d == 23 {
        390731
    } else if d == 24 {
        406737
    } else if d == 25 {
        422618
    } else if d == 26 {
        438371
    } else if d == 27 {
        453990
    } else if d == 28 {
        469472
    } else if d == 29 {
        484810
    } else if d == 30 {
        500000
    } else if d == 31 {
        515038
    } else if d == 32 {
        529919
    } else if d == 33 {
        544639
    } else if d == 34 {
        559193
    } else if d == 35 {
        573576
    } else if d == 36 {
        587785
    } else if d == 37 {
        601815
    } else if d == 38 {
        615661
    } else if d == 39 {
        629320
    } else if d == 40 {
        642788
    } else if d == 41 {
        656059
    } else if d == 42 {
        669131
    } else if d == 43 {
        681998
    } else if d == 44 {
        694658
    } else if d == 45 {
        707107
    } else if d == 46 {
        719340
    } else if d == 47 {
        731354
    } else if d == 48 {
        743145
    } else if d == 49 {
        754710
    } else if d == 50 {
        766044
    } else if d == 51 {
        777146
    } else if d == 52 {
        788011
    } else if d == 53 {
        798636
    } else if d == 54 {
        809017
    } else if d == 55 {
        819152
    } else if d == 56 {
        829038
    } else if d == 57 {
        838671
    } else if d == 58 {
        848048
    } else if d == 59 {
        857167
    } else if d == 60 {
        866025
    } else if d == 61 {
        874620
    } else if d == 62 {
        882948
    } else if d == 63 {
        891007
    } else if d == 64 {
        898794
    } else if d == 65 {
        906308
    } else if d == 66 {
        913545
    } else if d == 67 {
        920505
    } else if d == 68 {
        927184
    } else if d == 69 {
        933580
    } else if d == 70 {
        939693
    } else if d == 71 {
        945519
    } else if d == 72 {
        951057
    } else if d == 73 {
        956305
    } else if d == 74 {
        961262
    } else if d == 75 {
        965926
    } else if d == 76 {
        970296
    } else if d == 77 {
        974370
    } else if d == 78 {
        978148
    } else if d == 79 {
        981627
    } else if d == 80 {
        984808
    } else if d == 81 {
        987688
    } else if d == 82 {
        990268
    } else if d == 83 {
        992546
    } else if d == 84 {
        994522
    } else if d == 85 {
        996195
    } else if d == 86 {
        997564
    } else if d == 87 {
        998630
    } else if d == 88 {
        999391
    } else if d == 89 {
        999848
    } else {
        1000000
    }
}

/// Sine of `a` degrees, in millionths, by symmetry from the first quadrant.
pub open spec fn sin_deg(a: int) -> int {
    let d = a % 360;
    if d <= 90 {
        quarter_sine(d)
    } else if d <= 180 {
        quarter_sine(180 - d)
    } else if d <= 270 {
        -quarter_sine(d - 180)
    } else {
        -quarter_sine(360 - d)
    }
}

/// Cosine of `a` degrees, in millionths.
pub open spec fn cos_deg(a: int) -> int {
    sin_deg(a + 90)
}

fn quarter_sine_exec(d: u32) -> (r: i64)
    requires
        d <= 90,
    ensures
        r == quarter_sine(d as int),
{
    reveal(quarter_sine);
    match d {
        0 => 0,
        1 => 17452,
        2 => 34899,
        3 => 52336,
        4 => 69756,
        5 => 87156,
        6 => 104528,
        7 => 121869,
        8 => 139173,
        9 => 156434,
        10 => 173648,
        11 => 190809,
        12 => 207912,
        13 => 224951,
        14 => 241922,
        15 => 258819,
        16 => 275637,
        17 => 292372,
        18 => 309017,
        19 => 325568,
        20 => 342020,
        21 => 358368,
        22 => 374607,
        23 => 390731,
        24 => 406737,
        25 => 422618,
        26 => 438371,
        27 => 453990,
        28 => 469472,
        29 => 484810,
        30 => 500000,
        31 => 515038,
        32 => 529919,
        33 => 544639,
        34 => 559193,
        35 => 573576,
        36 => 587785,
        37 => 601815,
        38 => 615661,
        39 => 629320,
        40 => 642788,
        41 => 656059,
        42 => 669131,
        43 => 681998,
        44 => 694658,
        45 => 707107,
        46 => 719340,
        47 => 731354,
        48 => 743145,
        49 => 754710,
        50 => 766044,
        51 => 777146,
        52 => 788011,
        53 => 798636,
        54 => 809017,
        55 => 819152,
        56 => 829038,
        57 => 838671,
        58 => 848048,
        59 => 857167,
        60 => 866025,
        61 => 874620,
        62 => 882948,
        63 => 891007,
        64 => 898794,
        65 => 906308,
        66 => 913545,
        67 => 920505,
        68 => 927184,
        69 => 933580,
        70 => 939693,
        71 => 945519,
        72 => 951057,
        73 => 956305,
        74 => 961262,
        75 => 965926,
        76 => 970296,
        77 => 974370,
        78 => 978148,
        79 => 981627,
        80 => 984808,
        81 => 987688,
        82 => 990268,
        83 => 992546,
        84 => 994522,
        85 => 996195,
        86 => 997564,
        87 => 998630,
        88 => 999391,
        89 => 999848,
        _ => 1000000,
    }
}

/// Sine of `a` degrees, in millionths.
pub fn sine_deg(a: u32) -> (r: i64)
    ensures
        r == sin_deg(a as int),
        -DIR_SCALE <= r <= DIR_SCALE,
{
    proof { lemma_quarter_sine_bounds(); }
    let d = a % 360;
    if d <= 90 {
        quarter_sine_exec(d)
    } else if d <= 180 {
        quarter_sine_exec(180 - d)
    } else if d <= 270 {
        -quarter_sine_exec(d - 180)
    } else {
        -quarter_sine_exec(360 - d)
    }
}

/// Cosine of `a` degrees, in millionths.
pub fn cosine_deg(a: u32) -> (r: i64)
    ensures
        r == cos_deg(a as int),
        -DIR_SCALE <= r <= DIR_SCALE,
{
    let d = a % 360 + 90;
    assert((d as int) % 360 == (a as int + 90) % 360);
    sine_deg(d)
}

proof fn lemma_quarter_sine_bounds()
    ensures
        forall|d: int| 0 <= d <= 90 ==> 0 <= #[trigger] quarter_sine(d) <= DIR_SCALE,
{
    assert forall|d: int| 0 <= d <= 90 implies 0 <= #[trigger] quarter_sine(d) <= DIR_SCALE by {
        reveal(quarter_sine);
    }
}

proof fn lemma_quarter_circle(d: int)
    requires
        0 <= d <= 90,
    ensures
        DIR_SCALE * DIR_SCALE - ROUNDING_SLACK <= quarter_sine(d) * quarter_sine(d)
            + quarter_sine(90 - d) * quarter_sine(90 - d)
            <= DIR_SCALE * DIR_SCALE + ROUNDING_SLACK,
{
    reveal(quarter_sine);
}

proof fn lemma_square_of_sign(x: int, y: int)
    requires
        x == y || x == -y,
    ensures
        x * x == y * y,
{
    assert(x * x == y * y) by (nonlinear_arith)
        requires
            x == y || x == -y,
    ;
}

/// Every tabulated direction has length `DIR_SCALE` up to rounding:
/// `cos² + sin²` lies within `ROUNDING_SLACK` of `DIR_SCALE²` at every angle.
pub proof fn lemma_unit_direction(a: int)
    ensures
        DIR_SCALE * DIR_SCALE - ROUNDING_SLACK <= cos_deg(a) * cos_deg(a) + sin_deg(a) * sin_deg(a)
            <= DIR_SCALE * DIR_SCALE + ROUNDING_SLACK,
{
    let d = a % 360;
    assert((a + 90) % 360 == (d + 90) % 360);
    if d <= 90 {
        lemma_quarter_circle(d);
        lemma_square_of_sign(cos_deg(a), quarter_sine(90 - d));
        lemma_square_of_sign(sin_deg(a), quarter_sine(d));
    } else if d <= 180 {
        lemma_quarter_circle(d - 90);
        lemma_square_of_sign(cos_deg(a), quarter_sine(d - 90));
        lemma_square_of_sign(sin_deg(a), quarter_sine(180 - d));
    } else if d <= 270 {
        lemma_quarter_circle(d - 180);
        if d == 270 {
            assert(quarter_sine(0) == 0) by {
                reveal(quarter_sine);
            }
        }
        lemma_square_of_sign(cos_deg(a), quarter_sine(270 - d));
        lemma_square_of_sign(sin_deg(a), quarter_sine(d - 180));
    } else {
        lemma_quarter_circle(360 - d);
        lemma_square_of_sign(cos_deg(a), quarter_sine(d - 270));
        lemma_square_of_sign(sin_deg(a), quarter_sine(360 - d));
    }
}

/// Tabulated sines and cosines never exceed `DIR_SCALE` in magnitude.
pub proof fn lemma_sine_bounds(a: int)
    ensures
        -DIR_SCALE <= sin_deg(a) <= DIR_SCALE,
{
    lemma_quarter_sine_bounds();
}

/// Smallest dot product of the tabulated directions at two neighbouring whole degrees.
pub const NEIGHBOUR_DOT: i64 = 999_847_000_000;

/// How far `cos² + sin²` of an interpolated direction may stray from `DIR_SCALE²`.
pub const INTERP_SLACK: i64 = 90_000_000;

/// Millidegrees in a full turn.
pub const FULL_TURN: i64 = 360_000;

proof fn lemma_quarter_neighbours(e: int)
    requires
        0 <= e <= 89,
    ensures
        quarter_sine(e) * quarter_sine(e + 1) + quarter_sine(90 - e) * quarter_sine(89 - e)
            >= NEIGHBOUR_DOT,
{
    reveal(quarter_sine);
}

/// The tabulated directions at whole degrees `d` and `d + 1` are nearly parallel.
proof fn lemma_neighbour_dot(d: int)
    requires
        0 <= d < 360,
    ensures
        cos_deg(d) * cos_deg(d + 1) + sin_deg(d) * sin_deg(d + 1) >= NEIGHBOUR_DOT,
{
    assert(quarter_sine(0) == 0) by {
        reveal(quarter_sine);
    }
    assert((d + 90) % 360 == if d < 270 { d + 90 } else { d - 270 });
    assert((d + 91) % 360 == if d < 269 { d + 91 } else { d - 269 });
    assert((d + 1) % 360 == if d < 359 { d + 1 } else { 0 });
    let e = d % 90;
    lemma_quarter_neighbours(e);
    let (c0, c1, s0, s1) = (cos_deg(d), cos_deg(d + 1), sin_deg(d), sin_deg(d + 1));
    let (a, b, x, y) = (quarter_sine(e), quarter_sine(e + 1), quarter_sine(90 - e), quarter_sine(89 - e));
    if d < 90 {
        assert(c0 == x && c1 == y && s0 == a && s1 == b);
    } else if d < 180 {
        assert(c0 == -a && c1 == -b && s0 == x && s1 == y);
        assert(c0 * c1 == a * b) by (nonlinear_arith) requires c0 == -a, c1 == -b;
    } else if d < 270 {
        assert(c0 == -x && c1 == -y && s0 == -a && s1 == -b);
        assert(c0 * c1 == x * y) by (nonlinear_arith) requires c0 == -x, c1 == -y;
        assert(s0 * s1 == a * b) by (nonlinear_arith) requires s0 == -a, s1 == -b;
    } else {
        assert(c0 == a && c1 == b && s0 == -x && s1 == -y);
        assert(s0 * s1 == x * y) by (nonlinear_arith) requires s0 == -x, s1 == -y;
    }
}

/// Sine of `a` millidegrees, in millionths: the table interpolated linearly between
/// neighbouring whole degrees (the correction rounded toward zero).
pub open spec fn sin_md(a: int) -> int {
    let m = a % FULL_TURN as int;
    let d = m / 1000;
    let f = m % 1000;
    sin_deg(d) + tdiv((sin_deg(d + 1) - sin_deg(d)) * f, 1000)
}

/// Cosine of `a` millidegrees, in millionths.
pub open spec fn cos_md(a: int) -> int {
    sin_md(a + 90_000)
}

/// Sine of `a` millidegrees, in millionths.
pub fn sine_mdeg(a: u32) -> (r: i64)
    ensures
        r == sin_md(a as int),
        -DIR_SCALE <= r <= DIR_SCALE,
{
    let m = a % 360_000;
    let d = m / 1000;
    let f = m % 1000;
    let s0 = sine_deg(d);
    let s1 = sine_deg(d + 1);
    proof {
        crate::geometry::lemma_mul_bound((s1 - s0) as int, f as int, 2 * DIR_SCALE as int, 1000);
        lemma_tdiv_bound((s1 - s0) * f, 1000, 2 * DIR_SCALE as int);
        lemma_interp_bound(s0 as int, s1 as int, f as int);
    }
    s0 + (s1 - s0) * (f as i64) / 1000
}

/// Cosine of `a` millidegrees, in millionths.
pub fn cosine_mdeg(a: u32) -> (r: i64)
    ensures
        r == cos_md(a as int),
        -DIR_SCALE <= r <= DIR_SCALE,
{
    let m = a % 360_000 + 90_000;
    assert((m as int) % 360_000 == (a as int + 90_000) % 360_000);
    sine_mdeg(m)
}

proof fn lemma_interp_bound(s0: int, s1: int, f: int)
    requires
        -DIR_SCALE <= s0 <= DIR_SCALE,
        -DIR_SCALE <= s1 <= DIR_SCALE,
        0 <= f < 1000,
    ensures
        -DIR_SCALE <= s0 + tdiv((s1 - s0) * f, 1000) <= DIR_SCALE,
{
    let p = (s1 - s0) * f;
    let q = tdiv(p, 1000);
    assert(1000 * s0 + p <= 1000 * DIR_SCALE && 1000 * s0 + p >= -1000 * DIR_SCALE) by (nonlinear_arith)
        requires
            -1000000 <= s0 <= 1000000,
            -1000000 <= s1 <= 1000000,
            0 <= f < 1000,
            p == (s1 - s0) * f,
    ;
    assert(-1000000 <= s0 + q <= 1000000) by (nonlinear_arith)
        requires
            1000 * s0 + p <= 1000000000,
            1000 * s0 + p >= -1000000000,
            q == (if p >= 0 { p / 1000 } else { -((-p) / 1000) }),
    ;
}

/// One coordinate of the interpolation, scaled by 1000, is within 1000 of the exact
/// weighted mean `(1000 - f)·a + f·b`.
proof fn lemma_interp_error(a: int, b: int, f: int)
    requires
        -DIR_SCALE <= a <= DIR_SCALE,
        -DIR_SCALE <= b <= DIR_SCALE,
        0 <= f < 1000,
    ensures
        ({
            let v = 1000 * (a + tdiv((b - a) * f, 1000));
            let p = (1000 - f) * a + f * b;
            &&& -1000 * DIR_SCALE <= p <= 1000 * DIR_SCALE
            &&& p * p - 2000 * (1000 * DIR_SCALE) <= v * v
            &&& v * v <= p * p + 2000 * (1000 * DIR_SCALE) + 1000000
        }),
{
    let x = (b - a) * f;
    let q = tdiv(x, 1000);
    let v = 1000 * (a + q);
    let p = (1000 - f) * a + f * b;
    let r = x - 1000 * q;
    assert(-1000 < r < 1000) by (nonlinear_arith)
        requires
            q == (if x >= 0 { x / 1000 } else { -((-x) / 1000) }),
            r == x - 1000 * q,
    ;
    assert(v == p - r) by (nonlinear_arith)
        requires
            v == 1000 * (a + q),
            p == (1000 - f) * a + f * b,
            x == (b - a) * f,
            r == x - 1000 * q,
    ;
    assert(-1000 * DIR_SCALE <= p <= 1000 * DIR_SCALE) by (nonlinear_arith)
        requires
            -1000000 <= a <= 1000000,
            -1000000 <= b <= 1000000,
            0 <= f < 1000,
            p == (1000 - f) * a + f * b,
    ;
    assert(p * p - 2000 * (1000 * DIR_SCALE) <= v * v <= p * p + 2000 * (1000 * DIR_SCALE) + 1000000)
        by (nonlinear_arith)
        requires
            v == p - r,
            -1000 < r < 1000,
            -1000000000 <= p <= 1000000000,
    ;
}

proof fn lemma_square_of_sum(g: int, x: int, f: int, y: int)
    ensures
        (g * x + f * y) * (g * x + f * y) == g * g * (x * x) + f * f * (y * y) + 2 * f * g * (x * y),
{
    let u = g * x;
    let w = f * y;
    assert((u + w) * (u + w) == u * u + 2 * (u * w) + w * w) by (nonlinear_arith);
    assert(u * u == g * g * (x * x)) by (nonlinear_arith)
        requires
            u == g * x,
    ;
    assert(w * w == f * f * (y * y)) by (nonlinear_arith)
        requires
            w == f * y,
    ;
    assert(2 * (u * w) == 2 * f * g * (x * y)) by (nonlinear_arith)
        requires
            u == g * x,
            w == f * y,
    ;
}

/// Every interpolated direction has length `DIR_SCALE` up to rounding:
/// `cos² + sin²` lies within `INTERP_SLACK` of `DIR_SCALE²` at every millidegree.
pub proof fn lemma_unit_direction_md(a: int)
    ensures
        DIR_SCALE * DIR_SCALE - INTERP_SLACK <= cos_md(a) * cos_md(a) + sin_md(a) * sin_md(a)
            <= DIR_SCALE * DIR_SCALE + INTERP_SLACK,
{
    let m = a % 360_000;
    let d = m / 1000;
    let f = m % 1000;
    let m2 = (a + 90_000) % 360_000;
    assert(m2 / 1000 == (d + 90) % 360 && m2 % 1000 == f);
    let (c0, c1, s0, s1) = (cos_deg(d), cos_deg(d + 1), sin_deg(d), sin_deg(d + 1));
    assert(sin_deg((d + 90) % 360) == c0 && sin_deg((d + 90) % 360 + 1) == c1) by {
        assert(((d + 90) % 360) % 360 == (d + 90) % 360);
        assert(((d + 90) % 360 + 1) % 360 == (d + 91) % 360);
    }
    lemma_unit_direction(d);
    lemma_unit_direction(d + 1);
    lemma_neighbour_dot(d);
    lemma_sine_bounds(d);
    lemma_sine_bounds(d + 1);
    lemma_sine_bounds(d + 90);
    lemma_sine_bounds(d + 91);
    lemma_interp_error(c0, c1, f);
    lemma_interp_error(s0, s1, f);
    let c = cos_md(a);
    let s = sin_md(a);
    let pc = (1000 - f) * c0 + f * c1;
    let ps = (1000 - f) * s0 + f * s1;
    let ss = DIR_SCALE * DIR_SCALE;
    let sl = ROUNDING_SLACK as int;
    let a0 = c0 * c0 + s0 * s0;
    let a1 = c1 * c1 + s1 * s1;
    let dot = c0 * c1 + s0 * s1;
    let g = 1000 - f;
    lemma_square_of_sum(g, c0, f, c1);
    lemma_square_of_sum(g, s0, f, s1);
    let (gg, ff, fg) = (g * g, f * f, 2 * f * g);
    assert(gg * (c0 * c0) + gg * (s0 * s0) == gg * a0) by (nonlinear_arith)
        requires
            a0 == c0 * c0 + s0 * s0,
    ;
    assert(ff * (c1 * c1) + ff * (s1 * s1) == ff * a1) by (nonlinear_arith)
        requires
            a1 == c1 * c1 + s1 * s1,
    ;
    assert(fg * (c0 * c1) + fg * (s0 * s1) == fg * dot) by (nonlinear_arith)
        requires
            dot == c0 * c1 + s0 * s1,
    ;
    assert(pc * pc + ps * ps == g * g * a0 + f * f * a1 + 2 * f * g * dot);
    assert(2 * dot <= a0 + a1) by (nonlinear_arith)
        requires
            a0 == c0 * c0 + s0 * s0,
            a1 == c1 * c1 + s1 * s1,
            dot == c0 * c1 + s0 * s1,
    ;
    assert(pc * pc + ps * ps <= 1000000 * (ss + sl)) by (nonlinear_arith)
        requires
            pc * pc + ps * ps == g * g * a0 + f * f * a1 + 2 * f * g * dot,
            2 * dot <= a0 + a1,
            a0 <= ss + sl,
            a1 <= ss + sl,
            0 <= f,
            0 <= g,
            f + g == 1000,
    ;
    assert(pc * pc + ps * ps >= 1000000 * (ss - sl) - 500000 * (ss - sl - NEIGHBOUR_DOT)) by (nonlinear_arith)
        requires
            pc * pc + ps * ps == g * g * a0 + f * f * a1 + 2 * f * g * dot,
            ss - sl <= a0,
            ss - sl <= a1,
            dot >= NEIGHBOUR_DOT,
            ss - sl - NEIGHBOUR_DOT >= 0,
            0 <= f,
            0 <= g,
            f + g == 1000,
    ;
    let vc = 1000 * c;
    let vs = 1000 * s;
    assert(1000000 * (c * c + s * s) == vc * vc + vs * vs) by (nonlinear_arith)
        requires
            vc == 1000 * c,
            vs == 1000 * s,
    ;
}

/// Interpolated sines and cosines never exceed `DIR_SCALE` in magnitude.
pub proof fn lemma_sine_md_bounds(a: int)
    ensures
        -DIR_SCALE <= sin_md(a) <= DIR_SCALE,
{
    let m = a % FULL_TURN as int;
    let d = m / 1000;
    lemma_sine_bounds(d);
    lemma_sine_bounds(d + 1);
    lemma_interp_bound(sin_deg(d), sin_deg(d + 1), m % 1000);
}

} // verus!
