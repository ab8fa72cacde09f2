use vstd::prelude::*;
use vstd::arithmetic::div_mod::lemma_mod_multiples_vanish;
use crate::geometry::{
    Vec2, POS_LIMIT, SPEED_LIMIT, tdiv, isqrt, floor_sqrt, lemma_mul_bound, lemma_tdiv_bound,
    lemma_floor_sqrt,
};
use crate::trig::{DIR_SCALE, FULL_TURN, INTERP_SLACK, sin_md, cos_md, sine_mdeg, cosine_mdeg};
use crate::bullet::{Bullet, BulletColor};

verus! {

/// Largest speed a pattern is asked for, in micro-units per millisecond.
pub const MAX_PATTERN_SPEED: i64 = 1_000_000_000_000;

/// Radii of the bullets of each pattern, in micro-units.
pub const CIRCLE_RADIUS: i64 = 6_000_000;
pub const SPIRAL_RADIUS: i64 = 5_000_000;
pub const WAVE_RADIUS: i64 = 4_000_000;
pub const SPRAY_RADIUS: i64 = 6_000_000;
pub const AIMED_RADIUS: i64 = 8_000_000;

/// Horizontal spacing of the bullets of a wave, in micro-units.
pub const WAVE_SPACING: i64 = 15_000_000;

/// Velocity of magnitude `speed` at `angle` millidegrees.
pub open spec fn heading(angle: int, speed: int) -> Vec2 {
    Vec2 {
        x: tdiv(cos_md(angle) * speed, DIR_SCALE as int) as i64,
        y: tdiv(sin_md(angle) * speed, DIR_SCALE as int) as i64,
    }
}

fn heading_exec(angle: u32, speed: i64) -> (r: Vec2)
    requires
        -MAX_PATTERN_SPEED <= speed <= MAX_PATTERN_SPEED,
    ensures
        r == heading(angle as int, speed as int),
        r.within(MAX_PATTERN_SPEED as int),
{
    let c = cosine_mdeg(angle);
    let s = sine_mdeg(angle);
    proof {
        lemma_mul_bound(c as int, speed as int, DIR_SCALE as int, MAX_PATTERN_SPEED as int);
        lemma_mul_bound(s as int, speed as int, DIR_SCALE as int, MAX_PATTERN_SPEED as int);
    }
    Vec2 { x: c * speed / DIR_SCALE, y: s * speed / DIR_SCALE }
}

/// Angle, in millidegrees, of the `i`-th of `n` bullets spread evenly over one turn.
pub open spec fn circle_angle(i: int, n: int) -> int {
    FULL_TURN * i / n
}

/// An angle of `m` millidegrees, turned the other way when `negative`, brought into
/// `[0, FULL_TURN)`.
pub open spec fn wrap_signed(m: int, negative: bool) -> int {
    if negative {
        (FULL_TURN - m % FULL_TURN as int) % FULL_TURN as int
    } else {
        m % FULL_TURN as int
    }
}

/// Magnitude of an integer.
pub open spec fn abs(x: int) -> int {
    if x >= 0 {
        x
    } else {
        -x
    }
}

fn wrap_signed_exec(m: u128, negative: bool) -> (r: u32)
    ensures
        r == wrap_signed(m as int, negative),
        r < FULL_TURN,
{
    let k = (m % 360_000) as u32;
    if negative {
        (360_000 - k) % 360_000
    } else {
        k
    }
}

/// The `i`-th bullet of a circle burst of `n` bullets.
pub open spec fn circle_bullet(center: Vec2, i: int, n: int, speed: int) -> Bullet {
    Bullet {
        position: center,
        velocity: heading(circle_angle(i, n), speed),
        radius: CIRCLE_RADIUS,
        color: BulletColor::Red,
    }
}

/// `count` bullets leaving `center` at `speed`, their headings evenly spaced over one turn.
pub fn create_circle_pattern(center: Vec2, bullets_count: usize, speed: i64) -> (r: Vec<Bullet>)
    requires
        -MAX_PATTERN_SPEED <= speed <= MAX_PATTERN_SPEED,
    ensures
        r@.len() == bullets_count,
        forall|i: int|
            0 <= i < bullets_count ==> #[trigger] r@[i] == circle_bullet(
                center,
                i,
                bullets_count as int,
                speed as int,
            ),
        forall|i: int|
            0 <= i < bullets_count ==> (#[trigger] r@[i]).velocity.within(SPEED_LIMIT as int),
{
    let mut bullets: Vec<Bullet> = Vec::new();
    let mut i: usize = 0;
    while i < bullets_count
        invariant
            -MAX_PATTERN_SPEED <= speed <= MAX_PATTERN_SPEED,
            i <= bullets_count,
            bullets@.len() == i,
            forall|k: int|
                0 <= k < i ==> (#[trigger] bullets@[k]).velocity.within(SPEED_LIMIT as int),
            forall|k: int|
                0 <= k < i ==> #[trigger] bullets@[k] == circle_bullet(
                    center,
                    k,
                    bullets_count as int,
                    speed as int,
                ),
        decreases bullets_count - i,
    {
        proof {
            let (ii, nn) = (i as int, bullets_count as int);
            assert(360_000 * ii / nn < 360_000) by (nonlinear_arith)
                requires
                    0 <= ii < nn,
            ;
            assert(360_000 * ii / nn >= 0) by (nonlinear_arith)
                requires
                    0 <= ii < nn,
            ;
        }
        let angle = (360_000 * (i as u128) / (bullets_count as u128)) as u32;
        let velocity = heading_exec(angle, speed);
        bullets.push(Bullet { position: center, velocity, radius: CIRCLE_RADIUS, color: BulletColor::Red });
        i = i + 1;
    }
    bullets
}

/// Angle, in millidegrees, of the `i`-th of `n` bullets of a spiral sweeping
/// `turns_milli` thousandths of a turn (clockwise when negative), rounded toward zero.
pub open spec fn spiral_angle(i: int, n: int, turns_milli: int) -> int {
    wrap_signed(abs(turns_milli) * 360 * i / n, turns_milli < 0)
}

/// The `i`-th bullet of a spiral of `n` bullets.
pub open spec fn spiral_bullet(center: Vec2, i: int, n: int, speed: int, turns_milli: int) -> Bullet {
    Bullet {
        position: center,
        velocity: heading(spiral_angle(i, n, turns_milli), speed),
        radius: SPIRAL_RADIUS,
        color: BulletColor::Yellow,
    }
}

/// Like a circle burst, but the headings sweep `turns_milli / 1000` turns over the batch.
pub fn create_spiral_pattern(center: Vec2, bullets_count: usize, speed: i64, turns_milli: i32) -> (r:
    Vec<Bullet>)
    requires
        -MAX_PATTERN_SPEED <= speed <= MAX_PATTERN_SPEED,
    ensures
        r@.len() == bullets_count,
        forall|i: int|
            0 <= i < bullets_count ==> #[trigger] r@[i] == spiral_bullet(
                center,
                i,
                bullets_count as int,
                speed as int,
                turns_milli as int,
            ),
{
    let mut bullets: Vec<Bullet> = Vec::new();
    let mut i: usize = 0;
    while i < bullets_count
        invariant
            -MAX_PATTERN_SPEED <= speed <= MAX_PATTERN_SPEED,
            i <= bullets_count,
            bullets@.len() == i,
            forall|k: int|
                0 <= k < i ==> #[trigger] bullets@[k] == spiral_bullet(
                    center,
                    k,
                    bullets_count as int,
                    speed as int,
                    turns_milli as int,
                ),
        decreases bullets_count - i,
    {
        proof {
            lemma_mul_bound(abs(turns_milli as int) * 360, i as int, 0x8000_0000int * 360, usize::MAX as int);
        }
        let t: u128 = if turns_milli < 0 { (-(turns_milli as i64)) as u128 } else { turns_milli as u128 };
        let sweep = t * 360 * (i as u128);
        let angle = wrap_signed_exec(sweep / (bullets_count as u128), turns_milli < 0);
        let velocity = heading_exec(angle, speed);
        bullets.push(
            Bullet { position: center, velocity, radius: SPIRAL_RADIUS, color: BulletColor::Yellow },
        );
        i = i + 1;
    }
    bullets
}

/// The `i`-th bullet of a wave: spaced along x, offset in y by
/// `amplitude · sin(i · frequency)` (`frequency` in millidegrees per bullet), falling
/// straight down at `speed`.
pub open spec fn wave_bullet(start_x: int, start_y: int, i: int, speed: int, amplitude: int, frequency: int) -> Bullet {
    Bullet {
        position: Vec2 {
            x: (start_x + i * WAVE_SPACING) as i64,
            y: (start_y + tdiv(
                amplitude * sin_md(wrap_signed(i * abs(frequency), frequency < 0)),
                DIR_SCALE as int,
            )) as i64,
        },
        velocity: Vec2 { x: 0, y: speed as i64 },
        radius: WAVE_RADIUS,
        color: BulletColor::Green,
    }
}

/// A horizontal row of bullets laid along a sine wave of `frequency` millidegrees per bullet.
pub fn create_wave_pattern(
    start_x: i64,
    start_y: i64,
    bullets_count: usize,
    speed: i64,
    amplitude: i64,
    frequency: i32,
) -> (r: Vec<Bullet>)
    requires
        -POS_LIMIT <= start_x,
        start_x + bullets_count * WAVE_SPACING <= i64::MAX,
        -POS_LIMIT <= start_y <= POS_LIMIT,
        -POS_LIMIT <= amplitude <= POS_LIMIT,
    ensures
        r@.len() == bullets_count,
        forall|i: int|
            0 <= i < bullets_count ==> #[trigger] r@[i] == wave_bullet(
                start_x as int,
                start_y as int,
                i,
                speed as int,
                amplitude as int,
                frequency as int,
            ),
{
    let mut bullets: Vec<Bullet> = Vec::new();
    let mut i: usize = 0;
    while i < bullets_count
        invariant
            -POS_LIMIT <= start_x,
            start_x + bullets_count * WAVE_SPACING <= i64::MAX,
            -POS_LIMIT <= start_y <= POS_LIMIT,
            -POS_LIMIT <= amplitude <= POS_LIMIT,
            i <= bullets_count,
            bullets@.len() == i,
            forall|k: int|
                0 <= k < i ==> #[trigger] bullets@[k] == wave_bullet(
                    start_x as int,
                    start_y as int,
                    k,
                    speed as int,
                    amplitude as int,
                    frequency as int,
                ),
        decreases bullets_count - i,
    {
        proof {
            lemma_mul_bound(i as int, WAVE_SPACING as int, bullets_count as int, WAVE_SPACING as int);
            lemma_mul_bound(i as int, abs(frequency as int), usize::MAX as int, 0x8000_0000int);
        }
        let x = (start_x as i128 + (i as i128) * (WAVE_SPACING as i128)) as i64;
        let fm: u128 = if frequency < 0 { (-(frequency as i64)) as u128 } else { frequency as u128 };
        let phase = wrap_signed_exec((i as u128) * fm, frequency < 0);
        let s = sine_mdeg(phase);
        proof {
            lemma_mul_bound(amplitude as int, s as int, POS_LIMIT as int, DIR_SCALE as int);
        }
        let y = start_y + ((amplitude as i128) * (s as i128) / (DIR_SCALE as i128)) as i64;
        bullets.push(
            Bullet {
                position: Vec2 { x, y },
                velocity: Vec2 { x: 0, y: speed },
                radius: WAVE_RADIUS,
                color: BulletColor::Green,
            },
        );
        i = i + 1;
    }
    bullets
}

/// Heading of a side-spray bullet for a random draw `j`: within 45 degrees of straight
/// ahead, in millidegrees within `[0, FULL_TURN)`.
pub open spec fn spray_angle(j: int) -> int {
    (315_000 + j % 90_001) % FULL_TURN as int
}

/// A side-spray bullet leaving the left edge (or the right edge at `width`) at height `y`.
pub open spec fn spray_bullet(from_left: bool, width: int, y: int, speed: int, j: int) -> Bullet {
    let h = heading(spray_angle(j), speed);
    Bullet {
        position: Vec2 { x: if from_left { 0 } else { width as i64 }, y: y as i64 },
        velocity: Vec2 { x: if from_left { h.x } else { (-h.x) as i64 }, y: h.y },
        radius: SPRAY_RADIUS,
        color: BulletColor::Cyan,
    }
}

/// One bullet per jitter draw, from the left or right edge, aimed inward with the
/// draw's angular jitter.
pub fn create_side_spray(from_left: bool, width: i64, y: i64, speed: i64, jitter: &[u32]) -> (r: Vec<Bullet>)
    requires
        -MAX_PATTERN_SPEED <= speed <= MAX_PATTERN_SPEED,
    ensures
        r@.len() == jitter@.len(),
        forall|i: int|
            0 <= i < jitter@.len() ==> #[trigger] r@[i] == spray_bullet(
                from_left,
                width as int,
                y as int,
                speed as int,
                jitter@[i] as int,
            ),
        forall|i: int|
            0 <= i < jitter@.len() ==> (#[trigger] r@[i]).velocity.within(SPEED_LIMIT as int),
{
    let mut bullets: Vec<Bullet> = Vec::new();
    let mut i: usize = 0;
    while i < jitter.len()
        invariant
            -MAX_PATTERN_SPEED <= speed <= MAX_PATTERN_SPEED,
            i <= jitter@.len(),
            bullets@.len() == i,
            forall|k: int|
                0 <= k < i ==> (#[trigger] bullets@[k]).velocity.within(SPEED_LIMIT as int),
            forall|k: int|
                0 <= k < i ==> #[trigger] bullets@[k] == spray_bullet(
                    from_left,
                    width as int,
                    y as int,
                    speed as int,
                    jitter@[k] as int,
                ),
        decreases jitter@.len() - i,
    {
        let angle = (315_000 + jitter[i] % 90_001) % 360_000;
        let h = heading_exec(angle, speed);
        let x = if from_left { 0 } else { width };
        let vx = if from_left { h.x } else { -h.x };
        bullets.push(
            Bullet {
                position: Vec2 { x, y },
                velocity: Vec2 { x: vx, y: h.y },
                radius: SPRAY_RADIUS,
                color: BulletColor::Cyan,
            },
        );
        i = i + 1;
    }
    bullets
}

/// Largest squared distance whose product with `DIR_SCALE²` fits in 128 bits.
pub const AIM_EXACT_LIMIT: u128 = 340282366920938463463374607;

/// The distance `|d|` scaled by `DIR_SCALE`, rounded down, for a squared distance `n`:
/// exact to the last place where `n·DIR_SCALE²` fits in 128 bits, and to `DIR_SCALE`
/// beyond (where the distance exceeds `10^13` micro-units).
pub open spec fn aim_length(n: int) -> int {
    if n <= AIM_EXACT_LIMIT {
        floor_sqrt(n * (DIR_SCALE * DIR_SCALE))
    } else {
        DIR_SCALE * floor_sqrt(n)
    }
}

/// Unit direction (length `DIR_SCALE`, rounded toward zero) from `origin` to `target`;
/// zero when the two points coincide.
pub open spec fn aim_unit(origin: Vec2, target: Vec2) -> Vec2 {
    let dx = target.x - origin.x;
    let dy = target.y - origin.y;
    let len = aim_length(dx * dx + dy * dy);
    let ss = DIR_SCALE * DIR_SCALE;
    if len == 0 {
        Vec2 { x: 0, y: 0 }
    } else {
        Vec2 { x: tdiv(dx * ss, len) as i64, y: tdiv(dy * ss, len) as i64 }
    }
}

/// Length of an aimed unit vector: it is `DIR_SCALE` up to rounding.
proof fn lemma_unit_length(dx: int, dy: int, len: int, ux: int, uy: int)
    requires
        0 < len,
        len * len <= (dx * dx + dy * dy) * (DIR_SCALE * DIR_SCALE),
        (DIR_SCALE * DIR_SCALE) * ((dx * dx + dy * dy) * (DIR_SCALE * DIR_SCALE))
            <= (DIR_SCALE * DIR_SCALE + 2 * DIR_SCALE + 1) * (len * len),
        abs(dx) * DIR_SCALE <= len,
        abs(dy) * DIR_SCALE <= len,
        ux == tdiv(dx * (DIR_SCALE * DIR_SCALE), len),
        uy == tdiv(dy * (DIR_SCALE * DIR_SCALE), len),
    ensures
        DIR_SCALE * DIR_SCALE - 4 * DIR_SCALE <= ux * ux + uy * uy <= DIR_SCALE * DIR_SCALE + 2
            * DIR_SCALE + 1,
{
    let sc = DIR_SCALE as int;
    let ss = sc * sc;
    let px = dx * ss;
    let py = dy * ss;
    let n = dx * dx + dy * dy;
    lemma_tdiv_square(px, len);
    lemma_tdiv_square(py, len);
    let (lx, ly) = (len * ux, len * uy);
    let m = ux * ux + uy * uy;
    assert(lx * lx + ly * ly == (len * len) * m) by (nonlinear_arith)
        requires
            lx == len * ux,
            ly == len * uy,
            m == ux * ux + uy * uy,
    ;
    assert(px * px + py * py == ss * (n * ss)) by (nonlinear_arith)
        requires
            px == dx * ss,
            py == dy * ss,
            n == dx * dx + dy * dy,
    ;
    assert(abs(px) <= len * sc && abs(py) <= len * sc) by (nonlinear_arith)
        requires
            px == dx * ss,
            py == dy * ss,
            ss == sc * sc,
            abs(dx) * sc <= len,
            abs(dy) * sc <= len,
            0 < sc,
    ;
    let l2 = len * len;
    assert(l2 > 0) by (nonlinear_arith)
        requires
            len > 0,
            l2 == len * len,
    ;
    assert(lx * lx <= px * px && ly * ly <= py * py);
    assert(lx * lx + ly * ly <= ss * (n * ss));
    assert(ss * (n * ss) <= (ss + 2 * sc + 1) * l2);
    assert(l2 * m <= l2 * (ss + 2 * sc + 1)) by (nonlinear_arith)
        requires
            lx * lx + ly * ly == l2 * m,
            lx * lx + ly * ly <= ss * (n * ss),
            ss * (n * ss) <= (ss + 2 * sc + 1) * l2,
    ;
    assert(m <= ss + 2 * sc + 1) by (nonlinear_arith)
        requires
            l2 * m <= l2 * (ss + 2 * sc + 1),
            l2 > 0,
    ;
    assert(2 * len * abs(px) + 2 * len * abs(py) <= 4 * sc * l2) by (nonlinear_arith)
        requires
            abs(px) <= len * sc,
            abs(py) <= len * sc,
            0 < len,
            l2 == len * len,
    ;
    assert(ss * (n * ss) >= ss * l2) by (nonlinear_arith)
        requires
            l2 <= n * ss,
            0 <= ss,
    ;
    assert(lx * lx >= px * px - 2 * len * abs(px) && ly * ly >= py * py - 2 * len * abs(py));
    assert(l2 * m >= l2 * (ss - 4 * sc)) by (nonlinear_arith)
        requires
            lx * lx + ly * ly == l2 * m,
            lx * lx >= px * px - 2 * len * abs(px),
            ly * ly >= py * py - 2 * len * abs(py),
            px * px + py * py == ss * (n * ss),
            2 * len * abs(px) + 2 * len * abs(py) <= 4 * sc * l2,
            ss * (n * ss) >= ss * l2,
    ;
    assert(m >= ss - 4 * sc) by (nonlinear_arith)
        requires
            l2 * m >= l2 * (ss - 4 * sc),
            l2 > 0,
    ;
}

/// Unit direction from `origin` toward `target`, of length `DIR_SCALE` up to rounding;
/// zero when the points coincide.
pub fn aim_direction(origin: Vec2, target: Vec2) -> (r: Vec2)
    requires
        origin.within(POS_LIMIT as int),
        target.within(POS_LIMIT as int),
    ensures
        r == aim_unit(origin, target),
        r.within(DIR_SCALE as int),
        origin != target ==> DIR_SCALE * DIR_SCALE - 4 * DIR_SCALE <= r.x * r.x + r.y * r.y
            <= DIR_SCALE * DIR_SCALE + 2 * DIR_SCALE + 1,
{
    let dx = target.x as i128 - origin.x as i128;
    let dy = target.y as i128 - origin.y as i128;
    let ghost lim = 2 * POS_LIMIT as int;
    let ghost sc = DIR_SCALE as int;
    let ghost ss = sc * sc;
    proof {
        lemma_mul_bound(dx as int, dx as int, lim, lim);
        lemma_mul_bound(dy as int, dy as int, lim, lim);
        assert(dx * dx >= 0 && dy * dy >= 0) by (nonlinear_arith);
        if origin != target {
            assert(dx != 0 || dy != 0);
            assert(dx * dx + dy * dy >= 1) by (nonlinear_arith)
                requires
                    dx != 0 || dy != 0,
            ;
        }
    }
    let n = (dx * dx + dy * dy) as u128;
    if n == 0 {
        return Vec2 { x: 0, y: 0 };
    }
    let len: u128;
    if n <= AIM_EXACT_LIMIT {
        let m = n * 1_000_000_000_000;
        len = isqrt(m);
        proof {
            assert(dx * dx * ss <= m && dy * dy * ss <= m) by (nonlinear_arith)
                requires
                    m == n * ss,
                    n == dx * dx + dy * dy,
                    dx * dx >= 0,
                    dy * dy >= 0,
                    ss > 0,
            ;
            assert((dx * sc) * (dx * sc) == dx * dx * ss && (dy * sc) * (dy * sc) == dy * dy * ss)
                by (nonlinear_arith)
                requires
                    ss == sc * sc,
            ;
            lemma_floor_sqrt(m as int, len as int, dx * sc);
            lemma_floor_sqrt(m as int, len as int, dy * sc);
            assert(abs(dx as int) * sc <= len && abs(dy as int) * sc <= len);
            let l = len as int;
            assert(l >= sc) by (nonlinear_arith)
                requires
                    m < (l + 1) * (l + 1),
                    m >= ss,
                    ss == sc * sc,
                    0 <= l,
                    sc > 0,
            ;
            assert(ss * m <= (ss + 2 * sc + 1) * (l * l)) by (nonlinear_arith)
                requires
                    m < (l + 1) * (l + 1),
                    l >= sc,
                    ss == sc * sc,
                    sc > 0,
            ;
        }
    } else {
        let r = isqrt(n);
        proof {
            lemma_floor_sqrt(n as int, r as int, dx as int);
            lemma_floor_sqrt(n as int, r as int, dy as int);
            let rr = r as int;
            assert(rr >= sc) by (nonlinear_arith)
                requires
                    n < (rr + 1) * (rr + 1),
                    n > AIM_EXACT_LIMIT,
                    sc == 1_000_000,
                    0 <= rr,
            ;
            let l = sc * rr;
            assert(l * l <= n * ss) by (nonlinear_arith)
                requires
                    rr * rr <= n,
                    l == sc * rr,
                    ss == sc * sc,
            ;
            assert(ss * (n * ss) <= (ss + 2 * sc + 1) * (l * l)) by (nonlinear_arith)
                requires
                    n < (rr + 1) * (rr + 1),
                    rr >= sc,
                    l == sc * rr,
                    ss == sc * sc,
                    sc > 0,
            ;
            assert(abs(dx as int) * sc <= l && abs(dy as int) * sc <= l) by (nonlinear_arith)
                requires
                    -rr <= dx <= rr,
                    -rr <= dy <= rr,
                    l == sc * rr,
                    sc > 0,
            ;
        }
        len = r * 1_000_000;
    }
    let l = len as i128;
    proof {
        assert(0 < l);
        lemma_mul_bound(dx as int, ss, lim, ss);
        lemma_mul_bound(dy as int, ss, lim, ss);
        assert(abs(dx * ss) <= l * sc && abs(dy * ss) <= l * sc) by (nonlinear_arith)
            requires
                abs(dx as int) * sc <= l,
                abs(dy as int) * sc <= l,
                ss == sc * sc,
                sc > 0,
        ;
        lemma_tdiv_bound(dx * ss, l as int, sc);
        lemma_tdiv_bound(dy * ss, l as int, sc);
        lemma_unit_length(dx as int, dy as int, l as int, tdiv(dx * ss, l as int), tdiv(dy * ss, l as int));
    }
    Vec2 {
        x: (dx * 1_000_000_000_000 / l) as i64,
        y: (dy * 1_000_000_000_000 / l) as i64,
    }
}

/// `u` turned by `angle` millidegrees.
pub open spec fn rotate(u: Vec2, angle: int) -> Vec2 {
    let c = cos_md(angle);
    let s = sin_md(angle);
    Vec2 {
        x: tdiv(u.x * c - u.y * s, DIR_SCALE as int) as i64,
        y: tdiv(u.x * s + u.y * c, DIR_SCALE as int) as i64,
    }
}

/// Angular offset of the `i`-th of `n` fan bullets: `spread` millidegrees shared evenly,
/// centred on the aim, taken modulo a full turn.
pub open spec fn fan_angle(i: int, n: int, spread: int) -> int {
    if n <= 1 {
        0
    } else {
        (spread * i / (n - 1) - spread / 2) % FULL_TURN as int
    }
}

/// The `i`-th of `n` bullets of a fan from `origin` aimed at `target`.
pub open spec fn aimed_bullet(origin: Vec2, target: Vec2, i: int, n: int, spread: int, speed: int) -> Bullet {
    let r = rotate(aim_unit(origin, target), fan_angle(i, n, spread));
    Bullet {
        position: origin,
        velocity: Vec2 {
            x: tdiv(r.x * speed, DIR_SCALE as int) as i64,
            y: tdiv(r.y * speed, DIR_SCALE as int) as i64,
        },
        radius: AIMED_RADIUS,
        color: BulletColor::Red,
    }
}

fn fan_angle_exec(i: usize, n: usize, spread: u32) -> (r: u32)
    requires
        i < n,
    ensures
        r == fan_angle(i as int, n as int, spread as int),
{
    if n <= 1 {
        return 0;
    }
    proof {
        let (ii, nn, sp) = (i as int, n as int, spread as int);
        assert(0 <= sp * ii / (nn - 1) <= sp) by (nonlinear_arith)
            requires
                0 <= ii < nn,
                1 < nn,
                0 <= sp,
        ;
        lemma_mod_multiples_vanish(sp, sp * ii / (nn - 1) - sp / 2, 360_000);
        lemma_mul_bound(sp, ii, u32::MAX as int, usize::MAX as int);
    }
    let offset = (spread as u128) * (i as u128) / ((n - 1) as u128);
    ((offset + 360_000 * (spread as u128) - (spread as u128) / 2) % 360_000) as u32
}

/// `count` bullets from `origin` aimed at `target`, fanned evenly over `spread` millidegrees
/// centred on the aim. Coinciding points give stationary bullets.
pub fn create_aimed_fan(origin: Vec2, target: Vec2, speed: i64, count: usize, spread: u32) -> (r: Vec<Bullet>)
    requires
        origin.within(POS_LIMIT as int),
        target.within(POS_LIMIT as int),
        -MAX_PATTERN_SPEED <= speed <= MAX_PATTERN_SPEED,
    ensures
        r@.len() == count,
        forall|i: int|
            0 <= i < count ==> #[trigger] r@[i] == aimed_bullet(
                origin,
                target,
                i,
                count as int,
                spread as int,
                speed as int,
            ),
        forall|i: int| 0 <= i < count ==> (#[trigger] r@[i]).velocity.within(SPEED_LIMIT as int),
{
    let u = aim_direction(origin, target);
    let mut bullets: Vec<Bullet> = Vec::new();
    let mut i: usize = 0;
    while i < count
        invariant
            -MAX_PATTERN_SPEED <= speed <= MAX_PATTERN_SPEED,
            u == aim_unit(origin, target),
            u.within(DIR_SCALE as int),
            i <= count,
            bullets@.len() == i,
            forall|k: int|
                0 <= k < i ==> #[trigger] bullets@[k] == aimed_bullet(
                    origin,
                    target,
                    k,
                    count as int,
                    spread as int,
                    speed as int,
                ),
            forall|k: int| 0 <= k < i ==> (#[trigger] bullets@[k]).velocity.within(SPEED_LIMIT as int),
        decreases count - i,
    {
        let a = fan_angle_exec(i, count, spread);
        let c = cosine_mdeg(a);
        let s = sine_mdeg(a);
        let ghost sc = DIR_SCALE as int;
        proof {
            lemma_mul_bound(u.x as int, c as int, sc, sc);
            lemma_mul_bound(u.y as int, s as int, sc, sc);
            lemma_mul_bound(u.x as int, s as int, sc, sc);
            lemma_mul_bound(u.y as int, c as int, sc, sc);
            lemma_tdiv_bound(u.x * c - u.y * s, sc, 2 * sc);
            lemma_tdiv_bound(u.x * s + u.y * c, sc, 2 * sc);
        }
        let rx = (u.x * c - u.y * s) / DIR_SCALE;
        let ry = (u.x * s + u.y * c) / DIR_SCALE;
        proof {
            lemma_mul_bound(rx as int, speed as int, 2 * sc, MAX_PATTERN_SPEED as int);
            lemma_mul_bound(ry as int, speed as int, 2 * sc, MAX_PATTERN_SPEED as int);
            lemma_tdiv_bound(rx * speed, sc, 2 * MAX_PATTERN_SPEED as int);
            lemma_tdiv_bound(ry * speed, sc, 2 * MAX_PATTERN_SPEED as int);
        }
        let velocity = Vec2 { x: rx * speed / DIR_SCALE, y: ry * speed / DIR_SCALE };
        bullets.push(Bullet { position: origin, velocity, radius: AIMED_RADIUS, color: BulletColor::Red });
        i = i + 1;
    }
    bullets
}

/// Rounding `x / d` toward zero loses less than `d` from `x`: the scaled result's
/// square lies between `x² - 2·d·|x|` and `x²`.
proof fn lemma_tdiv_square(x: int, d: int)
    requires
        0 < d,
    ensures
        (d * tdiv(x, d)) * (d * tdiv(x, d)) <= x * x,
        x * x - 2 * d * (if x >= 0 { x } else { -x }) <= (d * tdiv(x, d)) * (d * tdiv(x, d)),
{
    let m = if x >= 0 { x } else { -x };
    let q = m / d;
    let r = m % d;
    assert(m == d * q + r && 0 <= r < d) by (nonlinear_arith)
        requires
            0 < d,
            q == m / d,
            r == m % d,
    ;
    let t = d * tdiv(x, d);
    assert(t * t == (d * q) * (d * q)) by (nonlinear_arith)
        requires
            t == d * tdiv(x, d),
            x >= 0 ==> tdiv(x, d) == q,
            x < 0 ==> tdiv(x, d) == -q,
    ;
    assert((d * q) * (d * q) <= m * m && m * m - 2 * d * m <= (d * q) * (d * q)) by (nonlinear_arith)
        requires
            m == d * q + r,
            0 <= r < d,
            0 <= m,
            0 <= q,
    ;
    assert(m * m == x * x) by (nonlinear_arith)
        requires
            m == x || m == -x,
    ;
}

/// A heading has magnitude `speed` up to the rounding of the direction table and of
/// the division: `DIR_SCALE²·|v|²` lies within `speed²·INTERP_SLACK` of
/// `DIR_SCALE²·speed²`, less at most `4·DIR_SCALE²·|speed|` for truncation.
pub proof fn lemma_heading_magnitude(angle: int, speed: int)
    requires
        -MAX_PATTERN_SPEED <= speed <= MAX_PATTERN_SPEED,
    ensures
        ({
            let v = heading(angle, speed);
            let ss = DIR_SCALE * DIR_SCALE;
            let mag = ss * (v.x * v.x + v.y * v.y);
            let sp = if speed >= 0 { speed } else { -speed };
            &&& mag <= speed * speed * (ss + INTERP_SLACK)
            &&& speed * speed * (ss - INTERP_SLACK) - 4 * ss * sp <= mag
        }),
{
    let c = cos_md(angle);
    let s = sin_md(angle);
    let sc = DIR_SCALE as int;
    let ss = sc * sc;
    let sl = INTERP_SLACK as int;
    crate::trig::lemma_unit_direction_md(angle);
    crate::trig::lemma_sine_md_bounds(angle);
    crate::trig::lemma_sine_md_bounds(angle + 90_000);
    let x = c * speed;
    let y = s * speed;
    lemma_mul_bound(c, speed, sc, MAX_PATTERN_SPEED as int);
    lemma_mul_bound(s, speed, sc, MAX_PATTERN_SPEED as int);
    lemma_tdiv_bound(x, sc, MAX_PATTERN_SPEED as int);
    lemma_tdiv_bound(y, sc, MAX_PATTERN_SPEED as int);
    let vx = tdiv(x, sc);
    let vy = tdiv(y, sc);
    let v = heading(angle, speed);
    assert(v.x == vx && v.y == vy);
    lemma_tdiv_square(x, sc);
    lemma_tdiv_square(y, sc);
    let sp = if speed >= 0 { speed } else { -speed };
    let ax = if x >= 0 { x } else { -x };
    let ay = if y >= 0 { y } else { -y };
    assert(ax <= sc * sp && ay <= sc * sp) by (nonlinear_arith)
        requires
            -sc <= c <= sc,
            -sc <= s <= sc,
            x == c * speed,
            y == s * speed,
            ax == (if x >= 0 { x } else { -x }),
            ay == (if y >= 0 { y } else { -y }),
            sp == (if speed >= 0 { speed } else { -speed }),
            0 < sc,
    ;
    assert(x * x + y * y == speed * speed * (c * c + s * s)) by (nonlinear_arith)
        requires
            x == c * speed,
            y == s * speed,
    ;
    assert(speed * speed * (ss - sl) <= speed * speed * (c * c + s * s) <= speed * speed * (ss + sl))
        by (nonlinear_arith)
        requires
            ss - sl <= c * c + s * s <= ss + sl,
    ;
    assert(ss * (vx * vx + vy * vy) == (sc * vx) * (sc * vx) + (sc * vy) * (sc * vy)) by (nonlinear_arith)
        requires
            ss == sc * sc,
    ;
    assert(2 * sc * ax + 2 * sc * ay <= 4 * ss * sp) by (nonlinear_arith)
        requires
            ax <= sc * sp,
            ay <= sc * sp,
            0 < sc,
            ss == sc * sc,
    ;
    assert(ss * (v.x * v.x + v.y * v.y) == ss * (vx * vx + vy * vy));
}

/// In a circle burst of `n` bullets, bullet `i` heads at `360·i/n` degrees to within
/// one millidegree (`n·angle <= 360000·i < n·(angle + 1)`, the angle in millidegrees),
/// with a velocity of magnitude `speed` up to rounding.
pub proof fn lemma_circle_burst_spacing(center: Vec2, n: int, speed: int, i: int)
    requires
        0 <= i < n,
        -MAX_PATTERN_SPEED <= speed <= MAX_PATTERN_SPEED,
    ensures
        circle_bullet(center, i, n, speed).velocity == heading(circle_angle(i, n), speed),
        n * circle_angle(i, n) <= FULL_TURN * i < n * (circle_angle(i, n) + 1),
        ({
            let v = circle_bullet(center, i, n, speed).velocity;
            let ss = DIR_SCALE * DIR_SCALE;
            let mag = ss * (v.x * v.x + v.y * v.y);
            let sp = if speed >= 0 { speed } else { -speed };
            &&& mag <= speed * speed * (ss + INTERP_SLACK)
            &&& speed * speed * (ss - INTERP_SLACK) - 4 * ss * sp <= mag
        }),
{
    lemma_heading_magnitude(circle_angle(i, n), speed);
    let q = circle_angle(i, n);
    assert(n * q <= 360_000 * i < n * (q + 1)) by (nonlinear_arith)
        requires
            q == 360_000 * i / n,
            0 < n,
    ;
}

} // verus!
