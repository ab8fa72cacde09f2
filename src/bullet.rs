use vstd::prelude::*;
use crate::geometry::{Vec2, POS_LIMIT, SPEED_LIMIT, MAX_TICK_MS, MAX_RADIUS, lemma_mul_bound};

verus! {

/// The visual style of a bullet; it has no effect on play.
#[derive(Clone, Copy, Debug, PartialEq, Eq, Structural)]
pub enum BulletColor {
    Red,
    Yellow,
    Green,
    Cyan,
}

/// A projectile moving at constant velocity.
/// Position and radius are in micro-units, velocity in micro-units per millisecond.
#[derive(Clone, Copy, Debug, PartialEq, Eq, Structural)]
pub struct Bullet {
    pub position: Vec2,
    pub velocity: Vec2,
    pub radius: i64,
    pub color: BulletColor,
}

/// Where a bullet is after `dt` milliseconds.
pub open spec fn moved(b: Bullet, dt: int) -> Bullet {
    Bullet {
        position: Vec2 {
            x: (b.position.x + b.velocity.x * dt) as i64,
            y: (b.position.y + b.velocity.y * dt) as i64,
        },
        ..b
    }
}

impl Bullet {
    /// The bounds under which a bullet can move for a tick without overflow.
    pub open spec fn wf(&self) -> bool {
        self.position.within(POS_LIMIT as int) && self.velocity.within(SPEED_LIMIT as int) && 0
            < self.radius <= MAX_RADIUS
    }

    pub fn new(x: i64, y: i64, vx: i64, vy: i64, radius: i64, color: BulletColor) -> (r: Bullet)
        ensures
            r.position == (Vec2 { x, y }),
            r.velocity == (Vec2 { x: vx, y: vy }),
            r.radius == radius,
            r.color == color,
    {
        Bullet { position: Vec2 { x, y }, velocity: Vec2 { x: vx, y: vy }, radius, color }
    }

    /// Advances the bullet by `velocity * delta_time`.
    pub fn update(&mut self, delta_time: i64)
        requires
            old(self).position.within(POS_LIMIT as int),
            old(self).velocity.within(SPEED_LIMIT as int),
            -MAX_TICK_MS <= delta_time <= MAX_TICK_MS,
        ensures
            *final(self) == moved(*old(self), delta_time as int),
            final(self).position.x == old(self).position.x + old(self).velocity.x * delta_time,
            final(self).position.y == old(self).position.y + old(self).velocity.y * delta_time,
    {
        proof {
            lemma_mul_bound(self.velocity.x as int, delta_time as int, SPEED_LIMIT as int, MAX_TICK_MS as int);
            lemma_mul_bound(self.velocity.y as int, delta_time as int, SPEED_LIMIT as int, MAX_TICK_MS as int);
        }
        self.position.x = self.position.x + self.velocity.x * delta_time;
        self.position.y = self.position.y + self.velocity.y * delta_time;
    }
}

} // verus!
