use vstd::prelude::*;
use crate::geometry::{
    Vec2, ARENA_LIMIT, POS_LIMIT, SPEED_LIMIT, MAX_TICK_MS, MAX_RADIUS, clamp,
    lemma_mul_bound,
};

verus! {

/// Collision radius of the player, in micro-units (ten arena units).
pub const PLAYER_SIZE: i64 = 10_000_000;

/// The player-controlled shape.
/// Position and size are in micro-units, velocity in micro-units per millisecond,
/// the invincibility timer in milliseconds of invincibility left.
pub struct Player {
    pub position: Vec2,
    pub velocity: Vec2,
    pub size: i64,
    pub is_invincible: bool,
    pub invincibility_timer: i64,
}

/// The player after `dt` milliseconds in an arena of `width` by `height`: moved by its
/// velocity, clamped to `[size, width - size] × [size, height - size]`, with the
/// invincibility timer run down and the flag cleared once it reaches zero.
pub open spec fn stepped(p: Player, dt: int, width: int, height: int) -> Player {
    let timer = if p.is_invincible { p.invincibility_timer - dt } else { p.invincibility_timer as int };
    Player {
        position: Vec2 {
            x: clamp(p.position.x + p.velocity.x * dt, p.size as int, width - p.size) as i64,
            y: clamp(p.position.y + p.velocity.y * dt, p.size as int, height - p.size) as i64,
        },
        invincibility_timer: timer as i64,
        is_invincible: p.is_invincible && timer > 0,
        ..p
    }
}

impl Player {
    /// The bounds under which the player can be updated without overflow.
    pub open spec fn wf(&self) -> bool {
        &&& self.position.within(POS_LIMIT as int)
        &&& self.velocity.within(SPEED_LIMIT as int)
        &&& 0 <= self.size <= MAX_RADIUS
        &&& -MAX_TICK_MS <= self.invincibility_timer <= u32::MAX
        &&& self.is_invincible ==> 0 <= self.invincibility_timer
    }

    /// A resting, vulnerable player of the standard size at `(x, y)`.
    pub fn new(x: i64, y: i64) -> (r: Player)
        ensures
            r.position == (Vec2 { x, y }),
            r.velocity == (Vec2 { x: 0, y: 0 }),
            r.size == PLAYER_SIZE,
            !r.is_invincible,
            r.invincibility_timer == 0,
            r.position.within(POS_LIMIT as int) ==> r.wf(),
    {
        Player {
            position: Vec2 { x, y },
            velocity: Vec2 { x: 0, y: 0 },
            size: PLAYER_SIZE,
            is_invincible: false,
            invincibility_timer: 0,
        }
    }

    /// Moves the player by `velocity * delta_time`, keeps it inside the arena
    /// `[size, width - size] × [size, height - size]`, and runs down invincibility.
    pub fn update(&mut self, delta_time: i64, width: i64, height: i64)
        requires
            old(self).wf(),
            0 <= delta_time <= MAX_TICK_MS,
            0 <= width <= ARENA_LIMIT,
            0 <= height <= ARENA_LIMIT,
        ensures
            final(self).wf(),
            *final(self) == stepped(*old(self), delta_time as int, width as int, height as int),
            final(self).position.x == clamp(
                old(self).position.x + old(self).velocity.x * delta_time,
                old(self).size as int,
                width - old(self).size,
            ),
            final(self).position.y == clamp(
                old(self).position.y + old(self).velocity.y * delta_time,
                old(self).size as int,
                height - old(self).size,
            ),
            final(self).velocity == old(self).velocity,
            final(self).size == old(self).size,
            old(self).is_invincible ==> final(self).invincibility_timer == old(self).invincibility_timer - delta_time
                && final(self).is_invincible == (final(self).invincibility_timer > 0),
            !old(self).is_invincible ==> !final(self).is_invincible && final(self).invincibility_timer
                == old(self).invincibility_timer,
    {
        proof {
            lemma_mul_bound(self.velocity.x as int, delta_time as int, SPEED_LIMIT as int, MAX_TICK_MS as int);
            lemma_mul_bound(self.velocity.y as int, delta_time as int, SPEED_LIMIT as int, MAX_TICK_MS as int);
        }
        let nx = self.position.x + self.velocity.x * delta_time;
        let ny = self.position.y + self.velocity.y * delta_time;
        let cx = if nx < self.size { self.size } else { nx };
        let cy = if ny < self.size { self.size } else { ny };
        self.position.x = if cx > width - self.size { width - self.size } else { cx };
        self.position.y = if cy > height - self.size { height - self.size } else { cy };

        if self.is_invincible {
            self.invincibility_timer = self.invincibility_timer - delta_time;
            if self.invincibility_timer <= 0 {
                self.is_invincible = false;
            }
        }
    }

    /// Makes the player invincible for `duration` milliseconds.
    pub fn make_invincible(&mut self, duration: u32)
        requires
            old(self).wf(),
        ensures
            final(self).wf(),
            final(self).is_invincible,
            final(self).invincibility_timer == duration,
            final(self).position == old(self).position,
            final(self).velocity == old(self).velocity,
            final(self).size == old(self).size,
    {
        self.is_invincible = true;
        self.invincibility_timer = duration as i64;
    }
}

/// Whatever the velocity and the elapsed time, a step leaves the player inside
/// `[size, width - size] × [size, height - size]` (an arena at least as wide and as
/// high as the player's diameter).
pub proof fn lemma_player_stays_in_arena(p: Player, dt: int, width: int, height: int)
    requires
        p.wf(),
        0 <= dt <= MAX_TICK_MS,
        0 <= width <= ARENA_LIMIT,
        0 <= height <= ARENA_LIMIT,
        2 * p.size <= width,
        2 * p.size <= height,
    ensures
        p.size <= stepped(p, dt, width, height).position.x <= width - p.size,
        p.size <= stepped(p, dt, width, height).position.y <= height - p.size,
{
    lemma_mul_bound(p.velocity.x as int, dt, SPEED_LIMIT as int, MAX_TICK_MS as int);
    lemma_mul_bound(p.velocity.y as int, dt, SPEED_LIMIT as int, MAX_TICK_MS as int);
}

} // verus!
