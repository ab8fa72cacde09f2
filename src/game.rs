use vstd::prelude::*;
use crate::geometry::{Vec2, UNIT, ARENA_LIMIT, POS_LIMIT, MAX_TICK_MS, lemma_mul_bound};
use crate::bullet::{Bullet, moved};
use crate::player::{Player, PLAYER_SIZE, stepped};
use crate::collision::{any_collision, check_all_collisions};
use crate::patterns::{
    circle_bullet, spray_bullet, aimed_bullet, create_circle_pattern, create_side_spray,
    create_aimed_fan,
};

verus! {

/// Where the game is in its life cycle.
#[derive(Clone, Copy, Debug, PartialEq, Eq, Structural)]
pub enum GameState {
    Menu,
    Playing,
    GameOver,
}

/// Bullets are removed once they are this far outside the arena, in micro-units.
pub const CULL_MARGIN: i64 = 50_000_000;

/// Survival time stops counting here, in milliseconds (over three years).
pub const MAX_SURVIVAL_MS: i64 = 100_000_000_000;

/// Player velocity per thousandth of movement intent, in micro-units per millisecond
/// (a full unit of intent moves 200 units per second).
pub const PLAYER_SPEED: i64 = 200;

/// Difficulty is kept in thousandths; this is a difficulty of one.
pub const BASE_DIFFICULTY: i64 = 1000;

/// Pause between spawns at difficulty one, in milliseconds.
pub const SPAWN_INTERVAL_MS: i64 = 500;

/// Bullets in a side spray and in an aimed fan.
pub const SPRAY_COUNT: usize = 5;
pub const FAN_COUNT: usize = 5;

/// Angle covered by an aimed fan, in millidegrees.
pub const FAN_SPREAD: u32 = 24_000;

/// Heights of the spawn points of the circle burst and the aimed fan, in micro-units.
pub const CIRCLE_SPAWN_Y: i64 = 50_000_000;
pub const FAN_SPAWN_Y: i64 = 10_000_000;

/// The random draws that one spawn consumes. Each is a uniform 32-bit number:
/// `pattern` picks the pattern, `spot` the spawn coordinate along the edge,
/// `side` the edge of a side spray, `jitter` the heading of each spray bullet.
pub struct SpawnRolls {
    pub pattern: u32,
    pub spot: u32,
    pub side: u32,
    pub jitter: Vec<u32>,
}

/// What a renderer needs to draw one frame.
pub struct RenderData {
    pub player_x: i64,
    pub player_y: i64,
    pub state: GameState,
    pub survival_time: i64,
    pub bullets: Vec<Bullet>,
}

/// The simulation: arena, player, live bullets, clock and difficulty.
/// Lengths are in micro-units, times in milliseconds, difficulty in thousandths.
pub struct DanmakuGame {
    pub width: i64,
    pub height: i64,
    pub player: Player,
    pub bullets: Vec<Bullet>,
    pub state: GameState,
    pub survival_time: i64,
    pub spawn_timer: i64,
    pub difficulty: i64,
}

/// Difficulty, in thousandths, after `survival` milliseconds: one plus a fifteenth per second.
pub open spec fn difficulty_at(survival: int) -> int {
    BASE_DIFFICULTY + survival / 15
}

/// Time that a tick of `dt` milliseconds advances the game by: none when `dt` is not positive.
pub open spec fn effective_dt(dt: int) -> int {
    if dt <= 0 {
        0
    } else {
        dt
    }
}

/// The bullet lies inside the arena widened by the culling margin on every side.
pub open spec fn in_play(b: Bullet, width: int, height: int) -> bool {
    -CULL_MARGIN <= b.position.x <= width + CULL_MARGIN && -CULL_MARGIN <= b.position.y <= height
        + CULL_MARGIN
}

/// The bullets moved by `dt`, keeping in order those still in play.
pub open spec fn culled(bullets: Seq<Bullet>, dt: int, width: int, height: int) -> Seq<Bullet>
    decreases bullets.len(),
{
    if bullets.len() == 0 {
        Seq::empty()
    } else {
        let rest = culled(bullets.drop_last(), dt, width, height);
        let b = moved(bullets.last(), dt);
        if in_play(b, width, height) {
            rest.push(b)
        } else {
            rest
        }
    }
}

/// A coordinate drawn uniformly from `[0, extent)` by a 32-bit draw.
pub open spec fn spot_along(extent: int, roll: int) -> int {
    extent * roll / 0x1_0000_0000
}

/// Bullets in a circle burst at `difficulty`: eight plus the whole difficulty modulo eight.
pub open spec fn circle_count(difficulty: int) -> int {
    8 + (difficulty / 1000) % 8
}

pub open spec fn circle_speed(difficulty: int) -> int {
    80_000 + difficulty * 10
}

pub open spec fn spray_speed(difficulty: int) -> int {
    100_000 + difficulty * 20
}

pub open spec fn fan_speed(difficulty: int) -> int {
    120_000 + difficulty * 15
}

/// The batch that one spawn adds, given the draws, the difficulty, the arena and the
/// player's position: a circle burst from the top, a spray from a side, or a fan aimed at
/// the player from the top, as `pattern % 3` is 0, 1 or 2.
pub open spec fn spawn_batch(rolls: SpawnRolls, difficulty: int, width: int, height: int, target: Vec2) -> Seq<Bullet> {
    let choice = rolls.pattern % 3;
    let x = spot_along(width, rolls.spot as int);
    if choice == 0 {
        let n = circle_count(difficulty);
        Seq::new(
            n as nat,
            |i: int| circle_bullet(Vec2 { x: x as i64, y: CIRCLE_SPAWN_Y }, i, n, circle_speed(difficulty)),
        )
    } else if choice == 1 {
        let y = spot_along(height * 7 / 10, rolls.spot as int);
        Seq::new(
            SPRAY_COUNT as nat,
            |i: int| spray_bullet(rolls.side % 2 == 0, width, y, spray_speed(difficulty), rolls.jitter@[i] as int),
        )
    } else {
        Seq::new(
            FAN_COUNT as nat,
            |i: int| aimed_bullet(Vec2 { x: x as i64, y: FAN_SPAWN_Y }, target, i, FAN_COUNT as int, FAN_SPREAD as int, fan_speed(difficulty)),
        )
    }
}

fn scale_by_roll(extent: i64, roll: u32) -> (r: i64)
    requires
        0 <= extent <= ARENA_LIMIT,
    ensures
        r == spot_along(extent as int, roll as int),
        0 <= r <= extent,
{
    proof {
        lemma_mul_bound(extent as int, roll as int, ARENA_LIMIT as int, u32::MAX as int);
        assert(0 <= extent * roll / 0x1_0000_0000 <= extent) by (nonlinear_arith)
            requires
                0 <= extent,
                0 <= roll < 0x1_0000_0000,
        ;
    }
    ((extent as u128) * (roll as u128) / 0x1_0000_0000) as i64
}

/// All bullets of a sequence are within the bounds that a tick needs.
pub open spec fn all_wf(bullets: Seq<Bullet>) -> bool {
    forall|i: int| 0 <= i < bullets.len() ==> (#[trigger] bullets[i]).wf()
}

impl DanmakuGame {
    /// The bounds and the invariants that every operation keeps.
    pub open spec fn wf(&self) -> bool {
        &&& 0 <= self.width <= ARENA_LIMIT
        &&& 0 <= self.height <= ARENA_LIMIT
        &&& self.player.wf()
        &&& all_wf(self.bullets@)
        &&& 0 <= self.survival_time <= MAX_SURVIVAL_MS
        &&& self.difficulty == difficulty_at(self.survival_time as int)
        &&& 0 <= self.spawn_timer <= SPAWN_INTERVAL_MS
    }

    /// A game in the menu, in an arena of `width` by `height` arena units, with the
    /// player at the centre of the bottom fifth.
    pub fn new(width: u32, height: u32) -> (r: DanmakuGame)
        ensures
            r.wf(),
            r.state == GameState::Menu,
            r.width == width * UNIT,
            r.height == height * UNIT,
            r.player.position == (Vec2 { x: (width * UNIT / 2) as i64, y: (height * UNIT * 4 / 5) as i64 }),
            r.player.velocity == (Vec2 { x: 0, y: 0 }),
            r.player.size == PLAYER_SIZE,
            !r.player.is_invincible,
            r.player.invincibility_timer == 0,
            r.bullets@.len() == 0,
            r.survival_time == 0,
            r.spawn_timer == 0,
            r.difficulty == BASE_DIFFICULTY,
    {
        let w = width as i64 * UNIT;
        let h = height as i64 * UNIT;
        DanmakuGame {
            width: w,
            height: h,
            player: Player::new(w / 2, h * 4 / 5),
            bullets: Vec::new(),
            state: GameState::Menu,
            survival_time: 0,
            spawn_timer: 0,
            difficulty: BASE_DIFFICULTY,
        }
    }

    /// Starts a round: clock and difficulty back to zero and one, no bullets, a fresh
    /// player at the centre of the bottom fifth, and a spawn due at once.
    pub fn start_game(&mut self)
        requires
            old(self).wf(),
        ensures
            final(self).wf(),
            final(self).state == GameState::Playing,
            final(self).survival_time == 0,
            final(self).difficulty == BASE_DIFFICULTY,
            final(self).spawn_timer == 0,
            final(self).bullets@.len() == 0,
            final(self).player.position == (Vec2 { x: (old(self).width / 2) as i64, y: (old(self).height * 4 / 5) as i64 }),
            final(self).player.velocity == (Vec2 { x: 0, y: 0 }),
            final(self).player.size == PLAYER_SIZE,
            !final(self).player.is_invincible,
            final(self).player.invincibility_timer == 0,
            final(self).width == old(self).width,
            final(self).height == old(self).height,
    {
        self.state = GameState::Playing;
        self.survival_time = 0;
        self.difficulty = BASE_DIFFICULTY;
        self.spawn_timer = 0;
        self.bullets = Vec::new();
        self.player = Player::new(self.width / 2, self.height * 4 / 5);
    }

    /// Back to the menu: no bullets, clock at zero, difficulty one.
    pub fn reset(&mut self)
        requires
            old(self).wf(),
        ensures
            final(self).wf(),
            final(self).state == GameState::Menu,
            final(self).survival_time == 0,
            final(self).difficulty == BASE_DIFFICULTY,
            final(self).bullets@.len() == 0,
            final(self).player == old(self).player,
            final(self).spawn_timer == old(self).spawn_timer,
            final(self).width == old(self).width,
            final(self).height == old(self).height,
    {
        self.state = GameState::Menu;
        self.survival_time = 0;
        self.bullets = Vec::new();
        self.difficulty = BASE_DIFFICULTY;
    }

    /// Sets the player's velocity from a movement intent given in thousandths per axis.
    pub fn set_player_velocity(&mut self, dx: i32, dy: i32)
        requires
            old(self).wf(),
        ensures
            final(self).wf(),
            final(self).player.velocity.x == dx * PLAYER_SPEED,
            final(self).player.velocity.y == dy * PLAYER_SPEED,
            final(self).player.position == old(self).player.position,
            final(self).player.size == old(self).player.size,
            final(self).player.is_invincible == old(self).player.is_invincible,
            final(self).player.invincibility_timer == old(self).player.invincibility_timer,
            final(self).bullets@ == old(self).bullets@,
            final(self).state == old(self).state,
            final(self).survival_time == old(self).survival_time,
            final(self).spawn_timer == old(self).spawn_timer,
            final(self).difficulty == old(self).difficulty,
            final(self).width == old(self).width,
            final(self).height == old(self).height,
    {
        self.player.velocity = Vec2 { x: dx as i64 * PLAYER_SPEED, y: dy as i64 * PLAYER_SPEED };
    }

    pub fn get_state(&self) -> (r: GameState)
        ensures
            r == self.state,
    {
        self.state
    }

    /// Milliseconds survived in the current round.
    pub fn get_survival_time(&self) -> (r: i64)
        ensures
            r == self.survival_time,
    {
        self.survival_time
    }

    /// Adds one spawn batch chosen by the draws at the current difficulty, aimed (for
    /// the fan) at the player's current position.
    fn spawn_bullets(&mut self, rolls: &SpawnRolls)
        requires
            old(self).wf(),
            rolls.jitter@.len() == SPRAY_COUNT,
        ensures
            final(self).wf(),
            final(self).bullets@ == old(self).bullets@ + spawn_batch(
                *rolls,
                old(self).difficulty as int,
                old(self).width as int,
                old(self).height as int,
                old(self).player.position,
            ),
            final(self).player == old(self).player,
            final(self).state == old(self).state,
            final(self).survival_time == old(self).survival_time,
            final(self).spawn_timer == old(self).spawn_timer,
            final(self).difficulty == old(self).difficulty,
            final(self).width == old(self).width,
            final(self).height == old(self).height,
    {
        let mut fresh = make_batch(rolls, self.difficulty, self.width, self.height, self.player.position);
        let ghost before = self.bullets@;
        let ghost added = fresh@;
        self.bullets.append(&mut fresh);
        assert forall|i: int| 0 <= i < self.bullets@.len() implies (#[trigger] self.bullets@[i]).wf() by {
            if i >= before.len() {
                assert(self.bullets@[i] == added[i - before.len()]);
            }
        }
    }
}

/// The survival clock after `dt` more milliseconds, stopping at its limit.
pub open spec fn survival_after(survival: int, dt: int) -> int {
    if survival + dt > MAX_SURVIVAL_MS {
        MAX_SURVIVAL_MS as int
    } else {
        survival + dt
    }
}

/// `r` is a snapshot of `g`.
pub open spec fn shows(r: RenderData, g: DanmakuGame) -> bool {
    &&& r.player_x == g.player.position.x
    &&& r.player_y == g.player.position.y
    &&& r.state == g.state
    &&& r.survival_time == g.survival_time
    &&& r.bullets@ == g.bullets@
}

/// What one tick does, given the spawn draws it used: outside play nothing changes; in
/// play the clock, the player and the bullets advance, bullets out of play are dropped,
/// a batch spawns when the spawn timer runs out, a collision ends the round, and the
/// difficulty follows the clock.
pub open spec fn ticked(g: DanmakuGame, h: DanmakuGame, delta_time: int, rolls: SpawnRolls) -> bool {
    let dt = effective_dt(delta_time);
    let kept = culled(g.bullets@, dt, g.width as int, g.height as int);
    let t = g.spawn_timer - dt;
    &&& h.width == g.width
    &&& h.height == g.height
    &&& g.state != GameState::Playing ==> {
        &&& h.state == g.state
        &&& h.player == g.player
        &&& h.bullets@ == g.bullets@
        &&& h.survival_time == g.survival_time
        &&& h.spawn_timer == g.spawn_timer
        &&& h.difficulty == g.difficulty
    }
    &&& g.state == GameState::Playing ==> {
        &&& h.player == stepped(g.player, dt, g.width as int, g.height as int)
        &&& h.survival_time == survival_after(g.survival_time as int, dt)
        &&& t <= 0 ==> h.bullets@ == kept + spawn_batch(
            rolls,
            g.difficulty as int,
            g.width as int,
            g.height as int,
            h.player.position,
        ) && h.spawn_timer == SPAWN_INTERVAL_MS * 1000 / (g.difficulty as int)
        &&& t > 0 ==> h.bullets@ == kept && h.spawn_timer == t
        &&& h.state == if any_collision(h.player, h.bullets@) {
            GameState::GameOver
        } else {
            GameState::Playing
        }
        &&& h.difficulty == difficulty_at(h.survival_time as int)
    }
}

impl DanmakuGame {
    /// Moves every bullet by `dt` and drops those that left play.
    fn advance_bullets(&mut self, dt: i64)
        requires
            old(self).wf(),
            0 <= dt <= MAX_TICK_MS,
        ensures
            final(self).wf(),
            final(self).bullets@ == culled(old(self).bullets@, dt as int, old(self).width as int, old(self).height as int),
            final(self).player == old(self).player,
            final(self).state == old(self).state,
            final(self).survival_time == old(self).survival_time,
            final(self).spawn_timer == old(self).spawn_timer,
            final(self).difficulty == old(self).difficulty,
            final(self).width == old(self).width,
            final(self).height == old(self).height,
    {
        let mut kept: Vec<Bullet> = Vec::new();
        let mut i: usize = 0;
        while i < self.bullets.len()
            invariant
                0 <= self.width <= ARENA_LIMIT,
                0 <= self.height <= ARENA_LIMIT,
                0 <= dt <= MAX_TICK_MS,
                all_wf(self.bullets@),
                i <= self.bullets@.len(),
                kept@ == culled(self.bullets@.take(i as int), dt as int, self.width as int, self.height as int),
                all_wf(kept@),
            decreases self.bullets@.len() - i,
        {
            let mut b = self.bullets[i];
            assert(b.wf());
            b.update(dt);
            let ghost prefix = self.bullets@.take(i + 1);
            assert(prefix.drop_last() =~= self.bullets@.take(i as int));
            assert(prefix.last() == self.bullets@[i as int]);
            if -CULL_MARGIN <= b.position.x && b.position.x <= self.width + CULL_MARGIN
                && -CULL_MARGIN <= b.position.y && b.position.y <= self.height + CULL_MARGIN
            {
                kept.push(b);
            }
            i = i + 1;
        }
        assert(self.bullets@.take(self.bullets@.len() as int) =~= self.bullets@);
        self.bullets = kept;
    }

    /// Advances the game by `delta_time` milliseconds, spawning from the given draws
    /// if a spawn falls due. A tick that is not positive advances nothing.
    pub fn update_with_rolls(&mut self, delta_time: i64, rolls: &SpawnRolls)
        requires
            old(self).wf(),
            delta_time <= MAX_TICK_MS,
            rolls.jitter@.len() == SPRAY_COUNT,
        ensures
            final(self).wf(),
            ticked(*old(self), *final(self), delta_time as int, *rolls),
    {
        if self.state != GameState::Playing {
            return;
        }
        let dt = if delta_time <= 0 { 0 } else { delta_time };
        self.player.update(dt, self.width, self.height);
        self.advance_bullets(dt);
        let t = self.spawn_timer - dt;
        if t <= 0 {
            self.spawn_bullets(rolls);
            proof {
                let d = self.difficulty as int;
                assert(0 <= 500_000int / d <= 500) by (nonlinear_arith)
                    requires
                        1000 <= d,
                ;
            }
            self.spawn_timer = SPAWN_INTERVAL_MS * 1000 / self.difficulty;
        } else {
            self.spawn_timer = t;
        }
        self.survival_time = if self.survival_time > MAX_SURVIVAL_MS - dt {
            MAX_SURVIVAL_MS
        } else {
            self.survival_time + dt
        };
        if check_all_collisions(&self.player, self.bullets.as_slice()) {
            self.state = GameState::GameOver;
        }
        self.difficulty = BASE_DIFFICULTY + self.survival_time / 15;
    }

    /// A snapshot of what a renderer draws.
    pub fn get_render_data(&self) -> (r: RenderData)
        ensures
            shows(r, *self),
    {
        let mut bullets: Vec<Bullet> = Vec::new();
        let mut i: usize = 0;
        while i < self.bullets.len()
            invariant
                i <= self.bullets@.len(),
                bullets@ == self.bullets@.take(i as int),
            decreases self.bullets@.len() - i,
        {
            bullets.push(self.bullets[i]);
            assert(self.bullets@.take(i + 1) =~= self.bullets@.take(i as int).push(self.bullets@[i as int]));
            i = i + 1;
        }
        assert(self.bullets@.take(self.bullets@.len() as int) =~= self.bullets@);
        RenderData {
            player_x: self.player.position.x,
            player_y: self.player.position.y,
            state: self.state,
            survival_time: self.survival_time,
            bullets,
        }
    }
}

/// Relies on rand::random::<u32>, which draws from the thread-local generator;
/// nothing is promised of the value.
#[verifier::external_body]
fn draw_u32() -> (r: u32) {
    rand::random::<u32>()
}

/// Fresh random draws for one spawn, with one jitter draw per spray bullet.
pub fn draw_rolls() -> (r: SpawnRolls)
    ensures
        r.jitter@.len() == SPRAY_COUNT,
{
    let pattern = draw_u32();
    let spot = draw_u32();
    let side = draw_u32();
    let mut jitter: Vec<u32> = Vec::new();
    let mut i: usize = 0;
    while i < SPRAY_COUNT
        invariant
            i <= SPRAY_COUNT,
            jitter@.len() == i,
        decreases SPRAY_COUNT - i,
    {
        jitter.push(draw_u32());
        i = i + 1;
    }
    SpawnRolls { pattern, spot, side, jitter }
}

impl DanmakuGame {
    /// Advances the game by `delta_time` milliseconds with freshly drawn spawn rolls,
    /// and returns the snapshot to draw. Whatever was drawn, the clock, the player, the
    /// difficulty and the surviving bullets advance as a tick prescribes, the bullets
    /// of the previous frame that stay in play come first, and the round ends exactly
    /// when the player is hit.
    pub fn update(&mut self, delta_time: i64) -> (r: RenderData)
        requires
            old(self).wf(),
            delta_time <= MAX_TICK_MS,
        ensures
            final(self).wf(),
            shows(r, *final(self)),
            exists|rolls: SpawnRolls|
                rolls.jitter@.len() == SPRAY_COUNT && ticked(
                    *old(self),
                    *final(self),
                    delta_time as int,
                    rolls,
                ),
            final(self).width == old(self).width,
            final(self).height == old(self).height,
            old(self).state != GameState::Playing ==> final(self).state == old(self).state
                && final(self).bullets@ == old(self).bullets@
                && final(self).survival_time == old(self).survival_time,
            old(self).state == GameState::Playing ==> {
                let dt = effective_dt(delta_time as int);
                let kept = culled(old(self).bullets@, dt, old(self).width as int, old(self).height as int);
                &&& final(self).player == stepped(old(self).player, dt, old(self).width as int, old(self).height as int)
                &&& final(self).survival_time == survival_after(old(self).survival_time as int, dt)
                &&& final(self).difficulty == difficulty_at(final(self).survival_time as int)
                &&& kept.len() <= final(self).bullets@.len()
                &&& final(self).bullets@.take(kept.len() as int) == kept
                &&& (final(self).state == GameState::GameOver) == any_collision(final(self).player, final(self).bullets@)
            },
    {
        let rolls = draw_rolls();
        self.update_with_rolls(delta_time, &rolls);
        proof {
            let dt = effective_dt(delta_time as int);
            let kept = culled(old(self).bullets@, dt, old(self).width as int, old(self).height as int);
            if old(self).state == GameState::Playing {
                if old(self).spawn_timer - dt <= 0 {
                    let batch = spawn_batch(rolls, old(self).difficulty as int, old(self).width as int, old(self).height as int, self.player.position);
                    assert((kept + batch).take(kept.len() as int) =~= kept);
                } else {
                    assert(self.bullets@.take(kept.len() as int) =~= kept);
                }
            }
        }
        self.get_render_data()
    }
}

/// One spawn batch, as `spawn_batch` describes it.
fn make_batch(rolls: &SpawnRolls, d: i64, width: i64, height: i64, target: Vec2) -> (r: Vec<Bullet>)
    requires
        rolls.jitter@.len() == SPRAY_COUNT,
        BASE_DIFFICULTY <= d <= BASE_DIFFICULTY + MAX_SURVIVAL_MS / 15,
        0 <= width <= ARENA_LIMIT,
        0 <= height <= ARENA_LIMIT,
        target.within(POS_LIMIT as int),
    ensures
        r@ == spawn_batch(*rolls, d as int, width as int, height as int, target),
        all_wf(r@),
{
    let ghost batch = spawn_batch(*rolls, d as int, width as int, height as int, target);
    let x = scale_by_roll(width, rolls.spot);
    let choice = rolls.pattern % 3;
    if choice == 0 {
        let count = 8 + ((d / 1000) % 8) as usize;
        let center = Vec2 { x, y: CIRCLE_SPAWN_Y };
        let fresh = create_circle_pattern(center, count, 80_000 + d * 10);
        assert(fresh@ =~= batch);
        fresh
    } else if choice == 1 {
        let band = height * 7 / 10;
        let y = scale_by_roll(band, rolls.spot);
        let fresh = create_side_spray(rolls.side % 2 == 0, width, y, 100_000 + d * 20, &rolls.jitter);
        assert(fresh@ =~= batch);
        fresh
    } else {
        let origin = Vec2 { x, y: FAN_SPAWN_Y };
        let fresh = create_aimed_fan(origin, target, 120_000 + d * 15, FAN_COUNT, FAN_SPREAD);
        assert(fresh@ =~= batch);
        fresh
    }
}

/// After every tick, in play or not, the difficulty is one plus a fifteenth of the
/// seconds survived (in thousandths: `1000 + survival_ms / 15`).
pub proof fn lemma_difficulty_follows_survival(g: DanmakuGame, h: DanmakuGame, delta_time: int, rolls: SpawnRolls)
    requires
        g.wf(),
        ticked(g, h, delta_time, rolls),
    ensures
        h.difficulty == difficulty_at(h.survival_time as int),
{
}

/// A bullet that ends a tick 51 units right of the arena is out of play and dropped;
/// one that ends it 49 units right, at a height still in play, is kept.
pub proof fn lemma_cull_threshold(b: Bullet, width: int, height: int)
    requires
        0 <= width,
    ensures
        b.position.x == width + 51 * UNIT ==> !in_play(b, width, height),
        b.position.x == width + 49 * UNIT && -CULL_MARGIN <= b.position.y <= height + CULL_MARGIN
            ==> in_play(b, width, height),
{
}

} // verus!
