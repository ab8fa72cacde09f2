use vstd::prelude::*;
use crate::geometry::{Vec2, POS_LIMIT, MAX_RADIUS, dist_sq, lemma_mul_bound};
use crate::bullet::Bullet;
use crate::player::Player;

verus! {

/// Two circles overlap: the distance between the centres is strictly less than the
/// sum of the radii (touching circles do not overlap).
pub open spec fn circles_overlap(a: Vec2, ra: int, b: Vec2, rb: int) -> bool {
    dist_sq(a, b) < (ra + rb) * (ra + rb)
}

/// The player touches the bullet.
pub open spec fn colliding(player: Player, bullet: Bullet) -> bool {
    circles_overlap(player.position, player.size as int, bullet.position, bullet.radius as int)
}

/// A vulnerable player touches some bullet.
pub open spec fn any_collision(player: Player, bullets: Seq<Bullet>) -> bool {
    !player.is_invincible && exists|i: int| 0 <= i < bullets.len() && colliding(player, #[trigger] bullets[i])
}

/// Whether the player and the bullet overlap.
pub fn check_collision(player: &Player, bullet: &Bullet) -> (r: bool)
    requires
        player.wf(),
        bullet.wf(),
    ensures
        r == colliding(*player, *bullet),
{
    let dx = player.position.x as i128 - bullet.position.x as i128;
    let dy = player.position.y as i128 - bullet.position.y as i128;
    let reach = player.size as i128 + bullet.radius as i128;
    proof {
        let lim = 2 * POS_LIMIT as int;
        lemma_mul_bound(dx as int, dx as int, lim, lim);
        lemma_mul_bound(dy as int, dy as int, lim, lim);
        lemma_mul_bound(reach as int, reach as int, 2 * MAX_RADIUS as int, 2 * MAX_RADIUS as int);
    }
    dx * dx + dy * dy < reach * reach
}

/// Whether a vulnerable player touches any of the bullets.
pub fn check_all_collisions(player: &Player, bullets: &[Bullet]) -> (r: bool)
    requires
        player.wf(),
        forall|i: int| 0 <= i < bullets@.len() ==> (#[trigger] bullets@[i]).wf(),
    ensures
        r == any_collision(*player, bullets@),
{
    if player.is_invincible {
        return false;
    }
    let mut i: usize = 0;
    while i < bullets.len()
        invariant
            player.wf(),
            !player.is_invincible,
            forall|k: int| 0 <= k < bullets@.len() ==> (#[trigger] bullets@[k]).wf(),
            i <= bullets@.len(),
            forall|k: int| 0 <= k < i ==> !colliding(*player, #[trigger] bullets@[k]),
        decreases bullets@.len() - i,
    {
        if check_collision(player, &bullets[i]) {
            return true;
        }
        i = i + 1;
    }
    false
}

/// Overlap does not depend on which of the two circles is called the player:
/// swapping the two centres gives the same answer.
pub proof fn lemma_overlap_symmetric(a: Vec2, ra: int, b: Vec2, rb: int)
    ensures
        circles_overlap(a, ra, b, rb) == circles_overlap(b, ra, a, rb),
{
    assert((a.x - b.x) * (a.x - b.x) == (b.x - a.x) * (b.x - a.x)) by (nonlinear_arith);
    assert((a.y - b.y) * (a.y - b.y) == (b.y - a.y) * (b.y - a.y)) by (nonlinear_arith);
}

/// An invincible player collides with nothing, wherever the bullets are.
pub proof fn lemma_invincible_never_collides(player: Player, bullets: Seq<Bullet>)
    requires
        player.is_invincible,
    ensures
        !any_collision(player, bullets),
{
}

} // verus!
