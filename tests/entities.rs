use danmaku::add;
use danmaku::bullet::{Bullet, BulletColor};
use danmaku::collision::{check_all_collisions, check_collision};
use danmaku::geometry::{isqrt, Vec2, UNIT};
use danmaku::player::{Player, PLAYER_SIZE};

#[test]
fn it_works() {
    let result = add(2, 2);
    assert_eq!(result, 4);
}

#[test]
fn bullet_moves_by_velocity() {
    let mut b = Bullet::new(10, 20, 3, -4, 5, BulletColor::Green);
    b.update(16);
    assert_eq!(b.position, Vec2 { x: 58, y: -44 });
    assert_eq!(b.velocity, Vec2 { x: 3, y: -4 });
}

#[test]
fn player_is_clamped_to_arena() {
    let w = 480 * UNIT;
    let h = 640 * UNIT;
    let mut p = Player::new(240 * UNIT, 512 * UNIT);
    p.velocity = Vec2 { x: 2_000_000_000, y: -2_000_000_000 };
    p.update(1000, w, h);
    assert_eq!(p.position, Vec2 { x: w - PLAYER_SIZE, y: PLAYER_SIZE });
    p.velocity = Vec2 { x: -2_000_000_000, y: 2_000_000_000 };
    p.update(1000, w, h);
    assert_eq!(p.position, Vec2 { x: PLAYER_SIZE, y: h - PLAYER_SIZE });
}

#[test]
fn invincibility_runs_out() {
    let mut p = Player::new(100 * UNIT, 100 * UNIT);
    p.make_invincible(30);
    assert!(p.is_invincible);
    p.update(16, 480 * UNIT, 640 * UNIT);
    assert!(p.is_invincible);
    p.update(16, 480 * UNIT, 640 * UNIT);
    assert!(!p.is_invincible);
}

#[test]
fn collision_is_symmetric_and_strict() {
    let p = Player::new(100 * UNIT, 100 * UNIT);
    let b = Bullet::new(100 * UNIT + 15 * UNIT, 100 * UNIT, 0, 0, 6 * UNIT, BulletColor::Red);
    assert!(check_collision(&p, &b));
    let q = Player::new(b.position.x, b.position.y);
    let c = Bullet::new(p.position.x, p.position.y, 0, 0, 6 * UNIT, BulletColor::Red);
    assert!(check_collision(&q, &c));
    // touching circles: distance equals 10 + 6 units
    let touching = Bullet::new(116 * UNIT, 100 * UNIT, 0, 0, 6 * UNIT, BulletColor::Red);
    assert!(!check_collision(&p, &touching));
    // a 3-4-5 triangle just inside reach
    let diag = Bullet::new(100 * UNIT + 9 * UNIT, 100 * UNIT + 12 * UNIT, 0, 0, 6 * UNIT, BulletColor::Red);
    assert!(check_collision(&p, &diag));
}

#[test]
fn invincible_player_never_collides() {
    let mut p = Player::new(100 * UNIT, 100 * UNIT);
    let bullets = vec![Bullet::new(100 * UNIT, 100 * UNIT, 0, 0, 6 * UNIT, BulletColor::Red)];
    assert!(check_all_collisions(&p, &bullets));
    p.make_invincible(500);
    assert!(!check_all_collisions(&p, &bullets));
    assert!(!check_all_collisions(&Player::new(0, 0), &[]));
}

#[test]
fn integer_square_root() {
    assert_eq!(isqrt(0), 0);
    assert_eq!(isqrt(1), 1);
    assert_eq!(isqrt(24), 4);
    assert_eq!(isqrt(25), 5);
    assert_eq!(isqrt(u128::MAX), u64::MAX as u128);
}
