use danmaku::bullet::{Bullet, BulletColor};
use danmaku::game::{DanmakuGame, GameState, SpawnRolls};
use danmaku::geometry::{Vec2, UNIT};
use danmaku::patterns::create_circle_pattern;

fn quiet_rolls() -> SpawnRolls {
    SpawnRolls { pattern: 0, spot: 0x8000_0000, side: 0, jitter: vec![45_000, 45_000, 45_000, 45_000, 45_000] }
}

fn playing_without_spawn() -> DanmakuGame {
    let mut game = DanmakuGame::new(480, 640);
    game.start_game();
    game.spawn_timer = 500;
    game
}

#[test]
fn new_game_waits_in_menu() {
    let game = DanmakuGame::new(480, 640);
    assert_eq!(game.get_state(), GameState::Menu);
    assert_eq!(game.get_survival_time(), 0);
    assert_eq!(game.player.position, Vec2 { x: 240 * UNIT, y: 512 * UNIT });
    assert!(game.bullets.is_empty());
    assert_eq!(game.difficulty, 1000);
}

#[test]
fn ticks_outside_play_change_nothing() {
    let mut game = DanmakuGame::new(480, 640);
    let frame = game.update(16);
    assert_eq!(frame.state, GameState::Menu);
    assert_eq!(game.get_survival_time(), 0);
    assert!(game.bullets.is_empty());
}

#[test]
fn difficulty_follows_survival_time() {
    let mut game = playing_without_spawn();
    game.spawn_timer = 500;
    game.update_with_rolls(3000, &quiet_rolls());
    assert_eq!(game.get_survival_time(), 3000);
    assert_eq!(game.difficulty, 1000 + 3000 / 15);
    for _ in 0..5 {
        game.bullets.clear();
        game.spawn_timer = 500;
        game.update_with_rolls(16, &quiet_rolls());
        if game.get_state() != GameState::Playing {
            break;
        }
    }
    assert_eq!(game.difficulty, 1000 + game.get_survival_time() / 15);
}

#[test]
fn negative_tick_advances_nothing() {
    let mut game = playing_without_spawn();
    game.update_with_rolls(-40, &quiet_rolls());
    assert_eq!(game.get_survival_time(), 0);
    assert_eq!(game.spawn_timer, 500);
    assert_eq!(game.get_state(), GameState::Playing);
}

#[test]
fn bullet_past_margin_is_culled() {
    let mut game = playing_without_spawn();
    let far = Bullet::new((480 + 51) * UNIT, 100 * UNIT, 0, 0, 6 * UNIT, BulletColor::Red);
    let near = Bullet::new((480 + 49) * UNIT, 100 * UNIT, 0, 0, 6 * UNIT, BulletColor::Cyan);
    game.bullets.push(far);
    game.bullets.push(near);
    game.update_with_rolls(16, &quiet_rolls());
    assert_eq!(game.bullets.len(), 1);
    assert_eq!(game.bullets[0].color, BulletColor::Cyan);
    assert_eq!(game.bullets[0].position.x, (480 + 49) * UNIT);
}

#[test]
fn bullet_crossing_margin_during_tick_is_culled() {
    let mut game = playing_without_spawn();
    // 0.1 units per millisecond: 1.6 units over a 16 ms tick, ending past the margin
    let b = Bullet::new((480 + 50) * UNIT, 100 * UNIT, 100_000, 0, 6 * UNIT, BulletColor::Red);
    game.bullets.push(b);
    game.update_with_rolls(16, &quiet_rolls());
    assert!(game.bullets.is_empty());
}

#[test]
fn circle_burst_scenario() {
    let mut game = playing_without_spawn();
    let center = Vec2 { x: 240 * UNIT, y: 50 * UNIT };
    let burst = create_circle_pattern(center, 8, 80_000);
    for b in burst {
        game.bullets.push(b);
    }
    let frame = game.update(16);
    assert_eq!(frame.bullets.len(), 8);
    assert_eq!(game.get_state(), GameState::Playing);
    assert_eq!(frame.state, GameState::Playing);
    assert_eq!((frame.player_x, frame.player_y), (240 * UNIT, 512 * UNIT));
    let reach = 80 * 16 * 1000;
    for b in &frame.bullets {
        let dx = (b.position.x - center.x) as i128;
        let dy = (b.position.y - center.y) as i128;
        assert!(dx * dx + dy * dy <= (reach as i128) * (reach as i128));
    }
}

#[test]
fn bullet_on_player_ends_round() {
    let mut game = playing_without_spawn();
    let at = game.player.position;
    game.bullets.push(Bullet::new(at.x, at.y, 0, 0, 6 * UNIT, BulletColor::Red));
    game.update_with_rolls(16, &quiet_rolls());
    assert_eq!(game.get_state(), GameState::GameOver);
}

#[test]
fn invincible_player_survives_hit() {
    let mut game = playing_without_spawn();
    game.player.make_invincible(1000);
    let at = game.player.position;
    game.bullets.push(Bullet::new(at.x, at.y, 0, 0, 6 * UNIT, BulletColor::Red));
    game.update_with_rolls(16, &quiet_rolls());
    assert_eq!(game.get_state(), GameState::Playing);
}

#[test]
fn reset_after_game_over_clears_bullets() {
    let mut game = playing_without_spawn();
    let at = game.player.position;
    game.bullets.push(Bullet::new(at.x, at.y, 0, 0, 6 * UNIT, BulletColor::Red));
    game.update_with_rolls(3000, &quiet_rolls());
    assert_eq!(game.get_state(), GameState::GameOver);
    assert!(game.difficulty > 1000);
    game.reset();
    assert_eq!(game.get_state(), GameState::Menu);
    assert!(game.bullets.is_empty());
    assert_eq!(game.difficulty, 1000);
    assert_eq!(game.get_survival_time(), 0);
}

#[test]
fn start_restores_player_and_spawns_at_once() {
    let mut game = DanmakuGame::new(480, 640);
    game.start_game();
    game.set_player_velocity(1000, 0);
    game.update_with_rolls(100, &quiet_rolls());
    assert_eq!(game.player.position.x, 260 * UNIT);
    // circle burst at difficulty one: nine bullets from (240, 50)
    assert_eq!(game.bullets.len(), 9);
    assert_eq!(game.bullets[0].position, Vec2 { x: 240 * UNIT, y: 50 * UNIT });
    assert_eq!(game.bullets[0].velocity, Vec2 { x: 90_000, y: 0 });
    assert_eq!(game.spawn_timer, 500);
    game.start_game();
    assert_eq!(game.player.position, Vec2 { x: 240 * UNIT, y: 512 * UNIT });
    assert!(game.bullets.is_empty());
}

#[test]
fn spray_and_fan_spawns() {
    let mut game = DanmakuGame::new(480, 640);
    game.start_game();
    let spray = SpawnRolls { pattern: 1, spot: 0, side: 1, jitter: vec![45_000, 45_000, 45_000, 45_000, 45_000] };
    game.update_with_rolls(16, &spray);
    assert_eq!(game.bullets.len(), 5);
    assert_eq!(game.bullets[0].position, Vec2 { x: 480 * UNIT, y: 0 });
    assert_eq!(game.bullets[0].velocity, Vec2 { x: -120_000, y: 0 });

    let mut game = DanmakuGame::new(480, 640);
    game.start_game();
    let fan = SpawnRolls { pattern: 2, spot: 0x8000_0000, side: 0, jitter: vec![0; 5] };
    game.update_with_rolls(16, &fan);
    assert_eq!(game.bullets.len(), 5);
    assert_eq!(game.bullets[2].position, Vec2 { x: 240 * UNIT, y: 10 * UNIT });
    assert_eq!(game.bullets[2].velocity, Vec2 { x: 0, y: 135_000 });
}

#[test]
fn random_update_spawns_on_first_tick() {
    let mut game = DanmakuGame::new(480, 640);
    game.start_game();
    let frame = game.update(16);
    assert!(!frame.bullets.is_empty());
    assert_eq!(frame.survival_time, 16);
    assert_eq!(frame.bullets.len(), game.bullets.len());
}
