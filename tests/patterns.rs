use danmaku::bullet::BulletColor;
use danmaku::geometry::{Vec2, UNIT};
use danmaku::patterns::{
    create_aimed_fan, create_circle_pattern, create_side_spray, create_spiral_pattern,
    create_wave_pattern, aim_direction, CIRCLE_RADIUS,
};
use danmaku::trig::{cosine_mdeg, sine_mdeg};
use danmaku::trig::{cosine_deg, sine_deg};

#[test]
fn sine_table_values() {
    assert_eq!(sine_deg(0), 0);
    assert_eq!(sine_deg(30), 500_000);
    assert_eq!(sine_deg(90), 1_000_000);
    assert_eq!(sine_deg(210), -500_000);
    assert_eq!(sine_deg(720 + 45), 707_107);
    assert_eq!(cosine_deg(60), 500_000);
    assert_eq!(cosine_deg(180), -1_000_000);
}

#[test]
fn circle_headings_are_evenly_spaced() {
    let c = Vec2 { x: 5, y: 7 };
    let r = create_circle_pattern(c, 8, 80_000);
    assert_eq!(r.len(), 8);
    assert_eq!(r[0].velocity, Vec2 { x: 80_000, y: 0 });
    assert_eq!(r[1].velocity, Vec2 { x: 56_568, y: 56_568 });
    assert_eq!(r[2].velocity, Vec2 { x: 0, y: 80_000 });
    assert_eq!(r[4].velocity, Vec2 { x: -80_000, y: 0 });
    assert_eq!(r[6].velocity, Vec2 { x: 0, y: -80_000 });
    for b in &r {
        assert_eq!(b.position, c);
        assert_eq!(b.radius, CIRCLE_RADIUS);
        assert_eq!(b.color, BulletColor::Red);
        let m = (b.velocity.x as i128).pow(2) + (b.velocity.y as i128).pow(2);
        let s = 80_000i128 * 80_000;
        assert!((m - s).abs() <= s / 100_000 + 2 * 80_000);
    }
}

#[test]
fn empty_batches() {
    assert!(create_circle_pattern(Vec2 { x: 0, y: 0 }, 0, 80_000).is_empty());
    assert!(create_spiral_pattern(Vec2 { x: 0, y: 0 }, 0, 80_000, 2000).is_empty());
    assert!(create_wave_pattern(0, 0, 0, 100, 0, 30_000).is_empty());
    assert!(create_side_spray(true, 0, 0, 100, &vec![]).is_empty());
    assert!(create_aimed_fan(Vec2 { x: 0, y: 0 }, Vec2 { x: 1, y: 1 }, 100, 0, 24_000).is_empty());
}

#[test]
fn spiral_sweeps_two_turns() {
    let r = create_spiral_pattern(Vec2 { x: 0, y: 0 }, 8, 1_000, 2000);
    assert_eq!(r.len(), 8);
    assert_eq!(r[1].velocity, Vec2 { x: 0, y: 1_000 });
    assert_eq!(r[2].velocity, Vec2 { x: -1_000, y: 0 });
    assert_eq!(r[4].velocity, Vec2 { x: 1_000, y: 0 });
    assert_eq!(r[0].color, BulletColor::Yellow);
}

#[test]
fn wave_follows_sine() {
    let r = create_wave_pattern(10 * UNIT, 100 * UNIT, 4, 50_000, 20 * UNIT, 90_000);
    assert_eq!(r.len(), 4);
    assert_eq!(r[0].position, Vec2 { x: 10 * UNIT, y: 100 * UNIT });
    assert_eq!(r[1].position, Vec2 { x: 25 * UNIT, y: 120 * UNIT });
    assert_eq!(r[2].position, Vec2 { x: 40 * UNIT, y: 100 * UNIT });
    assert_eq!(r[3].position, Vec2 { x: 55 * UNIT, y: 80 * UNIT });
    assert_eq!(r[3].velocity, Vec2 { x: 0, y: 50_000 });
    assert_eq!(r[0].color, BulletColor::Green);
}

#[test]
fn side_spray_aims_inward() {
    let left = create_side_spray(true, 480 * UNIT, 30 * UNIT, 100_000, &vec![45_000, 0, 90_000]);
    assert_eq!(left.len(), 3);
    assert_eq!(left[0].position, Vec2 { x: 0, y: 30 * UNIT });
    assert_eq!(left[0].velocity, Vec2 { x: 100_000, y: 0 });
    assert_eq!(left[1].velocity, Vec2 { x: 70_710, y: -70_710 });
    assert_eq!(left[2].velocity, Vec2 { x: 70_710, y: 70_710 });
    let right = create_side_spray(false, 480 * UNIT, 30 * UNIT, 100_000, &vec![45_000]);
    assert_eq!(right[0].position, Vec2 { x: 480 * UNIT, y: 30 * UNIT });
    assert_eq!(right[0].velocity, Vec2 { x: -100_000, y: 0 });
    assert_eq!(right[0].color, BulletColor::Cyan);
}

#[test]
fn aimed_fan_centres_on_target() {
    let o = Vec2 { x: 0, y: 0 };
    let r = create_aimed_fan(o, Vec2 { x: 0, y: 300 * UNIT }, 100_000, 5, 24_000);
    assert_eq!(r.len(), 5);
    assert_eq!(r[2].velocity, Vec2 { x: 0, y: 100_000 });
    // outer bullets twelve degrees either side of straight down
    assert_eq!(r[0].velocity.y, r[4].velocity.y);
    assert_eq!(r[0].velocity.x, -r[4].velocity.x);
    assert!(r[0].velocity.x != 0);
    let along = create_aimed_fan(o, Vec2 { x: 3 * UNIT, y: 4 * UNIT }, 1_000, 1, 24_000);
    assert_eq!(along[0].velocity, Vec2 { x: 600, y: 800 });
}

#[test]
fn aimed_fan_at_own_position_is_stationary() {
    let o = Vec2 { x: 7 * UNIT, y: 9 * UNIT };
    let r = create_aimed_fan(o, o, 100_000, 5, 24_000);
    for b in &r {
        assert_eq!(b.velocity, Vec2 { x: 0, y: 0 });
        assert_eq!(b.position, o);
    }
}

#[test]
fn eleven_bullet_circle_is_evenly_spread() {
    let r = create_circle_pattern(Vec2 { x: 0, y: 0 }, 11, 80_000);
    assert_eq!(r.len(), 11);
    // bullet 1 heads at 360/11 degrees, 32.727 degrees
    assert_eq!(r[1].velocity, Vec2 { x: 67_298, y: 43_249 });
    for b in &r {
        let m = (b.velocity.x as i128).pow(2) + (b.velocity.y as i128).pow(2);
        let s = 80_000i128 * 80_000;
        assert!((m - s).abs() <= s / 10_000 + 4 * 80_000);
    }
}

#[test]
fn interpolated_sine_between_degrees() {
    assert_eq!(sine_mdeg(30_000), 500_000);
    assert_eq!(sine_mdeg(30_500), 500_000 + (515_038 - 500_000) / 2);
    assert_eq!(cosine_mdeg(0), 1_000_000);
    assert_eq!(sine_mdeg(360_000 + 90_000), 1_000_000);
}

#[test]
fn negative_spiral_turns_clockwise() {
    let r = create_spiral_pattern(Vec2 { x: 0, y: 0 }, 4, 1_000, -1000);
    assert_eq!(r[1].velocity, Vec2 { x: 0, y: -1_000 });
    let w = create_wave_pattern(0, 0, 2, 10, UNIT, -90_000);
    assert_eq!(w[1].position.y, -UNIT);
}

#[test]
fn aim_at_nearby_point_has_unit_length() {
    let o = Vec2 { x: 0, y: 0 };
    let u = aim_direction(o, Vec2 { x: 1, y: 1 });
    assert_eq!(u, Vec2 { x: 707_107, y: 707_107 });
    let r = create_aimed_fan(o, Vec2 { x: 1, y: 1 }, 100_000, 5, 24_000);
    assert_eq!(r[2].velocity, Vec2 { x: 70_710, y: 70_710 });
    assert_eq!(aim_direction(o, o), Vec2 { x: 0, y: 0 });
    let far = aim_direction(o, Vec2 { x: 4_000_000_000_000_000, y: -3_000_000_000_000_000 });
    assert_eq!(far, Vec2 { x: 800_000, y: -600_000 });
}
