use asteroids::chance::{offset_from_draw, random_point, random_velocity};
use asteroids::bounds::{wrap_coordinate, ScreenBounds};
use asteroids::entity::{direction, AsteroidSize, Entity, Kind};
use asteroids::input::{merge_input, Controls, KeyboardState, MobileInputState, VirtualInput};
use asteroids::vector::{ceil_sqrt, rescale, to_length, Vec2};
use asteroids::world::{clamp_velocity, World, BULLET_DISTANCE};

fn ship(x: i64, y: i64, vx: i64, vy: i64, heading: u8) -> Entity {
    Entity {
        kind: Kind::Starship { heading },
        position: Vec2::new(x, y),
        velocity: Vec2::new(vx, vy),
    }
}

fn asteroid(size: AsteroidSize, x: i64, y: i64) -> Entity {
    Entity {
        kind: Kind::Asteroid { size },
        position: Vec2::new(x, y),
        velocity: Vec2::zero(),
    }
}

fn bullet(start: Vec2, x: i64, y: i64) -> Entity {
    Entity {
        kind: Kind::Bullet { start },
        position: Vec2::new(x, y),
        velocity: Vec2::zero(),
    }
}

fn world(entities: Vec<Entity>) -> World {
    World { entities, bounds: ScreenBounds::default() }
}

fn controls(left: bool, right: bool, up: bool, fire: bool) -> Controls {
    Controls { left_pressed: left, right_pressed: right, up_pressed: up, fire_just_pressed: fire }
}

fn assert_near_asteroid_speed(v: Vec2) {
    let speed = (v.x as f64).hypot(v.y as f64) / 1_000_000.0;
    assert!((speed - 2.0).abs() <= 1e-5, "speed {}", speed);
}

fn count_asteroids(w: &World, size: AsteroidSize) -> usize {
    w.entities.iter().filter(|e| e.kind == Kind::Asteroid { size }).count()
}

#[test]
fn thrust_from_rest_moves_along_the_nose() {
    let mut w = world(vec![ship(0, 0, 0, 0, 0)]);
    w.apply_controls(controls(false, false, true, false));
    assert_eq!(w.entities.len(), 1);
    assert_eq!(w.entities[0].velocity, Vec2::new(0, 200_000));
    assert_eq!(w.entities[0].position, Vec2::new(0, 0));
}

#[test]
fn firing_spawns_a_bullet_at_the_ship() {
    let mut w = world(vec![ship(1_500_000, -2_000_000, 300_000, 0, 0)]);
    w.apply_controls(controls(false, false, false, true));
    assert_eq!(w.entities.len(), 2);
    let b = w.entities[1];
    assert_eq!(b.kind, Kind::Bullet { start: Vec2::new(1_500_000, -2_000_000) });
    assert_eq!(b.position, Vec2::new(1_500_000, -2_000_000));
    assert_eq!(b.velocity, Vec2::new(0, 6_000_000));
    let speed = ((b.velocity.x as f64).powi(2) + (b.velocity.y as f64).powi(2)).sqrt() / 1_000_000.0;
    assert_eq!(speed, 6.0);
}

#[test]
fn turning_left_wins_over_right() {
    let mut w = world(vec![ship(0, 0, 0, 0, 0)]);
    w.apply_controls(controls(true, true, false, false));
    assert_eq!(w.entities[0].kind, Kind::Starship { heading: 1 });
    let mut w = world(vec![ship(0, 0, 0, 0, 0)]);
    w.apply_controls(controls(false, true, false, false));
    assert_eq!(w.entities[0].kind, Kind::Starship { heading: 71 });
}

#[test]
fn nose_directions_at_quarter_turns() {
    assert_eq!(direction(0), Vec2::new(0, 1_000_000));
    assert_eq!(direction(18), Vec2::new(-1_000_000, 0));
    assert_eq!(direction(36), Vec2::new(0, -1_000_000));
    assert_eq!(direction(54), Vec2::new(1_000_000, 0));
    assert_eq!(direction(9), Vec2::new(-707_107, 707_107));
    assert_eq!(direction(1), Vec2::new(-87_156, 996_195));
    for h in 0..72u8 {
        let d = direction(h);
        let len = (d.x as f64).hypot(d.y as f64) / 1_000_000.0;
        assert!((len - 1.0).abs() <= 1e-6);
        let angle = (h as f64 * 5.0 + 90.0).to_radians();
        assert!((d.x as f64 / 1e6 - angle.cos()).abs() <= 1e-6);
        assert!((d.y as f64 / 1e6 - angle.sin()).abs() <= 1e-6);
    }
}

#[test]
fn clamp_rescales_to_top_speed() {
    assert_eq!(clamp_velocity(Vec2::new(20_000_000, 0)), Vec2::new(10_000_000, 0));
    assert_eq!(clamp_velocity(Vec2::new(30_000_000, -40_000_000)), Vec2::new(6_000_000, -8_000_000));
    assert_eq!(clamp_velocity(Vec2::new(6_000_000, 8_000_000)), Vec2::new(6_000_000, 8_000_000));
    assert_eq!(clamp_velocity(Vec2::zero()), Vec2::zero());
}

#[test]
fn thrust_at_top_speed_stays_at_top_speed() {
    let mut w = world(vec![ship(0, 0, 0, 10_000_000, 0)]);
    w.apply_controls(controls(false, false, true, false));
    assert_eq!(w.entities[0].velocity, Vec2::new(0, 10_000_000));
}

#[test]
fn rescaling_keeps_zero_and_direction() {
    assert_eq!(to_length(Vec2::zero(), 2_000_000), Vec2::zero());
    assert_eq!(to_length(Vec2::new(3, 4), 2_000_000), Vec2::new(1_200_000, 1_600_000));
    assert_eq!(to_length(Vec2::new(-640_000_000, 0), 2_000_000), Vec2::new(-2_000_000, 0));
    assert_eq!(rescale(Vec2::new(0, 30_000_000), 10_000_000), Vec2::new(0, 10_000_000));
    for (x, y) in [(1, 1), (1, 0), (-3, 7), (123_456, -654_321), (640_000_000, 360_000_000)] {
        let v = to_length(Vec2::new(x, y), 2_000_000);
        let speed = (v.x as f64).hypot(v.y as f64) / 1_000_000.0;
        assert!((speed - 2.0).abs() <= 1e-5);
    }
    assert_eq!(ceil_sqrt(0), 0);
    assert_eq!(ceil_sqrt(24), 5);
    assert_eq!(ceil_sqrt(25), 5);
    assert_eq!(ceil_sqrt(26), 6);
}

#[test]
fn coasting_ship_slows_down() {
    let mut w = world(vec![ship(0, 0, 1_000_000, -1_000_000, 0), asteroid(AsteroidSize::Big, 300_000_000, 0)]);
    w.entities[1].velocity = Vec2::new(1_000_000, 0);
    w.decelerate_starship(false);
    assert_eq!(w.entities[0].velocity, Vec2::new(990_000, -990_000));
    assert_eq!(w.entities[1].velocity, Vec2::new(1_000_000, 0));
    w.decelerate_starship(true);
    assert_eq!(w.entities[0].velocity, Vec2::new(990_000, -990_000));
}

#[test]
fn bullets_go_only_past_their_range() {
    let start = Vec2::new(0, 0);
    let mut w = world(vec![
        bullet(start, 0, BULLET_DISTANCE),
        bullet(start, 0, BULLET_DISTANCE + 1),
        ship(0, 0, 0, 0, 0),
        bullet(start, -345_600_000, 460_800_000),
        bullet(start, -345_600_000, 460_800_001),
    ]);
    w.remove_bullet();
    assert_eq!(w.entities.len(), 3);
    assert_eq!(w.entities[0].position, Vec2::new(0, BULLET_DISTANCE));
    assert!(matches!(w.entities[1].kind, Kind::Starship { .. }));
    assert_eq!(w.entities[2].position, Vec2::new(-345_600_000, 460_800_000));
}

#[test]
fn motion_wraps_past_each_edge() {
    let mut a = asteroid(AsteroidSize::Big, 689_000_000, 0);
    a.velocity = Vec2::new(2_000_000, 0);
    let mut b = asteroid(AsteroidSize::Small, 0, -374_000_000);
    b.velocity = Vec2::new(0, -2_000_000);
    let mut c = asteroid(AsteroidSize::Big, 100, 200);
    c.velocity = Vec2::new(-50, 70);
    let mut w = world(vec![a, b, c]);
    w.update_position();
    assert_eq!(w.entities[0].position, Vec2::new(-690_000_000, 0));
    assert_eq!(w.entities[1].position, Vec2::new(0, 375_000_000));
    assert_eq!(w.entities[2].position, Vec2::new(50, 270));
    assert_eq!(wrap_coordinate(-690_000_001, 640_000_000, 50_000_000), 690_000_000);
    assert_eq!(wrap_coordinate(690_000_000, 640_000_000, 50_000_000), 690_000_000);
    assert_eq!(wrap_coordinate(690_000_001, 640_000_000, 50_000_000), -690_000_000);
}

#[test]
fn ship_touching_asteroid_calls_for_reset() {
    let w = world(vec![ship(0, 0, 0, 0, 0), asteroid(AsteroidSize::Big, 62_499_999, 0)]);
    assert!(w.detect_starship_asteroid_collision());
    let w = world(vec![ship(0, 0, 0, 0, 0), asteroid(AsteroidSize::Big, 62_500_000, 0)]);
    assert!(!w.detect_starship_asteroid_collision());
    let w = world(vec![ship(0, 0, 0, 0, 0), bullet(Vec2::zero(), 0, 0)]);
    assert!(!w.detect_starship_asteroid_collision());
}

#[test]
fn big_asteroid_splits_into_two_medium() {
    let mut w = world(vec![bullet(Vec2::zero(), 10, 10), asteroid(AsteroidSize::Big, 10, 10)]);
    w.detect_bullet_asteroid_collision();
    assert_eq!(w.entities.len(), 2);
    assert_eq!(count_asteroids(&w, AsteroidSize::Medium), 2);
    for e in &w.entities {
        assert_eq!(e.position, Vec2::new(10, 10));
        assert_near_asteroid_speed(e.velocity);
    }
}

#[test]
fn medium_asteroid_splits_into_two_small() {
    let mut w = world(vec![asteroid(AsteroidSize::Medium, 0, 0), bullet(Vec2::zero(), 0, 0)]);
    w.detect_bullet_asteroid_collision();
    assert_eq!(w.entities.len(), 2);
    assert_eq!(count_asteroids(&w, AsteroidSize::Small), 2);
}

#[test]
fn small_asteroid_vanishes() {
    let mut w = world(vec![
        ship(300_000_000, 0, 0, 0, 0),
        bullet(Vec2::zero(), -5, 5),
        asteroid(AsteroidSize::Small, -5, 5),
    ]);
    w.detect_bullet_asteroid_collision();
    assert_eq!(w.entities.len(), 1);
    assert!(matches!(w.entities[0].kind, Kind::Starship { .. }));
}

#[test]
fn same_point_collides_for_every_tier() {
    for size in [AsteroidSize::Big, AsteroidSize::Medium, AsteroidSize::Small] {
        let mut w = world(vec![bullet(Vec2::zero(), 7, -7), asteroid(size, 7, -7)]);
        w.detect_bullet_asteroid_collision();
        assert!(w.entities.iter().all(|e| !matches!(e.kind, Kind::Bullet { .. })));
        assert_eq!(w.entities.len(), if size == AsteroidSize::Small { 0 } else { 2 });
    }
}

#[test]
fn bullet_misses_just_out_of_reach() {
    let mut w = world(vec![bullet(Vec2::zero(), 0, 0), asteroid(AsteroidSize::Big, 52_500_000, 0)]);
    w.detect_bullet_asteroid_collision();
    assert_eq!(w.entities.len(), 2);
    assert_eq!(count_asteroids(&w, AsteroidSize::Big), 1);
}

#[test]
fn one_bullet_over_two_asteroids_hits_both() {
    let mut w = world(vec![
        asteroid(AsteroidSize::Big, 0, 0),
        bullet(Vec2::zero(), 0, 0),
        asteroid(AsteroidSize::Medium, 1_000_000, 0),
    ]);
    w.detect_bullet_asteroid_collision();
    assert_eq!(w.entities.len(), 4);
    assert_eq!(count_asteroids(&w, AsteroidSize::Medium), 2);
    assert_eq!(count_asteroids(&w, AsteroidSize::Small), 2);
}

#[test]
fn reset_restores_the_starting_scene() {
    let mut w = world(vec![
        ship(5_000_000, 5_000_000, 100_000, 100_000, 7),
        bullet(Vec2::zero(), 3, 3),
        asteroid(AsteroidSize::Small, 40_000_000, 0),
    ]);
    w.reset_game();
    assert_eq!(w.entities.len(), 7);
    assert_eq!(w.entities[0], ship(0, 0, 0, 0, 0));
    assert_eq!(count_asteroids(&w, AsteroidSize::Big), 6);
    for e in &w.entities[1..] {
        assert!(e.position.x.abs() <= 640_000_000 && e.position.y.abs() <= 360_000_000);
        assert_near_asteroid_speed(e.velocity);
    }
    assert!(w.entities.iter().all(|e| !matches!(e.kind, Kind::Bullet { .. })));
}

#[test]
fn new_game_uses_the_given_bounds() {
    let bounds = ScreenBounds { half_width: 1_000, half_height: 500 };
    let w = World::new(bounds);
    assert_eq!(w.bounds, bounds);
    assert_eq!(w.entities.len(), 7);
    for e in &w.entities[1..] {
        assert!(e.position.x.abs() <= 1_000 && e.position.y.abs() <= 500);
    }
}

#[test]
fn screen_bounds_follow_the_window() {
    let mut b = ScreenBounds::default();
    assert_eq!(b, ScreenBounds { half_width: 640_000_000, half_height: 360_000_000 });
    b.update_screen_bounds(None);
    assert_eq!(b, ScreenBounds { half_width: 640_000_000, half_height: 360_000_000 });
    b.update_screen_bounds(Some((800, 601)));
    assert_eq!(b, ScreenBounds { half_width: 400_000_000, half_height: 300_500_000 });
}

#[test]
fn virtual_fire_is_one_shot() {
    let mut v = VirtualInput::new();
    v.set_left(true);
    v.trigger_fire();
    let first = v.consume();
    assert_eq!(first, MobileInputState { left: true, right: false, up: false, fire_just_pressed: true });
    let second = v.consume();
    assert_eq!(second, MobileInputState { left: true, right: false, up: false, fire_just_pressed: false });
    v.set_left(false);
    v.set_up(true);
    v.set_right(true);
    assert_eq!(v.consume(), MobileInputState { left: false, right: true, up: true, fire_just_pressed: false });
}

#[test]
fn keyboard_and_touch_are_merged_by_or() {
    let keys = KeyboardState { left: true, right: false, up: false, fire_just_pressed: false };
    let touch = MobileInputState { left: false, right: false, up: true, fire_just_pressed: true };
    assert_eq!(merge_input(keys, Some(touch)), controls(true, false, true, true));
    assert_eq!(merge_input(keys, None), controls(true, false, false, false));
}

#[test]
fn one_frame_of_thrust_moves_the_ship() {
    let mut w = world(vec![ship(0, 0, 0, 0, 0)]);
    let keys = KeyboardState { left: false, right: false, up: true, fire_just_pressed: false };
    let reset = w.step(keys, None, Some((1280, 720)));
    assert!(!reset);
    assert_eq!(w.entities.len(), 1);
    assert_eq!(w.entities[0].velocity, Vec2::new(0, 200_000));
    assert_eq!(w.entities[0].position, Vec2::new(0, 200_000));
}

#[test]
fn one_frame_with_a_hit_resets() {
    let mut w = world(vec![ship(0, 0, 0, 0, 0), asteroid(AsteroidSize::Big, 10_000_000, 0)]);
    let keys = KeyboardState { left: false, right: false, up: false, fire_just_pressed: false };
    let reset = w.step(keys, None, None);
    assert!(reset);
    assert_eq!(w.entities.len(), 7);
    assert_eq!(w.entities[0], ship(0, 0, 0, 0, 0));
}

#[test]
fn sizes_of_each_entity() {
    assert_eq!(AsteroidSize::Big.scale(), 100_000_000);
    assert_eq!(AsteroidSize::Medium.scale(), 65_000_000);
    assert_eq!(AsteroidSize::Small.scale(), 30_000_000);
    assert_eq!(AsteroidSize::Big.split(), Some(AsteroidSize::Medium));
    assert_eq!(AsteroidSize::Small.split(), None);
    assert_eq!(ship(0, 0, 0, 0, 0).scale(), 50_000_000);
    assert_eq!(bullet(Vec2::zero(), 0, 0).scale(), 5_000_000);
}

#[test]
fn spawning_on_an_empty_field_stays_at_the_origin() {
    let empty = ScreenBounds { half_width: 0, half_height: 0 };
    assert_eq!(random_point(&empty), Vec2::zero());
    assert_eq!(random_velocity(&empty, 2_000_000), Vec2::zero());
    let field = ScreenBounds::default();
    for _ in 0..100 {
        let p = random_point(&field);
        assert!(p.x.abs() <= 640_000_000 && p.y.abs() <= 360_000_000);
        assert_near_asteroid_speed(random_velocity(&field, 2_000_000));
    }
}

#[test]
fn draws_select_offsets() {
    assert_eq!(offset_from_draw(0, 5), -5);
    assert_eq!(offset_from_draw(10, 5), 5);
    assert_eq!(offset_from_draw(11, 5), -5);
    assert_eq!(offset_from_draw(u64::MAX, 5), -1);
    assert_eq!(offset_from_draw(u64::MAX, 0), 0);
}

#[test]
fn clamped_thrust_reaches_top_speed() {
    let mut w = world(vec![ship(0, 0, 7_000_000, 7_000_000, 0)]);
    w.apply_controls(controls(false, false, true, false));
    let v = w.entities[0].velocity;
    let speed = (v.x as f64).hypot(v.y as f64) / 1_000_000.0;
    assert!((speed - 10.0).abs() <= 1e-4, "speed {}", speed);
}

#[test]
fn bullets_fly_at_bullet_speed_on_every_heading() {
    for h in 0..72u8 {
        let mut w = world(vec![ship(0, 0, 0, 0, h)]);
        w.apply_controls(controls(false, false, false, true));
        let v = w.entities[1].velocity;
        let speed = (v.x as f64).hypot(v.y as f64) / 1_000_000.0;
        assert!((speed - 6.0).abs() <= 1e-5, "speed {}", speed);
    }
}

#[test]
fn hit_in_a_crowded_store_splits_only_the_hit_asteroid() {
    let mut w = world(vec![
        ship(-300_000_000, 0, 0, 0, 0),
        asteroid(AsteroidSize::Medium, 200_000_000, 100_000_000),
        bullet(Vec2::zero(), 50_000_000, -20_000_000),
        asteroid(AsteroidSize::Big, 80_000_000, -20_000_000),
        bullet(Vec2::zero(), -100_000_000, 0),
    ]);
    w.detect_bullet_asteroid_collision();
    assert_eq!(w.entities.len(), 5);
    assert_eq!(w.entities[0], ship(-300_000_000, 0, 0, 0, 0));
    assert_eq!(w.entities[1], asteroid(AsteroidSize::Medium, 200_000_000, 100_000_000));
    assert!(matches!(w.entities[2].kind, Kind::Bullet { .. }));
    for e in &w.entities[3..] {
        assert_eq!(e.kind, Kind::Asteroid { size: AsteroidSize::Medium });
        assert_eq!(e.position, Vec2::new(80_000_000, -20_000_000));
        assert_near_asteroid_speed(e.velocity);
    }
}
