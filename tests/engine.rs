use pixen::config::{ConfigError, DebugConfig, GameConfig, GraphicsConfig, PhysicsConfig};
use pixen::fixed::{COORD_MAX, POS_MAX, UNIT};
use pixen::game_field::{
    BoundaryPolicy, FrameInput, GameField, MouseAction, Status, REMOVE_RADIUS,
};
use pixen::gravity_field::GravityField;
use pixen::pixel::Pixel;
use pixen::rng::Rng;
use pixen::vector::Vector;

fn u(n: i64) -> i64 {
    n * UNIT
}

fn config(num_pixels: usize, friction: i64, acceleration: i64, max_velocity: i64, aoe: i64) -> GameConfig {
    GameConfig {
        num_pixels,
        phy: PhysicsConfig { max_velocity, friction, acceleration, gravity_field_aoe: aoe },
        gfx: GraphicsConfig { pixel_size: u(2), min_brightness: 100, max_brightness: 200 },
        dbg: DebugConfig { on_pause: true, fps: true, draw_fields: true, n_fields: false },
    }
}

fn arena(cfg: GameConfig) -> GameField {
    GameField::new(cfg, 42, u(800), u(600))
}

fn input(mouse: MouseAction, pointer: Vector) -> FrameInput {
    FrameInput { pointer, mouse, reset: None, preserve_fields: false, toggle_pause: false }
}

#[test]
fn normalize_zero_vector() {
    let mut v = Vector::new(0, 0);
    v.normalize();
    assert_eq!(v, Vector::new(0, 0));
}

#[test]
fn normalize_keeps_direction() {
    let mut v = Vector::new(u(3), 0);
    v.normalize();
    assert_eq!(v, Vector::new(UNIT, 0));
    let mut w = Vector::new(u(3), u(-4));
    w.normalize();
    assert_eq!(w, Vector::new(615, -820));
    let mut tiny = Vector::new(1, 1);
    tiny.normalize();
    assert_eq!(tiny, Vector::new(725, 725));
    let mut steep = Vector::new(1, 1000000);
    steep.normalize();
    assert_eq!(steep, Vector::new(1, UNIT));
}

#[test]
fn magnitude_and_distance() {
    let a = Vector::new(0, 0);
    let b = Vector::new(u(3), u(4));
    assert_eq!(b.magnitude(), u(5));
    assert_eq!(a.distance(&b), u(5));
    assert_eq!(b.distance(&a), u(5));
    assert_eq!(a.distance(&a), 0);
    assert_eq!(Vector::new(1, 1).magnitude(), 1);
    assert_eq!(Vector::new(2, 2).distance(&Vector::new(-1, -1)), 4);
    let far_a = Vector::new(-POS_MAX, 0);
    let far_b = Vector::new(POS_MAX, 7);
    assert_eq!(far_b.sub(far_a).magnitude(), far_a.distance(&far_b));
    assert_eq!(far_a.distance(&far_b), 2 * POS_MAX);
}

#[test]
fn limit_clamps_each_axis() {
    let mut v = Vector::new(5000, -7000);
    v.limit(2048);
    assert_eq!(v, Vector::new(2048, -2048));
    let mut w = Vector::new(100, -100);
    w.limit(2048);
    assert_eq!(w, Vector::new(100, -100));
}

#[test]
fn arithmetic_is_fixed_point() {
    let a = Vector::new(u(2), u(3));
    let b = Vector::new(u(3), -UNIT / 2);
    assert_eq!(a.add(b), Vector::new(u(5), u(3) - UNIT / 2));
    assert_eq!(a.sub(b), Vector::new(u(-1), u(3) + UNIT / 2));
    assert_eq!(a.mul(b), Vector::new(u(6), -(u(3) / 2)));
    assert_eq!(Vector::new(UNIT, -UNIT).div(Vector::new(u(2), 0)), Vector::new(UNIT / 2, -COORD_MAX));
    assert_eq!(Vector::new(0, 5).div(Vector::new(0, u(-1))), Vector::new(0, -5));
    assert_eq!(Vector::new(COORD_MAX, 0).add(Vector::new(1, 0)), Vector::new(COORD_MAX, 0));
    let mut c = Vector::from(7);
    c.add_assign(Vector::coords((1, 2)));
    assert_eq!(c, Vector::new(8, 9));
    c.sub_assign(Vector::new(8, 0));
    assert_eq!(c, Vector::new(0, 9));
    c.mul_assign(Vector::from(u(2)));
    assert_eq!(c, Vector::new(0, 18));
    c.div_assign(Vector::from(u(3)));
    assert_eq!(c, Vector::new(0, 6));
    c.clear();
    assert_eq!(c, Vector::new(0, 0));
}

#[test]
fn area_of_effect_boundary() {
    let f = GravityField::new(Vector::new(0, 0), u(100), u(5));
    assert!(f.in_aoe(&Vector::new(u(100), 0)));
    assert!(f.in_aoe(&Vector::new(u(60), u(80))));
    assert!(!f.in_aoe(&Vector::new(u(100) + 1, 0)));
    assert!(!f.is_repelling());
    assert!(GravityField::new(Vector::new(0, 0), 1, -1).is_repelling());
}

#[test]
fn contribution_points_at_field() {
    let f = GravityField::new(Vector::new(u(10), 0), u(100), u(5));
    assert_eq!(f.contribution(&Vector::new(0, 0)), Vector::new(u(5), 0));
    let r = GravityField::new(Vector::new(u(10), 0), u(100), u(-5));
    assert_eq!(r.contribution(&Vector::new(0, 0)), Vector::new(u(-5), 0));
}

#[test]
fn pixel_starts_at_rest() {
    let p = Pixel::new(Vector::new(3, 4));
    assert_eq!(p.position, Vector::new(3, 4));
    assert_eq!(p.velocity, Vector::new(0, 0));
}

#[test]
fn at_rest_without_fields_never_moves() {
    let mut g = arena(config(5, u(1), u(5), u(10), u(100)));
    let before = g.pixels.clone();
    for _ in 0..10 {
        g.tick();
    }
    assert_eq!(g.pixels, before);
}

#[test]
fn velocity_stays_capped() {
    let mut g = arena(config(20, 10, u(50), u(3), u(2000)));
    g.add_field(Vector::new(u(400), u(300)), false);
    g.add_field(Vector::new(u(100), u(100)), true);
    for _ in 0..25 {
        g.tick();
        for p in g.pixels.iter() {
            assert!(p.velocity.x.abs() <= u(3));
            assert!(p.velocity.y.abs() <= u(3));
        }
    }
}

#[test]
fn friction_slows_a_moving_pixel() {
    let mut g = arena(config(1, u(1), u(5), u(10), u(100)));
    g.pixels[0] = Pixel { position: Vector::new(u(10), u(10)), velocity: Vector::new(u(4), 0) };
    g.tick();
    assert_eq!(g.pixels[0].velocity, Vector::new(u(3), 0));
    assert_eq!(g.pixels[0].position, Vector::new(u(13), u(10)));
}

#[test]
fn wrap_moves_to_opposite_edge() {
    let mut g = arena(config(2, 0, u(5), u(10), u(100)));
    let w = u(800);
    let h = u(600);
    g.pixels[0] = Pixel { position: Vector::new(w + 1, 5), velocity: Vector::new(0, 0) };
    g.pixels[1] = Pixel { position: Vector::new(-1, h + 1), velocity: Vector::new(0, 0) };
    g.snake_bounds(w, h);
    assert_eq!(g.pixels[0].position, Vector::new(0, 5));
    assert_eq!(g.pixels[1].position, Vector::new(w, 0));
}

#[test]
fn bounce_reflects_velocity() {
    let mut g = arena(config(1, 0, u(5), u(10), u(100)));
    let w = u(800);
    let h = u(600);
    g.pixels[0] = Pixel { position: Vector::new(w + 7, 9), velocity: Vector::new(u(2), u(-1)) };
    g.apply_bounds(BoundaryPolicy::Bounce, w, h);
    assert_eq!(g.pixels[0].position, Vector::new(w, 9));
    assert_eq!(g.pixels[0].velocity, Vector::new(u(-2), u(-1)));
    g.pixels[0].position = Vector::new(-3, h + 2);
    g.apply_bounds(BoundaryPolicy::Wrap, w, h);
    assert_eq!(g.pixels[0].position, Vector::new(w, 0));
}

#[test]
fn single_attracting_field_scenario() {
    let mut g = arena(config(1, 0, u(5), u(10), u(100)));
    g.add_field(Vector::new(u(50), u(50)), false);
    assert_eq!(g.gravity_fields[0].strength, u(5));
    g.pixels[0] = Pixel { position: Vector::new(0, u(50)), velocity: Vector::new(0, 0) };
    g.tick();
    assert_eq!(g.pixels[0].velocity, Vector::new(u(5), 0));
    assert_eq!(g.pixels[0].position, Vector::new(u(5), u(50)));
}

#[test]
fn removal_takes_first_match() {
    let mut g = arena(config(0, 0, u(5), u(10), u(100)));
    assert_eq!(REMOVE_RADIUS, u(10));
    g.add_field(Vector::new(u(10), u(10)), false);
    g.add_field(Vector::new(u(12), u(10)), false);
    g.remove_field_at(Vector::new(u(11), u(10)));
    assert_eq!(g.field_count(), 1);
    assert_eq!(g.gravity_fields[0].position, Vector::new(u(12), u(10)));
    g.remove_field_at(Vector::new(u(50), u(50)));
    assert_eq!(g.field_count(), 1);
}

#[test]
fn removal_moves_last_field_into_gap() {
    let mut g = arena(config(0, 0, u(5), u(10), u(100)));
    g.add_field(Vector::new(u(10), u(10)), false);
    g.add_field(Vector::new(u(40), u(10)), false);
    g.add_field(Vector::new(u(70), u(10)), true);
    g.remove_field_at(Vector::new(u(10), u(15)));
    assert_eq!(g.field_count(), 2);
    assert_eq!(g.gravity_fields[0].position, Vector::new(u(70), u(10)));
    assert_eq!(g.gravity_fields[1].position, Vector::new(u(40), u(10)));
}

#[test]
fn bounds_on_empty_surface() {
    let mut g = arena(config(1, 0, u(5), u(10), u(100)));
    g.pixels[0] = Pixel { position: Vector::new(5, -5), velocity: Vector::new(1, 1) };
    g.keep_within_bounds(0, 0);
    assert_eq!(g.pixels[0].position, Vector::new(0, 0));
    assert_eq!(g.pixels[0].velocity, Vector::new(-1, -1));
    g.pixels[0].position = Vector::new(5, -5);
    g.snake_bounds(0, 0);
    assert_eq!(g.pixels[0].position, Vector::new(0, 0));
}

#[test]
fn positions_saturate_in_play() {
    let mut g = arena(config(1, 0, u(5), u(10), u(100)));
    g.pixels[0] = Pixel { position: Vector::new(POS_MAX - 1, -POS_MAX + 1), velocity: Vector::new(u(9), u(-9)) };
    g.tick();
    assert_eq!(g.pixels[0].position, Vector::new(POS_MAX, -POS_MAX));
}

#[test]
fn reset_clears_fields_unless_preserved() {
    let mut g = arena(config(3, 0, u(5), u(10), u(100)));
    g.add_field(Vector::new(u(1), u(1)), false);
    g.add_field(Vector::new(u(2), u(1)), true);
    g.reset(config(7, 0, u(5), u(10), u(100)), true, u(800), u(600));
    assert_eq!(g.field_count(), 2);
    assert_eq!(g.pixels.len(), 7);
    g.reset(config(4, 0, u(5), u(10), u(100)), false, u(800), u(600));
    assert_eq!(g.field_count(), 0);
    assert_eq!(g.pixels.len(), 4);
    assert_eq!(g.config.num_pixels, 4);
}

#[test]
fn population_lies_on_surface() {
    let g = GameField::new(config(50, 0, u(5), u(10), u(100)), 7, u(80), u(60));
    assert_eq!(g.pixels.len(), 50);
    for p in g.pixels.iter() {
        assert!(0 <= p.position.x && p.position.x < u(80));
        assert!(0 <= p.position.y && p.position.y < u(60));
        assert_eq!(p.velocity, Vector::new(0, 0));
    }
    let h = GameField::new(config(50, 0, u(5), u(10), u(100)), 7, u(80), u(60));
    assert_eq!(g.pixels, h.pixels);
}

#[test]
fn update_follows_frame_order() {
    let mut g = arena(config(2, 0, u(5), u(10), u(100)));
    g.update(&input(MouseAction::Attract, Vector::new(u(1), u(2))), u(800), u(600));
    g.update(&input(MouseAction::Repel, Vector::new(u(3), u(4))), u(800), u(600));
    assert_eq!(g.field_count(), 2);
    assert_eq!(g.gravity_fields[1].strength, u(-5));
    let mut pause = input(MouseAction::Nothing, Vector::new(0, 0));
    pause.toggle_pause = true;
    g.update(&pause, u(800), u(600));
    assert!(g.is_paused);
    let frozen = g.pixels.clone();
    g.update(&input(MouseAction::Remove, Vector::new(u(1), u(2))), u(800), u(600));
    assert_eq!(g.field_count(), 1);
    assert_eq!(g.pixels, frozen);
    let mut reset = input(MouseAction::Nothing, Vector::new(0, 0));
    reset.reset = Some(config(6, 0, u(5), u(10), u(100)));
    g.update(&reset, u(800), u(600));
    assert_eq!(g.field_count(), 0);
    assert_eq!(g.pixels.len(), 6);
    assert!(g.is_paused);
}

#[test]
fn config_errors_in_order() {
    let ok = config(1, 1, 2, 3, 4);
    assert_eq!(ok.validate(), Ok(()));
    let mut c = ok;
    c.phy.max_velocity = -1;
    assert_eq!(c.validate(), Err(ConfigError::NegativeMaxVelocity));
    let mut c = ok;
    c.phy.friction = -1;
    assert_eq!(c.validate(), Err(ConfigError::NegativeFriction));
    let mut c = ok;
    c.phy.acceleration = -1;
    assert_eq!(c.validate(), Err(ConfigError::NegativeAcceleration));
    let mut c = ok;
    c.phy.friction = 2;
    assert_eq!(c.validate(), Err(ConfigError::FrictionNotBelowAcceleration));
    let mut c = ok;
    c.phy.gravity_field_aoe = 0;
    assert_eq!(c.validate(), Err(ConfigError::NonPositiveFieldArea));
    let mut c = ok;
    c.gfx.min_brightness = 250;
    assert_eq!(c.validate(), Err(ConfigError::BrightnessRange));
    let mut c = ok;
    c.gfx.pixel_size = 0;
    assert_eq!(c.validate(), Err(ConfigError::NonPositivePixelSize));
}

#[test]
fn generator_stream() {
    let mut a = Rng::new(0);
    let mut b = Rng::new(0);
    assert_eq!(a.rand(), b.rand());
    let mut r = Rng::new(1);
    assert_eq!(r.rand(), 1082269761);
    for _ in 0..100 {
        let v = r.range(10, 12);
        assert!((10..=12).contains(&v));
    }
    assert_eq!(r.range(5, 5), 5);
}

#[test]
fn brightness_within_range() {
    let mut g = arena(config(30, 0, u(5), u(10), u(100)));
    let b = g.pixel_brightness();
    assert_eq!(b.len(), 30);
    assert!(b.iter().all(|&v| (100..=200).contains(&v)));
}

#[test]
fn overlay_decisions() {
    let mut g = arena(config(1, 0, u(5), u(10), u(100)));
    let o = g.overlay(false);
    assert!(!o.visible);
    assert_eq!(o.status, None);
    let o = g.overlay(true);
    assert_eq!(o.status, Some(Status::Running));
    assert!(o.show_fps && o.draw_fields && !o.show_field_count);
    g.toggle_pause();
    let o = g.overlay(false);
    assert!(o.visible);
    assert_eq!(o.status, Some(Status::Paused));
}

#[test]
fn normalized_length_is_one_unit() {
    let samples = [(1, 0), (1, 1), (-7, 3), (u(3), u(-4)), (123456, -654321), (-COORD_MAX, COORD_MAX), (0, -5), (1, 1000000)];
    for (x, y) in samples {
        let mut v = Vector::new(x, y);
        v.normalize();
        let (nx, ny) = (v.x as i128, v.y as i128);
        let unit = UNIT as i128;
        assert!(nx * nx + ny * ny >= unit * unit);
        let shrink = |c: i128| (c.abs() - 1).max(0);
        assert!(shrink(nx).pow(2) + shrink(ny).pow(2) < (unit + 1) * (unit + 1));
        assert_eq!(nx.signum(), (x as i128).signum());
        assert_eq!(ny.signum(), (y as i128).signum());
    }
}

#[test]
fn generator_full_span() {
    let mut a = Rng::new(9);
    let mut b = Rng::new(9);
    assert_eq!(a.range(0, u64::MAX), b.rand());
    assert_eq!(a.state, b.state);
}
