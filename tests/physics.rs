use paddleball::{
    can_advance, can_bounce, collide, collision, keyboard_input, kinematics, setup, wall_bounce,
    Ball, BallMarker, Collision, Entity, Keys, Paddle, PaddleMarker, Role, SceneError, Transform,
    Vec2, Velocity, World, MILLIS_PER_UNIT, NANOS_PER_UNIT, SPEED,
};

fn units(x: i64, y: i64) -> Vec2 {
    Vec2::new(x * NANOS_PER_UNIT, y * NANOS_PER_UNIT)
}

fn per_second(x: i64, y: i64) -> Velocity {
    Velocity(Vec2::new(x * MILLIS_PER_UNIT, y * MILLIS_PER_UNIT))
}

fn ball(pos: Vec2, size: Vec2, v: Velocity) -> Ball {
    Ball { marker: BallMarker, transform: Transform { translation: pos }, size, velocity: v }
}

fn paddle(pos: Vec2, size: Vec2, v: Velocity) -> Paddle {
    Paddle { marker: PaddleMarker, transform: Transform { translation: pos }, size, velocity: v }
}

fn no_keys() -> Keys {
    Keys { up: false, left: false, down: false, right: false }
}

fn velocity(world: &World, i: usize) -> Vec2 {
    world.entities[i].velocity.unwrap().0
}

#[test]
fn integration_moves_by_velocity_times_elapsed() {
    let mut world = World::new();
    world.spawn_ball(ball(units(0, 0), units(40, 40), per_second(30, 0)));
    assert!(can_advance(&world, 500_000));
    kinematics(&mut world, 500_000);
    assert_eq!(world.entities[0].transform.translation, units(15, 0));
}

#[test]
fn integration_leaves_entities_without_velocity() {
    let mut world = World::new();
    world.spawn(Entity {
        role: Role::Other,
        transform: Transform { translation: units(3, 4) },
        size: None,
        velocity: None,
    });
    kinematics(&mut world, 1_000_000);
    assert_eq!(world.entities[0].transform.translation, units(3, 4));
}

#[test]
fn integration_negative_velocity_and_small_frame() {
    let mut world = World::new();
    world.spawn_ball(ball(units(10, 10), units(40, 40), per_second(-20, 5)));
    kinematics(&mut world, 16_000);
    // -20 units/s for 16 ms is -0.32 units; 5 units/s is 0.08 units.
    assert_eq!(
        world.entities[0].transform.translation,
        Vec2::new(10 * NANOS_PER_UNIT - 320_000_000, 10 * NANOS_PER_UNIT + 80_000_000)
    );
}

#[test]
fn integration_overflow_is_reported() {
    let mut world = World::new();
    world.spawn_ball(ball(Vec2::new(i64::MAX - 10, 0), units(1, 1), Velocity(Vec2::new(1, 0))));
    assert!(can_advance(&world, 10));
    assert!(!can_advance(&world, 11));
}

#[test]
fn wall_reflection_zeroes_other_axis() {
    let mut world = World::new();
    world.spawn_ball(ball(units(401, 0), units(40, 40), per_second(10, 5)));
    assert!(can_bounce(&world));
    wall_bounce(&mut world);
    assert_eq!(velocity(&world, 0), per_second(-10, 0).0);
}

#[test]
fn wall_reflection_vertical() {
    let mut world = World::new();
    world.spawn_ball(ball(units(0, -401), units(40, 40), per_second(10, -5)));
    wall_bounce(&mut world);
    assert_eq!(velocity(&world, 0), per_second(0, 5).0);
}

#[test]
fn wall_reflection_corner_gives_zero() {
    let mut world = World::new();
    world.spawn_ball(ball(units(401, 401), units(40, 40), per_second(10, 5)));
    wall_bounce(&mut world);
    assert_eq!(velocity(&world, 0), Vec2::new(0, 0));
}

#[test]
fn wall_reflection_on_the_bound_does_nothing() {
    let mut world = World::new();
    world.spawn_ball(ball(units(400, -400), units(40, 40), per_second(10, 5)));
    wall_bounce(&mut world);
    assert_eq!(velocity(&world, 0), per_second(10, 5).0);
}

#[test]
fn wall_reflection_overflow_is_reported() {
    let mut world = World::new();
    world.spawn_ball(ball(units(500, 0), units(1, 1), Velocity(Vec2::new(i64::MIN, 0))));
    assert!(!can_bounce(&world));
}

#[test]
fn aabb_no_collision() {
    let mut world = World::new();
    world.spawn_paddle(paddle(units(0, 0), units(80, 20), per_second(50, 0)));
    world.spawn_ball(ball(units(200, 200), units(40, 40), per_second(7, -3)));
    assert_eq!(collide(units(0, 0), units(80, 20), units(200, 200), units(40, 40)), None);
    assert_eq!(collision(&mut world), Ok(()));
    assert_eq!(velocity(&world, 1), per_second(7, -3).0);
}

#[test]
fn aabb_top_hit() {
    let mut world = World::new();
    world.spawn_paddle(paddle(units(0, 0), units(80, 20), per_second(100, 200)));
    world.spawn_ball(ball(units(0, 25), units(40, 40), per_second(30, -50)));
    assert_eq!(collide(units(0, 0), units(80, 20), units(0, 25), units(40, 40)), Some(Collision::Top));
    assert_eq!(collision(&mut world), Ok(()));
    // reflected (30, 50) plus 1.01 * (100, 200) = (101, 202)
    assert_eq!(velocity(&world, 1), per_second(131, 252).0);
}

#[test]
fn aabb_faces() {
    let p = units(0, 0);
    let ps = units(80, 20);
    let bs = units(40, 40);
    assert_eq!(collide(p, ps, units(0, -25), bs), Some(Collision::Bottom));
    assert_eq!(collide(p, ps, units(55, 0), bs), Some(Collision::Right));
    assert_eq!(collide(p, ps, units(-55, 0), bs), Some(Collision::Left));
    // touching edges do not overlap
    assert_eq!(collide(p, ps, units(60, 0), bs), None);
    assert_eq!(collide(p, ps, units(0, 30), bs), None);
}

#[test]
fn aabb_side_hit_level_with_paddle() {
    // only the horizontal extents straddle: the paddle's height lies within the ball's
    let mut world = World::new();
    world.spawn_paddle(paddle(units(0, 0), units(80, 20), Velocity::zero()));
    world.spawn_ball(ball(units(35, 0), units(40, 40), per_second(30, -50)));
    assert_eq!(collide(units(0, 0), units(80, 20), units(35, 0), units(40, 40)), Some(Collision::Right));
    assert_eq!(collision(&mut world), Ok(()));
    assert_eq!(velocity(&world, 1), per_second(-30, -50).0);
}

#[test]
fn aabb_corner_and_contained_hits() {
    let p = units(0, 0);
    let ps = units(80, 20);
    // corner: both axes straddle, the vertical overlap (5) is smaller than the horizontal (10)
    assert_eq!(collide(p, ps, units(50, 25), units(40, 40)), Some(Collision::Top));
    // corner: horizontal overlap (5) smaller than vertical (10)
    assert_eq!(collide(p, ps, units(55, -20), units(40, 40)), Some(Collision::Right));
    // ball inside the paddle on both axes: the smaller overlap (vertical) decides
    assert_eq!(collide(p, ps, units(0, 2), units(30, 10)), Some(Collision::Top));
}

#[test]
fn aabb_side_hit_reflects_x() {
    let mut world = World::new();
    world.spawn_paddle(paddle(units(0, 0), units(80, 20), Velocity::zero()));
    world.spawn_ball(ball(units(-55, 0), units(40, 40), per_second(40, 10)));
    assert_eq!(collision(&mut world), Ok(()));
    assert_eq!(velocity(&world, 1), per_second(-40, 10).0);
}

#[test]
fn momentum_rounds_toward_reflected_motion() {
    let mut world = World::new();
    world.spawn_paddle(paddle(units(0, 0), units(80, 20), Velocity(Vec2::new(-150, 150))));
    world.spawn_ball(ball(units(0, 25), units(40, 40), Velocity(Vec2::new(0, 0))));
    assert_eq!(collision(&mut world), Ok(()));
    // 1.01 * 150 = 151.5; a reflected component of zero rounds up
    assert_eq!(velocity(&world, 1), Vec2::new(-151, 152));

    let mut world = World::new();
    world.spawn_paddle(paddle(units(0, 0), units(80, 20), Velocity(Vec2::new(-150, 150))));
    world.spawn_ball(ball(units(0, 25), units(40, 40), Velocity(Vec2::new(-10, 20))));
    assert_eq!(collision(&mut world), Ok(()));
    // reflected (-10, -20): both components negative, so both round down
    assert_eq!(velocity(&world, 1), Vec2::new(-162, 131));
}

#[test]
fn momentum_rounding_never_slows_the_ball() {
    let mut world = World::new();
    world.spawn_paddle(paddle(units(0, 0), units(80, 20), Velocity(Vec2::new(100, -99))));
    world.spawn_ball(ball(units(0, 25), units(40, 40), Velocity(Vec2::new(-10_098, 10_200))));
    assert_eq!(collision(&mut world), Ok(()));
    let v = velocity(&world, 1);
    assert_eq!(v, Vec2::new(-9_997, -10_300));
    let before = 10_098i64 * 10_098 + 10_200 * 10_200;
    assert!(v.x * v.x + v.y * v.y >= before);
}

#[test]
fn momentum_grows_over_consecutive_hits() {
    let mut world = World::new();
    world.spawn_paddle(paddle(units(0, 0), units(80, 20), per_second(100, 0)));
    world.spawn_ball(ball(units(0, 25), units(40, 40), per_second(10, 0)));
    let mut last = 10 * MILLIS_PER_UNIT;
    for _ in 0..5 {
        assert_eq!(collision(&mut world), Ok(()));
        let v = velocity(&world, 1);
        assert!(v.x > last);
        last = v.x;
    }
    assert_eq!(last, 10_000 + 5 * 101_000);
}

#[test]
fn collision_missing_bounding_box() {
    let mut world = World::new();
    world.spawn_paddle(paddle(units(0, 0), units(80, 20), Velocity::zero()));
    world.spawn(Entity {
        role: Role::Ball,
        transform: Transform { translation: units(0, 25) },
        size: None,
        velocity: Some(per_second(1, 1)),
    });
    assert_eq!(collision(&mut world), Err(SceneError::MissingBoundingBox));
    assert_eq!(velocity(&world, 1), per_second(1, 1).0);
}

#[test]
fn collision_overflow_changes_nothing() {
    let mut world = World::new();
    world.spawn_paddle(paddle(units(0, 0), units(80, 20), Velocity(Vec2::new(i64::MAX, 0))));
    world.spawn_ball(ball(units(0, 25), units(40, 40), Velocity(Vec2::new(i64::MAX, 0))));
    assert_eq!(collision(&mut world), Err(SceneError::VelocityOverflow));
    assert_eq!(velocity(&world, 1), Vec2::new(i64::MAX, 0));
}

#[test]
fn input_without_paddle_fails() {
    let mut world = World::new();
    world.spawn_ball(ball(units(0, 0), units(40, 40), per_second(30, 0)));
    let keys = Keys { up: true, left: false, down: false, right: false };
    assert_eq!(keyboard_input(&mut world, keys), Err(SceneError::NoPaddle));
    assert_eq!(world.last_keys, None);
}

#[test]
fn input_with_two_paddles_fails() {
    let mut world = World::new();
    world.spawn_paddle(paddle(units(0, 0), units(80, 20), Velocity::zero()));
    world.spawn_paddle(paddle(units(0, 100), units(80, 20), Velocity::zero()));
    assert_eq!(keyboard_input(&mut world, no_keys()), Err(SceneError::ManyPaddles));
}

#[test]
fn input_held_keys_combine() {
    let mut world = setup();
    let keys = Keys { up: true, left: false, down: false, right: true };
    assert_eq!(keyboard_input(&mut world, keys), Ok(()));
    assert_eq!(velocity(&world, 2), Vec2::new(SPEED, SPEED));
    assert_eq!(velocity(&world, 1), per_second(30, 0).0);
    let opposite = Keys { up: true, left: true, down: true, right: true };
    assert_eq!(keyboard_input(&mut world, opposite), Ok(()));
    assert_eq!(velocity(&world, 2), Vec2::new(0, 0));
}

#[test]
fn input_unchanged_keys_keep_velocity() {
    let mut world = setup();
    let keys = Keys { up: false, left: true, down: true, right: false };
    assert_eq!(keyboard_input(&mut world, keys), Ok(()));
    let first = velocity(&world, 2);
    assert_eq!(first, Vec2::new(-SPEED, -SPEED));
    // a bounce changes the paddle's velocity; unchanged keys do not undo it
    world.entities[2].velocity = Some(Velocity(Vec2::new(5, 5)));
    assert_eq!(keyboard_input(&mut world, keys), Ok(()));
    assert_eq!(velocity(&world, 2), Vec2::new(5, 5));
    assert_eq!(keyboard_input(&mut world, no_keys()), Ok(()));
    assert_eq!(velocity(&world, 2), Vec2::new(0, 0));
}

#[test]
fn setup_spawns_ball_and_paddle() {
    let world = setup();
    assert_eq!(world.entities.len(), 3);
    assert_eq!(world.entities[0].role, Role::Other);
    assert_eq!(world.entities[1].role, Role::Ball);
    assert_eq!(world.entities[1].transform.translation, units(0, 0));
    assert_eq!(world.entities[1].size, Some(units(40, 40)));
    assert_eq!(velocity(&world, 1), per_second(30, 0).0);
    assert_eq!(world.entities[2].role, Role::Paddle);
    assert_eq!(world.entities[2].transform.translation, units(100, 100));
    assert_eq!(world.entities[2].size, Some(units(80, 20)));
    assert_eq!(velocity(&world, 2), Vec2::new(0, 0));
    assert_eq!(world.last_keys, None);
}
