use vstd::prelude::*;

use crate::components::{Ball, BallMarker, Entity, Keys, Paddle, PaddleMarker, Role, Transform, Velocity};
use crate::geometry::{collide, collide_spec, Collision, Vec2};
use vstd::arithmetic::div_mod::{lemma_fundamental_div_mod, lemma_mod_bound};

verus! {

/// Nano-units in one world unit: positions and sizes are counted in nano-units.
pub const NANOS_PER_UNIT: i64 = 1_000_000_000;

/// Milli-units in one world unit: velocities are counted in milli-units per second.
/// A velocity in milli-units per second times a time in microseconds is a
/// distance in nano-units.
pub const MILLIS_PER_UNIT: i64 = 1_000;

/// Width of the arena, centred on the origin.
pub const WIDTH: i64 = 800 * NANOS_PER_UNIT;

/// Height of the arena, centred on the origin.
pub const HEIGHT: i64 = 800 * NANOS_PER_UNIT;

/// Speed of the paddle on each axis while a key is held.
pub const SPEED: i64 = 200 * MILLIS_PER_UNIT;

/// Numerator of the momentum multiplier `1.01` by which a paddle's velocity
/// is added to a ball that strikes it.
pub const MOMENTUM_NUMERATOR: i64 = 101;

/// Denominator of the momentum multiplier.
pub const MOMENTUM_DENOMINATOR: i64 = 100;

/// Size of the ball at startup.
pub const BALL_WIDTH: i64 = 40 * NANOS_PER_UNIT;

pub const BALL_HEIGHT: i64 = 40 * NANOS_PER_UNIT;

/// Position of the ball at startup.
pub const BALL_START_X: i64 = 0;

pub const BALL_START_Y: i64 = 0;

/// Horizontal velocity of the ball at startup (30 units per second).
pub const BALL_START_SPEED: i64 = 30 * MILLIS_PER_UNIT;

/// Size of the paddle.
pub const PADDLE_WIDTH: i64 = 80 * NANOS_PER_UNIT;

pub const PADDLE_HEIGHT: i64 = 20 * NANOS_PER_UNIT;

/// Position of the paddle at startup.
pub const PADDLE_START_X: i64 = 100 * NANOS_PER_UNIT;

pub const PADDLE_START_Y: i64 = 100 * NANOS_PER_UNIT;

/// A fatal configuration or topology error of the scene.
#[derive(Clone, Copy, Debug, PartialEq, Eq, Structural)]
pub enum SceneError {
    /// A ball or paddle that takes part in collisions has no bounding box.
    MissingBoundingBox,
    /// Input control found no paddle.
    NoPaddle,
    /// Input control found more than one paddle.
    ManyPaddles,
    /// A resolved velocity does not fit in the integer range.
    VelocityOverflow,
}

/// The component store: every entity of the scene, and the key state that
/// input control saw last.
pub struct World {
    pub entities: Vec<Entity>,
    pub last_keys: Option<Keys>,
}

pub open spec fn in_i64(v: int) -> bool {
    i64::MIN <= v <= i64::MAX
}

// ----- kinematics -----

/// Where an entity stands after `dt` microseconds at its velocity.
pub open spec fn advanced(e: Entity, dt: int) -> Entity {
    match e.velocity {
        Some(v) => Entity {
            role: e.role,
            transform: Transform {
                translation: Vec2 {
                    x: (e.transform.translation.x + v.0.x * dt) as i64,
                    y: (e.transform.translation.y + v.0.y * dt) as i64,
                },
            },
            size: e.size,
            velocity: e.velocity,
        },
        None => e,
    }
}

/// The new position of a moving entity fits the integer range.
pub open spec fn advance_fits(e: Entity, dt: int) -> bool {
    match e.velocity {
        Some(v) => in_i64(e.transform.translation.x + v.0.x * dt) && in_i64(
            e.transform.translation.y + v.0.y * dt,
        ),
        None => true,
    }
}

proof fn lemma_step_bound(v: i64, dt: u32)
    ensures
        -0x1_0000_0000_0000_0000_0000_0000 <= v * dt <= 0x1_0000_0000_0000_0000_0000_0000,
{
    assert(-0x8000_0000_0000_0000 <= v <= 0x8000_0000_0000_0000);
    assert(0 <= dt <= 0x1_0000_0000);
    assert(-0x8000_0000_0000_0000 * 0x1_0000_0000 <= v * dt <= 0x8000_0000_0000_0000
        * 0x1_0000_0000) by (nonlinear_arith)
        requires
            -0x8000_0000_0000_0000 <= v <= 0x8000_0000_0000_0000,
            0 <= dt <= 0x1_0000_0000,
    ;
}

fn step_coordinate(c: i64, v: i64, dt: u32) -> (r: Option<i64>)
    ensures
        r is Some <==> in_i64(c + v * dt),
        r matches Some(n) ==> n == c + v * dt,
{
    proof {
        lemma_step_bound(v, dt);
    }
    let n: i128 = c as i128 + (v as i128) * (dt as i128);
    if n < i64::MIN as i128 || n > i64::MAX as i128 {
        None
    } else {
        Some(n as i64)
    }
}

fn advance_entity(e: Entity, dt: u32) -> (r: Option<Entity>)
    ensures
        r is Some <==> advance_fits(e, dt as int),
        r matches Some(n) ==> n == advanced(e, dt as int),
{
    match e.velocity {
        Some(v) => {
            let t = e.transform.translation;
            match (step_coordinate(t.x, v.0.x, dt), step_coordinate(t.y, v.0.y, dt)) {
                (Some(x), Some(y)) => Some(
                    Entity {
                        role: e.role,
                        transform: Transform { translation: Vec2 { x, y } },
                        size: e.size,
                        velocity: e.velocity,
                    },
                ),
                _ => None,
            }
        },
        None => Some(e),
    }
}

/// Whether `kinematics` can advance every entity by `elapsed_micros` without
/// leaving the integer range.
pub fn can_advance(world: &World, elapsed_micros: u32) -> (r: bool)
    ensures
        r == forall|i: int|
            0 <= i < world.entities@.len() ==> #[trigger] advance_fits(
                world.entities@[i],
                elapsed_micros as int,
            ),
{
    let mut i: usize = 0;
    while i < world.entities.len()
        invariant
            0 <= i <= world.entities@.len(),
            forall|k: int| 0 <= k < i ==> #[trigger] advance_fits(world.entities@[k], elapsed_micros as int),
        decreases world.entities@.len() - i,
    {
        if advance_entity(world.entities[i], elapsed_micros).is_none() {
            return false;
        }
        i += 1;
    }
    true
}

/// Moves every entity that has a velocity by its velocity times the elapsed
/// time (microseconds); entities without a velocity stay where they are.
pub fn kinematics(world: &mut World, elapsed_micros: u32)
    requires
        forall|i: int|
            0 <= i < old(world).entities@.len() ==> #[trigger] advance_fits(
                old(world).entities@[i],
                elapsed_micros as int,
            ),
    ensures
        final(world).entities@.len() == old(world).entities@.len(),
        forall|i: int|
            0 <= i < old(world).entities@.len() ==> #[trigger] final(world).entities@[i]
                == advanced(old(world).entities@[i], elapsed_micros as int),
        final(world).last_keys == old(world).last_keys,
{
    let ghost start = world.entities@;
    let mut i: usize = 0;
    while i < world.entities.len()
        invariant
            world.entities@.len() == start.len(),
            0 <= i <= start.len(),
            forall|k: int| 0 <= k < start.len() ==> #[trigger] advance_fits(start[k], elapsed_micros as int),
            forall|k: int|
                0 <= k < i ==> #[trigger] world.entities@[k] == advanced(start[k], elapsed_micros as int),
            forall|k: int| i <= k < start.len() ==> #[trigger] world.entities@[k] == start[k],
            world.last_keys == old(world).last_keys,
        decreases start.len() - i,
    {
        let e = world.entities[i];
        assert(advance_fits(start[i as int], elapsed_micros as int));
        match advance_entity(e, elapsed_micros) {
            Some(n) => {
                world.entities.set(i, n);
            },
            None => {},
        }
        i += 1;
    }
}

// ----- wall bounce -----

/// The coordinate lies outside `[-extent / 2, extent / 2]`.
pub open spec fn outside(c: int, extent: int) -> bool {
    c > extent / 2 || c < -(extent / 2)
}

/// The velocity after a wall bounce at position `p`. Leaving the arena
/// horizontally multiplies the velocity by `(-1, 0)`, vertically by `(0, -1)`,
/// in that order: the other axis is zeroed, and both at once give zero.
pub open spec fn bounced(p: Vec2, v: Vec2) -> Vec2 {
    let v1 = if outside(p.x as int, WIDTH as int) {
        Vec2 { x: (-v.x) as i64, y: 0 }
    } else {
        v
    };
    if outside(p.y as int, HEIGHT as int) {
        Vec2 { x: 0, y: (-v1.y) as i64 }
    } else {
        v1
    }
}

/// The negations that `bounced` makes fit the integer range.
pub open spec fn bounce_fits(e: Entity) -> bool {
    match e.velocity {
        Some(v) => {
            let p = e.transform.translation;
            (outside(p.x as int, WIDTH as int) ==> v.0.x != i64::MIN) && ((outside(
                p.y as int,
                HEIGHT as int,
            ) && !outside(p.x as int, WIDTH as int)) ==> v.0.y != i64::MIN)
        },
        None => true,
    }
}

pub open spec fn wall_bounced(e: Entity) -> Entity {
    match e.velocity {
        Some(v) => Entity {
            role: e.role,
            transform: e.transform,
            size: e.size,
            velocity: Some(Velocity(bounced(e.transform.translation, v.0))),
        },
        None => e,
    }
}

fn bounce_entity(e: Entity) -> (r: Option<Entity>)
    ensures
        r is Some <==> bounce_fits(e),
        r matches Some(n) ==> n == wall_bounced(e),
{
    match e.velocity {
        Some(v) => {
            let p = e.transform.translation;
            let mut nv = v.0;
            if p.x > WIDTH / 2 || p.x < -(WIDTH / 2) {
                if nv.x == i64::MIN {
                    return None;
                }
                nv = Vec2 { x: -nv.x, y: 0 };
            }
            if p.y > HEIGHT / 2 || p.y < -(HEIGHT / 2) {
                if nv.y == i64::MIN {
                    return None;
                }
                nv = Vec2 { x: 0, y: -nv.y };
            }
            Some(
                Entity {
                    role: e.role,
                    transform: e.transform,
                    size: e.size,
                    velocity: Some(Velocity(nv)),
                },
            )
        },
        None => Some(e),
    }
}

/// Whether `wall_bounce` can negate every velocity it has to.
pub fn can_bounce(world: &World) -> (r: bool)
    ensures
        r == forall|i: int|
            0 <= i < world.entities@.len() ==> #[trigger] bounce_fits(world.entities@[i]),
{
    let mut i: usize = 0;
    while i < world.entities.len()
        invariant
            0 <= i <= world.entities@.len(),
            forall|k: int| 0 <= k < i ==> #[trigger] bounce_fits(world.entities@[k]),
        decreases world.entities@.len() - i,
    {
        if bounce_entity(world.entities[i]).is_none() {
            return false;
        }
        i += 1;
    }
    true
}

/// Reflects the velocity of every moving entity that stands outside the arena.
/// Positions are not corrected.
pub fn wall_bounce(world: &mut World)
    requires
        forall|i: int|
            0 <= i < old(world).entities@.len() ==> #[trigger] bounce_fits(old(world).entities@[i]),
    ensures
        final(world).entities@.len() == old(world).entities@.len(),
        forall|i: int|
            0 <= i < old(world).entities@.len() ==> #[trigger] final(world).entities@[i]
                == wall_bounced(old(world).entities@[i]),
        final(world).last_keys == old(world).last_keys,
{
    let ghost start = world.entities@;
    let mut i: usize = 0;
    while i < world.entities.len()
        invariant
            world.entities@.len() == start.len(),
            0 <= i <= start.len(),
            forall|k: int| 0 <= k < start.len() ==> #[trigger] bounce_fits(start[k]),
            forall|k: int| 0 <= k < i ==> #[trigger] world.entities@[k] == wall_bounced(start[k]),
            forall|k: int| i <= k < start.len() ==> #[trigger] world.entities@[k] == start[k],
            world.last_keys == old(world).last_keys,
        decreases start.len() - i,
    {
        let e = world.entities[i];
        assert(bounce_fits(start[i as int]));
        match bounce_entity(e) {
            Some(n) => {
                world.entities.set(i, n);
            },
            None => {},
        }
        i += 1;
    }
}

// ----- collision -----

/// The ball's velocity with the struck axis negated.
pub open spec fn reflected(v: (int, int), face: Collision) -> (int, int) {
    match face {
        Collision::Top | Collision::Bottom => (v.0, -v.1),
        Collision::Left | Collision::Right => (-v.0, v.1),
    }
}

/// The momentum term `1.01 * p` on one axis, rounded toward the sign of the
/// ball's reflected velocity `r` on that axis (up where `r >= 0`, down where
/// `r < 0`), so that rounding never works against the ball's motion.
pub open spec fn boost(p: int, r: int) -> int {
    let s = p * MOMENTUM_NUMERATOR;
    if r >= 0 {
        -((-s) / (MOMENTUM_DENOMINATOR as int))
    } else {
        s / (MOMENTUM_DENOMINATOR as int)
    }
}

/// The ball's velocity after striking `face` of a paddle moving at `p`:
/// reflected, then pushed by `1.01` times the paddle's velocity.
pub open spec fn hit(v: (int, int), p: (int, int), face: Collision) -> (int, int) {
    let r = reflected(v, face);
    (r.0 + boost(p.0, r.0), r.1 + boost(p.1, r.1))
}

/// A ball or a paddle with a velocity: what collision resolution looks at.
pub open spec fn participates(e: Entity) -> bool {
    (e.role == Role::Ball || e.role == Role::Paddle) && e.velocity is Some
}

/// Every participant of collision resolution has a bounding box.
pub open spec fn boxes_present(es: Seq<Entity>) -> bool {
    forall|i: int| 0 <= i < es.len() && #[trigger] participates(es[i]) ==> es[i].size is Some
}

/// The face of paddle `es[k]` that `ball` strikes, if `es[k]` is a paddle.
pub open spec fn struck(es: Seq<Entity>, k: int, ball: Entity) -> Option<Collision> {
    let p = es[k];
    if p.role == Role::Paddle && p.velocity is Some && p.size is Some && ball.size is Some {
        collide_spec(p.transform.translation, p.size->Some_0, ball.transform.translation, ball.size->Some_0)
    } else {
        None
    }
}

pub open spec fn velocity_of(e: Entity) -> (int, int) {
    match e.velocity {
        Some(v) => (v.0.x as int, v.0.y as int),
        None => (0, 0),
    }
}

/// The ball's velocity once the first `k` entities, in order, have been
/// tested against it as paddles.
pub open spec fn velocity_after(es: Seq<Entity>, k: int, ball: Entity) -> (int, int)
    decreases k,
{
    if k <= 0 {
        velocity_of(ball)
    } else {
        let v = velocity_after(es, k - 1, ball);
        match struck(es, k - 1, ball) {
            Some(face) => hit(v, velocity_of(es[k - 1]), face),
            None => v,
        }
    }
}

/// Every velocity the ball takes on along the way fits the integer range.
pub open spec fn ball_fits(es: Seq<Entity>, ball: Entity) -> bool {
    forall|k: int|
        0 <= k <= es.len() ==> in_i64(#[trigger] velocity_after(es, k, ball).0) && in_i64(
            velocity_after(es, k, ball).1,
        )
}

/// Every ball's resolution fits the integer range.
pub open spec fn collision_fits(es: Seq<Entity>) -> bool {
    forall|j: int|
        0 <= j < es.len() && es[j].role == Role::Ball && es[j].velocity is Some ==> ball_fits(
            es,
            #[trigger] es[j],
        )
}

/// An entity after collision resolution against all paddles of `es`.
pub open spec fn collided(es: Seq<Entity>, e: Entity) -> Entity {
    if e.role == Role::Ball && e.velocity is Some {
        let v = velocity_after(es, es.len() as int, e);
        Entity {
            role: e.role,
            transform: e.transform,
            size: e.size,
            velocity: Some(Velocity(Vec2 { x: v.0 as i64, y: v.1 as i64 })),
        }
    } else {
        e
    }
}

/// Floor division: `x / d` lies within one step of `x`.
pub proof fn lemma_floor_div(x: int, d: int)
    requires
        d > 0,
    ensures
        x - d < d * (x / d) <= x,
{
    lemma_fundamental_div_mod(x, d);
    lemma_mod_bound(x, d);
}

fn floor_div_exec(x: i128) -> (q: i128)
    requires
        -0x1_0000_0000_0000_0000_0000 <= x <= 0x1_0000_0000_0000_0000_0000,
    ensures
        q == (x as int) / (MOMENTUM_DENOMINATOR as int),
        -0x1_0000_0000_0000_0000_0000 <= q <= 0x1_0000_0000_0000_0000_0000,
{
    proof {
        lemma_floor_div(x as int, MOMENTUM_DENOMINATOR as int);
    }
    match x.checked_div_euclid(MOMENTUM_DENOMINATOR as i128) {
        Some(q) => q,
        None => 0,
    }
}

fn boost_exec(p: i64, r: i128) -> (b: i128)
    ensures
        b == boost(p as int, r as int),
        -0x1_0000_0000_0000_0000_0000 <= b <= 0x1_0000_0000_0000_0000_0000,
{
    assert(-0x100_0000_0000_0000_0000 <= (p as int) * (MOMENTUM_NUMERATOR as int)
        <= 0x100_0000_0000_0000_0000) by (nonlinear_arith)
        requires
            i64::MIN <= p <= i64::MAX,
            MOMENTUM_NUMERATOR == 101,
    ;
    let s: i128 = (p as i128) * (MOMENTUM_NUMERATOR as i128);
    if r >= 0 {
        -floor_div_exec(-s)
    } else {
        floor_div_exec(s)
    }
}

fn hit_exec(v: Vec2, p: Vec2, face: Collision) -> (r: Option<Vec2>)
    ensures
        r is Some <==> in_i64(hit((v.x as int, v.y as int), (p.x as int, p.y as int), face).0)
            && in_i64(hit((v.x as int, v.y as int), (p.x as int, p.y as int), face).1),
        r matches Some(n) ==> (n.x as int, n.y as int) == hit(
            (v.x as int, v.y as int),
            (p.x as int, p.y as int),
            face,
        ),
{
    let (rx, ry): (i128, i128) = match face {
        Collision::Top | Collision::Bottom => (v.x as i128, -(v.y as i128)),
        Collision::Left | Collision::Right => (-(v.x as i128), v.y as i128),
    };
    let nx = rx + boost_exec(p.x, rx);
    let ny = ry + boost_exec(p.y, ry);
    if nx < i64::MIN as i128 || nx > i64::MAX as i128 || ny < i64::MIN as i128 || ny
        > i64::MAX as i128 {
        None
    } else {
        Some(Vec2 { x: nx as i64, y: ny as i64 })
    }
}

/// The ball's velocity after resolution against every paddle of `es`, or
/// `None` where a step leaves the integer range.
fn resolve_ball(es: &Vec<Entity>, ball: Entity) -> (r: Option<Velocity>)
    requires
        ball.velocity is Some,
    ensures
        r is Some <==> ball_fits(es@, ball),
        r matches Some(v) ==> (v.0.x as int, v.0.y as int) == velocity_after(
            es@,
            es@.len() as int,
            ball,
        ),
{
    let mut v = match ball.velocity {
        Some(v) => v.0,
        None => Vec2 { x: 0, y: 0 },
    };
    let mut k: usize = 0;
    while k < es.len()
        invariant
            0 <= k <= es@.len(),
            ball.velocity is Some,
            (v.x as int, v.y as int) == velocity_after(es@, k as int, ball),
            forall|m: int|
                0 <= m <= k ==> in_i64(#[trigger] velocity_after(es@, m, ball).0) && in_i64(
                    velocity_after(es@, m, ball).1,
                ),
        decreases es@.len() - k,
    {
        let p = es[k];
        let face = match (p.role, p.velocity, p.size, ball.size) {
            (Role::Paddle, Some(_), Some(ps), Some(bs)) => collide(
                p.transform.translation,
                ps,
                ball.transform.translation,
                bs,
            ),
            _ => None,
        };
        assert(face == struck(es@, k as int, ball));
        match face {
            Some(f) => {
                let pv = match p.velocity {
                    Some(pv) => pv.0,
                    None => Vec2 { x: 0, y: 0 },
                };
                match hit_exec(v, pv, f) {
                    Some(n) => {
                        v = n;
                    },
                    None => {
                        assert(velocity_of(es@[k as int]) == (pv.x as int, pv.y as int));
                        assert(velocity_after(es@, k + 1, ball) == hit(
                            (v.x as int, v.y as int),
                            (pv.x as int, pv.y as int),
                            f,
                        ));
                        assert(!ball_fits(es@, ball)) by {
                            let m = k + 1;
                            assert(0 <= m <= es@.len());
                            assert(!(in_i64(velocity_after(es@, m, ball).0) && in_i64(
                                velocity_after(es@, m, ball).1,
                            )));
                        }
                        return None;
                    },
                }
            },
            None => {},
        }
        assert((v.x as int, v.y as int) == velocity_after(es@, k + 1, ball));
        assert(in_i64(velocity_after(es@, k + 1, ball).0));
        k += 1;
    }
    Some(Velocity(v))
}

/// Resolves every (paddle, ball) pair whose bounding boxes overlap: the ball's
/// velocity is reflected on the struck axis and pushed by `1.01` times the
/// paddle's velocity, paddle after paddle in the order of the store. Fails,
/// changing nothing, when a ball or a paddle lacks a bounding box, or when a
/// resolved velocity would leave the integer range.
pub fn collision(world: &mut World) -> (r: Result<(), SceneError>)
    ensures
        r == Err::<(), SceneError>(SceneError::MissingBoundingBox) <==> !boxes_present(
            old(world).entities@,
        ),
        r == Err::<(), SceneError>(SceneError::VelocityOverflow) <==> boxes_present(
            old(world).entities@,
        ) && !collision_fits(old(world).entities@),
        r is Ok <==> boxes_present(old(world).entities@) && collision_fits(old(world).entities@),
        r is Err ==> final(world).entities@ == old(world).entities@,
        r is Ok ==> final(world).entities@.len() == old(world).entities@.len(),
        r is Ok ==> forall|i: int|
            0 <= i < old(world).entities@.len() ==> #[trigger] final(world).entities@[i]
                == collided(old(world).entities@, old(world).entities@[i]),
        final(world).last_keys == old(world).last_keys,
{
    let n = world.entities.len();
    let mut i: usize = 0;
    while i < n
        invariant
            n == world.entities@.len(),
            0 <= i <= n,
            forall|k: int|
                0 <= k < i && #[trigger] participates(world.entities@[k]) ==> world.entities@[k].size is Some,
        decreases n - i,
    {
        let e = world.entities[i];
        let takes_part = match (e.role, e.velocity) {
            (Role::Ball, Some(_)) | (Role::Paddle, Some(_)) => true,
            _ => false,
        };
        if takes_part && e.size.is_none() {
            assert(participates(world.entities@[i as int]));
            return Err(SceneError::MissingBoundingBox);
        }
        i += 1;
    }
    let mut out: Vec<Entity> = Vec::new();
    let mut j: usize = 0;
    while j < n
        invariant
            n == world.entities@.len(),
            0 <= j <= n,
            out@.len() == j,
            boxes_present(world.entities@),
            forall|k: int|
                0 <= k < j ==> #[trigger] out@[k] == collided(world.entities@, world.entities@[k]),
            forall|k: int|
                0 <= k < j && world.entities@[k].role == Role::Ball
                    && world.entities@[k].velocity is Some ==> ball_fits(
                    world.entities@,
                    #[trigger] world.entities@[k],
                ),
        decreases n - j,
    {
        let e = world.entities[j];
        let is_ball = match (e.role, e.velocity) {
            (Role::Ball, Some(_)) => true,
            _ => false,
        };
        if is_ball {
            match resolve_ball(&world.entities, e) {
                Some(v) => {
                    out.push(
                        Entity {
                            role: e.role,
                            transform: e.transform,
                            size: e.size,
                            velocity: Some(v),
                        },
                    );
                },
                None => {
                    assert(!collision_fits(world.entities@));
                    return Err(SceneError::VelocityOverflow);
                },
            }
        } else {
            out.push(e);
        }
        j += 1;
    }
    assert(collision_fits(world.entities@));
    world.entities = out;
    Ok(())
}

// ----- input control -----

/// A paddle that input control steers.
pub open spec fn is_paddle(e: Entity) -> bool {
    e.role == Role::Paddle && e.velocity is Some
}

/// Number of paddles in `es`.
pub open spec fn paddle_count(es: Seq<Entity>) -> nat
    decreases es.len(),
{
    if es.len() == 0 {
        0
    } else {
        paddle_count(es.drop_last()) + if is_paddle(es.last()) {
            1nat
        } else {
            0nat
        }
    }
}

/// The paddle's velocity for the held keys: each held key adds `SPEED`
/// in its direction (W up, A left, S down, D right).
pub open spec fn held_velocity(keys: Keys) -> Vec2 {
    Vec2 {
        x: ((if keys.right {
            SPEED as int
        } else {
            0
        }) - (if keys.left {
            SPEED as int
        } else {
            0
        })) as i64,
        y: ((if keys.up {
            SPEED as int
        } else {
            0
        }) - (if keys.down {
            SPEED as int
        } else {
            0
        })) as i64,
    }
}

/// An entity once the keys have been applied to it.
pub open spec fn steered(e: Entity, keys: Keys) -> Entity {
    if is_paddle(e) {
        Entity {
            role: e.role,
            transform: e.transform,
            size: e.size,
            velocity: Some(Velocity(held_velocity(keys))),
        }
    } else {
        e
    }
}

/// The entities after input control, given the keys seen last: unchanged
/// keys leave everything as it is; changed keys set each paddle's velocity.
pub open spec fn input_entities(es: Seq<Entity>, last: Option<Keys>, keys: Keys) -> Seq<Entity> {
    if last == Some(keys) {
        es
    } else {
        es.map_values(|e: Entity| steered(e, keys))
    }
}

fn count_paddles(es: &Vec<Entity>) -> (r: usize)
    ensures
        r == paddle_count(es@),
{
    let mut count: usize = 0;
    let mut i: usize = 0;
    while i < es.len()
        invariant
            0 <= i <= es@.len(),
            count <= i,
            count == paddle_count(es@.take(i as int)),
        decreases es@.len() - i,
    {
        assert(es@.take(i + 1).drop_last() =~= es@.take(i as int));
        assert(es@.take(i + 1).last() == es@[i as int]);
        let e = es[i];
        match (e.role, e.velocity) {
            (Role::Paddle, Some(_)) => {
                count += 1;
            },
            _ => {},
        }
        i += 1;
    }
    assert(es@.take(i as int) =~= es@);
    count
}

fn held_velocity_exec(keys: Keys) -> (r: Vec2)
    ensures
        r == held_velocity(keys),
{
    let mut x: i64 = 0;
    let mut y: i64 = 0;
    if keys.up {
        y += SPEED;
    }
    if keys.left {
        x -= SPEED;
    }
    if keys.down {
        y -= SPEED;
    }
    if keys.right {
        x += SPEED;
    }
    Vec2 { x, y }
}

/// Sets the paddle's velocity from the held keys, but only when the keys
/// differ from those of the previous call. Fails, changing nothing, unless
/// the scene holds exactly one paddle.
pub fn keyboard_input(world: &mut World, keys: Keys) -> (r: Result<(), SceneError>)
    ensures
        r == Err::<(), SceneError>(SceneError::NoPaddle) <==> paddle_count(old(world).entities@)
            == 0,
        r == Err::<(), SceneError>(SceneError::ManyPaddles) <==> paddle_count(
            old(world).entities@,
        ) > 1,
        r is Ok <==> paddle_count(old(world).entities@) == 1,
        r is Err ==> final(world).entities@ == old(world).entities@ && final(world).last_keys
            == old(world).last_keys,
        r is Ok ==> final(world).entities@ == input_entities(
            old(world).entities@,
            old(world).last_keys,
            keys,
        ) && final(world).last_keys == Some(keys),
{
    let count = count_paddles(&world.entities);
    if count == 0 {
        return Err(SceneError::NoPaddle);
    }
    if count > 1 {
        return Err(SceneError::ManyPaddles);
    }
    let unchanged = match world.last_keys {
        Some(k) => k == keys,
        None => false,
    };
    if unchanged {
        return Ok(());
    }
    let v = held_velocity_exec(keys);
    let ghost start = world.entities@;
    let mut i: usize = 0;
    while i < world.entities.len()
        invariant
            world.entities@.len() == start.len(),
            0 <= i <= start.len(),
            v == held_velocity(keys),
            forall|k: int| 0 <= k < i ==> #[trigger] world.entities@[k] == steered(start[k], keys),
            forall|k: int| i <= k < start.len() ==> #[trigger] world.entities@[k] == start[k],
        decreases start.len() - i,
    {
        let e = world.entities[i];
        match (e.role, e.velocity) {
            (Role::Paddle, Some(_)) => {
                world.entities.set(
                    i,
                    Entity {
                        role: e.role,
                        transform: e.transform,
                        size: e.size,
                        velocity: Some(Velocity(v)),
                    },
                );
            },
            _ => {},
        }
        i += 1;
    }
    assert(world.entities@ =~= start.map_values(|e: Entity| steered(e, keys)));
    world.last_keys = Some(keys);
    Ok(())
}

// ----- the scene -----

impl World {
    /// An empty scene.
    pub fn new() -> (r: World)
        ensures
            r.entities@ == Seq::<Entity>::empty(),
            r.last_keys is None,
    {
        World { entities: Vec::new(), last_keys: None }
    }

    /// Adds an entity at the end of the store.
    pub fn spawn(&mut self, e: Entity)
        ensures
            final(self).entities@ == old(self).entities@.push(e),
            final(self).last_keys == old(self).last_keys,
    {
        self.entities.push(e);
    }

    /// Adds a ball.
    pub fn spawn_ball(&mut self, ball: Ball)
        ensures
            final(self).entities@ == old(self).entities@.push(
                Entity {
                    role: Role::Ball,
                    transform: ball.transform,
                    size: Some(ball.size),
                    velocity: Some(ball.velocity),
                },
            ),
            final(self).last_keys == old(self).last_keys,
    {
        let e = ball.into_entity();
        self.entities.push(e);
    }

    /// Adds a paddle.
    pub fn spawn_paddle(&mut self, paddle: Paddle)
        ensures
            final(self).entities@ == old(self).entities@.push(
                Entity {
                    role: Role::Paddle,
                    transform: paddle.transform,
                    size: Some(paddle.size),
                    velocity: Some(paddle.velocity),
                },
            ),
            final(self).last_keys == old(self).last_keys,
    {
        let e = paddle.into_entity();
        self.entities.push(e);
    }
}

/// The scene at startup: a camera at the origin, a 40 x 40 ball at the origin
/// moving right at 30 units per second, and a resting 80 x 20 paddle at
/// (100, 100).
pub open spec fn initial_entities() -> Seq<Entity> {
    seq![
        Entity {
            role: Role::Other,
            transform: Transform { translation: Vec2 { x: 0, y: 0 } },
            size: None,
            velocity: None,
        },
        Entity {
            role: Role::Ball,
            transform: Transform { translation: Vec2 { x: BALL_START_X, y: BALL_START_Y } },
            size: Some(Vec2 { x: BALL_WIDTH, y: BALL_HEIGHT }),
            velocity: Some(Velocity(Vec2 { x: BALL_START_SPEED, y: 0 })),
        },
        Entity {
            role: Role::Paddle,
            transform: Transform {
                translation: Vec2 { x: PADDLE_START_X, y: PADDLE_START_Y },
            },
            size: Some(Vec2 { x: PADDLE_WIDTH, y: PADDLE_HEIGHT }),
            velocity: Some(Velocity(Vec2 { x: 0, y: 0 })),
        },
    ]
}

/// Builds the scene at startup.
pub fn setup() -> (r: World)
    ensures
        r.entities@ == initial_entities(),
        paddle_count(r.entities@) == 1,
        r.last_keys is None,
{
    let mut world = World::new();
    world.spawn(
        Entity {
            role: Role::Other,
            transform: Transform { translation: Vec2 { x: 0, y: 0 } },
            size: None,
            velocity: None,
        },
    );
    world.spawn_ball(
        Ball {
            marker: BallMarker,
            transform: Transform { translation: Vec2 { x: BALL_START_X, y: BALL_START_Y } },
            size: Vec2 { x: BALL_WIDTH, y: BALL_HEIGHT },
            velocity: Velocity(Vec2 { x: BALL_START_SPEED, y: 0 }),
        },
    );
    world.spawn_paddle(
        Paddle {
            marker: PaddleMarker,
            transform: Transform {
                translation: Vec2 { x: PADDLE_START_X, y: PADDLE_START_Y },
            },
            size: Vec2 { x: PADDLE_WIDTH, y: PADDLE_HEIGHT },
            velocity: Velocity::zero(),
        },
    );
    assert(world.entities@ =~= initial_entities());
    proof {
        let es = world.entities@;
        assert(es.drop_last().drop_last().drop_last() =~= Seq::<Entity>::empty());
        reveal_with_fuel(paddle_count, 4);
    }
    world
}

} // verus!
