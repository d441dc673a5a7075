use vstd::prelude::*;

verus! {

/// A 2D integer vector. Lengths are in nano-units of the arena and
/// velocities in milli-units per second (see the constants in `world`).
#[derive(Clone, Copy, Debug, PartialEq, Eq)]
pub struct Vec2 {
    pub x: i64,
    pub y: i64,
}

impl Vec2 {
    pub fn new(x: i64, y: i64) -> (r: Vec2)
        ensures
            r.x == x,
            r.y == y,
    {
        Vec2 { x, y }
    }
}

/// The face of the paddle that the ball struck.
#[derive(Clone, Copy, Debug, PartialEq, Eq)]
pub enum Collision {
    Top,
    Bottom,
    Left,
    Right,
}

/// Overlap of the intervals `[2*c1 - w1, 2*c1 + w1]` and `[2*c2 - w2, 2*c2 + w2]`,
/// that is twice the overlap of the two centred intervals of widths `w1` and `w2`.
/// Positive exactly when the open intervals intersect.
pub open spec fn overlap2(c1: int, w1: int, c2: int, w2: int) -> int {
    let lo = if 2 * c1 - w1 >= 2 * c2 - w2 { 2 * c1 - w1 } else { 2 * c2 - w2 };
    let hi = if 2 * c1 + w1 <= 2 * c2 + w2 { 2 * c1 + w1 } else { 2 * c2 + w2 };
    hi - lo
}

/// The intervals `[2*c1 - w1, 2*c1 + w1]` and `[2*c2 - w2, 2*c2 + w2]` overlap
/// in part: each has exactly one end strictly inside the other.
pub open spec fn straddles(c1: int, w1: int, c2: int, w2: int) -> bool {
    let lo1 = 2 * c1 - w1;
    let hi1 = 2 * c1 + w1;
    let lo2 = 2 * c2 - w2;
    let hi2 = 2 * c2 + w2;
    (lo2 < lo1 && lo1 < hi2 && hi2 < hi1) || (lo1 < lo2 && lo2 < hi1 && hi1 < hi2)
}

/// Which face of the paddle (centre `p`, size `ps`) a ball (centre `b`, size `bs`)
/// strikes, if the two rectangles overlap. Where the extents straddle on one
/// axis only, that axis is struck. Where they straddle on both (a corner hit),
/// or on neither (one box spans the other), the struck axis is the one with the
/// smaller overlap depth, horizontal on a tie. The side is the one the ball's
/// centre lies on (`Top` and `Right` when the centres are level).
pub open spec fn collide_spec(p: Vec2, ps: Vec2, b: Vec2, bs: Vec2) -> Option<Collision> {
    let ox = overlap2(p.x as int, ps.x as int, b.x as int, bs.x as int);
    let oy = overlap2(p.y as int, ps.y as int, b.y as int, bs.y as int);
    let sx = straddles(p.x as int, ps.x as int, b.x as int, bs.x as int);
    let sy = straddles(p.y as int, ps.y as int, b.y as int, bs.y as int);
    let vertical = if sx == sy {
        oy < ox
    } else {
        sy
    };
    if ox <= 0 || oy <= 0 {
        None
    } else if vertical {
        if b.y >= p.y { Some(Collision::Top) } else { Some(Collision::Bottom) }
    } else {
        if b.x >= p.x { Some(Collision::Right) } else { Some(Collision::Left) }
    }
}

fn straddles_exec(c1: i64, w1: i64, c2: i64, w2: i64) -> (r: bool)
    ensures
        r == straddles(c1 as int, w1 as int, c2 as int, w2 as int),
{
    let lo1 = 2 * (c1 as i128) - (w1 as i128);
    let hi1 = 2 * (c1 as i128) + (w1 as i128);
    let lo2 = 2 * (c2 as i128) - (w2 as i128);
    let hi2 = 2 * (c2 as i128) + (w2 as i128);
    (lo2 < lo1 && lo1 < hi2 && hi2 < hi1) || (lo1 < lo2 && lo2 < hi1 && hi1 < hi2)
}

fn overlap2_exec(c1: i64, w1: i64, c2: i64, w2: i64) -> (r: i128)
    ensures
        r == overlap2(c1 as int, w1 as int, c2 as int, w2 as int),
{
    let lo1 = 2 * (c1 as i128) - (w1 as i128);
    let lo2 = 2 * (c2 as i128) - (w2 as i128);
    let hi1 = 2 * (c1 as i128) + (w1 as i128);
    let hi2 = 2 * (c2 as i128) + (w2 as i128);
    let lo = if lo1 >= lo2 { lo1 } else { lo2 };
    let hi = if hi1 <= hi2 { hi1 } else { hi2 };
    hi - lo
}

/// Axis-aligned bounding-box test between a paddle and a ball, each given by
/// its centre and its size; returns the face of the paddle that was struck
/// (see `collide_spec` for how the face is chosen).
pub fn collide(paddle_pos: Vec2, paddle_size: Vec2, ball_pos: Vec2, ball_size: Vec2) -> (r: Option<
    Collision,
>)
    ensures
        r == collide_spec(paddle_pos, paddle_size, ball_pos, ball_size),
{
    let ox = overlap2_exec(paddle_pos.x, paddle_size.x, ball_pos.x, ball_size.x);
    let oy = overlap2_exec(paddle_pos.y, paddle_size.y, ball_pos.y, ball_size.y);
    let sx = straddles_exec(paddle_pos.x, paddle_size.x, ball_pos.x, ball_size.x);
    let sy = straddles_exec(paddle_pos.y, paddle_size.y, ball_pos.y, ball_size.y);
    let vertical = if sx == sy {
        oy < ox
    } else {
        sy
    };
    if ox <= 0 || oy <= 0 {
        None
    } else if vertical {
        if ball_pos.y >= paddle_pos.y {
            Some(Collision::Top)
        } else {
            Some(Collision::Bottom)
        }
    } else {
        if ball_pos.x >= paddle_pos.x {
            Some(Collision::Right)
        } else {
            Some(Collision::Left)
        }
    }
}

} // verus!
