use vstd::prelude::*;

use crate::components::{Entity, Keys};
use crate::geometry::Collision;
use crate::world::{
    boost, hit, input_entities, is_paddle, lemma_floor_div, paddle_count, reflected, steered,
    MOMENTUM_DENOMINATOR, MOMENTUM_NUMERATOR,
};

verus! {

// ----- input control -----

proof fn lemma_steered_keeps_paddle_count(es: Seq<Entity>, keys: Keys)
    ensures
        paddle_count(es.map_values(|e: Entity| steered(e, keys))) == paddle_count(es),
    decreases es.len(),
{
    let f = |e: Entity| steered(e, keys);
    let m = es.map_values(f);
    if es.len() > 0 {
        assert(m.drop_last() =~= es.drop_last().map_values(f));
        lemma_steered_keeps_paddle_count(es.drop_last(), keys);
        assert(is_paddle(m.last()) == is_paddle(es.last()));
    }
}

/// Input control with unchanged keys changes nothing: after a frame that applied
/// `keys` to a scene with one paddle, the scene still has one paddle, and a next
/// frame with the same keys leaves every entity exactly as the first one left it.
pub proof fn law_unchanged_keys_change_nothing(es: Seq<Entity>, last: Option<Keys>, keys: Keys)
    requires
        paddle_count(es) == 1,
    ensures
        paddle_count(input_entities(es, last, keys)) == 1,
        input_entities(input_entities(es, last, keys), Some(keys), keys) == input_entities(
            es,
            last,
            keys,
        ),
{
    if last != Some(keys) {
        lemma_steered_keeps_paddle_count(es, keys);
    }
}

// ----- collisions -----

/// The ball's velocity after striking, in order, the faces `faces` of a paddle
/// that keeps the velocity `p`.
pub open spec fn rally(v: (int, int), p: (int, int), faces: Seq<Collision>) -> (int, int)
    decreases faces.len(),
{
    if faces.len() == 0 {
        v
    } else {
        hit(rally(v, p, faces.drop_last()), p, faces.last())
    }
}

/// The square of the length of a velocity.
pub open spec fn speed_sq(v: (int, int)) -> int {
    v.0 * v.0 + v.1 * v.1
}

/// After reflection off `face`, the ball's velocity does not run against the
/// paddle's motion: their dot product is not negative.
pub open spec fn pushed_along(v: (int, int), p: (int, int), face: Collision) -> bool {
    let r = reflected(v, face);
    r.0 * p.0 + r.1 * p.1 >= 0
}

/// The rounded momentum term never works against the reflected velocity `r`:
/// `r * boost(p, r)` is at least `r * 1.01 * p`.
proof fn lemma_boost_toward(p: int, r: int)
    ensures
        MOMENTUM_DENOMINATOR * (r * boost(p, r)) >= MOMENTUM_NUMERATOR * (r * p),
{
    let s = p * MOMENTUM_NUMERATOR;
    let b = boost(p, r);
    if r >= 0 {
        lemma_floor_div(-s, MOMENTUM_DENOMINATOR as int);
        assert(100 * b >= s);
        assert(r * (100 * b) >= r * s) by (nonlinear_arith)
            requires
                r >= 0,
                100 * b >= s,
        ;
    } else {
        lemma_floor_div(s, MOMENTUM_DENOMINATOR as int);
        assert(100 * b <= s);
        assert(r * (100 * b) >= r * s) by (nonlinear_arith)
            requires
                r < 0,
                100 * b <= s,
        ;
    }
    assert(r * (100 * b) == 100 * (r * b) && r * s == 101 * (r * p)) by (nonlinear_arith)
        requires
            s == p * 101,
    ;
}

/// A hit is a reflection, which only flips the sign of one component and so
/// keeps the ball's speed, plus the momentum term, which is `1.01` times the
/// paddle's velocity to within one step of rounding on each axis.
pub proof fn law_hit_is_reflection_plus_momentum(v: (int, int), p: (int, int), face: Collision)
    ensures
        speed_sq(reflected(v, face)) == speed_sq(v),
        hit(v, p, face).0 == reflected(v, face).0 + boost(p.0, reflected(v, face).0),
        hit(v, p, face).1 == reflected(v, face).1 + boost(p.1, reflected(v, face).1),
        forall|r: int|
            MOMENTUM_NUMERATOR * p.0 - MOMENTUM_DENOMINATOR < #[trigger] (MOMENTUM_DENOMINATOR
                * boost(p.0, r)) < MOMENTUM_NUMERATOR * p.0 + MOMENTUM_DENOMINATOR,
        forall|r: int|
            MOMENTUM_NUMERATOR * p.1 - MOMENTUM_DENOMINATOR < #[trigger] (MOMENTUM_DENOMINATOR
                * boost(p.1, r)) < MOMENTUM_NUMERATOR * p.1 + MOMENTUM_DENOMINATOR,
{
    let r = reflected(v, face);
    assert(speed_sq(r) == speed_sq(v)) by (nonlinear_arith)
        requires
            (r.0 == v.0 || r.0 == -v.0),
            (r.1 == v.1 || r.1 == -v.1),
    ;
    lemma_floor_div(p.0 * 101, 100);
    lemma_floor_div(-(p.0 * 101), 100);
    lemma_floor_div(p.1 * 101, 100);
    lemma_floor_div(-(p.1 * 101), 100);
}

proof fn lemma_hit_speed(v: (int, int), p: (int, int), face: Collision)
    requires
        pushed_along(v, p, face),
    ensures
        speed_sq(v) <= speed_sq(hit(v, p, face)),
{
    let r = reflected(v, face);
    law_hit_is_reflection_plus_momentum(v, p, face);
    let b0 = boost(p.0, r.0);
    let b1 = boost(p.1, r.1);
    lemma_boost_toward(p.0, r.0);
    lemma_boost_toward(p.1, r.1);
    let x = r.0 * b0;
    let y = r.1 * b1;
    assert(100 * (x + y) >= 101 * (r.0 * p.0 + r.1 * p.1));
    assert(x + y >= 0);
    assert((r.0 + b0) * (r.0 + b0) + (r.1 + b1) * (r.1 + b1) >= r.0 * r.0 + r.1 * r.1)
        by (nonlinear_arith)
        requires
            x == r.0 * b0,
            y == r.1 * b1,
            x + y >= 0,
    ;
}

proof fn lemma_rally_chain(v: (int, int), p: (int, int), faces: Seq<Collision>, i: int, j: int)
    requires
        0 <= i <= j <= faces.len(),
        forall|k: int|
            0 <= k < faces.len() ==> #[trigger] pushed_along(rally(v, p, faces.take(k)), p, faces[k]),
    ensures
        speed_sq(rally(v, p, faces.take(i))) <= speed_sq(rally(v, p, faces.take(j))),
    decreases j - i,
{
    if i < j {
        lemma_rally_chain(v, p, faces, i, j - 1);
        let prev = faces.take(j - 1);
        assert(faces.take(j).drop_last() =~= prev);
        assert(faces.take(j).last() == faces[j - 1]);
        assert(pushed_along(rally(v, p, prev), p, faces[j - 1]));
        lemma_hit_speed(rally(v, p, prev), p, faces[j - 1]);
    }
}

/// A paddle moving at a constant velocity only adds speed: along a rally of
/// hits in which the reflected ball's velocity never has a negative dot product
/// with the paddle's velocity, the ball's speed never decreases.
pub proof fn law_rally_speed_non_decreasing(v: (int, int), p: (int, int), faces: Seq<Collision>)
    requires
        forall|k: int|
            0 <= k < faces.len() ==> #[trigger] pushed_along(rally(v, p, faces.take(k)), p, faces[k]),
    ensures
        forall|i: int, j: int|
            0 <= i <= j <= faces.len() ==> speed_sq(#[trigger] rally(v, p, faces.take(i)))
                <= speed_sq(#[trigger] rally(v, p, faces.take(j))),
{
    assert forall|i: int, j: int| 0 <= i <= j <= faces.len() implies speed_sq(
        rally(v, p, faces.take(i)),
    ) <= speed_sq(rally(v, p, faces.take(j))) by {
        lemma_rally_chain(v, p, faces, i, j);
    }
}

} // verus!
