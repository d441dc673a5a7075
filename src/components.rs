use vstd::prelude::*;

use crate::geometry::Vec2;

verus! {

/// Velocity of an entity, in milli-units per second on each axis.
#[derive(Clone, Copy, Debug, PartialEq, Eq)]
pub struct Velocity(pub Vec2);

impl Velocity {
    /// The velocity of an entity at rest.
    pub fn zero() -> (r: Velocity)
        ensures
            r.0.x == 0,
            r.0.y == 0,
    {
        Velocity(Vec2 { x: 0, y: 0 })
    }
}

/// Position of an entity's centre, in nano-units.
#[derive(Clone, Copy, Debug, PartialEq, Eq)]
pub struct Transform {
    pub translation: Vec2,
}

/// Tag of the ball.
#[derive(Clone, Copy, Debug, PartialEq, Eq)]
pub struct BallMarker;

/// Tag of the paddle.
#[derive(Clone, Copy, Debug, PartialEq, Eq)]
pub struct PaddleMarker;

/// The role of an entity in the scene.
#[derive(Clone, Copy, Debug, PartialEq, Eq, Structural)]
pub enum Role {
    Ball,
    Paddle,
    Other,
}

/// One entity of the scene with the components it carries. `size` is the
/// bounding box, centred on the transform, in nano-units.
#[derive(Clone, Copy, Debug, PartialEq, Eq)]
pub struct Entity {
    pub role: Role,
    pub transform: Transform,
    pub size: Option<Vec2>,
    pub velocity: Option<Velocity>,
}

/// The components a ball is spawned with.
#[derive(Clone, Copy, Debug, PartialEq, Eq)]
pub struct Ball {
    pub marker: BallMarker,
    pub transform: Transform,
    pub size: Vec2,
    pub velocity: Velocity,
}

/// The components a paddle is spawned with.
#[derive(Clone, Copy, Debug, PartialEq, Eq)]
pub struct Paddle {
    pub marker: PaddleMarker,
    pub transform: Transform,
    pub size: Vec2,
    pub velocity: Velocity,
}

impl Ball {
    pub fn into_entity(self) -> (r: Entity)
        ensures
            r == (Entity {
                role: Role::Ball,
                transform: self.transform,
                size: Some(self.size),
                velocity: Some(self.velocity),
            }),
    {
        Entity {
            role: Role::Ball,
            transform: self.transform,
            size: Some(self.size),
            velocity: Some(self.velocity),
        }
    }
}

impl Paddle {
    pub fn into_entity(self) -> (r: Entity)
        ensures
            r == (Entity {
                role: Role::Paddle,
                transform: self.transform,
                size: Some(self.size),
                velocity: Some(self.velocity),
            }),
    {
        Entity {
            role: Role::Paddle,
            transform: self.transform,
            size: Some(self.size),
            velocity: Some(self.velocity),
        }
    }
}

/// Which of the four movement keys are held (W, A, S, D).
#[derive(Clone, Copy, Debug, PartialEq, Eq, Structural)]
pub struct Keys {
    pub up: bool,
    pub left: bool,
    pub down: bool,
    pub right: bool,
}

} // verus!
