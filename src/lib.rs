pub mod components;
pub mod geometry;
pub mod laws;
pub mod world;

pub use components::{Ball, BallMarker, Entity, Keys, Paddle, PaddleMarker, Role, Transform, Velocity};
pub use geometry::{collide, Collision, Vec2};
pub use world::{
    can_advance, can_bounce, collision, keyboard_input, kinematics, setup, wall_bounce, SceneError, World,
    HEIGHT, MILLIS_PER_UNIT, NANOS_PER_UNIT, SPEED, WIDTH,
};
