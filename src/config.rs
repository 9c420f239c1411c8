//! Tuning values of the engine: the standard tuning of a body's physics,
//! and the sizes and speeds of the levels.
use vstd::prelude::*;

verus! {

/// Edge of a tile in world units.
pub const TILE_SIZE: i64 = 24;

/// Downward acceleration of the standard tuning, in units per second
/// squared.
pub const GRAVITY: i64 = 400;

/// Downward acceleration of the standard tuning while falling fast: seven
/// and a half times gravity.
pub const FALL_GRAVITY: i64 = 3000;

/// Horizontal friction of the standard tuning: each tick the horizontal
/// acceleration becomes `-FRICTION_NUM / FRICTION_DEN` times the
/// horizontal speed.
pub const FRICTION_NUM: i64 = 7;

pub const FRICTION_DEN: i64 = 10;

/// Walking speed limit, in units per second.
pub const WALK_SPEED: i64 = 200;

/// Horizontal acceleration of a walking body, in units per second squared.
pub const ACCELERATION: i64 = 1000;

/// Upward speed given by a jump, in units per second.
pub const JUMP_SPEED: i64 = 350;

/// Distance within which a foot counts as standing on a one-way platform.
pub const ONE_WAY_THRESHOLD: i64 = 15;

/// Milliseconds in a second: time steps are given in milliseconds.
pub const MILLIS: i64 = 1000;

/// The tuning of a body's physics.
#[derive(Clone, Copy, Debug, PartialEq, Eq, Structural)]
pub struct PhysicsConfig {
    /// Downward acceleration, in units per second squared.
    pub gravity: i64,
    /// Downward acceleration while falling fast.
    pub fall_gravity: i64,
    /// Horizontal friction: each tick the horizontal acceleration becomes
    /// `-friction_num / friction_den` times the horizontal speed.
    pub friction_num: i64,
    pub friction_den: i64,
}

impl PhysicsConfig {
    /// Accelerations in range, and a friction ratio between zero and one
    /// with a small positive denominator.
    pub open spec fn wf(&self) -> bool {
        &&& 0 <= self.gravity <= 0x1_0000_0000
        &&& 0 <= self.fall_gravity <= 0x1_0000_0000
        &&& 0 <= self.friction_num <= self.friction_den
        &&& 0 < self.friction_den <= MILLIS
    }

    /// Whether the tuning is in range, as `wf` says.
    pub fn is_wf(&self) -> (r: bool)
        ensures
            r == self.wf(),
    {
        0 <= self.gravity && self.gravity <= 0x1_0000_0000 && 0 <= self.fall_gravity
            && self.fall_gravity <= 0x1_0000_0000 && 0 <= self.friction_num && self.friction_num
            <= self.friction_den && 0 < self.friction_den && self.friction_den <= MILLIS
    }

    pub fn new(gravity: i64, fall_gravity: i64, friction_num: i64, friction_den: i64) -> (r: PhysicsConfig)
        ensures
            r == (PhysicsConfig { gravity, fall_gravity, friction_num, friction_den }),
    {
        PhysicsConfig { gravity, fall_gravity, friction_num, friction_den }
    }

    /// The tuning of the levels: `GRAVITY`, `FALL_GRAVITY` and friction
    /// `FRICTION_NUM / FRICTION_DEN`.
    pub fn standard() -> (r: PhysicsConfig)
        ensures
            r == (PhysicsConfig {
                gravity: GRAVITY,
                fall_gravity: FALL_GRAVITY,
                friction_num: FRICTION_NUM,
                friction_den: FRICTION_DEN,
            }),
            r.wf(),
    {
        PhysicsConfig {
            gravity: GRAVITY,
            fall_gravity: FALL_GRAVITY,
            friction_num: FRICTION_NUM,
            friction_den: FRICTION_DEN,
        }
    }
}

} // verus!
