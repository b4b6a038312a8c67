//! The things in the game world: the player and the falling fruit.
//!
//! Both kinds share one record; the tag tells them apart.

use vstd::prelude::*;
use crate::geometry::{Point2, Vector2, COORD_LIMIT};
use crate::physics::MAX_PHYSICS_VEL;

pub mod fruit;
pub mod player;

verus! {

#[derive(Clone, Copy, Debug, PartialEq, Eq, Structural)]
pub enum ActorType {
    Player,
    Fruit,
}

/// An actor: its position (milli-units), its velocity (milli-units per
/// second), the size of its bounding box (milli-units), its life and its
/// speed (milli-units per second). An actor whose life is at most zero is dead
/// and waits to be removed.
#[derive(Clone, Copy, Debug, PartialEq, Eq, Structural)]
pub struct Actor {
    pub tag: ActorType,
    pub pos: Point2,
    pub velocity: Vector2,
    pub bbox_size: i64,
    pub life: i64,
    pub speed: i64,
}

/// Life of an actor that is alive.
pub const FULL_LIFE: i64 = 1;

impl Actor {
    pub open spec fn is_alive(self) -> bool {
        self.life > 0
    }

    /// The bounds that every actor in a running world keeps: coordinates and
    /// bounding size within `COORD_LIMIT`, each velocity component within
    /// the speed ceiling, a speed within `COORD_LIMIT`, and a life that is
    /// either full or spent.
    pub open spec fn wf(self) -> bool {
        &&& self.pos.in_range()
        &&& 0 <= self.bbox_size <= COORD_LIMIT
        &&& -MAX_PHYSICS_VEL <= self.velocity.x <= MAX_PHYSICS_VEL
        &&& -MAX_PHYSICS_VEL <= self.velocity.y <= MAX_PHYSICS_VEL
        &&& -COORD_LIMIT <= self.speed <= COORD_LIMIT
        &&& (self.life == FULL_LIFE || self.life <= 0)
    }

    /// Whether the actor is alive.
    pub fn alive(&self) -> (r: bool)
        ensures
            r == self.is_alive(),
    {
        self.life > 0
    }
}

/// The same actor, dead.
pub open spec fn killed(a: Actor) -> Actor {
    Actor { life: 0, ..a }
}

/// Marks the actor dead.
pub fn kill(a: Actor) -> (r: Actor)
    ensures
        r == killed(a),
{
    Actor { life: 0, ..a }
}

} // verus!
