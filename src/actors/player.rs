//! The player's paddle.

use vstd::prelude::*;
use crate::actors::{Actor, ActorType, FULL_LIFE};
use crate::controls::InputState;
use crate::geometry::{Point2, Vector2, COORD_LIMIT};

verus! {

/// Side of the player's bounding box: 60 pixels.
pub const PLAYER_BBOX: i64 = 60_000;

/// Gap between the player's box and the bottom of the screen: 5 pixels.
pub const PADDING_BOTTOM: i64 = 5_000;

/// The player's movement rate: 10 pixels per second.
pub const PLAYER_MOVE_RATE: i64 = 10_000;

/// How strongly the input axis pushes the player's velocity at each step.
pub const PLAYER_SPEED: i64 = 2;

/// The player as a game starts: centred horizontally, resting on the bottom
/// of the screen, at rest.
pub open spec fn start_player(sw: int, sh: int) -> Actor {
    Actor {
        tag: ActorType::Player,
        pos: Point2 { x: (sw / 2) as i64, y: (sh - PLAYER_BBOX / 2 - PADDING_BOTTOM) as i64 },
        velocity: Vector2 { x: 0, y: 0 },
        bbox_size: PLAYER_BBOX,
        life: FULL_LIFE,
        speed: PLAYER_MOVE_RATE,
    }
}

/// The player after the input axis has pushed its horizontal velocity.
pub open spec fn pushed(actor: Actor, input: InputState) -> Actor {
    Actor {
        velocity: Vector2 { x: (actor.velocity.x + PLAYER_SPEED * input.xaxis) as i64, ..actor.velocity },
        ..actor
    }
}

/// Creates the player for a screen of `sw` by `sh` milli-units.
pub fn create_player(sw: i64, sh: i64) -> (r: Actor)
    requires
        0 <= sw <= COORD_LIMIT,
        0 <= sh <= COORD_LIMIT,
    ensures
        r == start_player(sw as int, sh as int),
        r.wf(),
{
    let bbox_size = PLAYER_BBOX;
    let init_pos = Point2::new(sw / 2, sh - (bbox_size / 2) - PADDING_BOTTOM);
    Actor {
        tag: ActorType::Player,
        pos: init_pos,
        velocity: Vector2::zero(),
        bbox_size,
        life: FULL_LIFE,
        speed: PLAYER_MOVE_RATE,
    }
}

/// Adds the input axis, times `PLAYER_SPEED`, to the actor's horizontal
/// velocity. The step length plays no part.
pub fn player_handle_input(actor: &mut Actor, input: &InputState, _dt: i64)
    requires
        i64::MIN <= PLAYER_SPEED * input.xaxis <= i64::MAX,
        i64::MIN <= old(actor).velocity.x + PLAYER_SPEED * input.xaxis <= i64::MAX,
    ensures
        *final(actor) == pushed(*old(actor), *input),
{
    let v = Vector2::new(PLAYER_SPEED * input.xaxis, 0);
    actor.velocity = Vector2::new(actor.velocity.x + v.x, actor.velocity.y + v.y);
}

} // verus!
