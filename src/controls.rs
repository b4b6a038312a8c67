//! Turns key presses and releases into a horizontal input axis.

use vstd::prelude::*;
use crate::actors::Actor;
use crate::geometry::Vector2;

verus! {

/// The player's input, independent of the device: a horizontal axis,
/// negative to the left and positive to the right.
#[derive(Clone, Copy, Debug, PartialEq, Eq, Structural)]
pub struct InputState {
    pub xaxis: i64,
}

impl Default for InputState {
    fn default() -> (r: InputState)
        ensures
            r.xaxis == 0,
    {
        InputState { xaxis: 0 }
    }
}

/// The player after the "move left" key went down: a rightward horizontal
/// velocity is dropped, anything else kept.
pub open spec fn after_left(player: Actor) -> Actor {
    if player.velocity.x > 0 {
        Actor { velocity: Vector2 { x: 0, ..player.velocity }, ..player }
    } else {
        player
    }
}

/// The player after the "move right" key went down: a leftward horizontal
/// velocity is dropped, anything else kept.
pub open spec fn after_right(player: Actor) -> Actor {
    if player.velocity.x < 0 {
        Actor { velocity: Vector2 { x: 0, ..player.velocity }, ..player }
    } else {
        player
    }
}

/// "Move left" pressed: stop any rightward motion, then point the axis left at
/// the player's speed.
pub fn handle_left(player: &mut Actor, input: &mut InputState)
    requires
        old(player).speed > i64::MIN,
    ensures
        *final(player) == after_left(*old(player)),
        final(input).xaxis == -old(player).speed,
{
    if player.velocity.x > 0 {
        player.velocity.x = 0;
    }
    input.xaxis = -player.speed;
}

/// "Move right" pressed: stop any leftward motion, then point the axis right
/// at the player's speed.
pub fn handle_right(player: &mut Actor, input: &mut InputState)
    ensures
        *final(player) == after_right(*old(player)),
        final(input).xaxis == old(player).speed,
{
    if player.velocity.x < 0 {
        player.velocity.x = 0;
    }
    input.xaxis = player.speed;
}

/// A direction key released: the axis returns to rest.
pub fn handle_release(input: &mut InputState)
    ensures
        final(input).xaxis == 0,
{
    input.xaxis = 0;
}

} // verus!
