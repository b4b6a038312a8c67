//! Falling fruit.

use vstd::prelude::*;
use rand::Rng;
use crate::actors::{Actor, ActorType, FULL_LIFE};
use crate::geometry::{Point2, Vector2, COORD_LIMIT};

verus! {

/// Side of a fruit's bounding box: 2 pixels.
pub const FRUIT_BBOX: i64 = 2_000;

/// Speed at which fruit falls: 100 pixels per second.
pub const FALLING_SPEED: i64 = 100_000;

/// A fresh fruit at the top of the screen, at horizontal position `x`,
/// falling straight down.
pub open spec fn fresh_fruit(x: int) -> Actor {
    Actor {
        tag: ActorType::Fruit,
        pos: Point2 { x: x as i64, y: 0 },
        velocity: Vector2 { x: 0, y: FALLING_SPEED },
        bbox_size: FRUIT_BBOX,
        life: FULL_LIFE,
        speed: FALLING_SPEED,
    }
}

/// `x` is a column where a fruit may appear on a screen `sw` wide: within
/// `[0, sw)`, or 0 on a screen of no width.
pub open spec fn spawn_column(x: int, sw: int) -> bool {
    0 <= x && (x < sw || x == 0)
}

/// A fruit spawned on a screen `sw` wide.
pub open spec fn is_spawned_fruit(f: Actor, sw: int) -> bool {
    f == fresh_fruit(f.pos.x as int) && spawn_column(f.pos.x as int, sw)
}

/// Relies on rand's `thread_rng` and `Rng::gen_range`: for the non-empty range
/// `0..high` the value drawn lies in it.
#[verifier::external_body]
fn random_below(high: i64) -> (r: i64)
    requires
        0 < high,
    ensures
        0 <= r < high,
{
    rand::thread_rng().gen_range(0..high)
}

/// A fruit at the top of the screen at horizontal position `x`.
pub fn fruit_at(x: i64) -> (r: Actor)
    ensures
        r == fresh_fruit(x as int),
{
    Actor {
        tag: ActorType::Fruit,
        pos: Point2::new(x, 0),
        velocity: Vector2::new(0, FALLING_SPEED),
        bbox_size: FRUIT_BBOX,
        life: FULL_LIFE,
        speed: FALLING_SPEED,
    }
}

/// A fruit at a random column of a screen `sw` wide.
pub fn create_fruit(sw: i64, _sh: i64) -> (r: Actor)
    requires
        0 <= sw <= COORD_LIMIT,
    ensures
        is_spawned_fruit(r, sw as int),
        r.wf(),
{
    let x = if sw > 0 {
        random_below(sw)
    } else {
        0
    };
    fruit_at(x)
}

/// `n` fruit, each at a random column of a screen `sw` wide.
pub fn create_fruits(n: u32, sw: i64, sh: i64) -> (r: Vec<Actor>)
    requires
        0 <= sw <= COORD_LIMIT,
    ensures
        r@.len() == n,
        forall|i: int| 0 <= i < r@.len() ==> is_spawned_fruit(#[trigger] r@[i], sw as int) && r@[i].wf(),
{
    let mut fruits: Vec<Actor> = Vec::new();
    let mut k: u32 = 0;
    while k < n
        invariant
            k <= n,
            0 <= sw <= COORD_LIMIT,
            fruits@.len() == k,
            forall|i: int| 0 <= i < fruits@.len() ==> is_spawned_fruit(#[trigger] fruits@[i], sw as int) && fruits@[i].wf(),
        decreases n - k,
    {
        fruits.push(create_fruit(sw, sh));
        k = k + 1;
    }
    fruits
}

} // verus!
