//! Catching and missing fruit: which fruit the player catches, which fall off
//! the bottom of the screen, and which remain.

use vstd::prelude::*;
use crate::actors::{killed, Actor};
use crate::geometry::{dist_squared, COORD_LIMIT};

verus! {

/// The two actors are closer than the sum of their bounding sizes.
pub open spec fn overlaps(a: Actor, b: Actor) -> bool {
    let reach = a.bbox_size + b.bbox_size;
    reach > 0 && dist_squared(a.pos, b.pos) < reach * reach
}

/// A live fruit that overlaps the player is caught.
pub open spec fn is_caught(fruit: Actor, player: Actor) -> bool {
    fruit.is_alive() && overlaps(fruit, player)
}

/// A fruit that has reached the bottom of a screen `sh` high is missed.
pub open spec fn is_offscreen(fruit: Actor, sh: int) -> bool {
    fruit.pos.y >= sh
}

/// The fruit after the catch check.
pub open spec fn after_catch(fruit: Actor, player: Actor) -> Actor {
    if is_caught(fruit, player) {
        killed(fruit)
    } else {
        fruit
    }
}

/// The fruit after the check for the bottom of the screen.
pub open spec fn after_offscreen(fruit: Actor, sh: int) -> Actor {
    if is_offscreen(fruit, sh) {
        killed(fruit)
    } else {
        fruit
    }
}

/// Every fruit with the caught ones marked dead.
pub open spec fn catch_pass(fruits: Seq<Actor>, player: Actor) -> Seq<Actor> {
    fruits.map_values(|f: Actor| after_catch(f, player))
}

/// Every fruit with the missed ones marked dead.
pub open spec fn offscreen_pass(fruits: Seq<Actor>, sh: int) -> Seq<Actor> {
    fruits.map_values(|f: Actor| after_offscreen(f, sh))
}

/// How many of the fruit the player catches.
pub open spec fn count_caught(fruits: Seq<Actor>, player: Actor) -> nat
    decreases fruits.len(),
{
    if fruits.len() == 0 {
        0
    } else {
        count_caught(fruits.drop_last(), player) + (if is_caught(fruits.last(), player) {
            1nat
        } else {
            0nat
        })
    }
}

/// The live actors, in their order.
pub open spec fn survivors(actors: Seq<Actor>) -> Seq<Actor>
    decreases actors.len(),
{
    if actors.len() == 0 {
        Seq::empty()
    } else if actors.last().is_alive() {
        survivors(actors.drop_last()).push(actors.last())
    } else {
        survivors(actors.drop_last())
    }
}

/// The cull pass: missed fruit marked dead, then every dead fruit removed.
pub open spec fn cull(fruits: Seq<Actor>, sh: int) -> Seq<Actor> {
    survivors(offscreen_pass(fruits, sh))
}

/// The fruit that remain once catches and misses are settled: the catch check
/// runs first, so a fruit both caught and missed counts as caught.
pub open spec fn resolve_fruits(fruits: Seq<Actor>, player: Actor, sh: int) -> Seq<Actor> {
    cull(catch_pass(fruits, player), sh)
}

/// No more fruit is caught than there is.
pub proof fn lemma_count_caught_bound(fruits: Seq<Actor>, player: Actor)
    ensures
        count_caught(fruits, player) <= fruits.len(),
    decreases fruits.len(),
{
    if fruits.len() > 0 {
        lemma_count_caught_bound(fruits.drop_last(), player);
    }
}

/// Each survivor is alive and comes from the sequence.
proof fn lemma_survivors_from(actors: Seq<Actor>)
    ensures
        forall|j: int|
            0 <= j < survivors(actors).len() ==> (#[trigger] survivors(actors)[j]).is_alive()
                && actors.contains(survivors(actors)[j]),
    decreases actors.len(),
{
    if actors.len() > 0 {
        let rest = actors.drop_last();
        lemma_survivors_from(rest);
        assert forall|j: int| 0 <= j < survivors(actors).len() implies (#[trigger] survivors(
            actors,
        )[j]).is_alive() && actors.contains(survivors(actors)[j]) by {
            if j < survivors(rest).len() {
                let k = choose|k: int| 0 <= k < rest.len() && rest[k] == survivors(rest)[j];
                assert(actors[k] == rest[k]);
            } else {
                assert(actors[actors.len() - 1] == actors.last());
            }
        }
    }
}

/// A sequence of live actors is its own survivors.
proof fn lemma_survivors_of_live(actors: Seq<Actor>)
    requires
        forall|j: int| 0 <= j < actors.len() ==> (#[trigger] actors[j]).is_alive(),
    ensures
        survivors(actors) == actors,
    decreases actors.len(),
{
    if actors.len() > 0 {
        let rest = actors.drop_last();
        assert forall|j: int| 0 <= j < rest.len() implies (#[trigger] rest[j]).is_alive() by {
            assert(rest[j] == actors[j]);
        }
        lemma_survivors_of_live(rest);
        assert(actors.last() == actors[actors.len() - 1]);
        assert(rest.push(actors.last()) =~= actors);
    }
}

/// What survives the cull is alive and above the bottom of the screen.
pub proof fn lemma_cull_survivors(fruits: Seq<Actor>, sh: int)
    ensures
        forall|j: int|
            0 <= j < cull(fruits, sh).len() ==> (#[trigger] cull(fruits, sh)[j]).is_alive()
                && !is_offscreen(cull(fruits, sh)[j], sh) && fruits.contains(
                cull(fruits, sh)[j],
            ),
{
    let marked = offscreen_pass(fruits, sh);
    lemma_survivors_from(marked);
    assert forall|j: int| 0 <= j < cull(fruits, sh).len() implies (#[trigger] cull(
        fruits,
        sh,
    )[j]).is_alive() && !is_offscreen(cull(fruits, sh)[j], sh) && fruits.contains(
        cull(fruits, sh)[j],
    ) by {
        let k = choose|k: int| 0 <= k < marked.len() && marked[k] == cull(fruits, sh)[j];
        assert(marked[k] == after_offscreen(fruits[k], sh));
    }
}

/// Culling twice in a row leaves the same fruit as culling once.
pub proof fn lemma_cull_idempotent(fruits: Seq<Actor>, sh: int)
    ensures
        cull(cull(fruits, sh), sh) == cull(fruits, sh),
{
    let once = cull(fruits, sh);
    lemma_cull_survivors(fruits, sh);
    assert(offscreen_pass(once, sh) =~= once);
    assert forall|j: int| 0 <= j < once.len() implies (#[trigger] once[j]).is_alive() by {}
    lemma_survivors_of_live(once);
}

/// Removing one fruit from the sequence takes its own catch, if any, out of
/// the count and leaves the others' catches in it.
pub proof fn lemma_count_caught_remove(fruits: Seq<Actor>, player: Actor, i: int)
    requires
        0 <= i < fruits.len(),
    ensures
        count_caught(fruits, player) == count_caught(fruits.remove(i), player) + (if is_caught(
            fruits[i],
            player,
        ) {
            1nat
        } else {
            0nat
        }),
    decreases fruits.len(),
{
    if i == fruits.len() - 1 {
        assert(fruits.remove(i) =~= fruits.drop_last());
    } else {
        let rest = fruits.drop_last();
        lemma_count_caught_remove(rest, player, i);
        assert(fruits.remove(i).drop_last() =~= rest.remove(i));
        assert(fruits.remove(i).last() == fruits.last());
        assert(rest[i] == fruits[i]);
    }
}

/// A caught fruit is gone once catches and misses are settled, and it adds
/// exactly one to the number of catches.
pub proof fn lemma_caught_fruit_removed(fruits: Seq<Actor>, player: Actor, sh: int, i: int)
    requires
        0 <= i < fruits.len(),
        is_caught(fruits[i], player),
    ensures
        !resolve_fruits(fruits, player, sh).contains(fruits[i]),
        count_caught(fruits, player) == count_caught(fruits.remove(i), player) + 1,
{
    let marked = catch_pass(fruits, player);
    let left = resolve_fruits(fruits, player, sh);
    lemma_cull_survivors(marked, sh);
    if left.contains(fruits[i]) {
        let j = choose|j: int| 0 <= j < left.len() && left[j] == fruits[i];
        let k = choose|k: int| 0 <= k < marked.len() && marked[k] == left[j];
        assert(marked[k] == after_catch(fruits[k], player));
        assert(false);
    }
    lemma_count_caught_remove(fruits, player, i);
}

/// A fruit at or below the bottom of the screen is gone once catches and
/// misses are settled; if it is caught as well, the catch still counts.
pub proof fn lemma_missed_fruit_removed(fruits: Seq<Actor>, player: Actor, sh: int, i: int)
    requires
        0 <= i < fruits.len(),
        is_offscreen(fruits[i], sh),
    ensures
        !resolve_fruits(fruits, player, sh).contains(fruits[i]),
        is_caught(fruits[i], player) ==> count_caught(fruits, player) == count_caught(
            fruits.remove(i),
            player,
        ) + 1,
{
    let marked = catch_pass(fruits, player);
    let left = resolve_fruits(fruits, player, sh);
    lemma_cull_survivors(marked, sh);
    if left.contains(fruits[i]) {
        let j = choose|j: int| 0 <= j < left.len() && left[j] == fruits[i];
        assert(!is_offscreen(left[j], sh));
        assert(false);
    }
    lemma_count_caught_remove(fruits, player, i);
}

/// Whether two actors are closer than the sum of their bounding sizes,
/// compared on squares so no root is taken.
pub fn overlapping(a: &Actor, b: &Actor) -> (r: bool)
    requires
        a.wf(),
        b.wf(),
    ensures
        r == overlaps(*a, *b),
{
    let dx: i128 = a.pos.x as i128 - b.pos.x as i128;
    let dy: i128 = a.pos.y as i128 - b.pos.y as i128;
    let reach: i128 = a.bbox_size as i128 + b.bbox_size as i128;
    assert(0 <= dx * dx <= 0x1000_0000_0000_0000_0000_0000_0000_0000 && 0 <= dy * dy
        <= 0x1000_0000_0000_0000_0000_0000_0000_0000 && reach * reach
        <= 0x1000_0000_0000_0000_0000_0000_0000_0000) by (nonlinear_arith)
        requires
            -0x4000_0000_0000_0000 <= dx <= 0x4000_0000_0000_0000,
            -0x4000_0000_0000_0000 <= dy <= 0x4000_0000_0000_0000,
            0 <= reach <= 0x4000_0000_0000_0000,
    ;
    reach > 0 && dx * dx + dy * dy < reach * reach
}

} // verus!
