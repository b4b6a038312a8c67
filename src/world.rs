//! The game world and what happens to it at each step.

use vstd::prelude::*;
use crate::actors::{kill, Actor};
use crate::actors::fruit::{create_fruit, create_fruits, is_spawned_fruit};
use crate::actors::player::{create_player, player_handle_input, pushed, start_player};
use crate::collisions::{
    after_catch, after_offscreen, catch_pass, count_caught, cull,
    lemma_count_caught_bound, lemma_cull_survivors, offscreen_pass, overlapping, resolve_fruits,
    survivors,
};
use crate::controls::{after_left, after_right, handle_left, handle_release, handle_right, InputState};
use crate::geometry::COORD_LIMIT;
use crate::physics::{integrate, update_actor_position, MAX_DT, MAX_STEP};
use crate::spawner::{spawner_step, Spawner, DROP_INTERVAL, FIRST_DROP_WAIT};

verus! {

/// One physics step: a sixtieth of a second, in microseconds.
pub const TICK_MICROS: i64 = 16_667;

/// The keys the game responds to.
#[derive(Clone, Copy, Debug, PartialEq, Eq, Structural)]
pub enum Key {
    Left,
    Right,
    Escape,
    Other,
}

/// The whole game state: the player, the fruit in play, the countdown to the
/// next drop, the score, the screen's size (milli-units) and the input axis.
pub struct World {
    pub player: Actor,
    pub fruits: Vec<Actor>,
    pub spawner: Spawner,
    pub score: u64,
    pub screen_width: i64,
    pub screen_height: i64,
    pub input: InputState,
}

/// Every fruit advanced by one step of `dt` microseconds.
pub open spec fn moved(fruits: Seq<Actor>, dt: int) -> Seq<Actor> {
    fruits.map_values(|f: Actor| integrate(f, dt))
}

/// The actor is far enough inside `COORD_LIMIT` to take one more step.
pub open spec fn has_room_for_step(a: Actor) -> bool {
    &&& -(COORD_LIMIT - MAX_STEP) <= a.pos.x <= COORD_LIMIT - MAX_STEP
    &&& -(COORD_LIMIT - MAX_STEP) <= a.pos.y <= COORD_LIMIT - MAX_STEP
}

/// Two worlds agree on everything but the fruit and the score.
pub open spec fn same_setting(a: &World, b: &World) -> bool {
    &&& a.player == b.player
    &&& a.spawner == b.spawner
    &&& a.input == b.input
    &&& a.screen_width == b.screen_width
    &&& a.screen_height == b.screen_height
}

impl World {
    /// The bounds a running world keeps.
    pub open spec fn wf(&self) -> bool {
        &&& 0 <= self.screen_width <= COORD_LIMIT
        &&& 0 <= self.screen_height <= COORD_LIMIT
        &&& self.player.wf()
        &&& -COORD_LIMIT <= self.input.xaxis <= COORD_LIMIT
        &&& forall|i: int| 0 <= i < self.fruits@.len() ==> (#[trigger] self.fruits@[i]).wf()
    }

    /// Room for one more physics step: every actor is a step away from the
    /// coordinate limit and the score can count every fruit in play.
    pub open spec fn room_for_tick(&self) -> bool {
        &&& has_room_for_step(self.player)
        &&& forall|i: int| 0 <= i < self.fruits@.len() ==> has_room_for_step(#[trigger] self.fruits@[i])
        &&& self.score + self.fruits@.len() <= u64::MAX
    }

    /// A world for a screen `sw` by `sh` milli-units: the player at its start,
    /// one fruit in play, the first drop six seconds away, no score and no
    /// input.
    pub fn new(sw: i64, sh: i64) -> (r: World)
        requires
            0 <= sw <= COORD_LIMIT,
            0 <= sh <= COORD_LIMIT,
        ensures
            r.wf(),
            r.player == start_player(sw as int, sh as int),
            r.fruits@.len() == 1,
            is_spawned_fruit(r.fruits@[0], sw as int),
            r.spawner == (Spawner { remaining: FIRST_DROP_WAIT, interval: DROP_INTERVAL }),
            r.score == 0,
            r.screen_width == sw,
            r.screen_height == sh,
            r.input.xaxis == 0,
    {
        let player = create_player(sw, sh);
        let fruits = create_fruits(1, sw, sh);
        World {
            player,
            fruits,
            spawner: Spawner::new(FIRST_DROP_WAIT, DROP_INTERVAL),
            score: 0,
            screen_width: sw,
            screen_height: sh,
            input: InputState::default(),
        }
    }

    /// Whether the world has room for one more physics step.
    pub fn can_tick(&self) -> (r: bool)
        ensures
            r == self.room_for_tick(),
    {
        let limit: i64 = COORD_LIMIT - MAX_STEP;
        let p = &self.player;
        if !(-limit <= p.pos.x && p.pos.x <= limit && -limit <= p.pos.y && p.pos.y <= limit) {
            return false;
        }
        let n = self.fruits.len();
        if self.score > u64::MAX - n as u64 {
            return false;
        }
        let mut i: usize = 0;
        while i < n
            invariant
                n == self.fruits@.len(),
                i <= n,
                limit == COORD_LIMIT - MAX_STEP,
                has_room_for_step(self.player),
                self.score + n <= u64::MAX,
                forall|j: int| 0 <= j < i ==> has_room_for_step(#[trigger] self.fruits@[j]),
            decreases n - i,
        {
            let f = &self.fruits[i];
            if !(-limit <= f.pos.x && f.pos.x <= limit && -limit <= f.pos.y && f.pos.y <= limit) {
                return false;
            }
            i = i + 1;
        }
        true
    }

    /// One physics step of `dt` microseconds: the input pushes the player,
    /// every actor moves, then catches and misses are settled.
    pub fn physics_tick(&mut self, dt: i64)
        requires
            old(self).wf(),
            old(self).room_for_tick(),
            0 <= dt <= MAX_DT,
        ensures
            final(self).wf(),
            final(self).player == integrate(pushed(old(self).player, old(self).input), dt as int),
            final(self).fruits@ == resolve_fruits(
                moved(old(self).fruits@, dt as int),
                final(self).player,
                old(self).screen_height as int,
            ),
            final(self).score == old(self).score + count_caught(
                moved(old(self).fruits@, dt as int),
                final(self).player,
            ),
            final(self).spawner == old(self).spawner,
            final(self).input == old(self).input,
            final(self).screen_width == old(self).screen_width,
            final(self).screen_height == old(self).screen_height,
    {
        player_handle_input(&mut self.player, &self.input, dt);
        update_actor_position(&mut self.player, dt);
        let ghost start = self.fruits@;
        let n = self.fruits.len();
        let mut i: usize = 0;
        while i < n
            invariant
                n == start.len(),
                i <= n,
                self.fruits@.len() == n,
                start == old(self).fruits@,
                old(self).wf(),
                old(self).room_for_tick(),
                0 <= dt <= MAX_DT,
                forall|j: int| 0 <= j < i ==> self.fruits@[j] == integrate(start[j], dt as int),
                forall|j: int| 0 <= j < i ==> (#[trigger] self.fruits@[j]).wf(),
                forall|j: int| i <= j < n ==> self.fruits@[j] == start[j],
                self.player == integrate(pushed(old(self).player, old(self).input), dt as int),
                self.score == old(self).score,
                self.spawner == old(self).spawner,
                self.input == old(self).input,
                self.screen_width == old(self).screen_width,
                self.screen_height == old(self).screen_height,
            decreases n - i,
        {
            let mut f = self.fruits[i];
            proof {
                assert(start[i as int].wf());
                assert(has_room_for_step(start[i as int]));
            }
            update_actor_position(&mut f, dt);
            self.fruits[i] = f;
            i = i + 1;
        }
        proof {
            assert(self.fruits@ =~= moved(start, dt as int));
        }
        self.handle_collisions();
        self.remove_dead();
    }

    /// Counts the drop countdown down by `elapsed` microseconds; when it runs
    /// out a fruit drops at a random column at the top of the screen. Returns
    /// whether one dropped.
    pub fn update_spawner(&mut self, elapsed: u64) -> (dropped: bool)
        requires
            old(self).wf(),
        ensures
            final(self).wf(),
            (final(self).spawner, dropped) == spawner_step(old(self).spawner, elapsed as int),
            dropped ==> final(self).fruits@.len() == old(self).fruits@.len() + 1
                && final(self).fruits@.drop_last() == old(self).fruits@ && is_spawned_fruit(
                final(self).fruits@.last(),
                old(self).screen_width as int,
            ),
            !dropped ==> final(self).fruits@ == old(self).fruits@,
            final(self).player == old(self).player,
            final(self).score == old(self).score,
            final(self).input == old(self).input,
            final(self).screen_width == old(self).screen_width,
            final(self).screen_height == old(self).screen_height,
    {
        let dropped = self.spawner.tick(elapsed);
        if dropped {
            let fruit = create_fruit(self.screen_width, self.screen_height);
            self.fruits.push(fruit);
            proof {
                assert(self.fruits@.drop_last() =~= old(self).fruits@);
                assert forall|j: int| 0 <= j < self.fruits@.len() implies (#[trigger] self.fruits@[j]).wf() by {
                    if j < old(self).fruits@.len() {
                        assert(old(self).fruits@[j].wf());
                    }
                }
            }
        }
        dropped
    }

    /// A key went down. Left and right steer the player; the result is
    /// whether the key asks to end the game.
    pub fn key_down(&mut self, key: Key) -> (quit: bool)
        requires
            old(self).wf(),
        ensures
            final(self).wf(),
            quit == (key == Key::Escape),
            key == Key::Left ==> final(self).player == after_left(old(self).player)
                && final(self).input.xaxis == -old(self).player.speed,
            key == Key::Right ==> final(self).player == after_right(old(self).player)
                && final(self).input.xaxis == old(self).player.speed,
            key != Key::Left && key != Key::Right ==> final(self).player == old(self).player
                && final(self).input == old(self).input,
            final(self).fruits@ == old(self).fruits@,
            final(self).spawner == old(self).spawner,
            final(self).score == old(self).score,
            final(self).screen_width == old(self).screen_width,
            final(self).screen_height == old(self).screen_height,
    {
        match key {
            Key::Left => {
                handle_left(&mut self.player, &mut self.input);
                false
            },
            Key::Right => {
                handle_right(&mut self.player, &mut self.input);
                false
            },
            Key::Escape => true,
            Key::Other => false,
        }
    }

    /// A key went up. Releasing left or right brings the input axis back to
    /// rest.
    pub fn key_up(&mut self, key: Key)
        requires
            old(self).wf(),
        ensures
            final(self).wf(),
            key == Key::Left || key == Key::Right ==> final(self).input.xaxis == 0,
            key != Key::Left && key != Key::Right ==> final(self).input == old(self).input,
            final(self).player == old(self).player,
            final(self).fruits@ == old(self).fruits@,
            final(self).spawner == old(self).spawner,
            final(self).score == old(self).score,
            final(self).screen_width == old(self).screen_width,
            final(self).screen_height == old(self).screen_height,
    {
        match key {
            Key::Left | Key::Right => handle_release(&mut self.input),
            _ => {},
        }
    }

    /// The catch check: every live fruit that overlaps the player dies and
    /// adds one to the score.
    pub fn handle_collisions(&mut self)
        requires
            old(self).wf(),
            old(self).score + old(self).fruits@.len() <= u64::MAX,
        ensures
            final(self).wf(),
            same_setting(final(self), old(self)),
            final(self).fruits@ == catch_pass(old(self).fruits@, old(self).player),
            final(self).score == old(self).score + count_caught(old(self).fruits@, old(self).player),
    {
        let ghost start = self.fruits@;
        let n = self.fruits.len();
        let mut i: usize = 0;
        while i < n
            invariant
                n == start.len(),
                i <= n,
                self.fruits@.len() == n,
                same_setting(self, old(self)),
                old(self).wf(),
                start == old(self).fruits@,
                old(self).score + n <= u64::MAX,
                forall|j: int| 0 <= j < i ==> self.fruits@[j] == after_catch(start[j], self.player),
                forall|j: int| i <= j < n ==> self.fruits@[j] == start[j],
                self.score == old(self).score + count_caught(start.subrange(0, i as int), self.player),
            decreases n - i,
        {
            let f = self.fruits[i];
            proof {
                lemma_count_caught_bound(start.subrange(0, i as int), self.player);
                assert(start.subrange(0, i + 1).drop_last() =~= start.subrange(0, i as int));
                assert(start.subrange(0, i + 1).last() == start[i as int]);
                assert(start[i as int].wf());
            }
            if f.alive() && overlapping(&f, &self.player) {
                self.fruits[i] = kill(f);
                self.score = self.score + 1;
            }
            i = i + 1;
        }
        proof {
            assert(start.subrange(0, n as int) =~= start);
            assert(self.fruits@ =~= catch_pass(start, self.player));
            assert forall|j: int| 0 <= j < self.fruits@.len() implies (#[trigger] self.fruits@[j]).wf() by {
                assert(start[j].wf());
            }
        }
    }

    /// The check for the bottom of the screen: every fruit that has reached
    /// it dies.
    pub fn handle_fruit_offscreen(&mut self)
        requires
            old(self).wf(),
        ensures
            final(self).wf(),
            same_setting(final(self), old(self)),
            final(self).score == old(self).score,
            final(self).fruits@ == offscreen_pass(old(self).fruits@, old(self).screen_height as int),
    {
        let ghost start = self.fruits@;
        let n = self.fruits.len();
        let mut i: usize = 0;
        while i < n
            invariant
                n == start.len(),
                i <= n,
                self.fruits@.len() == n,
                same_setting(self, old(self)),
                self.score == old(self).score,
                old(self).wf(),
                start == old(self).fruits@,
                forall|j: int|
                    0 <= j < i ==> self.fruits@[j] == after_offscreen(
                        start[j],
                        self.screen_height as int,
                    ),
                forall|j: int| i <= j < n ==> self.fruits@[j] == start[j],
            decreases n - i,
        {
            let f = self.fruits[i];
            if f.pos.y >= self.screen_height {
                self.fruits[i] = kill(f);
            }
            i = i + 1;
        }
        proof {
            assert(self.fruits@ =~= offscreen_pass(start, self.screen_height as int));
            assert forall|j: int| 0 <= j < self.fruits@.len() implies (#[trigger] self.fruits@[j]).wf() by {
                assert(start[j].wf());
            }
        }
    }

    /// The cull pass: fruit at the bottom of the screen dies, then every dead
    /// fruit is removed, the rest kept in order.
    pub fn remove_dead(&mut self)
        requires
            old(self).wf(),
        ensures
            final(self).wf(),
            same_setting(final(self), old(self)),
            final(self).score == old(self).score,
            final(self).fruits@ == cull(old(self).fruits@, old(self).screen_height as int),
    {
        self.handle_fruit_offscreen();
        let ghost marked = self.fruits@;
        let n = self.fruits.len();
        let mut kept: Vec<Actor> = Vec::new();
        let mut i: usize = 0;
        while i < n
            invariant
                n == marked.len(),
                i <= n,
                self.fruits@ == marked,
                kept@ == survivors(marked.subrange(0, i as int)),
            decreases n - i,
        {
            let f = self.fruits[i];
            proof {
                assert(marked.subrange(0, i + 1).drop_last() =~= marked.subrange(0, i as int));
                assert(marked.subrange(0, i + 1).last() == marked[i as int]);
            }
            if f.alive() {
                kept.push(f);
            }
            i = i + 1;
        }
        proof {
            assert(marked.subrange(0, n as int) =~= marked);
            lemma_cull_survivors(old(self).fruits@, old(self).screen_height as int);
        }
        self.fruits = kept;
        proof {
            assert forall|j: int| 0 <= j < self.fruits@.len() implies (#[trigger] self.fruits@[j]).wf() by {
                assert(self.fruits@[j] == cull(old(self).fruits@, old(self).screen_height as int)[j]);
                let k = choose|k: int| 0 <= k < old(self).fruits@.len() && old(self).fruits@[k] == self.fruits@[j];
                assert(old(self).fruits@[k].wf());
            }
        }
    }
}

} // verus!
