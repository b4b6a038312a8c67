use falling_boys::actors::fruit::fruit_at;
use falling_boys::actors::player::create_player;
use falling_boys::actors::{kill, Actor};
use falling_boys::controls::InputState;
use falling_boys::geometry::{Point2, Vector2, COORD_LIMIT};
use falling_boys::spawner::{Spawner, DROP_INTERVAL, FIRST_DROP_WAIT};
use falling_boys::world::{Key, World, TICK_MICROS};

fn player_at(x: i64, y: i64) -> Actor {
    let mut p = create_player(1_200_000, 800_000);
    p.pos = Point2::new(x, y);
    p
}

fn world_with(player: Actor, fruits: Vec<Actor>) -> World {
    World {
        player,
        fruits,
        spawner: Spawner::new(FIRST_DROP_WAIT, DROP_INTERVAL),
        score: 0,
        screen_width: 1_200_000,
        screen_height: 800_000,
        input: InputState::default(),
    }
}

fn fruit_pos(x: i64, y: i64) -> Actor {
    let mut f = fruit_at(x);
    f.pos.y = y;
    f
}

#[test]
fn new_world_has_player_and_one_fruit() {
    let w = World::new(1_200_000, 800_000);
    assert_eq!(w.player, create_player(1_200_000, 800_000));
    assert_eq!(w.fruits.len(), 1);
    assert_eq!(w.fruits[0], fruit_at(w.fruits[0].pos.x));
    assert!(w.fruits[0].pos.x < 1_200_000);
    assert_eq!(w.spawner, Spawner { remaining: 6_000_000, interval: 3_000_000 });
    assert_eq!(w.score, 0);
    assert_eq!(w.input.xaxis, 0);
    assert!(w.can_tick());
}

#[test]
fn overlapping_fruit_is_caught() {
    // Distance 61.999 pixels against a reach of 62.
    let mut w = world_with(player_at(600_000, 795_000), vec![fruit_pos(600_000, 733_001)]);
    w.handle_collisions();
    assert_eq!(w.score, 1);
    assert_eq!(w.fruits[0].life, 0);
    w.remove_dead();
    assert!(w.fruits.is_empty());
    assert_eq!(w.score, 1);
}

#[test]
fn fruit_exactly_at_reach_is_not_caught() {
    let mut w = world_with(player_at(600_000, 795_000), vec![fruit_pos(600_000, 733_000)]);
    w.handle_collisions();
    assert_eq!(w.score, 0);
    w.remove_dead();
    assert_eq!(w.fruits, vec![fruit_pos(600_000, 733_000)]);
}

#[test]
fn diagonal_distance_is_euclidean() {
    // 3-4-5 triangle: 50 pixels apart, reach 62.
    let near = fruit_pos(630_000, 755_000);
    // 48 and 40 pixels apart on the axes: 62.48 pixels, out of reach.
    let far = fruit_pos(648_000, 755_000);
    let mut w = world_with(player_at(600_000, 795_000), vec![near, far]);
    w.handle_collisions();
    assert_eq!(w.score, 1);
    w.remove_dead();
    assert_eq!(w.fruits, vec![far]);
}

#[test]
fn each_caught_fruit_scores_one() {
    let fruits = vec![
        fruit_pos(600_000, 790_000),
        fruit_pos(100_000, 10_000),
        fruit_pos(610_000, 780_000),
    ];
    let mut w = world_with(player_at(600_000, 795_000), fruits);
    w.score = 7;
    w.handle_collisions();
    w.remove_dead();
    assert_eq!(w.score, 9);
    assert_eq!(w.fruits, vec![fruit_pos(100_000, 10_000)]);
}

#[test]
fn dead_fruit_is_not_caught_again() {
    let mut w = world_with(player_at(600_000, 795_000), vec![kill(fruit_pos(600_000, 790_000))]);
    w.handle_collisions();
    assert_eq!(w.score, 0);
    w.remove_dead();
    assert!(w.fruits.is_empty());
}

#[test]
fn fruit_at_the_bottom_is_missed() {
    let fruits = vec![fruit_pos(100_000, 800_000), fruit_pos(200_000, 799_999), fruit_pos(300_000, 900_000)];
    let mut w = world_with(player_at(600_000, 795_000), fruits);
    w.handle_fruit_offscreen();
    assert_eq!(w.fruits.len(), 3);
    assert_eq!(w.fruits[0].life, 0);
    assert_eq!(w.fruits[1].life, 1);
    assert_eq!(w.fruits[2].life, 0);
    w.remove_dead();
    assert_eq!(w.fruits, vec![fruit_pos(200_000, 799_999)]);
    assert_eq!(w.score, 0);
}

#[test]
fn fruit_both_caught_and_missed_counts_as_caught() {
    let mut w = world_with(player_at(600_000, 795_000), vec![fruit_pos(600_000, 800_000)]);
    w.handle_collisions();
    w.remove_dead();
    assert_eq!(w.score, 1);
    assert!(w.fruits.is_empty());
}

#[test]
fn culling_twice_changes_nothing_more() {
    let fruits = vec![
        fruit_pos(100_000, 10_000),
        kill(fruit_pos(150_000, 20_000)),
        fruit_pos(200_000, 850_000),
        fruit_pos(300_000, 30_000),
    ];
    let mut w = world_with(player_at(600_000, 795_000), fruits);
    w.remove_dead();
    let once = w.fruits.clone();
    w.remove_dead();
    assert_eq!(w.fruits, once);
    assert_eq!(once, vec![fruit_pos(100_000, 10_000), fruit_pos(300_000, 30_000)]);
}

#[test]
fn falling_fruit_is_caught_above_the_player() {
    let mut player = player_at(600_000, 795_000);
    player.bbox_size = 60_000;
    let mut w = world_with(player, vec![fruit_at(600_000)]);
    let mut ticks: u32 = 0;
    while !w.fruits.is_empty() {
        assert!(w.can_tick());
        w.physics_tick(TICK_MICROS);
        ticks += 1;
        assert!(ticks < 1_000);
    }
    // 1.666 pixels a step; the fruit is caught once it is within 62 pixels,
    // past 733 pixels down: at step 440, some 7.33 seconds in.
    assert_eq!(ticks, 440);
    assert_eq!(w.score, 1);
    assert_eq!(w.player.pos, Point2::new(600_000, 795_000));
}

#[test]
fn tick_moves_player_by_input() {
    let mut w = world_with(create_player(1_200_000, 800_000), vec![]);
    assert!(!w.key_down(Key::Left));
    w.physics_tick(TICK_MICROS);
    assert_eq!(w.player.velocity, Vector2::new(-20_000, 0));
    assert_eq!(w.player.pos, Point2::new(600_000 - 333, 765_000));
    w.key_up(Key::Left);
    assert_eq!(w.input.xaxis, 0);
    w.physics_tick(TICK_MICROS);
    assert_eq!(w.player.velocity, Vector2::new(-20_000, 0));
}

#[test]
fn left_after_rightward_motion_applies_only_leftward_push() {
    let mut w = world_with(create_player(1_200_000, 800_000), vec![]);
    w.player.velocity = Vector2::new(60_000, 0);
    assert!(!w.key_down(Key::Left));
    assert_eq!(w.player.velocity.x, 0);
    assert_eq!(w.input.xaxis, -10_000);
    w.physics_tick(TICK_MICROS);
    assert_eq!(w.player.velocity, Vector2::new(-20_000, 0));
}

#[test]
fn player_velocity_saturates_at_the_ceiling() {
    let mut w = world_with(create_player(1_200_000, 800_000), vec![]);
    w.key_down(Key::Right);
    for _ in 0..100 {
        w.physics_tick(TICK_MICROS);
    }
    assert_eq!(w.player.velocity, Vector2::new(400_000, 0));
}

#[test]
fn escape_asks_to_quit_and_other_keys_do_nothing() {
    let mut w = world_with(create_player(1_200_000, 800_000), vec![]);
    assert!(w.key_down(Key::Escape));
    assert!(!w.key_down(Key::Other));
    assert_eq!(w.input.xaxis, 0);
    w.key_down(Key::Right);
    w.key_up(Key::Other);
    assert_eq!(w.input.xaxis, 10_000);
    w.key_up(Key::Right);
    assert_eq!(w.input.xaxis, 0);
}

#[test]
fn spawner_drops_fruit_on_schedule() {
    let mut w = world_with(create_player(1_200_000, 800_000), vec![]);
    let mut drops: u32 = 0;
    // Twelve seconds in half-second steps: drops at 6, 9 and 12 seconds.
    for _ in 0..24 {
        if w.update_spawner(500_000) {
            drops += 1;
        }
    }
    assert_eq!(drops, 3);
    assert_eq!(w.fruits.len(), 3);
    for f in &w.fruits {
        assert_eq!(*f, fruit_at(f.pos.x));
        assert!(f.pos.x < 1_200_000);
    }
}

#[test]
fn no_tick_near_the_coordinate_limit() {
    let mut w = world_with(player_at(COORD_LIMIT, 0), vec![]);
    assert!(!w.can_tick());
    w.player.pos.x = COORD_LIMIT - 400_000;
    assert!(w.can_tick());
    w.fruits.push(fruit_pos(0, -COORD_LIMIT));
    assert!(!w.can_tick());
    w.fruits.clear();
    w.score = u64::MAX;
    assert!(w.can_tick());
    w.fruits.push(fruit_at(0));
    assert!(!w.can_tick());
}
