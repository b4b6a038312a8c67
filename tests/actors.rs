use falling_boys::actors::fruit::{create_fruit, create_fruits, fruit_at, FALLING_SPEED};
use falling_boys::actors::player::{create_player, player_handle_input, PLAYER_BBOX};
use falling_boys::actors::{kill, Actor, ActorType};
use falling_boys::controls::{handle_left, handle_release, handle_right, InputState};
use falling_boys::geometry::{Point2, Vector2};
use falling_boys::physics::update_actor_position;
use falling_boys::util::world_to_screen_coords;
use falling_boys::world::TICK_MICROS;

#[test]
fn player_starts_centred_on_the_bottom() {
    let p = create_player(1_200_000, 800_000);
    assert_eq!(p.tag, ActorType::Player);
    assert_eq!(p.pos, Point2::new(600_000, 765_000));
    assert_eq!(p.velocity, Vector2::new(0, 0));
    assert_eq!(p.bbox_size, PLAYER_BBOX);
    assert_eq!(p.life, 1);
    assert_eq!(p.speed, 10_000);
    assert!(p.alive());
}

#[test]
fn fruit_at_a_column() {
    let f = fruit_at(600_000);
    assert_eq!(f.tag, ActorType::Fruit);
    assert_eq!(f.pos, Point2::new(600_000, 0));
    assert_eq!(f.velocity, Vector2::new(0, FALLING_SPEED));
    assert_eq!(f.bbox_size, 2_000);
    assert_eq!(f.life, 1);
    assert_eq!(f.speed, 100_000);
}

#[test]
fn random_fruit_stays_on_the_screen() {
    for _ in 0..200 {
        let f = create_fruit(3, 800_000);
        assert!(0 <= f.pos.x && f.pos.x < 3);
        assert_eq!(f, fruit_at(f.pos.x));
    }
}

#[test]
fn fruit_on_a_screen_of_no_width() {
    assert_eq!(create_fruit(0, 800_000), fruit_at(0));
}

#[test]
fn several_fruit_at_once() {
    let fs = create_fruits(5, 1_200_000, 800_000);
    assert_eq!(fs.len(), 5);
    for f in &fs {
        assert!(0 <= f.pos.x && f.pos.x < 1_200_000);
        assert_eq!(*f, fruit_at(f.pos.x));
    }
    assert!(create_fruits(0, 1_200_000, 800_000).is_empty());
}

#[test]
fn killed_actor_is_dead() {
    let f = kill(fruit_at(5));
    assert_eq!(f.life, 0);
    assert!(!f.alive());
    assert_eq!(f.pos, Point2::new(5, 0));
}

#[test]
fn input_starts_at_rest() {
    assert_eq!(InputState::default().xaxis, 0);
}

#[test]
fn input_pushes_horizontal_velocity() {
    let mut p = create_player(1_200_000, 800_000);
    let input = InputState { xaxis: 10_000 };
    player_handle_input(&mut p, &input, TICK_MICROS);
    assert_eq!(p.velocity, Vector2::new(20_000, 0));
    player_handle_input(&mut p, &input, TICK_MICROS);
    assert_eq!(p.velocity, Vector2::new(40_000, 0));
}

#[test]
fn left_key_stops_rightward_motion_first() {
    let mut p: Actor = create_player(1_200_000, 800_000);
    p.velocity = Vector2::new(50_000, 0);
    let mut input = InputState::default();
    handle_left(&mut p, &mut input);
    assert_eq!(p.velocity.x, 0);
    assert_eq!(input.xaxis, -10_000);
    player_handle_input(&mut p, &input, TICK_MICROS);
    assert_eq!(p.velocity, Vector2::new(-20_000, 0));
    update_actor_position(&mut p, TICK_MICROS);
    assert_eq!(p.pos, Point2::new(600_000 - 333, 765_000));
}

#[test]
fn left_key_keeps_leftward_motion() {
    let mut p = create_player(1_200_000, 800_000);
    p.velocity = Vector2::new(-50_000, 0);
    let mut input = InputState::default();
    handle_left(&mut p, &mut input);
    assert_eq!(p.velocity.x, -50_000);
    assert_eq!(input.xaxis, -10_000);
}

#[test]
fn right_key_stops_leftward_motion_first() {
    let mut p = create_player(1_200_000, 800_000);
    p.velocity = Vector2::new(-50_000, 7);
    let mut input = InputState::default();
    handle_right(&mut p, &mut input);
    assert_eq!(p.velocity, Vector2::new(0, 7));
    assert_eq!(input.xaxis, 10_000);
    handle_release(&mut input);
    assert_eq!(input.xaxis, 0);
}

#[test]
fn right_key_keeps_rightward_motion() {
    let mut p = create_player(1_200_000, 800_000);
    p.velocity = Vector2::new(50_000, 0);
    let mut input = InputState::default();
    handle_right(&mut p, &mut input);
    assert_eq!(p.velocity.x, 50_000);
}

#[test]
fn screen_coordinates_flip_and_shift() {
    let r = world_to_screen_coords(1_200_000, 800_000, Point2::new(0, 0));
    assert_eq!(r, Point2::new(600_000, 400_000));
    let r = world_to_screen_coords(1_200_000, 800_000, Point2::new(-100_000, 300_000));
    assert_eq!(r, Point2::new(500_000, 100_000));
}
