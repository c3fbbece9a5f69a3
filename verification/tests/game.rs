use actor_game::actor::circle_component::CircleComponent;
use actor_game::actor::component::{Component, ComponentKind};
use actor_game::actor::fixed::Fixed;
use actor_game::actor::game::Game;
use actor_game::actor::input_component::Key;
use actor_game::actor::laser::Laser;
use actor_game::actor::move_component::MoveComponent;
use actor_game::actor::sprite_component::SpriteComponent;
use actor_game::actor::vector2::Vector2;

fn raw(x: i64) -> Fixed {
    Fixed::from_raw(x)
}

fn at(x: i64, y: i64) -> Vector2 {
    Vector2::new(raw(x), raw(y))
}

fn loaded_game() -> Game {
    let mut game = Game::new();
    game.texture_manager.load_texture("Ship.png", Some((64, 64)));
    game.texture_manager.load_texture("Asteroid.png", Some((32, 32)));
    game.texture_manager.load_texture("Laser.png", Some((8, 24)));
    game
}

#[test]
fn new_game_is_running_and_empty() {
    let game = Game::new();
    assert!(game.is_running());
    assert!(game.can_add_actor());
    assert!(game.get_actor(0).is_none());
    assert!(game.get_actor(1).is_none());
    assert_eq!(game.textures().len(), 0);
    assert!(game.generate_output().is_empty());
}

#[test]
fn add_actor_hands_out_rising_handles() {
    let mut game = Game::new();
    assert_eq!(game.add_actor(), 1);
    assert_eq!(game.add_actor(), 2);
    assert_eq!(game.add_actor(), 3);
    for id in 1..=3 {
        let actor = game.get_actor(id).unwrap();
        assert_eq!(actor.id(), id);
        assert_eq!(actor.position(), Vector2::zero());
        assert_eq!(actor.rotation(), Fixed::zero());
        assert_eq!(actor.scale(), Vector2::one());
        assert!(actor.is_active());
        assert_eq!(actor.component_count(), 0);
    }
    assert!(game.get_actor(4).is_none());
}

#[test]
fn handles_are_never_given_out_twice() {
    let mut game = Game::new();
    let first = game.add_actor();
    let second = game.add_actor();
    game.remove_actor(second);
    game.remove_actor(first);
    let third = game.add_actor();
    assert_eq!(third, 3);
    assert!(game.get_actor(first).is_none());
    assert!(game.get_actor(second).is_none());
    assert!(game.get_actor(third).is_some());
}

#[test]
fn remove_actor_takes_out_that_actor_only() {
    let mut game = Game::new();
    for _ in 0..5 {
        game.add_actor();
    }
    for id in 1..=5u32 {
        game.get_actor_mut(id).unwrap().set_rotation(raw(id as i64 * 10));
    }
    game.remove_actor(3);
    assert!(game.get_actor(3).is_none());
    for id in [1u32, 2, 4, 5] {
        assert_eq!(game.get_actor(id).unwrap().rotation().raw(), id as i64 * 10);
    }
    game.remove_actor(1);
    game.remove_actor(5);
    assert!(game.get_actor(1).is_none());
    assert!(game.get_actor(5).is_none());
    assert_eq!(game.get_actor(2).unwrap().rotation().raw(), 20);
    assert_eq!(game.get_actor(4).unwrap().rotation().raw(), 40);
}

#[test]
fn remove_actor_of_a_missing_handle_changes_nothing() {
    let mut game = Game::new();
    game.remove_actor(1);
    let id = game.add_actor();
    game.remove_actor(0);
    game.remove_actor(7);
    assert!(game.get_actor(id).is_some());
    game.remove_actor(id);
    game.remove_actor(id);
    assert!(game.get_actor(id).is_none());
    assert_eq!(game.add_actor(), 2);
}

#[test]
fn get_actor_mut_reaches_the_actor_in_the_world() {
    let mut game = Game::new();
    let a = game.add_actor();
    let b = game.add_actor();
    game.get_actor_mut(b).unwrap().set_position(at(5, 6));
    assert_eq!(game.get_actor(a).unwrap().position(), Vector2::zero());
    assert_eq!(game.get_actor(b).unwrap().position(), at(5, 6));
    assert!(game.get_actor_mut(99).is_none());
}

#[test]
fn shutdown_is_final() {
    let mut game = Game::new();
    let id = game.add_actor();
    assert!(game.is_running());
    game.shutdown();
    assert!(!game.is_running());
    game.shutdown();
    assert!(!game.is_running());
    assert!(game.get_actor(id).is_some());
}

#[test]
fn keys_are_held_once_and_released() {
    let mut game = Game::new();
    let id = game.add_actor();
    game.setup_player_actor(id);
    let speeds = |game: &Game| match game.get_actor(id).unwrap().get_component(ComponentKind::Move) {
        Some(Component::Move(m)) => (m.forward_speed().raw(), m.angular_speed().raw()),
        _ => panic!("the move component was not found"),
    };

    game.handle_keyboard_input(Key::Forward, true);
    game.handle_keyboard_input(Key::Forward, true);
    game.handle_keyboard_input(Key::TurnLeft, true);
    game.process_input();
    assert_eq!(speeds(&game), (300_000_000, -3_141_592));

    game.handle_keyboard_input(Key::Forward, false);
    game.process_input();
    assert_eq!(speeds(&game), (0, -3_141_592));

    game.handle_keyboard_input(Key::Backward, true);
    game.handle_keyboard_input(Key::TurnLeft, false);
    game.handle_keyboard_input(Key::TurnLeft, false);
    game.handle_keyboard_input(Key::TurnRight, true);
    game.process_input();
    assert_eq!(speeds(&game), (-300_000_000, 3_141_592));

    game.handle_keyboard_input(Key::Backward, false);
    game.handle_keyboard_input(Key::TurnRight, false);
    game.handle_keyboard_input(Key::Fire, false);
    game.process_input();
    assert_eq!(speeds(&game), (0, 0));
}

#[test]
fn process_input_reaches_every_actor_with_an_input_component() {
    let mut game = Game::new();
    let first = game.add_actor();
    let plain = game.add_actor();
    let second = game.add_actor();
    game.setup_player_actor(first);
    game.setup_player_actor(second);
    game.get_actor_mut(plain).unwrap().add_component(Component::Move(MoveComponent::new(raw(1), raw(2))));
    game.handle_keyboard_input(Key::Forward, true);
    game.process_input();
    for (id, expected) in [(first, 300_000_000i64), (plain, 2), (second, 300_000_000)] {
        match game.get_actor(id).unwrap().get_component(ComponentKind::Move) {
            Some(Component::Move(m)) => assert_eq!(m.forward_speed().raw(), expected),
            _ => panic!("the move component was not found"),
        }
    }
}

#[test]
fn update_game_updates_every_actor_by_the_frame_length() {
    let mut game = Game::new();
    let a = game.add_actor();
    let b = game.add_actor();
    let c = game.add_actor();
    game.get_actor_mut(a).unwrap().add_component(Component::Move(MoveComponent::new(raw(0), Fixed::from_int(10))));
    game.get_actor_mut(b).unwrap().add_component(Component::Move(MoveComponent::new(raw(0), Fixed::from_int(20))));
    game.get_actor_mut(b).unwrap().set_active(false);
    game.get_actor_mut(c).unwrap().add_component(Component::Move(MoveComponent::new(raw(0), Fixed::from_int(30))));
    game.update_game();
    assert_eq!(game.get_actor(a).unwrap().position(), Vector2::zero());
    game.set_delta_time(raw(500_000));
    game.update_game();
    game.update_game();
    assert_eq!(game.get_actor(a).unwrap().position(), at(10_000_000, 0));
    assert_eq!(game.get_actor(b).unwrap().position(), Vector2::zero());
    assert_eq!(game.get_actor(c).unwrap().position(), at(30_000_000, 0));
}

#[test]
fn laser_actor_goes_out_of_action_on_tick_sixty_three() {
    let mut game = loaded_game();
    let id = game.create_laser(at(0, 0), raw(0));
    game.set_delta_time(raw(16_000));
    for tick in 1..=70 {
        game.update_game();
        let actor = game.get_actor(id).unwrap();
        assert_eq!(actor.is_active(), tick < 63, "tick {}", tick);
        let ticks_flown = if tick < 63 { tick } else { 63 };
        assert_eq!(actor.position(), at(12_800_000 * ticks_flown, 0));
    }
}

#[test]
fn create_laser_spawns_a_laser_actor() {
    let mut game = loaded_game();
    game.add_actor();
    let id = game.create_laser(at(11, 22), raw(33));
    assert_eq!(id, 2);
    let actor = game.get_actor(id).unwrap();
    assert_eq!(actor.position(), at(11, 22));
    assert_eq!(actor.rotation().raw(), 33);
    assert_eq!(actor.scale(), Vector2::one());
    assert!(actor.is_active());
    assert_eq!(actor.component_count(), 1);
    match actor.get_component(ComponentKind::Laser) {
        Some(Component::Laser(laser)) => {
            assert_eq!(laser.base.owner, Some(id));
            assert_eq!(laser.sprite.base.owner, Some(id));
            assert_eq!(laser.death_timer.raw(), 1_000_000);
            assert_eq!(laser.sprite.texture.map(|t| t.id), Some(2));
        }
        _ => panic!("the laser was not found"),
    }
    assert_eq!(game.add_actor(), 3);
}

#[test]
fn create_ship_resolves_the_ship_texture() {
    let game = loaded_game();
    let ship = game.create_ship();
    assert_eq!(ship.sprite.texture.map(|t| (t.id, t.width, t.height)), Some((0, 64, 64)));
    assert_eq!(ship.laser_cooldown.raw(), 500_000);
    let bare = Game::new().create_ship();
    assert_eq!(bare.sprite.texture, None);
}

#[test]
fn setup_player_actor_places_and_equips_the_actor() {
    let mut game = loaded_game();
    let id = game.add_actor();
    game.get_actor_mut(id).unwrap().add_component(Component::Circle(CircleComponent::new(raw(1))));
    game.setup_player_actor(id);
    let actor = game.get_actor(id).unwrap();
    assert_eq!(actor.position(), at(100_000_000, 100_000_000));
    assert_eq!(actor.rotation(), Fixed::zero());
    assert_eq!(actor.scale(), Vector2::one());
    assert!(actor.is_active());
    assert_eq!(actor.component_count(), 5);
    match actor.get_component(ComponentKind::Sprite) {
        Some(Component::Sprite(sprite)) => {
            assert_eq!(sprite.texture_name, "Asteroid.png");
            assert_eq!(sprite.draw_order(), 100);
            assert_eq!(sprite.texture.map(|t| t.id), Some(1));
            assert_eq!(sprite.base.owner, Some(id));
        }
        _ => panic!("the sprite was not found"),
    }
    match actor.get_component(ComponentKind::Move) {
        Some(Component::Move(m)) => {
            assert_eq!(m.angular_speed().raw(), 3_141_592);
            assert_eq!(m.forward_speed().raw(), 300_000_000);
            assert_eq!(m.base.owner, Some(id));
        }
        _ => panic!("the move component was not found"),
    }
    match actor.get_component(ComponentKind::Input) {
        Some(Component::Input(input)) => {
            assert_eq!(input.max_forward_speed.raw(), 300_000_000);
            assert_eq!(input.max_angular_speed.raw(), 3_141_592);
            assert_eq!(input.move_component, Some(2));
        }
        _ => panic!("the input component was not found"),
    }
    match actor.get_component(ComponentKind::Ship) {
        Some(Component::Ship(ship)) => {
            assert_eq!(ship.base.owner, Some(id));
            assert_eq!(ship.sprite.texture.map(|t| t.id), Some(0));
        }
        _ => panic!("the ship was not found"),
    }
}

#[test]
fn setup_player_actor_of_a_missing_handle_changes_nothing() {
    let mut game = loaded_game();
    let id = game.add_actor();
    game.setup_player_actor(id + 1);
    assert_eq!(game.get_actor(id).unwrap().component_count(), 0);
    assert_eq!(game.get_actor(id).unwrap().position(), Vector2::zero());
}

#[test]
fn run_steers_then_updates_then_draws() {
    let mut game = loaded_game();
    let id = game.add_actor();
    game.setup_player_actor(id);
    game.handle_keyboard_input(Key::Forward, true);
    game.set_delta_time(raw(100_000));
    let commands = game.run();
    let actor = game.get_actor(id).unwrap();
    assert_eq!(actor.position(), at(130_000_000, 100_000_000));
    assert_eq!(commands.len(), 1);
    assert_eq!(commands[0].position, at(130_000_000, 100_000_000));
    assert_eq!(commands[0].texture.id, 1);
    assert_eq!(commands[0].draw_order, 100);

    game.handle_keyboard_input(Key::Forward, false);
    game.handle_keyboard_input(Key::TurnRight, true);
    let commands = game.run();
    assert_eq!(commands[0].position, at(130_000_000, 100_000_000));
    assert_eq!(commands[0].rotation.raw(), 314_159);
    assert_eq!(commands[0].scale, Vector2::one());
}

#[test]
fn generate_output_lists_drawable_actors_in_paint_order() {
    let mut game = loaded_game();
    let plain = game.add_actor();
    let laser = game.create_laser(at(1, 1), raw(0));
    let untextured = game.add_actor();
    let sprite_actor = game.add_actor();
    let ship_actor = game.add_actor();
    game.get_actor_mut(plain).unwrap().add_component(Component::Circle(CircleComponent::new(raw(1))));
    let missing = SpriteComponent::resolved("Missing.png", 5, game.textures());
    game.get_actor_mut(untextured).unwrap().add_component(Component::Sprite(missing));
    let sprite = SpriteComponent::resolved("Asteroid.png", -3, game.textures());
    {
        let actor = game.get_actor_mut(sprite_actor).unwrap();
        actor.add_component(Component::Sprite(sprite));
        actor.set_position(at(4, 4));
        actor.set_active(false);
    }
    let ship = game.create_ship();
    {
        let actor = game.get_actor_mut(ship_actor).unwrap();
        actor.add_component(Component::Ship(ship));
        actor.set_position(at(5, 5));
    }
    let commands = game.generate_output();
    let summary: Vec<(u32, i32, Vector2)> =
        commands.iter().map(|c| (c.texture.id, c.draw_order, c.position)).collect();
    assert_eq!(summary, vec![(1, -3, at(4, 4)), (2, 100, at(1, 1)), (0, 100, at(5, 5))]);
}

#[test]
fn generate_output_sorts_by_draw_order_and_keeps_handle_order_among_equals() {
    let mut game = loaded_game();
    let orders = [5, -1, 5, 0, -1, 7, 5, i32::MIN, i32::MAX, 0];
    for (i, order) in orders.iter().enumerate() {
        let id = game.add_actor();
        let sprite = SpriteComponent::resolved("Ship.png", *order, game.textures());
        let actor = game.get_actor_mut(id).unwrap();
        actor.add_component(Component::Sprite(sprite));
        actor.set_position(at(i as i64, 0));
    }
    let commands = game.generate_output();
    let summary: Vec<(i32, i64)> =
        commands.iter().map(|c| (c.draw_order, c.position.x.raw())).collect();
    assert_eq!(
        summary,
        vec![
            (i32::MIN, 7),
            (-1, 1),
            (-1, 4),
            (0, 3),
            (0, 9),
            (5, 0),
            (5, 2),
            (5, 6),
            (7, 5),
            (i32::MAX, 8),
        ]
    );
}

#[test]
fn generate_output_skips_a_removed_actor() {
    let mut game = loaded_game();
    let a = game.create_laser(at(1, 1), raw(0));
    let b = game.create_laser(at(2, 2), raw(0));
    assert_eq!(game.generate_output().len(), 2);
    game.remove_actor(a);
    let commands = game.generate_output();
    assert_eq!(commands.len(), 1);
    assert_eq!(commands[0].position, at(2, 2));
    game.remove_actor(b);
    assert!(game.generate_output().is_empty());
}

#[test]
fn fire_ship_spawns_one_laser_per_cooldown() {
    let mut game = loaded_game();
    let id = game.add_actor();
    game.setup_player_actor(id);
    game.set_delta_time(raw(100_000));

    game.fire_ship(id);
    let laser = game.get_actor(2).unwrap();
    assert_eq!(laser.position(), at(100_000_000, 100_000_000));
    assert_eq!(laser.rotation(), Fixed::zero());
    assert!(laser.get_component(ComponentKind::Laser).is_some());
    assert_eq!(game.get_actor(id).unwrap().component_count(), 4);
    match game.get_actor(id).unwrap().get_component(ComponentKind::Ship) {
        Some(Component::Ship(ship)) => assert_eq!(ship.laser_cooldown_timer.raw(), 500_000),
        _ => panic!("the ship was not found"),
    }

    game.fire_ship(id);
    assert!(game.get_actor(3).is_none());
    for _ in 0..4 {
        game.update_game();
        game.fire_ship(id);
        assert!(game.get_actor(3).is_none());
    }
    game.update_game();
    game.fire_ship(id);
    assert!(game.get_actor(3).is_some());
    assert!(game.get_actor(4).is_none());
    assert_eq!(game.get_actor(2).unwrap().position(), at(500_000_000, 100_000_000));
}

#[test]
fn fire_ship_without_a_ship_does_nothing() {
    let mut game = loaded_game();
    let id = game.add_actor();
    let laser = Laser::new(game.textures());
    game.get_actor_mut(id).unwrap().add_component(Component::Laser(laser));
    game.fire_ship(id);
    game.fire_ship(99);
    assert!(game.get_actor(2).is_none());
    assert_eq!(game.get_actor(id).unwrap().component_count(), 1);
    assert_eq!(game.add_actor(), 2);
}

#[test]
fn world_keeps_actors_that_are_out_of_action() {
    let mut game = loaded_game();
    let id = game.create_laser(at(0, 0), raw(0));
    game.set_delta_time(Fixed::from_int(2));
    game.run();
    assert!(!game.get_actor(id).unwrap().is_active());
    let commands = game.run();
    assert_eq!(commands.len(), 1);
    assert!(game.get_actor(id).is_some());
    game.remove_actor(id);
    assert!(game.get_actor(id).is_none());
    assert!(game.run().is_empty());
}

#[test]
fn held_keys_can_be_asked_for() {
    let mut game = Game::new();
    assert!(!game.is_key_held(Key::Fire));
    game.handle_keyboard_input(Key::Fire, true);
    game.handle_keyboard_input(Key::Forward, true);
    game.handle_keyboard_input(Key::Fire, true);
    assert!(game.is_key_held(Key::Fire));
    assert!(game.is_key_held(Key::Forward));
    assert!(!game.is_key_held(Key::Backward));
    game.handle_keyboard_input(Key::Fire, false);
    assert!(!game.is_key_held(Key::Fire));
    assert!(game.is_key_held(Key::Forward));
    game.handle_keyboard_input(Key::Backward, false);
    assert!(game.is_key_held(Key::Forward));
}

#[test]
fn a_refused_shot_needs_no_free_handle() {
    let mut game = loaded_game();
    let id = game.add_actor();
    game.setup_player_actor(id);
    game.fire_ship(id);
    game.fire_ship(id);
    game.fire_ship(id + 100);
    assert!(game.get_actor(2).is_some());
    assert!(game.get_actor(3).is_none());
}
