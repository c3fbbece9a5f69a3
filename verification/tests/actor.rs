use actor_game::actor::actor::{Actor, ActorState};
use actor_game::actor::circle_component::CircleComponent;
use actor_game::actor::component::{Component, ComponentKind};
use actor_game::actor::fixed::Fixed;
use actor_game::actor::input_component::{InputComponent, Key};
use actor_game::actor::laser::Laser;
use actor_game::actor::move_component::MoveComponent;
use actor_game::actor::ship::Ship;
use actor_game::actor::sprite_component::SpriteComponent;
use actor_game::actor::texture::TextureManager;
use actor_game::actor::vector2::Vector2;

fn raw(x: i64) -> Fixed {
    Fixed::from_raw(x)
}

fn at(x: i64, y: i64) -> Vector2 {
    Vector2::new(raw(x), raw(y))
}

#[test]
fn new_actor_has_the_default_transform_and_no_components() {
    let actor = Actor::new(9);
    assert_eq!(actor.id(), 9);
    assert_eq!(actor.position(), Vector2::zero());
    assert_eq!(actor.rotation(), Fixed::zero());
    assert_eq!(actor.scale(), Vector2::one());
    assert!(actor.is_active());
    assert_eq!(actor.component_count(), 0);
    assert_eq!(actor.state(), ActorState::new());
}

#[test]
fn actor_transform_accessors() {
    let mut actor = Actor::new(1);
    actor.set_position(at(1, 2));
    actor.set_rotation(raw(3));
    actor.set_scale(at(4, 5));
    actor.set_active(false);
    assert_eq!(actor.position(), at(1, 2));
    assert_eq!(actor.rotation().raw(), 3);
    assert_eq!(actor.scale(), at(4, 5));
    assert!(!actor.is_active());
    actor.set_active(true);
    assert!(actor.is_active());
    assert_eq!(actor.id(), 1);
}

#[test]
fn add_component_appends_and_sets_the_owner() {
    let mut actor = Actor::new(3);
    actor.add_component(Component::Circle(CircleComponent::new(raw(1))));
    actor.add_component(Component::Move(MoveComponent::new(raw(2), raw(3))));
    assert_eq!(actor.component_count(), 2);
    let circle = actor.get_component(ComponentKind::Circle).unwrap();
    assert_eq!(circle.base().owner, Some(3));
    let movement = actor.get_component(ComponentKind::Move).unwrap();
    assert_eq!(movement.base().owner, Some(3));
}

#[test]
fn get_component_without_a_sprite_is_empty() {
    let mut actor = Actor::new(1);
    assert!(actor.get_component(ComponentKind::Sprite).is_none());
    actor.add_component(Component::Circle(CircleComponent::new(raw(1))));
    assert!(actor.get_component(ComponentKind::Sprite).is_none());
    assert!(actor.get_component_mut(ComponentKind::Sprite).is_none());
}

#[test]
fn get_component_with_one_sprite_returns_it() {
    let textures = TextureManager::new();
    let mut actor = Actor::new(1);
    actor.add_component(Component::Circle(CircleComponent::new(raw(1))));
    actor.add_component(Component::Sprite(SpriteComponent::resolved("only.png", 4, &textures)));
    actor.add_component(Component::Move(MoveComponent::new(raw(2), raw(3))));
    match actor.get_component(ComponentKind::Sprite) {
        Some(Component::Sprite(sprite)) => {
            assert_eq!(sprite.texture_name, "only.png");
            assert_eq!(sprite.draw_order(), 4);
        }
        _ => panic!("the sprite was not found"),
    }
}

#[test]
fn get_component_with_several_sprites_returns_the_first() {
    let textures = TextureManager::new();
    let mut actor = Actor::new(1);
    actor.add_component(Component::Move(MoveComponent::new(raw(2), raw(3))));
    actor.add_component(Component::Sprite(SpriteComponent::resolved("first.png", 1, &textures)));
    actor.add_component(Component::Sprite(SpriteComponent::resolved("second.png", 2, &textures)));
    actor.add_component(Component::Sprite(SpriteComponent::resolved("third.png", 3, &textures)));
    match actor.get_component(ComponentKind::Sprite) {
        Some(Component::Sprite(sprite)) => assert_eq!(sprite.texture_name, "first.png"),
        _ => panic!("the sprite was not found"),
    }
    match actor.get_component_mut(ComponentKind::Sprite) {
        Some(Component::Sprite(sprite)) => assert_eq!(sprite.texture_name, "first.png"),
        _ => panic!("the sprite was not found"),
    }
}

#[test]
fn get_component_mut_changes_the_component_in_place() {
    let mut actor = Actor::new(1);
    actor.add_component(Component::Circle(CircleComponent::new(raw(1))));
    actor.add_component(Component::Circle(CircleComponent::new(raw(2))));
    if let Some(Component::Circle(circle)) = actor.get_component_mut(ComponentKind::Circle) {
        circle.set_radius(raw(10));
    }
    match actor.get_component(ComponentKind::Circle) {
        Some(Component::Circle(circle)) => assert_eq!(circle.radius().raw(), 10),
        _ => panic!("the circle was not found"),
    }
    assert_eq!(actor.component_count(), 2);
}

#[test]
fn update_runs_the_components_in_attachment_order() {
    let mut turn_then_step = Actor::new(1);
    turn_then_step.add_component(Component::Move(MoveComponent::new(Fixed::half_pi(), raw(0))));
    turn_then_step.add_component(Component::Move(MoveComponent::new(raw(0), Fixed::from_int(10))));
    turn_then_step.update(Fixed::one());
    assert_eq!(turn_then_step.rotation().raw(), 1_570_796);
    assert_eq!(turn_then_step.position(), at(0, 10_000_000));

    let mut step_then_turn = Actor::new(2);
    step_then_turn.add_component(Component::Move(MoveComponent::new(raw(0), Fixed::from_int(10))));
    step_then_turn.add_component(Component::Move(MoveComponent::new(Fixed::half_pi(), raw(0))));
    step_then_turn.update(Fixed::one());
    assert_eq!(step_then_turn.rotation().raw(), 1_570_796);
    assert_eq!(step_then_turn.position(), at(10_000_000, 0));
}

#[test]
fn update_of_an_inactive_actor_does_nothing() {
    let textures = TextureManager::new();
    let mut actor = Actor::new(1);
    actor.add_component(Component::Move(MoveComponent::new(Fixed::pi(), Fixed::from_int(300))));
    let mut ship = Ship::new(&textures);
    ship.laser_cooldown_timer = raw(500_000);
    actor.add_component(Component::Ship(ship));
    actor.set_active(false);
    actor.update(Fixed::one());
    assert_eq!(actor.position(), Vector2::zero());
    assert_eq!(actor.rotation(), Fixed::zero());
    match actor.get_component(ComponentKind::Ship) {
        Some(Component::Ship(ship)) => assert_eq!(ship.laser_cooldown_timer.raw(), 500_000),
        _ => panic!("the ship was not found"),
    }
}

#[test]
fn update_finishes_the_pass_in_which_the_actor_goes_out_of_action() {
    let textures = TextureManager::new();
    let mut actor = Actor::new(1);
    actor.add_component(Component::Laser(Laser::new(&textures)));
    actor.add_component(Component::Move(MoveComponent::new(raw(0), Fixed::from_int(10))));
    actor.update(Fixed::one());
    assert!(!actor.is_active());
    assert_eq!(actor.position(), at(810_000_000, 0));
    actor.update(Fixed::one());
    assert_eq!(actor.position(), at(810_000_000, 0));
}

#[test]
fn asteroid_actor_moves_150_units_in_a_second() {
    let textures = TextureManager::new();
    let mut actor = Actor::new(1);
    actor.add_component(Component::Asteroid(
        actor_game::actor::asteroid::Asteroid::with_rotation_speed(Fixed::zero(), &textures),
    ));
    actor.update(Fixed::one());
    assert_eq!(actor.position(), at(150_000_000, 0));
    assert_eq!(actor.rotation(), Fixed::zero());
    assert_eq!(actor.position().length().raw(), 150_000_000);
}

#[test]
fn drawable_is_the_first_sprite_owned_or_attached() {
    let textures = TextureManager::new();
    let mut actor = Actor::new(1);
    assert!(actor.drawable().is_none());
    actor.add_component(Component::Circle(CircleComponent::new(raw(1))));
    assert!(actor.drawable().is_none());
    actor.add_component(Component::Ship(Ship::new(&textures)));
    actor.add_component(Component::Sprite(SpriteComponent::resolved("late.png", 1, &textures)));
    let sprite = actor.drawable().unwrap();
    assert_eq!(sprite.texture_name, "Ship.png");
    assert_eq!(sprite.base.owner, Some(1));
}

fn steered(keys: &[Key], link: Option<usize>) -> (i64, i64) {
    let mut actor = Actor::new(1);
    let mut input = InputComponent::new(Fixed::from_int(300), Fixed::pi());
    if let Some(index) = link {
        input.set_move_component(index);
    }
    actor.add_component(Component::Circle(CircleComponent::new(raw(1))));
    actor.add_component(Component::Move(MoveComponent::new(raw(7), raw(9))));
    actor.add_component(Component::Input(input));
    actor.process_input(keys);
    match actor.get_component(ComponentKind::Move) {
        Some(Component::Move(movement)) => {
            (movement.forward_speed().raw(), movement.angular_speed().raw())
        }
        _ => panic!("the move component was not found"),
    }
}

#[test]
fn process_input_drives_the_linked_move_component() {
    assert_eq!(steered(&[Key::Forward, Key::TurnLeft], Some(1)), (300_000_000, -3_141_592));
    assert_eq!(steered(&[], Some(1)), (0, 0));
}

#[test]
fn process_input_ignores_a_link_that_leads_nowhere() {
    assert_eq!(steered(&[Key::Forward], None), (9, 7));
    assert_eq!(steered(&[Key::Forward], Some(0)), (9, 7));
    assert_eq!(steered(&[Key::Forward], Some(2)), (9, 7));
    assert_eq!(steered(&[Key::Forward], Some(3)), (9, 7));
    assert_eq!(steered(&[Key::Forward], Some(usize::MAX)), (9, 7));
}

#[test]
fn process_input_without_input_component_does_nothing() {
    let mut actor = Actor::new(1);
    actor.add_component(Component::Move(MoveComponent::new(raw(7), raw(9))));
    actor.process_input(&[Key::Forward, Key::TurnRight]);
    match actor.get_component(ComponentKind::Move) {
        Some(Component::Move(movement)) => {
            assert_eq!(movement.forward_speed().raw(), 9);
            assert_eq!(movement.angular_speed().raw(), 7);
        }
        _ => panic!("the move component was not found"),
    }
}
