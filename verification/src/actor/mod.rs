pub mod actor;
pub mod asteroid;
pub mod component;
pub mod circle_component;
pub mod fixed;
pub mod game;
pub mod input_component;
pub mod laser;
pub mod math;
pub mod move_component;
pub mod random;
pub mod ship;
pub mod sprite_component;
pub mod texture;
pub mod trig;
pub mod vector2;

pub use actor::{Actor, ActorState, ActorView};
pub use asteroid::Asteroid;
pub use component::{Component, ComponentBase, ComponentKind};
pub use circle_component::CircleComponent;
pub use fixed::Fixed;
pub use game::Game;
pub use input_component::{InputComponent, Key};
pub use laser::Laser;
pub use math::Math;
pub use move_component::MoveComponent;
pub use random::Random;
pub use ship::Ship;
pub use sprite_component::{DrawCommand, SpriteComponent};
pub use texture::{Texture, TextureManager};
pub use vector2::Vector2;
