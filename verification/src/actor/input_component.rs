use vstd::prelude::*;
use crate::actor::actor::{Actor, ActorState};
use crate::actor::component::ComponentBase;
use crate::actor::game::Game;
use crate::actor::fixed::Fixed;
use crate::actor::move_component::MoveComponent;

verus! {

/// The logical keys that the game reacts to.
#[derive(Clone, Copy, Debug, PartialEq, Eq, Structural)]
pub enum Key {
    Forward,
    Backward,
    TurnLeft,
    TurnRight,
    Fire,
}

/// Whether `key` is among `keys`.
pub fn is_pressed(keys: &[Key], key: Key) -> (b: bool)
    ensures
        b == keys@.contains(key),
{
    let mut i: usize = 0;
    while i < keys.len()
        invariant
            i <= keys.len(),
            forall|j: int| 0 <= j < i ==> keys@[j] != key,
        decreases keys.len() - i,
    {
        if keys[i] == key {
            return true;
        }
        i += 1;
    }
    false
}

/// Turns the pressed keys into the speeds of a sibling move component.
#[derive(Clone, Copy, Debug)]
pub struct InputComponent {
    pub base: ComponentBase,
    pub max_forward_speed: Fixed,
    pub max_angular_speed: Fixed,
    /// The place, among the owner's components, of the move component that
    /// the input drives; `None` until it has been linked.
    pub move_component: Option<usize>,
}

impl InputComponent {
    pub fn new(max_forward_speed: Fixed, max_angular_speed: Fixed) -> (input: InputComponent)
        ensures
            input.base.owner is None,
            input.max_forward_speed == max_forward_speed,
            input.max_angular_speed == max_angular_speed,
            input.move_component is None,
    {
        InputComponent {
            base: ComponentBase::new(),
            max_forward_speed,
            max_angular_speed,
            move_component: None,
        }
    }

    /// Link the move component that stands at `index` among the owner's
    /// components.
    pub fn set_move_component(&mut self, index: usize)
        ensures
            *final(self) == (InputComponent { move_component: Some(index), ..*old(self) }),
    {
        self.move_component = Some(index);
    }

    /// The forward speed that the pressed keys ask for: full speed ahead
    /// while forward is held, else full speed astern while backward is held,
    /// else none.
    pub open spec fn forward_command(self, keys: Seq<Key>) -> Fixed {
        if keys.contains(Key::Forward) {
            self.max_forward_speed
        } else if keys.contains(Key::Backward) {
            self.max_forward_speed.neg_spec()
        } else {
            Fixed::of(0)
        }
    }

    /// The angular speed that the pressed keys ask for: full speed to the
    /// right while turn-right is held, else full speed to the left while
    /// turn-left is held, else none.
    pub open spec fn angular_command(self, keys: Seq<Key>) -> Fixed {
        if keys.contains(Key::TurnRight) {
            self.max_angular_speed
        } else if keys.contains(Key::TurnLeft) {
            self.max_angular_speed.neg_spec()
        } else {
            Fixed::of(0)
        }
    }

    /// The move component after the pressed keys have been applied to it.
    /// An input that has not been linked leaves it as it is.
    pub open spec fn driven(self, keys: Seq<Key>, move_component: MoveComponent) -> MoveComponent {
        if self.move_component is Some {
            MoveComponent {
                forward_speed: self.forward_command(keys),
                angular_speed: self.angular_command(keys),
                ..move_component
            }
        } else {
            move_component
        }
    }

    /// Set the speeds of the linked move component from the pressed keys.
    /// The last state wins: there is no acceleration.
    pub fn process_input(&self, keys: &[Key], move_component: &mut MoveComponent)
        ensures
            *final(move_component) == self.driven(keys@, *old(move_component)),
    {
        if self.move_component.is_some() {
            if is_pressed(keys, Key::Forward) {
                move_component.set_forward_speed(self.max_forward_speed);
            } else if is_pressed(keys, Key::Backward) {
                move_component.set_forward_speed(self.max_forward_speed.neg());
            } else {
                move_component.set_forward_speed(Fixed::zero());
            }
            if is_pressed(keys, Key::TurnRight) {
                move_component.set_angular_speed(self.max_angular_speed);
            } else if is_pressed(keys, Key::TurnLeft) {
                move_component.set_angular_speed(self.max_angular_speed.neg());
            } else {
                move_component.set_angular_speed(Fixed::zero());
            }
        }
    }

    /// The component attached to the actor `id`.
    pub open spec fn attached_to(self, id: u32) -> InputComponent {
        InputComponent { base: ComponentBase { owner: Some(id) }, ..self }
    }

    /// Record `owner` as the actor that the component belongs to.
    pub fn set_owner(&mut self, owner: &Actor)
        ensures
            *final(self) == old(self).attached_to(owner@.id),
    {
        self.base.set_owner(owner);
    }

    /// The owning actor, looked up in `game`.
    pub fn owner<'a>(&self, game: &'a Game) -> (actor: Option<&'a Actor>)
        requires
            game.wf(),
        ensures
            match actor {
                Some(a) => self.base.owner_in(game) == Some(a@),
                None => self.base.owner_in(game) is None,
            },
    {
        self.base.owner(game)
    }

    /// The owning actor, looked up in `game`, to be changed in place.
    pub fn owner_mut<'a>(&self, game: &'a mut Game) -> (actor: Option<&'a mut Actor>)
        requires
            old(game).wf(),
        ensures
            final(game).wf(),
            final(game).same_frame(old(game)),
            final(game).ids() == old(game).ids(),
            match actor {
                Some(a) => {
                    &&& self.base.owner is Some
                    &&& self.base.owner_in(old(game)) == Some(a@)
                    &&& final(game).actors() == old(game).actors().update(
                        old(game).slot(self.base.owner->0),
                        final(a)@,
                    )
                },
                None => self.base.owner_in(old(game)) is None && final(game).actors() == old(
                    game,
                ).actors(),
            },
    {
        self.base.owner_mut(game)
    }

    /// Input is pumped by the world before the update pass; the update
    /// itself does nothing.
    pub fn update(&mut self, dt: Fixed, owner: &mut ActorState)
        ensures
            *final(self) == *old(self),
            *final(owner) == *old(owner),
    {
    }
}

} // verus!
