use vstd::prelude::*;
use crate::actor::actor::{Actor, ActorState, ActorView};
use crate::actor::asteroid::Asteroid;
use crate::actor::circle_component::CircleComponent;
use crate::actor::fixed::Fixed;
use crate::actor::game::Game;
use crate::actor::input_component::InputComponent;
use crate::actor::laser::Laser;
use crate::actor::move_component::MoveComponent;
use crate::actor::ship::Ship;
use crate::actor::sprite_component::SpriteComponent;

verus! {

/// The kinds of component that an actor can carry.
#[derive(Clone, Copy, Debug, PartialEq, Eq, Structural)]
pub enum ComponentKind {
    Move,
    Input,
    Circle,
    Sprite,
    Ship,
    Laser,
    Asteroid,
}

/// What every component holds: the handle of the actor that owns it, once
/// it has been attached.
#[derive(Clone, Copy, Debug)]
pub struct ComponentBase {
    pub owner: Option<u32>,
}

impl ComponentBase {
    /// Whether `after` is `before` with `component` attached to the owner
    /// of this component; where this component has no owner in `before`,
    /// whether the two worlds hold the same actors.
    pub open spec fn has_added(self, before: &Game, after: &Game, component: Component) -> bool {
        &&& after.wf()
        &&& after.same_frame(before)
        &&& after.ids() == before.ids()
        &&& after.actors() == match self.owner_in(before) {
            Some(owner) => before.actors().update(
                before.slot(self.owner->0),
                owner.with_component(component),
            ),
            None => before.actors(),
        }
    }

    /// Attach `component` to the actor that owns this component. Without
    /// an owner in `game` nothing happens.
    pub fn add_to_owner(&self, component: Component, game: &mut Game)
        requires
            old(game).wf(),
        ensures
            self.has_added(old(game), final(game), component),
    {
        if let Some(actor) = self.owner_mut(game) {
            actor.add_component(component);
        }
    }

    pub fn new() -> (base: ComponentBase)
        ensures
            base.owner is None,
    {
        ComponentBase { owner: None }
    }

    /// Whether the component has been attached to an actor.
    pub fn is_attached(&self) -> (b: bool)
        ensures
            b == self.owner is Some,
    {
        self.owner.is_some()
    }

    /// Record `owner` as the actor that the component belongs to.
    pub fn set_owner(&mut self, owner: &Actor)
        ensures
            final(self).owner == Some(owner@.id),
    {
        self.owner = Some(owner.id());
    }

    /// The owning actor as `game` holds it: none for a component that is
    /// not attached, and none where the world holds no actor under the
    /// owner's handle.
    pub open spec fn owner_in(self, game: &Game) -> Option<ActorView> {
        match self.owner {
            Some(id) => game.lookup(id),
            None => None,
        }
    }

    /// The owning actor, looked up in `game`.
    pub fn owner<'a>(&self, game: &'a Game) -> (actor: Option<&'a Actor>)
        requires
            game.wf(),
        ensures
            match actor {
                Some(a) => self.owner_in(game) == Some(a@),
                None => self.owner_in(game) is None,
            },
    {
        match self.owner {
            Some(id) => game.get_actor(id),
            None => None,
        }
    }

    /// The owning actor, looked up in `game`, to be changed in place.
    pub fn owner_mut<'a>(&self, game: &'a mut Game) -> (actor: Option<&'a mut Actor>)
        requires
            old(game).wf(),
        ensures
            final(game).wf(),
            final(game).same_frame(old(game)),
            final(game).ids() == old(game).ids(),
            match actor {
                Some(a) => {
                    &&& self.owner is Some
                    &&& self.owner_in(old(game)) == Some(a@)
                    &&& final(game).actors() == old(game).actors().update(
                        old(game).slot(self.owner->0),
                        final(a)@,
                    )
                },
                None => self.owner_in(old(game)) is None && final(game).actors() == old(
                    game,
                ).actors(),
            },
    {
        match self.owner {
            Some(id) => game.get_actor_mut(id),
            None => None,
        }
    }
}

/// A behaviour or a visual that is attached to an actor and updated with it.
#[derive(Clone, Debug)]
pub enum Component {
    Move(MoveComponent),
    Input(InputComponent),
    Circle(CircleComponent),
    Sprite(SpriteComponent),
    Ship(Ship),
    Laser(Laser),
    Asteroid(Asteroid),
}

impl Component {
    /// Which kind of component this is.
    pub open spec fn kind_spec(self) -> ComponentKind {
        match self {
            Component::Move(_) => ComponentKind::Move,
            Component::Input(_) => ComponentKind::Input,
            Component::Circle(_) => ComponentKind::Circle,
            Component::Sprite(_) => ComponentKind::Sprite,
            Component::Ship(_) => ComponentKind::Ship,
            Component::Laser(_) => ComponentKind::Laser,
            Component::Asteroid(_) => ComponentKind::Asteroid,
        }
    }

    pub fn kind(&self) -> (kind: ComponentKind)
        ensures
            kind == self.kind_spec(),
    {
        match self {
            Component::Move(_) => ComponentKind::Move,
            Component::Input(_) => ComponentKind::Input,
            Component::Circle(_) => ComponentKind::Circle,
            Component::Sprite(_) => ComponentKind::Sprite,
            Component::Ship(_) => ComponentKind::Ship,
            Component::Laser(_) => ComponentKind::Laser,
            Component::Asteroid(_) => ComponentKind::Asteroid,
        }
    }

    /// The handle of the owning actor, if the component is attached.
    pub open spec fn owner_id(self) -> Option<u32> {
        match self {
            Component::Move(c) => c.base.owner,
            Component::Input(c) => c.base.owner,
            Component::Circle(c) => c.base.owner,
            Component::Sprite(c) => c.base.owner,
            Component::Ship(c) => c.base.owner,
            Component::Laser(c) => c.base.owner,
            Component::Asteroid(c) => c.base.owner,
        }
    }

    /// The component attached to the actor `id`. A behaviour that owns a
    /// sprite takes its sprite along.
    pub open spec fn attached_to(self, id: u32) -> Component {
        match self {
            Component::Move(c) => Component::Move(c.attached_to(id)),
            Component::Input(c) => Component::Input(c.attached_to(id)),
            Component::Circle(c) => Component::Circle(c.attached_to(id)),
            Component::Sprite(c) => Component::Sprite(c.attached_to(id)),
            Component::Ship(c) => Component::Ship(c.attached_to(id)),
            Component::Laser(c) => Component::Laser(c.attached_to(id)),
            Component::Asteroid(c) => Component::Asteroid(c.attached_to(id)),
        }
    }

    /// The component and its owner's state after a frame of `dt` seconds.
    pub open spec fn updated(self, dt: Fixed, owner: ActorState) -> (Component, ActorState) {
        match self {
            Component::Move(c) => (self, c.moved(dt, owner)),
            Component::Input(_) => (self, owner),
            Component::Circle(_) => (self, owner),
            Component::Sprite(_) => (self, owner),
            Component::Ship(c) => (Component::Ship(c.cooled(dt)), owner),
            Component::Laser(c) => (Component::Laser(c.ticked(dt)), c.flown(dt, owner)),
            Component::Asteroid(c) => (self, c.drifted(dt, owner)),
        }
    }

    /// The sprite that the renderer shows for this component: the component
    /// itself if it is a sprite, the sprite that a behaviour owns, and none
    /// for the rest.
    pub open spec fn drawable_spec(self) -> Option<SpriteComponent> {
        match self {
            Component::Sprite(c) => Some(c),
            Component::Ship(c) => Some(c.sprite),
            Component::Laser(c) => Some(c.sprite),
            Component::Asteroid(c) => Some(c.sprite),
            _ => None,
        }
    }

    /// Advance the component, and through it the owner's state, by one
    /// frame of `dt` seconds.
    pub fn update(&mut self, dt: Fixed, owner: &mut ActorState)
        ensures
            (*final(self), *final(owner)) == old(self).updated(dt, *old(owner)),
    {
        match self {
            Component::Move(c) => c.update(dt, owner),
            Component::Input(c) => c.update(dt, owner),
            Component::Circle(c) => c.update(dt, owner),
            Component::Sprite(c) => c.update(dt, owner),
            Component::Ship(c) => c.update(dt, owner),
            Component::Laser(c) => c.update(dt, owner),
            Component::Asteroid(c) => c.update(dt, owner),
        }
    }

    /// Called once before the first update; no kind has anything to set up.
    pub fn start(&mut self)
        ensures
            *final(self) == *old(self),
    {
    }

    /// Record `owner` as the actor that the component belongs to.
    pub fn set_owner(&mut self, owner: &Actor)
        ensures
            *final(self) == old(self).attached_to(owner@.id),
    {
        match self {
            Component::Move(c) => c.set_owner(owner),
            Component::Input(c) => c.set_owner(owner),
            Component::Circle(c) => c.set_owner(owner),
            Component::Sprite(c) => c.set_owner(owner),
            Component::Ship(c) => c.set_owner(owner),
            Component::Laser(c) => c.set_owner(owner),
            Component::Asteroid(c) => c.set_owner(owner),
        }
    }

    /// What every kind of component holds.
    pub open spec fn base_spec(self) -> ComponentBase {
        ComponentBase { owner: self.owner_id() }
    }

    pub fn base(&self) -> (base: ComponentBase)
        ensures
            base == self.base_spec(),
    {
        match self {
            Component::Move(c) => c.base,
            Component::Input(c) => c.base,
            Component::Circle(c) => c.base,
            Component::Sprite(c) => c.base,
            Component::Ship(c) => c.base,
            Component::Laser(c) => c.base,
            Component::Asteroid(c) => c.base,
        }
    }

    /// The owning actor, looked up in `game`.
    pub fn owner<'a>(&self, game: &'a Game) -> (actor: Option<&'a Actor>)
        requires
            game.wf(),
        ensures
            match actor {
                Some(a) => self.base_spec().owner_in(game) == Some(a@),
                None => self.base_spec().owner_in(game) is None,
            },
    {
        self.base().owner(game)
    }

    /// The owning actor, looked up in `game`, to be changed in place.
    pub fn owner_mut<'a>(&self, game: &'a mut Game) -> (actor: Option<&'a mut Actor>)
        requires
            old(game).wf(),
        ensures
            final(game).wf(),
            final(game).same_frame(old(game)),
            final(game).ids() == old(game).ids(),
            match actor {
                Some(a) => {
                    &&& self.owner_id() is Some
                    &&& self.base_spec().owner_in(old(game)) == Some(a@)
                    &&& final(game).actors() == old(game).actors().update(
                        old(game).slot(self.owner_id()->0),
                        final(a)@,
                    )
                },
                None => self.base_spec().owner_in(old(game)) is None && final(game).actors()
                    == old(game).actors(),
            },
    {
        self.base().owner_mut(game)
    }

    pub fn drawable(&self) -> (sprite: Option<&SpriteComponent>)
        ensures
            match sprite {
                Some(s) => self.drawable_spec() == Some(*s),
                None => self.drawable_spec() is None,
            },
    {
        match self {
            Component::Sprite(c) => Some(c),
            Component::Ship(c) => Some(&c.sprite),
            Component::Laser(c) => Some(&c.sprite),
            Component::Asteroid(c) => Some(&c.sprite),
            _ => None,
        }
    }
}

} // verus!
