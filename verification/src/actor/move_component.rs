use vstd::prelude::*;
use crate::actor::actor::{Actor, ActorState};
use crate::actor::component::ComponentBase;
use crate::actor::game::Game;
use crate::actor::fixed::{Fixed, in_range, lemma_product_by_fraction, product};
use crate::actor::trig::{cosine, lemma_sine_range, sine};

verus! {

/// Turns its owner and moves it along its heading.
#[derive(Clone, Copy, Debug)]
pub struct MoveComponent {
    pub base: ComponentBase,
    /// Radians per second.
    pub angular_speed: Fixed,
    /// Units per second.
    pub forward_speed: Fixed,
}

impl MoveComponent {
    pub fn new(angular_speed: Fixed, forward_speed: Fixed) -> (m: MoveComponent)
        ensures
            m.base.owner is None,
            m.angular_speed == angular_speed,
            m.forward_speed == forward_speed,
    {
        MoveComponent { base: ComponentBase::new(), angular_speed, forward_speed }
    }

    pub fn forward_speed(&self) -> (speed: Fixed)
        ensures
            speed == self.forward_speed,
    {
        self.forward_speed
    }

    pub fn set_forward_speed(&mut self, speed: Fixed)
        ensures
            *final(self) == (MoveComponent { forward_speed: speed, ..*old(self) }),
    {
        self.forward_speed = speed;
    }

    pub fn angular_speed(&self) -> (speed: Fixed)
        ensures
            speed == self.angular_speed,
    {
        self.angular_speed
    }

    pub fn set_angular_speed(&mut self, speed: Fixed)
        ensures
            *final(self) == (MoveComponent { angular_speed: speed, ..*old(self) }),
    {
        self.angular_speed = speed;
    }

    /// The component attached to the actor `id`.
    pub open spec fn attached_to(self, id: u32) -> MoveComponent {
        MoveComponent { base: ComponentBase { owner: Some(id) }, ..self }
    }

    /// Record `owner` as the actor that the component belongs to.
    pub fn set_owner(&mut self, owner: &Actor)
        ensures
            *final(self) == old(self).attached_to(owner@.id),
    {
        self.base.set_owner(owner);
    }

    /// The owning actor, looked up in `game`.
    pub fn owner<'a>(&self, game: &'a Game) -> (actor: Option<&'a Actor>)
        requires
            game.wf(),
        ensures
            match actor {
                Some(a) => self.base.owner_in(game) == Some(a@),
                None => self.base.owner_in(game) is None,
            },
    {
        self.base.owner(game)
    }

    /// The owning actor, looked up in `game`, to be changed in place.
    pub fn owner_mut<'a>(&self, game: &'a mut Game) -> (actor: Option<&'a mut Actor>)
        requires
            old(game).wf(),
        ensures
            final(game).wf(),
            final(game).same_frame(old(game)),
            final(game).ids() == old(game).ids(),
            match actor {
                Some(a) => {
                    &&& self.base.owner is Some
                    &&& self.base.owner_in(old(game)) == Some(a@)
                    &&& final(game).actors() == old(game).actors().update(
                        old(game).slot(self.base.owner->0),
                        final(a)@,
                    )
                },
                None => self.base.owner_in(old(game)) is None && final(game).actors() == old(
                    game,
                ).actors(),
            },
    {
        self.base.owner_mut(game)
    }

    /// The owner's state after one frame of `dt` seconds: the heading turns
    /// first, and the step forward follows the new heading. A component that
    /// is not attached leaves the state as it is.
    pub open spec fn moved(self, dt: Fixed, owner: ActorState) -> ActorState {
        if self.base.owner is Some {
            owner.turned(self.angular_speed.times(dt)).advanced(self.forward_speed, dt)
        } else {
            owner
        }
    }

    pub fn update(&mut self, dt: Fixed, owner: &mut ActorState)
        ensures
            *final(self) == *old(self),
            *final(owner) == old(self).moved(dt, *old(owner)),
    {
        if self.base.is_attached() {
            owner.turn(self.angular_speed * dt);
            owner.advance(self.forward_speed, dt);
        }
    }
}

/// One frame of movement turns first and then steps along the new heading:
/// when nothing saturates, an attached component takes its owner from
/// heading `θ` and position `p` to heading `θ' = θ + ω·dt` and position
/// `p + (cos θ', sin θ')·s·dt`, the products being fixed-point products, and
/// leaves scale and active flag alone.
pub proof fn lemma_move_turns_then_steps(m: MoveComponent, dt: Fixed, owner: ActorState)
    requires
        m.base.owner is Some,
        m.angular_speed.wf(),
        m.forward_speed.wf(),
        dt.wf(),
        owner.wf(),
        in_range(product(m.angular_speed@, dt@)),
        in_range(owner.rotation@ + product(m.angular_speed@, dt@)),
        ({
            let heading = owner.rotation@ + product(m.angular_speed@, dt@);
            let step_x = product(product(cosine(heading), m.forward_speed@), dt@);
            let step_y = product(product(sine(heading), m.forward_speed@), dt@);
            &&& in_range(step_x)
            &&& in_range(step_y)
            &&& in_range(owner.position.x@ + step_x)
            &&& in_range(owner.position.y@ + step_y)
        }),
    ensures
        ({
            let after = m.moved(dt, owner);
            let heading = owner.rotation@ + product(m.angular_speed@, dt@);
            &&& after.rotation@ == heading
            &&& after.position.x@ == owner.position.x@ + product(
                product(cosine(heading), m.forward_speed@),
                dt@,
            )
            &&& after.position.y@ == owner.position.y@ + product(
                product(sine(heading), m.forward_speed@),
                dt@,
            )
            &&& after.scale == owner.scale
            &&& after.active == owner.active
        }),
{
    broadcast use Fixed::lemma_of;

    let turned = owner.turned(m.angular_speed.times(dt));
    let heading = owner.rotation@ + product(m.angular_speed@, dt@);
    assert(turned.rotation@ == heading);
    lemma_sine_range(heading);
    lemma_product_by_fraction(cosine(heading), m.forward_speed@);
    lemma_product_by_fraction(sine(heading), m.forward_speed@);
}

} // verus!
