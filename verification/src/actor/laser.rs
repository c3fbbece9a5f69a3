use vstd::prelude::*;
use crate::actor::actor::{Actor, ActorState};
use crate::actor::component::{Component, ComponentBase};
use crate::actor::game::Game;
use crate::actor::fixed::{Fixed, LIMIT, elapsed, lemma_elapsed_grows};
use crate::actor::sprite_component::SpriteComponent;
use crate::actor::texture::TextureManager;

verus! {

/// Raw lifetime of a laser: one second.
pub const LASER_LIFETIME: i64 = 1_000_000;

/// Raw speed of a laser: 800 units per second.
pub const LASER_SPEED: i64 = 800_000_000;

/// Flies straight ahead and puts its owner out of action when its time is up.
#[derive(Clone, Debug)]
pub struct Laser {
    pub base: ComponentBase,
    /// Seconds left to live.
    pub death_timer: Fixed,
    pub forward_speed: Fixed,
    pub sprite: SpriteComponent,
}

impl Laser {
    /// Whether this is a laser as `new` makes it.
    pub open spec fn is_new(self, texture_manager: TextureManager) -> bool {
        &&& self.base.owner is None
        &&& self.death_timer@ == LASER_LIFETIME
        &&& self.forward_speed@ == LASER_SPEED
        &&& self.sprite.is_new("Laser.png"@, 100, texture_manager)
    }

    pub fn new(texture_manager: &TextureManager) -> (laser: Laser)
        requires
            texture_manager.wf(),
        ensures
            laser.is_new(*texture_manager),
    {
        Laser {
            base: ComponentBase::new(),
            death_timer: Fixed::from_raw(LASER_LIFETIME),
            forward_speed: Fixed::from_raw(LASER_SPEED),
            sprite: SpriteComponent::resolved("Laser.png", 100, texture_manager),
        }
    }

    /// The laser after a frame of `dt` seconds: the timer has run down by
    /// `dt`. A laser that is not attached stays as it is.
    pub open spec fn ticked(self, dt: Fixed) -> Laser {
        if self.base.owner is Some {
            Laser { death_timer: self.death_timer.minus(dt), ..self }
        } else {
            self
        }
    }

    /// The owner's state after a frame of `dt` seconds: it has moved along
    /// its heading, and it is out of action if the timer has run out in this
    /// very frame. A laser that is not attached leaves the state as it is.
    pub open spec fn flown(self, dt: Fixed, owner: ActorState) -> ActorState {
        if self.base.owner is Some {
            let moved = owner.advanced(self.forward_speed, dt);
            if self.death_timer.minus(dt)@ <= 0 {
                ActorState { active: false, ..moved }
            } else {
                moved
            }
        } else {
            owner
        }
    }

    /// The laser and its owner's state after the first `n` of `frames`, each
    /// a frame length in seconds.
    pub open spec fn after_frames(self, owner: ActorState, frames: Seq<Fixed>, n: nat) -> (
        Laser,
        ActorState,
    )
        decreases n,
    {
        if n == 0 {
            (self, owner)
        } else {
            let (laser, state) = self.after_frames(owner, frames, (n - 1) as nat);
            (laser.ticked(frames[n - 1]), laser.flown(frames[n - 1], state))
        }
    }

    /// The component attached to the actor `id`, and its sprite with it.
    pub open spec fn attached_to(self, id: u32) -> Laser {
        Laser {
            base: ComponentBase { owner: Some(id) },
            sprite: self.sprite.attached_to(id),
            ..self
        }
    }

    /// Record `owner` as the actor that the component belongs to.
    pub fn set_owner(&mut self, owner: &Actor)
        ensures
            *final(self) == old(self).attached_to(owner@.id),
    {
        self.base.set_owner(owner);
        self.sprite.set_owner(owner);
    }

    /// Attach `component` to the actor that owns this one. Without an
    /// owner in `game` nothing happens.
    pub fn add_component(&self, component: Component, game: &mut Game)
        requires
            old(game).wf(),
        ensures
            self.base.has_added(old(game), final(game), component),
    {
        self.base.add_to_owner(component, game);
    }

    /// The owning actor, looked up in `game`.
    pub fn owner<'a>(&self, game: &'a Game) -> (actor: Option<&'a Actor>)
        requires
            game.wf(),
        ensures
            match actor {
                Some(a) => self.base.owner_in(game) == Some(a@),
                None => self.base.owner_in(game) is None,
            },
    {
        self.base.owner(game)
    }

    /// The owning actor, looked up in `game`, to be changed in place.
    pub fn owner_mut<'a>(&self, game: &'a mut Game) -> (actor: Option<&'a mut Actor>)
        requires
            old(game).wf(),
        ensures
            final(game).wf(),
            final(game).same_frame(old(game)),
            final(game).ids() == old(game).ids(),
            match actor {
                Some(a) => {
                    &&& self.base.owner is Some
                    &&& self.base.owner_in(old(game)) == Some(a@)
                    &&& final(game).actors() == old(game).actors().update(
                        old(game).slot(self.base.owner->0),
                        final(a)@,
                    )
                },
                None => self.base.owner_in(old(game)) is None && final(game).actors() == old(
                    game,
                ).actors(),
            },
    {
        self.base.owner_mut(game)
    }

    pub fn update(&mut self, dt: Fixed, owner: &mut ActorState)
        ensures
            *final(self) == old(self).ticked(dt),
            *final(owner) == old(self).flown(dt, *old(owner)),
    {
        if self.base.is_attached() {
            self.death_timer = self.death_timer - dt;
            owner.advance(self.forward_speed, dt);
            if self.death_timer.le(Fixed::zero()) {
                owner.active = false;
            }
        }
    }
}

/// A laser puts its owner out of action in the first frame in which the time
/// elapsed reaches its lifetime, and not before: after `n` frames of
/// non-negative length the timer stands at the lifetime less the time
/// elapsed, and an owner that was active is still active exactly if that
/// time is short of the lifetime.
pub proof fn lemma_laser_expires(laser: Laser, owner: ActorState, frames: Seq<Fixed>, n: nat)
    requires
        laser.base.owner is Some,
        laser.death_timer.wf(),
        owner.active,
        n <= frames.len(),
        forall|i: int| 0 <= i < frames.len() ==> (#[trigger] frames[i]).wf() && frames[i]@ >= 0,
        elapsed(frames, n) <= laser.death_timer@ + LIMIT,
    ensures
        ({
            let (after, state) = laser.after_frames(owner, frames, n);
            &&& after.death_timer@ == laser.death_timer@ - elapsed(frames, n)
            &&& after.base == laser.base
            &&& state.active == (n == 0 || elapsed(frames, n) < laser.death_timer@)
        }),
    decreases n,
{
    broadcast use Fixed::lemma_of;

    if n > 0 {
        lemma_elapsed_grows(frames, (n - 1) as nat, n);
        lemma_laser_expires(laser, owner, frames, (n - 1) as nat);
        if n > 1 {
            lemma_elapsed_grows(frames, 1, (n - 1) as nat);
        }
    }
}

} // verus!
