use vstd::prelude::*;
use crate::actor::actor::{Actor, ActorState, ActorView};
use crate::actor::component::{Component, ComponentBase};
use crate::actor::game::Game;
use crate::actor::fixed::{Fixed, SCALE, in_range};
use crate::actor::random::Random;
use crate::actor::trig::{HALF_PI_RAW, cosine, lemma_sine_cosine_unit, lemma_sine_range, sine};
use crate::actor::vector2::{int_sqrt, lemma_int_sqrt};
use crate::actor::sprite_component::SpriteComponent;
use crate::actor::texture::TextureManager;

verus! {

/// Raw speed of an asteroid: 150 units per second.
pub const ASTEROID_SPEED: i64 = 150_000_000;

/// Tumbles at a speed fixed when it was made, and drifts along its heading.
#[derive(Clone, Debug)]
pub struct Asteroid {
    pub base: ComponentBase,
    /// Radians per second.
    pub rotation_speed: Fixed,
    pub sprite: SpriteComponent,
}

impl Asteroid {
    /// Whether this is an asteroid as `with_rotation_speed` makes it.
    pub open spec fn is_new(self, rotation_speed: Fixed, texture_manager: TextureManager) -> bool {
        &&& self.base.owner is None
        &&& self.rotation_speed == rotation_speed
        &&& self.sprite.is_new("Asteroid.png"@, 100, texture_manager)
    }

    /// An asteroid that tumbles at `rotation_speed`.
    pub fn with_rotation_speed(rotation_speed: Fixed, texture_manager: &TextureManager) -> (asteroid:
        Asteroid)
        requires
            texture_manager.wf(),
        ensures
            asteroid.is_new(rotation_speed, *texture_manager),
    {
        Asteroid {
            base: ComponentBase::new(),
            rotation_speed,
            sprite: SpriteComponent::resolved("Asteroid.png", 100, texture_manager),
        }
    }

    /// An asteroid that tumbles at a speed drawn from between a quarter turn
    /// a second one way and a quarter turn a second the other.
    pub fn new(game: &Game) -> (asteroid: Asteroid)
        requires
            game.registry().wf(),
        ensures
            -HALF_PI_RAW <= asteroid.rotation_speed@ <= HALF_PI_RAW,
            asteroid.is_new(asteroid.rotation_speed, game.registry()),
    {
        let rotation_speed = Random::float_range(Fixed::half_pi().neg(), Fixed::half_pi());
        Asteroid::with_rotation_speed(rotation_speed, game.textures())
    }

    /// The owner's state after a frame of `dt` seconds: the heading turns
    /// first, and the step forward follows the new heading. An asteroid that
    /// is not attached leaves the state as it is.
    pub open spec fn drifted(self, dt: Fixed, owner: ActorState) -> ActorState {
        if self.base.owner is Some {
            owner.turned(self.rotation_speed.times(dt)).advanced(
                Fixed::of(ASTEROID_SPEED as int),
                dt,
            )
        } else {
            owner
        }
    }

    /// The component attached to the actor `id`, and its sprite with it.
    pub open spec fn attached_to(self, id: u32) -> Asteroid {
        Asteroid {
            base: ComponentBase { owner: Some(id) },
            sprite: self.sprite.attached_to(id),
            ..self
        }
    }

    /// Record `owner` as the actor that the component belongs to.
    pub fn set_owner(&mut self, owner: &Actor)
        ensures
            *final(self) == old(self).attached_to(owner@.id),
    {
        self.base.set_owner(owner);
        self.sprite.set_owner(owner);
    }

    /// Attach `component` to the actor that owns this one. Without an
    /// owner in `game` nothing happens.
    pub fn add_component(&self, component: Component, game: &mut Game)
        requires
            old(game).wf(),
        ensures
            self.base.has_added(old(game), final(game), component),
    {
        self.base.add_to_owner(component, game);
    }

    /// The owning actor, looked up in `game`.
    pub fn owner<'a>(&self, game: &'a Game) -> (actor: Option<&'a Actor>)
        requires
            game.wf(),
        ensures
            match actor {
                Some(a) => self.base.owner_in(game) == Some(a@),
                None => self.base.owner_in(game) is None,
            },
    {
        self.base.owner(game)
    }

    /// The owning actor, looked up in `game`, to be changed in place.
    pub fn owner_mut<'a>(&self, game: &'a mut Game) -> (actor: Option<&'a mut Actor>)
        requires
            old(game).wf(),
        ensures
            final(game).wf(),
            final(game).same_frame(old(game)),
            final(game).ids() == old(game).ids(),
            match actor {
                Some(a) => {
                    &&& self.base.owner is Some
                    &&& self.base.owner_in(old(game)) == Some(a@)
                    &&& final(game).actors() == old(game).actors().update(
                        old(game).slot(self.base.owner->0),
                        final(a)@,
                    )
                },
                None => self.base.owner_in(old(game)) is None && final(game).actors() == old(
                    game,
                ).actors(),
            },
    {
        self.base.owner_mut(game)
    }

    pub fn update(&mut self, dt: Fixed, owner: &mut ActorState)
        ensures
            *final(self) == *old(self),
            *final(owner) == old(self).drifted(dt, *old(owner)),
    {
        if self.base.is_attached() {
            owner.turn(self.rotation_speed * dt);
            owner.advance(Fixed::from_raw(ASTEROID_SPEED), dt);
        }
    }
}

/// An asteroid that does not tumble drifts 150 units along its heading in a
/// frame of one second: where nothing saturates, its owner keeps the
/// heading `θ` and moves from `p` to `p + 150·(cos θ, sin θ)`, a step whose
/// length is 150 units to within 150 raw units, well within a thousandth.
pub proof fn lemma_asteroid_drifts_straight(asteroid: Asteroid, owner: ActorState)
    requires
        asteroid.base.owner is Some,
        asteroid.rotation_speed@ == 0,
        owner.wf(),
        in_range(owner.position.x@ + 150 * cosine(owner.rotation@)),
        in_range(owner.position.y@ + 150 * sine(owner.rotation@)),
    ensures
        ({
            let after = asteroid.drifted(Fixed::of(SCALE as int), owner);
            let dx = after.position.x@ - owner.position.x@;
            let dy = after.position.y@ - owner.position.y@;
            &&& after.rotation == owner.rotation
            &&& dx == 150 * cosine(owner.rotation@)
            &&& dy == 150 * sine(owner.rotation@)
            &&& 150 * SCALE - 150 <= int_sqrt(dx * dx + dy * dy) <= 150 * SCALE + 150
            &&& after.scale == owner.scale
            &&& after.active == owner.active
        }),
{
    broadcast use Fixed::lemma_of;

    lemma_sine_range(owner.rotation@);
    let turned = owner.turned(asteroid.rotation_speed.times(Fixed::of(SCALE as int)));
    assert(turned.rotation@ == owner.rotation@);
    assert(turned.rotation == owner.rotation) by {
        Fixed::lemma_same(turned.rotation, owner.rotation);
    }
    let c = cosine(owner.rotation@);
    let s = sine(owner.rotation@);
    assert(c * ASTEROID_SPEED == (150 * c) * SCALE) by (nonlinear_arith)
        requires
            ASTEROID_SPEED == 150 * SCALE,
    ;
    assert(s * ASTEROID_SPEED == (150 * s) * SCALE) by (nonlinear_arith)
        requires
            ASTEROID_SPEED == 150 * SCALE,
    ;
    lemma_sine_cosine_unit(owner.rotation@);
    let q = (150 * c) * (150 * c) + (150 * s) * (150 * s);
    assert(q == 22_500 * (s * s + c * c)) by (nonlinear_arith)
        requires
            q == (150 * c) * (150 * c) + (150 * s) * (150 * s),
    ;
    assert(0 <= q);
    lemma_int_sqrt(q);
    let len = int_sqrt(q);
    assert(len <= 150 * SCALE + 150) by (nonlinear_arith)
        requires
            0 <= len,
            len * len <= q,
            q <= 22_500 * (SCALE * SCALE + SCALE),
            SCALE == 1_000_000,
    ;
    assert(len >= 150 * SCALE - 150) by (nonlinear_arith)
        requires
            0 <= len,
            q < (len + 1) * (len + 1),
            q >= 22_500 * (SCALE * SCALE - SCALE),
            SCALE == 1_000_000,
    ;
}

/// The same for the actor that carries the asteroid and nothing else: one
/// update of one second moves an active actor 150 units along its heading,
/// and leaves it active and heading as before.
pub proof fn lemma_asteroid_actor_drifts(actor: ActorView, asteroid: Asteroid)
    requires
        actor.state.active,
        actor.state.wf(),
        actor.components == seq![Component::Asteroid(asteroid)],
        asteroid.base.owner is Some,
        asteroid.rotation_speed@ == 0,
        in_range(actor.state.position.x@ + 150 * cosine(actor.state.rotation@)),
        in_range(actor.state.position.y@ + 150 * sine(actor.state.rotation@)),
    ensures
        ({
            let after = actor.updated(Fixed::of(SCALE as int));
            let dx = after.state.position.x@ - actor.state.position.x@;
            let dy = after.state.position.y@ - actor.state.position.y@;
            &&& after.state.active
            &&& after.state.rotation == actor.state.rotation
            &&& dx == 150 * cosine(actor.state.rotation@)
            &&& dy == 150 * sine(actor.state.rotation@)
            &&& 150 * SCALE - 150 <= int_sqrt(dx * dx + dy * dy) <= 150 * SCALE + 150
        }),
{
    let dt = Fixed::of(SCALE as int);
    lemma_asteroid_drifts_straight(asteroid, actor.state);
    assert(actor.components.len() == 1);
    assert(actor.pass(dt, 0) == actor);
    assert(actor.pass(dt, 1).state == asteroid.drifted(dt, actor.state));
}

} // verus!
