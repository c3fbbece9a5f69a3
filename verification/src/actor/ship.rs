use vstd::prelude::*;
use crate::actor::actor::{Actor, ActorState};
use crate::actor::component::{Component, ComponentBase};
use crate::actor::game::Game;
use crate::actor::fixed::{Fixed, elapsed, lemma_elapsed_grows};
use crate::actor::sprite_component::SpriteComponent;
use crate::actor::texture::TextureManager;

verus! {

/// Raw time between two shots of a ship: half a second.
pub const LASER_COOLDOWN: i64 = 500_000;

/// The player's ship: fires lasers, no faster than its cooldown allows.
#[derive(Clone, Debug)]
pub struct Ship {
    pub base: ComponentBase,
    /// Seconds that must pass between two shots.
    pub laser_cooldown: Fixed,
    /// Seconds until the next shot may be fired; ready when not positive.
    pub laser_cooldown_timer: Fixed,
    pub sprite: SpriteComponent,
}

impl Ship {
    /// Whether this is a ship as `new` makes it.
    pub open spec fn is_new(self, texture_manager: TextureManager) -> bool {
        &&& self.base.owner is None
        &&& self.laser_cooldown@ == LASER_COOLDOWN
        &&& self.laser_cooldown_timer@ == 0
        &&& self.sprite.is_new("Ship.png"@, 100, texture_manager)
    }

    pub fn new(texture_manager: &TextureManager) -> (ship: Ship)
        requires
            texture_manager.wf(),
        ensures
            ship.is_new(*texture_manager),
    {
        Ship {
            base: ComponentBase::new(),
            laser_cooldown: Fixed::from_raw(LASER_COOLDOWN),
            laser_cooldown_timer: Fixed::zero(),
            sprite: SpriteComponent::resolved("Ship.png", 100, texture_manager),
        }
    }

    /// Whether the ship may fire.
    pub open spec fn ready(self) -> bool {
        self.laser_cooldown_timer@ <= 0
    }

    /// The ship after a frame of `dt` seconds: a running timer has run down
    /// by `dt`; a timer that has run out stays where it is, and so does a
    /// ship that is not attached.
    pub open spec fn cooled(self, dt: Fixed) -> Ship {
        if self.base.owner is Some && self.laser_cooldown_timer@ > 0 {
            Ship { laser_cooldown_timer: self.laser_cooldown_timer.minus(dt), ..self }
        } else {
            self
        }
    }

    /// The ship right after a shot: the timer is wound up to the cooldown.
    pub open spec fn rearmed(self) -> Ship {
        Ship { laser_cooldown_timer: self.laser_cooldown, ..self }
    }

    /// The ship after the first `n` of `frames`, each a frame length in
    /// seconds.
    pub open spec fn after_frames(self, frames: Seq<Fixed>, n: nat) -> Ship
        decreases n,
    {
        if n == 0 {
            self
        } else {
            self.after_frames(frames, (n - 1) as nat).cooled(frames[n - 1])
        }
    }

    /// The component attached to the actor `id`, and its sprite with it.
    pub open spec fn attached_to(self, id: u32) -> Ship {
        Ship {
            base: ComponentBase { owner: Some(id) },
            sprite: self.sprite.attached_to(id),
            ..self
        }
    }

    /// Record `owner` as the actor that the component belongs to.
    pub fn set_owner(&mut self, owner: &Actor)
        ensures
            *final(self) == old(self).attached_to(owner@.id),
    {
        self.base.set_owner(owner);
        self.sprite.set_owner(owner);
    }

    /// Attach `component` to the actor that owns this one. Without an
    /// owner in `game` nothing happens.
    pub fn add_component(&self, component: Component, game: &mut Game)
        requires
            old(game).wf(),
        ensures
            self.base.has_added(old(game), final(game), component),
    {
        self.base.add_to_owner(component, game);
    }

    /// The owning actor, looked up in `game`.
    pub fn owner<'a>(&self, game: &'a Game) -> (actor: Option<&'a Actor>)
        requires
            game.wf(),
        ensures
            match actor {
                Some(a) => self.base.owner_in(game) == Some(a@),
                None => self.base.owner_in(game) is None,
            },
    {
        self.base.owner(game)
    }

    /// The owning actor, looked up in `game`, to be changed in place.
    pub fn owner_mut<'a>(&self, game: &'a mut Game) -> (actor: Option<&'a mut Actor>)
        requires
            old(game).wf(),
        ensures
            final(game).wf(),
            final(game).same_frame(old(game)),
            final(game).ids() == old(game).ids(),
            match actor {
                Some(a) => {
                    &&& self.base.owner is Some
                    &&& self.base.owner_in(old(game)) == Some(a@)
                    &&& final(game).actors() == old(game).actors().update(
                        old(game).slot(self.base.owner->0),
                        final(a)@,
                    )
                },
                None => self.base.owner_in(old(game)) is None && final(game).actors() == old(
                    game,
                ).actors(),
            },
    {
        self.base.owner_mut(game)
    }

    /// Whether a shot goes off in `game`: the ship is ready and its owner
    /// is in the world.
    pub open spec fn fires(self, game: &Game) -> bool {
        self.ready() && self.base.owner_in(game) is Some
    }

    /// Whether `after` and `game_after` are what a call to fire makes of
    /// this ship and of `game`. Where the shot goes off, the timer is wound
    /// up to the cooldown and the world has one more actor, which carries a
    /// new laser at the position and heading of the ship's owner. Where it
    /// does not, neither the ship nor the world has changed.
    pub open spec fn shot(self, game: &Game, after: Ship, game_after: &Game) -> bool {
        if self.fires(game) {
            &&& after == self.rearmed()
            &&& game_after.has_fired(
                game,
                self.base.owner_in(game)->0.state.position,
                self.base.owner_in(game)->0.state.rotation,
            )
        } else {
            &&& after == self
            &&& *game_after == *game
        }
    }

    /// Fire a laser, if the ship is ready and has its owner in `game`: the
    /// world spawns a laser at the owner's position and heading, and the
    /// timer is wound up to the cooldown. Otherwise nothing happens. A shot
    /// that goes off needs a free handle in the world.
    pub fn shoot_laser(&mut self, game: &mut Game)
        requires
            old(game).wf(),
            old(game).registry().wf(),
            old(self).fires(old(game)) ==> old(game).next_id() < u32::MAX,
        ensures
            old(self).shot(old(game), *final(self), final(game)),
    {
        if self.laser_cooldown_timer.le(Fixed::zero()) {
            let aim = match self.owner(game) {
                Some(actor) => Some((actor.position(), actor.rotation())),
                None => None,
            };
            if let Some((pos, rot)) = aim {
                game.create_laser(pos, rot);
                self.laser_cooldown_timer = self.laser_cooldown;
            }
        }
    }

    /// The update only runs the timer down; the ship does not fire on its
    /// own.
    pub fn update(&mut self, dt: Fixed, owner: &mut ActorState)
        ensures
            *final(self) == old(self).cooled(dt),
            *final(owner) == *old(owner),
    {
        if self.base.is_attached() && self.laser_cooldown_timer.gt(Fixed::zero()) {
            self.laser_cooldown_timer = self.laser_cooldown_timer - dt;
        }
    }
}

/// A shot that goes off spawns exactly one laser: where a ready ship with
/// its owner in the world fires, the world keeps every actor it had as it
/// was, the owner among them, and holds one more, under the handle that was
/// next; the new actor is active, stands at the owner's position with the
/// owner's heading, and carries a laser and nothing else; and the ship's
/// timer stands at the cooldown.
pub proof fn lemma_shot_spawns_one_laser(ship: Ship, game: &Game, after: Ship, game_after: &Game)
    requires
        ship.fires(game),
        ship.shot(game, after, game_after),
    ensures
        after.laser_cooldown_timer == ship.laser_cooldown,
        game_after.ids() == game.ids().push(game.next_id()),
        game_after.actors().len() == game.actors().len() + 1,
        forall|i: int| 0 <= i < game.actors().len() ==> game_after.actors()[i] == game.actors()[i],
        ({
            let owner = ship.base.owner_in(game)->0;
            let spawned = game_after.actors().last();
            &&& spawned.id == game.next_id()
            &&& spawned.state.active
            &&& spawned.state.position == owner.state.position
            &&& spawned.state.rotation == owner.state.rotation
            &&& spawned.components.len() == 1
            &&& spawned.components[0] is Laser
        }),
{
}

/// A ship fires once per cooldown. After a shot and `n` frames of
/// non-negative length, a further call to fire is refused while the time
/// elapsed is short of the cooldown: it leaves the world and the timer as
/// they are. Once the time elapsed has reached the cooldown, the call
/// spawns one more laser at the position and heading that the owner then
/// has, and winds the timer up again.
pub proof fn lemma_fires_once_per_cooldown(
    ship: Ship,
    frames: Seq<Fixed>,
    n: nat,
    game: &Game,
    after: Ship,
    game_after: &Game,
)
    requires
        ship.base.owner is Some,
        ship.laser_cooldown.wf(),
        n <= frames.len(),
        forall|i: int| 0 <= i < frames.len() ==> (#[trigger] frames[i]).wf() && frames[i]@ >= 0,
        ship.rearmed().after_frames(frames, n).shot(game, after, game_after),
    ensures
        elapsed(frames, n) < ship.laser_cooldown@ ==> {
            &&& after == ship.rearmed().after_frames(frames, n)
            &&& *game_after == *game
        },
        elapsed(frames, n) >= ship.laser_cooldown@ && ship.base.owner_in(game) is Some ==> {
            &&& after.laser_cooldown_timer == ship.laser_cooldown
            &&& game_after.ids() == game.ids().push(game.next_id())
            &&& game_after.actors().len() == game.actors().len() + 1
            &&& game_after.actors().last().state.position == ship.base.owner_in(
                game,
            )->0.state.position
            &&& game_after.actors().last().state.rotation == ship.base.owner_in(
                game,
            )->0.state.rotation
            &&& game_after.actors().last().components[0] is Laser
        },
{
    lemma_ship_cooldown(ship, frames, n);
    let cooled = ship.rearmed().after_frames(frames, n);
    if elapsed(frames, n) >= ship.laser_cooldown@ && ship.base.owner_in(game) is Some {
        lemma_shot_spawns_one_laser(cooled, game, after, game_after);
    }
}

/// A ship that has just fired is ready again exactly when the time elapsed
/// since the shot has reached its cooldown: over `n` frames of non-negative
/// length, no second shot goes off before that, and one can from then on.
pub proof fn lemma_ship_cooldown(ship: Ship, frames: Seq<Fixed>, n: nat)
    requires
        ship.base.owner is Some,
        ship.laser_cooldown.wf(),
        n <= frames.len(),
        forall|i: int| 0 <= i < frames.len() ==> (#[trigger] frames[i]).wf() && frames[i]@ >= 0,
    ensures
        ship.rearmed().after_frames(frames, n).ready() == (elapsed(frames, n)
            >= ship.laser_cooldown@),
        ship.rearmed().after_frames(frames, n).laser_cooldown == ship.laser_cooldown,
        ship.rearmed().after_frames(frames, n).base == ship.base,
{
    lemma_ship_timer(ship, frames, n);
}

/// While the timer of a ship that has just fired runs, it stands at the
/// cooldown less the time elapsed; once it has run out, the time elapsed has
/// reached the cooldown.
proof fn lemma_ship_timer(ship: Ship, frames: Seq<Fixed>, n: nat)
    requires
        ship.base.owner is Some,
        ship.laser_cooldown.wf(),
        n <= frames.len(),
        forall|i: int| 0 <= i < frames.len() ==> (#[trigger] frames[i]).wf() && frames[i]@ >= 0,
    ensures
        ({
            let after = ship.rearmed().after_frames(frames, n);
            &&& after.laser_cooldown == ship.laser_cooldown
            &&& after.base == ship.base
            &&& after.laser_cooldown_timer.wf()
            &&& after.laser_cooldown_timer@ > 0 ==> after.laser_cooldown_timer@
                == ship.laser_cooldown@ - elapsed(frames, n)
            &&& after.laser_cooldown_timer@ <= 0 ==> elapsed(frames, n) >= ship.laser_cooldown@
        }),
    decreases n,
{
    broadcast use Fixed::lemma_of;

    if n > 0 {
        lemma_ship_timer(ship, frames, (n - 1) as nat);
        lemma_elapsed_grows(frames, (n - 1) as nat, n);
    }
}

} // verus!
