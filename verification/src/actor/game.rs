use vstd::prelude::*;
use crate::actor::actor::{Actor, ActorState, ActorView, lemma_first_of_kind};
use crate::actor::circle_component::CircleComponent;
use crate::actor::component::{Component, ComponentBase, ComponentKind};
use crate::actor::fixed::Fixed;
use crate::actor::input_component::InputComponent;
use crate::actor::laser::Laser;
use crate::actor::move_component::MoveComponent;
use crate::actor::ship::Ship;
use crate::actor::trig::PI_RAW;
use crate::actor::vector2::Vector2;
use crate::actor::input_component::{Key, is_pressed};
use crate::actor::sprite_component::{
    DrawCommand, SpriteComponent, has_order, is_paint_order_of, lemma_insert_in_paint_order,
};
use crate::actor::texture::TextureManager;

verus! {

/// The world: the owner of every actor and the driver of the frame.
///
/// Actors are kept in the order in which they were made, which is the order
/// of their handles. A handle is never given out twice. An actor that a
/// component has put out of action stays in the world, is skipped by the
/// update pass and is still shown, until `remove_actor` takes it out: the
/// world itself never sweeps.
pub struct Game {
    ids: Vec<u32>,
    actors: Vec<Actor>,
    next_actor_id: u32,
    running: bool,
    delta_time: Fixed,
    pub texture_manager: TextureManager,
    pressed_keys: Vec<Key>,
}

impl Game {
    /// The handles of the actors in the world, in the order of making.
    pub closed spec fn ids(&self) -> Seq<u32> {
        self.ids@
    }

    /// The actors in the world, each at the place of its handle in `ids`.
    pub closed spec fn actors(&self) -> Seq<ActorView> {
        self.actors@.map_values(|actor: Actor| actor@)
    }

    /// The handle that the next actor will get.
    pub closed spec fn next_id(&self) -> u32 {
        self.next_actor_id
    }

    /// Whether the world has not been shut down yet.
    pub closed spec fn running(&self) -> bool {
        self.running
    }

    /// The length of the current frame, in seconds.
    pub closed spec fn delta_time(&self) -> Fixed {
        self.delta_time
    }

    /// The keys that are held down, in the order in which they went down.
    pub closed spec fn pressed_keys(&self) -> Seq<Key> {
        self.pressed_keys@
    }

    /// The registry of loaded textures.
    pub closed spec fn registry(&self) -> TextureManager {
        self.texture_manager
    }

    /// Every actor stands under one handle, handles rise in the order of
    /// making, and all of them lie below the next handle.
    pub open spec fn wf(&self) -> bool {
        &&& self.ids().len() == self.actors().len()
        &&& forall|i: int, j: int| 0 <= i < j < self.ids().len() ==> self.ids()[i] < self.ids()[j]
        &&& forall|i: int| 0 <= i < self.ids().len() ==> self.ids()[i] < self.next_id()
        &&& 1 <= self.next_id()
    }

    /// Whether the world holds an actor under the handle `id`.
    pub open spec fn has(&self, id: u32) -> bool {
        self.ids().contains(id)
    }

    /// The place of the actor with the handle `id`.
    pub open spec fn slot(&self, id: u32) -> int {
        self.ids().index_of(id)
    }

    /// The actor with the handle `id`, if the world holds one.
    pub open spec fn lookup(&self, id: u32) -> Option<ActorView> {
        if self.has(id) {
            Some(self.actors()[self.slot(id)])
        } else {
            None
        }
    }

    /// The draw call for an actor of this world, if it has a sprite that
    /// can be drawn.
    pub open spec fn draw_call(&self, actor: ActorView) -> Option<DrawCommand> {
        match actor.sprite() {
            Some(sprite) => sprite.drawn(self),
            None => None,
        }
    }

    /// The draw calls for the first `n` actors, in the order of their
    /// handles.
    pub open spec fn draw_calls(&self, n: nat) -> Seq<DrawCommand>
        decreases n,
    {
        if n == 0 {
            Seq::empty()
        } else {
            let before = self.draw_calls((n - 1) as nat);
            match self.draw_call(self.actors()[n - 1]) {
                Some(command) => before.push(command),
                None => before,
            }
        }
    }

    /// The actor that carries a newly fired laser: placed and turned as
    /// asked, at scale one, active, with the laser as its only component.
    pub open spec fn laser_actor(id: u32, pos: Vector2, rot: Fixed, laser: Laser) -> ActorView {
        ActorView {
            id,
            state: ActorState { position: pos, rotation: rot, scale: Vector2::one_spec(), active: true },
            components: seq![Component::Laser(laser.attached_to(id))],
        }
    }

    /// Whether this world is `before` with one more actor, which carries a
    /// new laser at `pos`, heading `rot`, under the handle that was next.
    pub open spec fn has_fired(&self, before: &Game, pos: Vector2, rot: Fixed) -> bool {
        &&& self.wf()
        &&& self.next_id() == before.next_id() + 1
        &&& self.running() == before.running()
        &&& self.delta_time() == before.delta_time()
        &&& self.pressed_keys() == before.pressed_keys()
        &&& self.registry() == before.registry()
        &&& self.ids() == before.ids().push(before.next_id())
        &&& exists|laser: Laser| #[trigger]
            laser.is_new(before.registry()) && self.actors() == before.actors().push(
                Game::laser_actor(before.next_id(), pos, rot, laser),
            )
    }

    /// The player's actor: `actor` moved to (100, 100), heading zero, scale
    /// one, with four more components behind those it had: a sprite, a move
    /// component that turns half a turn and covers 300 units a second, an
    /// input component of the same speeds that drives this move component,
    /// and the ship.
    pub open spec fn player_actor(actor: ActorView, sprite: SpriteComponent, ship: Ship) -> ActorView {
        let placed = ActorView {
            state: ActorState {
                position: Vector2 { x: Fixed::of(100_000_000), y: Fixed::of(100_000_000) },
                rotation: Fixed::of(0),
                scale: Vector2::one_spec(),
                ..actor.state
            },
            ..actor
        };
        let movement = MoveComponent {
            base: ComponentBase { owner: None },
            angular_speed: Fixed::of(PI_RAW as int),
            forward_speed: Fixed::of(300_000_000),
        };
        let input = InputComponent {
            base: ComponentBase { owner: None },
            max_forward_speed: Fixed::of(300_000_000),
            max_angular_speed: Fixed::of(PI_RAW as int),
            move_component: Some((actor.components.len() + 1) as usize),
        };
        placed.with_component(Component::Sprite(sprite)).with_component(
            Component::Move(movement),
        ).with_component(Component::Input(input)).with_component(Component::Ship(ship))
    }

    /// Whether the ship of the actor `actor_id` goes off when it is fired:
    /// the world holds the actor, the actor carries a ship, the ship is
    /// ready, and the world holds the ship's owner.
    pub open spec fn can_fire(&self, actor_id: u32) -> bool {
        &&& self.lookup(actor_id) matches Some(actor)
        &&& actor.ship() matches Some((_, ship))
        &&& ship.fires(self)
    }

    /// Whether this world is `before` after the ship of the actor
    /// `actor_id` has gone off: the ship's timer is wound up, and one more
    /// actor carries a new laser at the position and heading of the ship's
    /// owner.
    pub open spec fn has_fired_ship(&self, before: &Game, actor_id: u32) -> bool {
        let actor = before.lookup(actor_id)->0;
        let (place, ship) = actor.ship()->0;
        let owner = ship.base.owner_in(before)->0;
        let rearmed = ActorView {
            components: actor.components.update(place, Component::Ship(ship.rearmed())),
            ..actor
        };
        &&& self.wf()
        &&& self.next_id() == before.next_id() + 1
        &&& self.running() == before.running()
        &&& self.delta_time() == before.delta_time()
        &&& self.pressed_keys() == before.pressed_keys()
        &&& self.registry() == before.registry()
        &&& self.ids() == before.ids().push(before.next_id())
        &&& exists|laser: Laser| #[trigger]
            laser.is_new(before.registry()) && self.actors() == before.actors().update(
                before.slot(actor_id),
                rearmed,
            ).push(
                Game::laser_actor(
                    before.next_id(),
                    owner.state.position,
                    owner.state.rotation,
                    laser,
                ),
            )
    }

    /// Whether the two worlds differ in their actors at most.
    pub open spec fn same_frame(&self, other: &Game) -> bool {
        &&& self.next_id() == other.next_id()
        &&& self.running() == other.running()
        &&& self.delta_time() == other.delta_time()
        &&& self.pressed_keys() == other.pressed_keys()
        &&& self.registry() == other.registry()
    }

    /// The next handle is new: the world holds no actor under it.
    pub proof fn lemma_next_id_is_new(&self)
        requires
            self.wf(),
        ensures
            !self.has(self.next_id()),
    {
    }

    /// In a well-formed world a handle stands at one place only.
    pub proof fn lemma_slot(&self, id: u32, i: int)
        requires
            self.wf(),
            0 <= i < self.ids().len(),
            self.ids()[i] == id,
        ensures
            self.has(id),
            self.slot(id) == i,
    {
        let k = self.ids().index_of(id);
        assert(self.ids().contains(id));
        if k < i {
            assert(self.ids()[k] < self.ids()[i]);
        }
        if i < k {
            assert(self.ids()[i] < self.ids()[k]);
        }
    }

    /// A world without actors, running, with no key held and no texture
    /// loaded.
    pub fn new() -> (game: Game)
        ensures
            game.wf(),
            game.ids() == Seq::<u32>::empty(),
            game.actors() == Seq::<ActorView>::empty(),
            game.next_id() == 1,
            game.running(),
            game.delta_time()@ == 0,
            game.pressed_keys() == Seq::<Key>::empty(),
            game.registry().wf(),
            game.registry().names() == Seq::<Seq<char>>::empty(),
    {
        let game = Game {
            ids: Vec::new(),
            actors: Vec::new(),
            next_actor_id: 1,
            running: true,
            delta_time: Fixed::zero(),
            texture_manager: TextureManager::new(),
            pressed_keys: Vec::new(),
        };
        assert(game.actors() =~= Seq::<ActorView>::empty());
        game
    }

    /// The place of the handle `id`, by bisection.
    fn find(&self, id: u32) -> (found: Option<usize>)
        requires
            self.wf(),
        ensures
            match found {
                Some(i) => i < self.ids().len() && self.ids()[i as int] == id && self.has(id)
                    && self.slot(id) == i,
                None => !self.has(id),
            },
    {
        let mut lo: usize = 0;
        let mut hi: usize = self.ids.len();
        while lo < hi
            invariant
                self.wf(),
                lo <= hi <= self.ids.len(),
                forall|j: int| 0 <= j < lo ==> self.ids()[j] < id,
                forall|j: int| hi <= j < self.ids().len() ==> self.ids()[j] > id,
            decreases hi - lo,
        {
            let mid = lo + (hi - lo) / 2;
            let at = self.ids[mid];
            if at == id {
                proof {
                    self.lemma_slot(id, mid as int);
                }
                return Some(mid);
            } else if at < id {
                lo = mid + 1;
            } else {
                hi = mid;
            }
        }
        None
    }

    /// Whether another actor can be made: the handles have not run out.
    pub fn can_add_actor(&self) -> (b: bool)
        ensures
            b == (self.next_id() < u32::MAX),
    {
        self.next_actor_id < u32::MAX
    }

    /// Make a new actor and return its handle: the next one, which no actor
    /// of this world has had before.
    pub fn add_actor(&mut self) -> (actor_id: u32)
        requires
            old(self).wf(),
            old(self).next_id() < u32::MAX,
        ensures
            final(self).wf(),
            actor_id == old(self).next_id(),
            final(self).next_id() == actor_id + 1,
            final(self).ids() == old(self).ids().push(actor_id),
            final(self).actors() == old(self).actors().push(
                ActorView {
                    id: actor_id,
                    state: ActorState::initial(),
                    components: Seq::<Component>::empty(),
                },
            ),
            final(self).running() == old(self).running(),
            final(self).delta_time() == old(self).delta_time(),
            final(self).pressed_keys() == old(self).pressed_keys(),
            final(self).registry() == old(self).registry(),
    {
        let actor_id = self.next_actor_id;
        self.ids.push(actor_id);
        self.actors.push(Actor::new(actor_id));
        self.next_actor_id = self.next_actor_id + 1;
        assert(self.actors() =~= old(self).actors().push(
            ActorView {
                id: actor_id,
                state: ActorState::initial(),
                components: Seq::<Component>::empty(),
            },
        ));
        actor_id
    }

    /// Take the actor with the handle `actor_id` out of the world. A handle
    /// that the world does not hold changes nothing.
    pub fn remove_actor(&mut self, actor_id: u32)
        requires
            old(self).wf(),
        ensures
            final(self).wf(),
            final(self).same_frame(old(self)),
            !final(self).has(actor_id),
            old(self).has(actor_id) ==> {
                &&& final(self).ids() == old(self).ids().remove(old(self).slot(actor_id))
                &&& final(self).actors() == old(self).actors().remove(old(self).slot(actor_id))
            },
            !old(self).has(actor_id) ==> {
                &&& final(self).ids() == old(self).ids()
                &&& final(self).actors() == old(self).actors()
            },
    {
        match self.find(actor_id) {
            Some(i) => {
                self.ids.remove(i);
                self.actors.remove(i);
                assert(self.actors() =~= old(self).actors().remove(i as int));
                assert(self.ids() =~= old(self).ids().remove(i as int));
                assert forall|j: int| 0 <= j < self.ids().len() implies self.ids()[j] != actor_id by {
                    if j < i {
                        assert(self.ids()[j] == old(self).ids()[j]);
                    } else {
                        assert(self.ids()[j] == old(self).ids()[j + 1]);
                    }
                };
            },
            None => {},
        }
    }

    /// Stop the world. There is no way back.
    pub fn shutdown(&mut self)
        ensures
            !final(self).running(),
            final(self).ids() == old(self).ids(),
            final(self).actors() == old(self).actors(),
            final(self).next_id() == old(self).next_id(),
            final(self).delta_time() == old(self).delta_time(),
            final(self).pressed_keys() == old(self).pressed_keys(),
            final(self).registry() == old(self).registry(),
    {
        self.running = false;
    }

    /// Set the length of the frame that the next update will run.
    pub fn set_delta_time(&mut self, delta_time: Fixed)
        ensures
            final(self).delta_time() == delta_time,
            final(self).ids() == old(self).ids(),
            final(self).actors() == old(self).actors(),
            final(self).next_id() == old(self).next_id(),
            final(self).running() == old(self).running(),
            final(self).pressed_keys() == old(self).pressed_keys(),
            final(self).registry() == old(self).registry(),
    {
        self.delta_time = delta_time;
    }

    /// The actor with the handle `actor_id`, if the world holds one.
    pub fn get_actor(&self, actor_id: u32) -> (actor: Option<&Actor>)
        requires
            self.wf(),
        ensures
            match actor {
                Some(a) => self.lookup(actor_id) == Some(a@),
                None => self.lookup(actor_id) is None,
            },
    {
        match self.find(actor_id) {
            Some(i) => Some(&self.actors[i]),
            None => None,
        }
    }

    /// The actor with the handle `actor_id`, if the world holds one, to be
    /// changed in place.
    pub fn get_actor_mut(&mut self, actor_id: u32) -> (actor: Option<&mut Actor>)
        requires
            old(self).wf(),
        ensures
            final(self).wf(),
            final(self).same_frame(old(self)),
            final(self).ids() == old(self).ids(),
            match actor {
                Some(a) => {
                    &&& old(self).lookup(actor_id) == Some(a@)
                    &&& final(self).actors() == old(self).actors().update(
                        old(self).slot(actor_id),
                        final(a)@,
                    )
                },
                None => old(self).lookup(actor_id) is None && final(self).actors() == old(
                    self,
                ).actors(),
            },
    {
        match self.find(actor_id) {
            Some(i) => {
                let actor = &mut self.actors[i];
                assert(after_borrow(self.actors)@.map_values(|actor: Actor| actor@) =~= old(
                    self,
                ).actors().update(i as int, final(actor)@));
                Some(actor)
            },
            None => None,
        }
    }

    /// The registry of loaded textures.
    pub fn textures(&self) -> (registry: &TextureManager)
        ensures
            *registry == self.registry(),
    {
        &self.texture_manager
    }

    /// Update every actor by one frame of the current length. No actor sees
    /// another during its update, so the order among actors does not show.
    pub fn update_game(&mut self)
        requires
            old(self).wf(),
        ensures
            final(self).wf(),
            final(self).same_frame(old(self)),
            final(self).ids() == old(self).ids(),
            final(self).actors() == old(self).actors().map_values(
                |actor: ActorView| actor.updated(old(self).delta_time()),
            ),
    {
        let dt = self.delta_time;
        let n = self.actors.len();
        let mut i: usize = 0;
        while i < n
            invariant
                i <= n,
                n == self.actors.len(),
                n == old(self).actors().len(),
                self.wf(),
                self.same_frame(old(self)),
                self.ids() == old(self).ids(),
                dt == old(self).delta_time(),
                forall|j: int|
                    0 <= j < i ==> #[trigger] self.actors()[j] == old(self).actors()[j].updated(dt),
                forall|j: int| i <= j < n ==> #[trigger] self.actors()[j] == old(self).actors()[j],
            decreases n - i,
        {
            let ghost before = self.actors();
            self.actors[i].update(dt);
            assert(self.actors()[i as int] == before[i as int].updated(dt));
            assert forall|j: int| 0 <= j < n && j != i implies #[trigger] self.actors()[j]
                == before[j] by {};
            i += 1;
        }
        assert(self.actors() =~= old(self).actors().map_values(
            |actor: ActorView| actor.updated(old(self).delta_time()),
        ));
    }

    /// Hand the keys that are held down to every actor's input component.
    pub fn process_input(&mut self)
        requires
            old(self).wf(),
        ensures
            final(self).wf(),
            final(self).same_frame(old(self)),
            final(self).ids() == old(self).ids(),
            final(self).actors() == old(self).actors().map_values(
                |actor: ActorView| actor.steered(old(self).pressed_keys()),
            ),
    {
        let n = self.actors.len();
        let mut i: usize = 0;
        while i < n
            invariant
                i <= n,
                n == self.actors.len(),
                n == old(self).actors().len(),
                self.wf(),
                self.same_frame(old(self)),
                self.ids() == old(self).ids(),
                forall|j: int|
                    0 <= j < i ==> #[trigger] self.actors()[j] == old(self).actors()[j].steered(
                        old(self).pressed_keys(),
                    ),
                forall|j: int| i <= j < n ==> #[trigger] self.actors()[j] == old(self).actors()[j],
            decreases n - i,
        {
            let ghost before = self.actors();
            self.actors[i].process_input(self.pressed_keys.as_slice());
            assert(self.actors()[i as int] == before[i as int].steered(old(self).pressed_keys()));
            assert forall|j: int| 0 <= j < n && j != i implies #[trigger] self.actors()[j]
                == before[j] by {};
            i += 1;
        }
        assert(self.actors() =~= old(self).actors().map_values(
            |actor: ActorView| actor.steered(old(self).pressed_keys()),
        ));
    }

    /// Record that `key` went down or came up. A key that is held already
    /// is not recorded twice; a key that comes up is held no more.
    pub fn handle_keyboard_input(&mut self, key: Key, pressed: bool)
        ensures
            final(self).pressed_keys() == if pressed {
                if old(self).pressed_keys().contains(key) {
                    old(self).pressed_keys()
                } else {
                    old(self).pressed_keys().push(key)
                }
            } else {
                old(self).pressed_keys().filter(|k: Key| k != key)
            },
            final(self).ids() == old(self).ids(),
            final(self).actors() == old(self).actors(),
            final(self).next_id() == old(self).next_id(),
            final(self).running() == old(self).running(),
            final(self).delta_time() == old(self).delta_time(),
            final(self).registry() == old(self).registry(),
    {
        if pressed {
            if !is_pressed(self.pressed_keys.as_slice(), key) {
                self.pressed_keys.push(key);
            }
        } else {
            let ghost held = self.pressed_keys@;
            let ghost other = |k: Key| k != key;
            let mut kept: Vec<Key> = Vec::new();
            let n = self.pressed_keys.len();
            let mut i: usize = 0;
            while i < n
                invariant
                    i <= n,
                    n == held.len(),
                    self.pressed_keys@ == held,
                    other == (|k: Key| k != key),
                    kept@ == held.take(i as int).filter(other),
                decreases n - i,
            {
                let k = self.pressed_keys[i];
                proof {
                    assert(held.take(i as int + 1) =~= held.take(i as int).push(k));
                    held.take(i as int).lemma_filter_push(k, other);
                }
                if k != key {
                    kept.push(k);
                }
                i += 1;
            }
            assert(held.take(n as int) =~= held);
            self.pressed_keys = kept;
        }
    }

    /// Put `command` at its place in the paint order: behind the calls of
    /// its own and of lower draw orders.
    fn paint(commands: &mut Vec<DrawCommand>, command: DrawCommand, Ghost(calls): Ghost<Seq<DrawCommand>>)
        requires
            is_paint_order_of(old(commands)@, calls),
        ensures
            is_paint_order_of(final(commands)@, calls.push(command)),
    {
        let mut place: usize = commands.len();
        while place > 0 && commands[place - 1].draw_order > command.draw_order
            invariant
                place <= commands.len(),
                *commands == *old(commands),
                is_paint_order_of(commands@, calls),
                forall|i: int| place <= i < commands.len() ==> commands[i].draw_order
                    > command.draw_order,
            decreases place,
        {
            place -= 1;
        }
        proof {
            assert forall|i: int| 0 <= i < place implies commands[i].draw_order
                <= command.draw_order by {
                assert(commands[i].draw_order <= commands[place - 1].draw_order);
            }
            lemma_insert_in_paint_order(commands@, calls, command, place as int);
        }
        commands.insert(place, command);
    }

    /// The draw calls of this frame, in paint order: one for every actor
    /// that has a sprite to show, by rising draw order, and among calls of
    /// one draw order by rising handle. Actors without a sprite are
    /// skipped; an actor that is out of action is still shown.
    pub fn generate_output(&self) -> (commands: Vec<DrawCommand>)
        requires
            self.wf(),
        ensures
            is_paint_order_of(commands@, self.draw_calls(self.actors().len())),
    {
        let mut commands: Vec<DrawCommand> = Vec::new();
        let n = self.actors.len();
        let mut i: usize = 0;
        assert(commands@.filter(has_order(0)) == self.draw_calls(0).filter(has_order(0)));
        while i < n
            invariant
                i <= n,
                n == self.actors().len(),
                self.wf(),
                is_paint_order_of(commands@, self.draw_calls(i as nat)),
            decreases n - i,
        {
            assert(self.actors()[i as int] == self.actors@[i as int]@);
            if let Some(sprite) = self.actors[i].drawable() {
                if let Some(command) = sprite.draw(self) {
                    Game::paint(&mut commands, command, Ghost(self.draw_calls(i as nat)));
                }
            }
            i += 1;
        }
        commands
    }

    /// Run one frame: hand out the input, update every actor, and return
    /// the draw calls for what the world has become.
    pub fn run(&mut self) -> (commands: Vec<DrawCommand>)
        requires
            old(self).wf(),
        ensures
            final(self).wf(),
            final(self).same_frame(old(self)),
            final(self).ids() == old(self).ids(),
            final(self).actors() == old(self).actors().map_values(
                |actor: ActorView|
                    actor.steered(old(self).pressed_keys()).updated(old(self).delta_time()),
            ),
            is_paint_order_of(commands@, final(self).draw_calls(final(self).actors().len())),
    {
        self.process_input();
        self.update_game();
        assert(self.actors() =~= old(self).actors().map_values(
            |actor: ActorView|
                actor.steered(old(self).pressed_keys()).updated(old(self).delta_time()),
        ));
        self.generate_output()
    }

    /// Spawn an actor that carries a new laser, at `pos`, heading `rot`, and
    /// return its handle.
    pub fn create_laser(&mut self, pos: Vector2, rot: Fixed) -> (laser_id: u32)
        requires
            old(self).wf(),
            old(self).next_id() < u32::MAX,
            old(self).registry().wf(),
        ensures
            laser_id == old(self).next_id(),
            final(self).has_fired(old(self), pos, rot),
    {
        let laser = Laser::new(&self.texture_manager);
        let laser_id = self.add_actor();
        let ghost added = self.actors();
        let ghost at = self.actors().len() - 1;
        proof {
            self.lemma_slot(laser_id, at);
        }
        if let Some(laser_actor) = self.get_actor_mut(laser_id) {
            laser_actor.set_position(pos);
            laser_actor.set_rotation(rot);
            laser_actor.set_scale(Vector2::one());
            laser_actor.add_component(Component::Laser(laser));
        }
        assert(self.actors() =~= old(self).actors().push(
            Game::laser_actor(laser_id, pos, rot, laser),
        ));
        laser_id
    }

    /// Fire the ship that the actor with the handle `actor_id` carries. A
    /// shot goes off if the ship is ready and its owner is in the world;
    /// without the actor, without a ship, or while the ship cools down,
    /// nothing happens. A shot that goes off needs a free handle.
    pub fn fire_ship(&mut self, actor_id: u32)
        requires
            old(self).wf(),
            old(self).registry().wf(),
            old(self).can_fire(actor_id) ==> old(self).next_id() < u32::MAX,
        ensures
            final(self).wf(),
            old(self).can_fire(actor_id) ==> final(self).has_fired_ship(old(self), actor_id),
            !old(self).can_fire(actor_id) ==> {
                &&& final(self).same_frame(old(self))
                &&& final(self).ids() == old(self).ids()
                &&& final(self).actors() == old(self).actors()
            },
    {
        let i = match self.find(actor_id) {
            Some(i) => i,
            None => {
                return ;
            },
        };
        let ghost actor = self.actors()[i as int];
        assert(actor == self.actors@[i as int]@);
        let k = match self.actors[i].find(ComponentKind::Ship) {
            Some(k) => k,
            None => {
                return ;
            },
        };
        proof {
            lemma_first_of_kind(actor.components, ComponentKind::Ship, 0);
        }
        let mut component = Component::Circle(CircleComponent::new(Fixed::zero()));
        self.actors[i].exchange_component(k, &mut component);
        let ghost taken = component;
        assert(taken == actor.components[k as int]);
        let ghost emptied = *self;
        assert(emptied.actors() =~= old(self).actors().update(
            i as int,
            ActorView {
                components: actor.components.update(
                    k as int,
                    Component::Circle(
                        CircleComponent { base: ComponentBase { owner: None }, radius: Fixed::of(0) },
                    ),
                ),
                ..actor
            },
        ));
        assert(emptied.ids() == old(self).ids());
        let ghost mut fired = false;
        if let Component::Ship(ship) = &mut component {
            proof {
                fired = ship.fires(&emptied);
                assert(ship.base.owner_in(&emptied) is Some == ship.base.owner_in(old(self)) is Some);
                if ship.base.owner_in(&emptied) is Some {
                    let o = ship.base.owner->0;
                    assert(emptied.actors()[emptied.slot(o)].state == old(self).actors()[old(
                        self,
                    ).slot(o)].state);
                }
                assert(fired == old(self).can_fire(actor_id));
            }
            ship.shoot_laser(self);
        }
        let ghost shot = *self;
        proof {
            assert(fired ==> shot.actors().len() == emptied.actors().len() + 1);
            assert(!fired ==> shot.actors() == emptied.actors());
            assert(shot.actors()[i as int] == emptied.actors()[i as int]);
            assert(shot.actors()[i as int] == self.actors@[i as int]@);
        }
        let ghost returned = component;
        self.actors[i].exchange_component(k, &mut component);
        proof {
            assert(self.actors()[i as int] == (ActorView {
                components: actor.components.update(k as int, returned),
                ..actor
            })) by {
                assert(self.actors()[i as int] == self.actors@[i as int]@);
                assert(self.actors()[i as int].components =~= actor.components.update(
                    k as int,
                    returned,
                ));
            }
            assert forall|j: int| 0 <= j < self.actors().len() && j != i implies #[trigger] self.actors()[j]
                == shot.actors()[j] by {
                assert(self.actors()[j] == self.actors@[j]@);
                assert(shot.actors()[j] == shot.actors@[j]@);
            }
            if fired {
                let (place, ship) = actor.ship()->0;
                let owner = ship.base.owner_in(old(self))->0;
                let laser = choose|laser: Laser| #[trigger]
                    laser.is_new(emptied.registry()) && shot.actors() == emptied.actors().push(
                        Game::laser_actor(
                            emptied.next_id(),
                            owner.state.position,
                            owner.state.rotation,
                            laser,
                        ),
                    );
                let rearmed = ActorView {
                    components: actor.components.update(place, Component::Ship(ship.rearmed())),
                    ..actor
                };
                assert(self.actors() =~= old(self).actors().update(i as int, rearmed).push(
                    Game::laser_actor(
                        old(self).next_id(),
                        owner.state.position,
                        owner.state.rotation,
                        laser,
                    ),
                ));
            } else {
                assert(returned == taken);
                assert(actor.components.update(k as int, returned) =~= actor.components);
                assert(self.actors() =~= old(self).actors());
            }
        }
    }

    /// A new ship, with its sprite resolved in this world's registry.
    pub fn create_ship(&self) -> (ship: Ship)
        requires
            self.registry().wf(),
        ensures
            ship.is_new(self.registry()),
    {
        Ship::new(&self.texture_manager)
    }

    /// Turn the actor with the handle `actor_id` into the player's actor.
    /// A handle that the world does not hold changes nothing.
    pub fn setup_player_actor(&mut self, actor_id: u32)
        requires
            old(self).wf(),
            old(self).registry().wf(),
        ensures
            final(self).wf(),
            final(self).same_frame(old(self)),
            final(self).ids() == old(self).ids(),
            !old(self).has(actor_id) ==> final(self).actors() == old(self).actors(),
            old(self).has(actor_id) ==> exists|sprite: SpriteComponent, ship: Ship|
                {
                    &&& sprite.is_new("Asteroid.png"@, 100, old(self).registry())
                    &&& ship.is_new(old(self).registry())
                    &&& final(self).actors() == old(self).actors().update(
                        old(self).slot(actor_id),
                        #[trigger] Game::player_actor(
                            old(self).actors()[old(self).slot(actor_id)],
                            sprite,
                            ship,
                        ),
                    )
                },
    {
        let ship = Ship::new(&self.texture_manager);
        let sprite = SpriteComponent::resolved("Asteroid.png", 100, &self.texture_manager);
        if let Some(actor) = self.get_actor_mut(actor_id) {
            actor.set_position(Vector2::new(Fixed::from_int(100), Fixed::from_int(100)));
            actor.set_rotation(Fixed::zero());
            actor.set_scale(Vector2::one());

            let move_comp = MoveComponent::new(Fixed::pi(), Fixed::from_int(300));
            let mut input_comp = InputComponent::new(Fixed::from_int(300), Fixed::pi());

            actor.add_component(Component::Sprite(sprite));
            input_comp.set_move_component(actor.component_count());
            actor.add_component(Component::Move(move_comp));
            actor.add_component(Component::Input(input_comp));
            actor.add_component(Component::Ship(ship));
        }
        proof {
            if old(self).has(actor_id) {
                let before = old(self).actors()[old(self).slot(actor_id)];
                assert(self.actors() =~= old(self).actors().update(
                    old(self).slot(actor_id),
                    Game::player_actor(before, sprite, ship),
                ));
            }
        }
    }

    /// Whether `key` is held down.
    pub fn is_key_held(&self, key: Key) -> (held: bool)
        ensures
            held == self.pressed_keys().contains(key),
    {
        is_pressed(self.pressed_keys.as_slice(), key)
    }

    pub fn is_running(&self) -> (running: bool)
        ensures
            running == self.running(),
    {
        self.running
    }
}

} // verus!
