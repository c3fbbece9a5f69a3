use vstd::prelude::*;
use crate::actor::component::{Component, ComponentKind};
use crate::actor::fixed::Fixed;
use crate::actor::input_component::Key;
use crate::actor::ship::Ship;
use crate::actor::sprite_component::SpriteComponent;
use crate::actor::vector2::Vector2;

verus! {

/// The part of an actor that its components read and write during an update:
/// the transform and the active flag.
#[derive(Clone, Copy, Debug, PartialEq, Eq, Structural)]
pub struct ActorState {
    pub position: Vector2,
    /// Heading in radians.
    pub rotation: Fixed,
    pub scale: Vector2,
    pub active: bool,
}

impl ActorState {
    /// Validity of a ghost value; every executable value is valid.
    pub open spec fn wf(self) -> bool {
        self.position.wf() && self.rotation.wf() && self.scale.wf()
    }

    /// The state of a newly made actor: at the origin, heading zero, scale
    /// one, active.
    pub open spec fn initial() -> ActorState {
        ActorState {
            position: Vector2::zero_spec(),
            rotation: Fixed::of(0),
            scale: Vector2::one_spec(),
            active: true,
        }
    }

    /// The state with the heading turned by `angle`.
    pub open spec fn turned(self, angle: Fixed) -> ActorState {
        ActorState { rotation: self.rotation.plus(angle), ..self }
    }

    /// The state moved along its heading at `speed` for `dt` seconds.
    pub open spec fn advanced(self, speed: Fixed, dt: Fixed) -> ActorState {
        ActorState {
            position: self.position.plus(Vector2::heading(self.rotation).scaled(speed).scaled(dt)),
            ..self
        }
    }

    pub fn new() -> (s: ActorState)
        ensures
            s == ActorState::initial(),
    {
        ActorState {
            position: Vector2::zero(),
            rotation: Fixed::zero(),
            scale: Vector2::one(),
            active: true,
        }
    }

    /// Turn the heading by `angle`.
    pub fn turn(&mut self, angle: Fixed)
        ensures
            *final(self) == old(self).turned(angle),
    {
        self.rotation = self.rotation + angle;
    }

    /// Move along the heading at `speed` for `dt` seconds.
    pub fn advance(&mut self, speed: Fixed, dt: Fixed)
        ensures
            *final(self) == old(self).advanced(speed, dt),
    {
        let forward = Vector2::from_angle(self.rotation);
        self.position = self.position + forward * speed * dt;
    }
}

/// The place of the first component of the given kind at or after `from`,
/// in attachment order.
pub open spec fn first_of_kind(components: Seq<Component>, kind: ComponentKind, from: int) -> Option<
    int,
>
    decreases components.len() - from,
{
    if from < 0 || from >= components.len() {
        None
    } else if components[from].kind_spec() == kind {
        Some(from)
    } else {
        first_of_kind(components, kind, from + 1)
    }
}

/// What `first_of_kind` finds: the least place at or after `from` that
/// holds a component of the kind, or nothing where no such place exists.
pub proof fn lemma_first_of_kind(components: Seq<Component>, kind: ComponentKind, from: int)
    requires
        0 <= from,
    ensures
        match first_of_kind(components, kind, from) {
            Some(i) => {
                &&& from <= i < components.len()
                &&& components[i].kind_spec() == kind
                &&& forall|j: int| from <= j < i ==> components[j].kind_spec() != kind
            },
            None => forall|j: int| from <= j < components.len() ==> components[j].kind_spec() != kind,
        },
    decreases components.len() - from,
{
    if from < components.len() && components[from].kind_spec() != kind {
        lemma_first_of_kind(components, kind, from + 1);
    }
}

/// The sprite of the first component at or after `from`, in attachment
/// order, that has one to show.
pub open spec fn first_drawable(components: Seq<Component>, from: int) -> Option<SpriteComponent>
    decreases components.len() - from,
{
    if from < 0 || from >= components.len() {
        None
    } else if components[from].drawable_spec() is Some {
        components[from].drawable_spec()
    } else {
        first_drawable(components, from + 1)
    }
}

/// An actor as a value: its handle, its state, and its components in
/// attachment order.
pub struct ActorView {
    pub id: u32,
    pub state: ActorState,
    pub components: Seq<Component>,
}

impl ActorView {
    /// The actor after its first `n` components have been updated, in
    /// attachment order, each seeing what the ones before it did to the
    /// state.
    pub open spec fn pass(self, dt: Fixed, n: nat) -> ActorView
        decreases n,
    {
        if n == 0 {
            self
        } else {
            let before = self.pass(dt, (n - 1) as nat);
            let (component, state) = before.components[n - 1].updated(dt, before.state);
            ActorView { state, components: before.components.update(n - 1, component), ..before }
        }
    }

    /// The actor after a frame of `dt` seconds: an active actor has updated
    /// all its components, an inactive one has done nothing.
    pub open spec fn updated(self, dt: Fixed) -> ActorView {
        if self.state.active {
            self.pass(dt, self.components.len())
        } else {
            self
        }
    }

    /// The first component of the given kind, in attachment order.
    pub open spec fn component(self, kind: ComponentKind) -> Option<Component> {
        match first_of_kind(self.components, kind, 0) {
            Some(i) => Some(self.components[i]),
            None => None,
        }
    }

    /// What the renderer shows for the actor: the sprite of its first
    /// component that has one.
    pub open spec fn sprite(self) -> Option<SpriteComponent> {
        first_drawable(self.components, 0)
    }

    /// The ship that the actor carries, with its place among the
    /// components: the first component of that kind.
    pub open spec fn ship(self) -> Option<(int, Ship)> {
        match first_of_kind(self.components, ComponentKind::Ship, 0) {
            Some(k) => match self.components[k] {
                Component::Ship(ship) => Some((k, ship)),
                _ => None,
            },
            None => None,
        }
    }

    /// The actor with `component` attached behind the others.
    pub open spec fn with_component(self, component: Component) -> ActorView {
        ActorView { components: self.components.push(component.attached_to(self.id)), ..self }
    }

    /// The actor after the pressed keys have been handed to its first input
    /// component, which sets the speeds of the move component it is linked
    /// to. Without an input component, or where the link does not lead to a
    /// move component, nothing changes.
    pub open spec fn steered(self, keys: Seq<Key>) -> ActorView {
        match self.component(ComponentKind::Input) {
            Some(Component::Input(input)) => match input.move_component {
                Some(target) => if target < self.components.len() {
                    match self.components[target as int] {
                        Component::Move(m) => ActorView {
                            components: self.components.update(
                                target as int,
                                Component::Move(input.driven(keys, m)),
                            ),
                            ..self
                        },
                        _ => self,
                    }
                } else {
                    self
                },
                None => self,
            },
            _ => self,
        }
    }
}

/// A positioned, rotatable, scalable entity that owns its components.
pub struct Actor {
    id: u32,
    state: ActorState,
    components: Vec<Component>,
}

impl View for Actor {
    type V = ActorView;

    closed spec fn view(&self) -> ActorView {
        ActorView { id: self.id, state: self.state, components: self.components@ }
    }
}

impl Actor {
    /// A new actor with the handle `id`: at the origin, heading zero, scale
    /// one, active, without components.
    pub fn new(id: u32) -> (actor: Actor)
        ensures
            actor@ == (ActorView {
                id,
                state: ActorState::initial(),
                components: Seq::<Component>::empty(),
            }),
    {
        Actor { id, state: ActorState::new(), components: Vec::new() }
    }

    /// The handle under which the world keeps the actor.
    pub fn id(&self) -> (id: u32)
        ensures
            id == self@.id,
    {
        self.id
    }

    /// Update every component once, in attachment order. An inactive actor
    /// does nothing.
    pub fn update(&mut self, delta_time: Fixed)
        ensures
            final(self)@ == old(self)@.updated(delta_time),
    {
        if !self.state.active {
            return ;
        }
        let n = self.components.len();
        let mut i: usize = 0;
        while i < n
            invariant
                i <= n,
                n == self@.components.len(),
                self@ == old(self)@.pass(delta_time, i as nat),
            decreases n - i,
        {
            let ghost before = self@;
            self.components[i].update(delta_time, &mut self.state);
            assert(self@.components =~= before.components.update(i as int, self.components@[i as int]));
            i += 1;
        }
    }

    /// Attach `component` behind the others and make this actor its owner.
    pub fn add_component(&mut self, component: Component)
        ensures
            final(self)@ == old(self)@.with_component(component),
    {
        let mut component = component;
        component.set_owner(self);
        self.components.push(component);
    }

    pub fn position(&self) -> (position: Vector2)
        ensures
            position == self@.state.position,
    {
        self.state.position
    }

    pub fn set_position(&mut self, pos: Vector2)
        ensures
            final(self)@ == (ActorView {
                state: ActorState { position: pos, ..old(self)@.state },
                ..old(self)@
            }),
    {
        self.state.position = pos;
    }

    pub fn rotation(&self) -> (rotation: Fixed)
        ensures
            rotation == self@.state.rotation,
    {
        self.state.rotation
    }

    pub fn set_rotation(&mut self, rot: Fixed)
        ensures
            final(self)@ == (ActorView {
                state: ActorState { rotation: rot, ..old(self)@.state },
                ..old(self)@
            }),
    {
        self.state.rotation = rot;
    }

    pub fn scale(&self) -> (scale: Vector2)
        ensures
            scale == self@.state.scale,
    {
        self.state.scale
    }

    pub fn set_scale(&mut self, scale: Vector2)
        ensures
            final(self)@ == (ActorView {
                state: ActorState { scale, ..old(self)@.state },
                ..old(self)@
            }),
    {
        self.state.scale = scale;
    }

    pub fn is_active(&self) -> (active: bool)
        ensures
            active == self@.state.active,
    {
        self.state.active
    }

    pub fn set_active(&mut self, active: bool)
        ensures
            final(self)@ == (ActorView {
                state: ActorState { active, ..old(self)@.state },
                ..old(self)@
            }),
    {
        self.state.active = active;
    }

    /// The transform and the active flag.
    pub fn state(&self) -> (state: ActorState)
        ensures
            state == self@.state,
    {
        self.state
    }

    /// How many components are attached.
    pub fn component_count(&self) -> (n: usize)
        ensures
            n == self@.components.len(),
    {
        self.components.len()
    }

    /// Put `component` in the place `index` and take out what stood there.
    /// No owner is recorded or forgotten.
    pub(crate) fn exchange_component(&mut self, index: usize, component: &mut Component)
        requires
            index < old(self)@.components.len(),
        ensures
            final(self)@ == (ActorView {
                components: old(self)@.components.update(index as int, *old(component)),
                ..old(self)@
            }),
            *final(component) == old(self)@.components[index as int],
    {
        core::mem::swap(&mut self.components[index], component);
    }

    /// The place of the first component of the given kind.
    pub(crate) fn find(&self, kind: ComponentKind) -> (found: Option<usize>)
        ensures
            match found {
                Some(i) => first_of_kind(self@.components, kind, 0) == Some(i as int) && i
                    < self@.components.len(),
                None => first_of_kind(self@.components, kind, 0) is None,
            },
    {
        let mut i: usize = 0;
        while i < self.components.len()
            invariant
                i <= self.components.len(),
                first_of_kind(self@.components, kind, 0) == first_of_kind(
                    self@.components,
                    kind,
                    i as int,
                ),
            decreases self.components.len() - i,
        {
            if self.components[i].kind() == kind {
                return Some(i);
            }
            i += 1;
        }
        None
    }

    /// The first component of the given kind, in attachment order.
    pub fn get_component(&self, kind: ComponentKind) -> (component: Option<&Component>)
        ensures
            match component {
                Some(c) => self@.component(kind) == Some(*c),
                None => self@.component(kind) is None,
            },
    {
        match self.find(kind) {
            Some(i) => Some(&self.components[i]),
            None => None,
        }
    }

    /// The first component of the given kind, in attachment order, to be
    /// changed in place.
    pub fn get_component_mut(&mut self, kind: ComponentKind) -> (component: Option<&mut Component>)
        ensures
            match component {
                Some(c) => {
                    &&& first_of_kind(old(self)@.components, kind, 0) is Some
                    &&& old(self)@.component(kind) == Some(*c)
                    &&& final(self)@ == (ActorView {
                        components: old(self)@.components.update(
                            first_of_kind(old(self)@.components, kind, 0)->0,
                            *final(c),
                        ),
                        ..old(self)@
                    })
                },
                None => old(self)@.component(kind) is None && final(self)@ == old(self)@,
            },
    {
        match self.find(kind) {
            Some(i) => Some(&mut self.components[i]),
            None => None,
        }
    }

    /// What the renderer shows for the actor: the sprite of its first
    /// component that has one.
    pub fn drawable(&self) -> (sprite: Option<&SpriteComponent>)
        ensures
            match sprite {
                Some(s) => self@.sprite() == Some(*s),
                None => self@.sprite() is None,
            },
    {
        let mut i: usize = 0;
        while i < self.components.len()
            invariant
                i <= self.components.len(),
                first_drawable(self@.components, 0) == first_drawable(self@.components, i as int),
            decreases self.components.len() - i,
        {
            let found = self.components[i].drawable();
            if found.is_some() {
                return found;
            }
            i += 1;
        }
        None
    }

    /// Hand the pressed keys to the first input component.
    pub fn process_input(&mut self, keys: &[Key])
        ensures
            final(self)@ == old(self)@.steered(keys@),
    {
        let input = match self.get_component(ComponentKind::Input) {
            Some(Component::Input(input)) => *input,
            _ => {
                return ;
            },
        };
        if let Some(target) = input.move_component {
            if target < self.components.len() {
                if let Component::Move(m) = &mut self.components[target] {
                    input.process_input(keys, m);
                }
                assert(self@.components =~= old(self)@.steered(keys@).components);
            }
        }
    }
}

} // verus!
