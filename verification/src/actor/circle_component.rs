use vstd::prelude::*;
use crate::actor::actor::{Actor, ActorState};
use crate::actor::component::ComponentBase;
use crate::actor::game::Game;
use crate::actor::fixed::{Fixed, LIMIT};
use crate::actor::vector2::Vector2;

verus! {

/// Whether two circles, given by raw centres and raw radii, touch or
/// overlap: the squared distance of the centres is at most the square of
/// the sum of the radii. Nothing is rounded.
pub open spec fn circles_touch(here: Vector2, radius: Fixed, there: Vector2, other_radius: Fixed) -> bool {
    let dx = here.x@ - there.x@;
    let dy = here.y@ - there.y@;
    let reach = radius@ + other_radius@;
    dx * dx + dy * dy <= reach * reach
}

/// Touching is mutual.
pub proof fn lemma_circles_touch_symmetric(here: Vector2, radius: Fixed, there: Vector2, other_radius: Fixed)
    ensures
        circles_touch(here, radius, there, other_radius) == circles_touch(there, other_radius, here, radius),
{
    let dx = here.x@ - there.x@;
    let dy = here.y@ - there.y@;
    assert(dx * dx == (-dx) * (-dx)) by (nonlinear_arith);
    assert(dy * dy == (-dy) * (-dy)) by (nonlinear_arith);
    assert(there.x@ - here.x@ == -dx);
    assert(there.y@ - here.y@ == -dy);
    assert(radius@ + other_radius@ == other_radius@ + radius@);
}

/// Whether two circles intersect does not depend on which of them is asked.
pub proof fn lemma_intersect_symmetric(a: CircleComponent, b: CircleComponent, game: &Game)
    ensures
        a.intersects(b, game) == b.intersects(a, game),
{
    match (a.base.owner_in(game), b.base.owner_in(game)) {
        (Some(mine), Some(theirs)) => {
            lemma_circles_touch_symmetric(
                mine.state.position,
                a.radius,
                theirs.state.position,
                b.radius,
            );
        },
        _ => {},
    }
}

/// A circle around its owner's position, for overlap tests.
#[derive(Clone, Copy, Debug)]
pub struct CircleComponent {
    pub base: ComponentBase,
    pub radius: Fixed,
}

impl CircleComponent {
    pub fn new(radius: Fixed) -> (circle: CircleComponent)
        ensures
            circle.base.owner is None,
            circle.radius == radius,
    {
        CircleComponent { base: ComponentBase::new(), radius }
    }

    pub fn radius(&self) -> (radius: Fixed)
        ensures
            radius == self.radius,
    {
        self.radius
    }

    pub fn set_radius(&mut self, radius: Fixed)
        ensures
            *final(self) == (CircleComponent { radius, ..*old(self) }),
    {
        self.radius = radius;
    }

    /// The component attached to the actor `id`.
    pub open spec fn attached_to(self, id: u32) -> CircleComponent {
        CircleComponent { base: ComponentBase { owner: Some(id) }, ..self }
    }

    /// Record `owner` as the actor that the component belongs to.
    pub fn set_owner(&mut self, owner: &Actor)
        ensures
            *final(self) == old(self).attached_to(owner@.id),
    {
        self.base.set_owner(owner);
    }

    /// The owning actor, looked up in `game`.
    pub fn owner<'a>(&self, game: &'a Game) -> (actor: Option<&'a Actor>)
        requires
            game.wf(),
        ensures
            match actor {
                Some(a) => self.base.owner_in(game) == Some(a@),
                None => self.base.owner_in(game) is None,
            },
    {
        self.base.owner(game)
    }

    /// The owning actor, looked up in `game`, to be changed in place.
    pub fn owner_mut<'a>(&self, game: &'a mut Game) -> (actor: Option<&'a mut Actor>)
        requires
            old(game).wf(),
        ensures
            final(game).wf(),
            final(game).same_frame(old(game)),
            final(game).ids() == old(game).ids(),
            match actor {
                Some(a) => {
                    &&& self.base.owner is Some
                    &&& self.base.owner_in(old(game)) == Some(a@)
                    &&& final(game).actors() == old(game).actors().update(
                        old(game).slot(self.base.owner->0),
                        final(a)@,
                    )
                },
                None => self.base.owner_in(old(game)) is None && final(game).actors() == old(
                    game,
                ).actors(),
            },
    {
        self.base.owner_mut(game)
    }

    /// Whether this circle and `other` touch or overlap, each around the
    /// position of its owner in `game`. A circle without an owner in `game`
    /// touches nothing.
    pub open spec fn intersects(self, other: CircleComponent, game: &Game) -> bool {
        match (self.base.owner_in(game), other.base.owner_in(game)) {
            (Some(mine), Some(theirs)) => circles_touch(
                mine.state.position,
                self.radius,
                theirs.state.position,
                other.radius,
            ),
            _ => false,
        }
    }

    /// Whether this circle and `other` touch or overlap.
    pub fn intersect(&self, other: &CircleComponent, game: &Game) -> (touching: bool)
        requires
            game.wf(),
        ensures
            touching == self.intersects(*other, game),
    {
        match (self.owner(game), other.owner(game)) {
            (Some(owner), Some(other_owner)) => {
                let here = owner.position();
                let there = other_owner.position();
                let dx: i128 = here.x.raw() as i128 - there.x.raw() as i128;
                let dy: i128 = here.y.raw() as i128 - there.y.raw() as i128;
                let radii: i128 = self.radius.raw() as i128 + other.radius.raw() as i128;
                proof {
                    lemma_square_bound(dx as int);
                    lemma_square_bound(dy as int);
                    lemma_square_bound(radii as int);
                }
                dx * dx + dy * dy <= radii * radii
            },
            _ => false,
        }
    }

    /// A circle has nothing to advance.
    pub fn update(&mut self, dt: Fixed, owner: &mut ActorState)
        ensures
            *final(self) == *old(self),
            *final(owner) == *old(owner),
    {
    }
}

/// The square of a sum or difference of two raw values fits the wide
/// intermediate type, twice over.
proof fn lemma_square_bound(v: int)
    requires
        -2 * LIMIT <= v <= 2 * LIMIT,
    ensures
        0 <= v * v <= 4 * (LIMIT * LIMIT),
        LIMIT * LIMIT == 1_000_000_000_000_000_000_000_000_000_000_000_000int,
{
    assert(0 <= v * v <= 4 * (LIMIT * LIMIT)) by (nonlinear_arith)
        requires
            -2 * LIMIT <= v <= 2 * LIMIT,
    ;
}

} // verus!
