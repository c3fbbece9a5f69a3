use vstd::prelude::*;
use crate::actor::actor::{Actor, ActorState};
use crate::actor::component::ComponentBase;
use crate::actor::game::Game;
use crate::actor::fixed::Fixed;
use crate::actor::texture::{Texture, TextureManager};
use crate::actor::vector2::Vector2;

verus! {

/// One draw call for the renderer: which texture to paint, where, and its
/// place in the paint order.
#[derive(Clone, Copy, Debug)]
pub struct DrawCommand {
    pub texture: Texture,
    pub draw_order: i32,
    pub position: Vector2,
    pub rotation: Fixed,
    pub scale: Vector2,
}

/// The draw calls of one draw order.
pub open spec fn has_order(order: i32) -> spec_fn(DrawCommand) -> bool {
    |command: DrawCommand| command.draw_order == order
}

/// Whether the draw calls come with rising draw order.
pub open spec fn in_paint_order(commands: Seq<DrawCommand>) -> bool {
    forall|i: int, j: int|
        0 <= i < j < commands.len() ==> commands[i].draw_order <= commands[j].draw_order
}

/// Whether `painted` is `calls` put in paint order: the draw order rises,
/// and the calls of each draw order are those of `calls`, in the order in
/// which they stand there. There is one such sequence for any `calls`.
pub open spec fn is_paint_order_of(painted: Seq<DrawCommand>, calls: Seq<DrawCommand>) -> bool {
    &&& in_paint_order(painted)
    &&& forall|order: i32| #[trigger]
        painted.filter(has_order(order)) == calls.filter(has_order(order))
}

/// A call put behind the calls of its own and of lower draw orders, and
/// before those of higher ones, keeps the paint order.
pub proof fn lemma_insert_in_paint_order(
    painted: Seq<DrawCommand>,
    calls: Seq<DrawCommand>,
    command: DrawCommand,
    place: int,
)
    requires
        is_paint_order_of(painted, calls),
        0 <= place <= painted.len(),
        forall|i: int| 0 <= i < place ==> painted[i].draw_order <= command.draw_order,
        forall|i: int| place <= i < painted.len() ==> painted[i].draw_order > command.draw_order,
    ensures
        is_paint_order_of(painted.insert(place, command), calls.push(command)),
{
    let inserted = painted.insert(place, command);
    let before = painted.subrange(0, place);
    let behind = painted.subrange(place, painted.len() as int);
    assert(painted =~= before + behind);
    assert(inserted =~= before.push(command) + behind);
    assert forall|i: int, j: int| 0 <= i < j < inserted.len() implies inserted[i].draw_order
        <= inserted[j].draw_order by {
        if j < place {
            assert(inserted[i] == painted[i] && inserted[j] == painted[j]);
        } else if j == place {
            assert(inserted[i] == painted[i]);
        } else if i < place {
            assert(inserted[i] == painted[i] && inserted[j] == painted[j - 1]);
        } else if i == place {
            assert(inserted[j] == painted[j - 1]);
        } else {
            assert(inserted[i] == painted[i - 1] && inserted[j] == painted[j - 1]);
        }
    }
    assert forall|order: i32| #[trigger]
        inserted.filter(has_order(order)) == calls.push(command).filter(has_order(order)) by {
        let pred = has_order(order);
        Seq::filter_distributes_over_add(before, behind, pred);
        Seq::filter_distributes_over_add(before.push(command), behind, pred);
        before.lemma_filter_push(command, pred);
        calls.lemma_filter_push(command, pred);
        assert(painted.filter(pred) == calls.filter(pred));
        if order == command.draw_order {
            assert(behind.all(|x: DrawCommand| !pred(x)));
            behind.lemma_all_neg_filter_empty(pred);
            assert(behind.filter(pred) =~= Seq::<DrawCommand>::empty());
            assert(before.filter(pred) + behind.filter(pred) =~= before.filter(pred));
            assert(before.filter(pred).push(command) + behind.filter(pred)
                =~= before.filter(pred).push(command));
        }
    }
}

/// Two sequences in paint order with the same calls of each draw order are
/// the same sequence: the paint order of some calls is unique.
pub proof fn lemma_paint_order_unique(
    a: Seq<DrawCommand>,
    b: Seq<DrawCommand>,
    calls: Seq<DrawCommand>,
)
    requires
        is_paint_order_of(a, calls),
        is_paint_order_of(b, calls),
    ensures
        a == b,
    decreases a.len(),
{
    if a.len() == 0 {
        if b.len() > 0 {
            let pred = has_order(b.last().draw_order);
            assert(b.filter(pred) == calls.filter(pred));
            assert(a.filter(pred) == calls.filter(pred));
            assert(a.filter(pred).len() == 0);
            assert(b =~= b.drop_last().push(b.last()));
            b.drop_last().lemma_filter_push(b.last(), pred);
            assert(false);
        }
        assert(a =~= b);
    } else {
        let top = a.last().draw_order;
        let pred = has_order(top);
        assert(a =~= a.drop_last().push(a.last()));
        a.drop_last().lemma_filter_push(a.last(), pred);
        assert(a.filter(pred).len() > 0);
        assert(b.filter(pred) == a.filter(pred));
        if b.len() == 0 {
            assert(b.filter(pred).len() == 0);
            assert(false);
        }
        // The last call of `b` has the highest draw order that occurs, as
        // the last call of `a` has, and both close the calls of that order.
        lemma_last_is_top(a, b);
        lemma_last_is_top(b, a);
        assert(b.last().draw_order == top);
        assert(b =~= b.drop_last().push(b.last()));
        b.drop_last().lemma_filter_push(b.last(), pred);
        assert(a.filter(pred).last() == a.last());
        assert(b.filter(pred).last() == b.last());
        assert(a.last() == b.last());
        let shorter = calls_without_last_of(a, b, calls);
        lemma_paint_order_unique(a.drop_last(), b.drop_last(), shorter);
    }
}

/// In two sequences in paint order with the same calls of each draw order,
/// no call of the one lies above the last call of the other.
proof fn lemma_last_is_top(a: Seq<DrawCommand>, b: Seq<DrawCommand>)
    requires
        in_paint_order(a),
        in_paint_order(b),
        a.len() > 0,
        b.len() > 0,
        forall|order: i32| #[trigger] a.filter(has_order(order)) == b.filter(has_order(order)),
    ensures
        a.last().draw_order <= b.last().draw_order,
{
    let pred = has_order(a.last().draw_order);
    assert(a =~= a.drop_last().push(a.last()));
    a.drop_last().lemma_filter_push(a.last(), pred);
    assert(a.filter(pred).len() > 0);
    assert(b.filter(pred) == a.filter(pred));
    let found = b.filter(pred)[0];
    assert(b.filter(pred).contains(found));
    b.lemma_filter_contains_rev(pred, found);
    let i = choose|i: int| 0 <= i < b.len() && b[i] == found;
    assert(pred(found));
    assert(b[i].draw_order <= b.last().draw_order);
}

/// The calls of `a`, which are those of `b`, without the last of them.
proof fn calls_without_last_of(a: Seq<DrawCommand>, b: Seq<DrawCommand>, calls: Seq<DrawCommand>) -> (shorter:
    Seq<DrawCommand>)
    requires
        is_paint_order_of(a, calls),
        is_paint_order_of(b, calls),
        a.len() > 0,
        b.len() > 0,
        a.last() == b.last(),
    ensures
        is_paint_order_of(a.drop_last(), shorter),
        is_paint_order_of(b.drop_last(), shorter),
{
    let shorter = a.drop_last();
    assert(a =~= a.drop_last().push(a.last()));
    assert(b =~= b.drop_last().push(b.last()));
    assert forall|order: i32| #[trigger]
        b.drop_last().filter(has_order(order)) == shorter.filter(has_order(order)) by {
        let pred = has_order(order);
        a.drop_last().lemma_filter_push(a.last(), pred);
        b.drop_last().lemma_filter_push(b.last(), pred);
        assert(a.filter(pred) == b.filter(pred));
        if pred(a.last()) {
            assert(a.drop_last().filter(pred) =~= a.filter(pred).drop_last());
            assert(b.drop_last().filter(pred) =~= b.filter(pred).drop_last());
        }
    }
    shorter
}

/// What an actor shows on screen: a texture and its place in the paint
/// order.
#[derive(Clone, Debug)]
pub struct SpriteComponent {
    pub base: ComponentBase,
    pub texture_height: i32,
    pub texture_width: i32,
    /// Sprites with a lower draw order are painted first.
    pub draw_order: i32,
    pub texture_name: String,
    /// The texture resolved when the sprite was made; `None` where the
    /// asset was missing, and such a sprite is never drawn.
    pub texture: Option<Texture>,
}

impl SpriteComponent {
    /// Whether this is a newly made sprite: not attached, without a size,
    /// with the texture that the registry holds under the name, or without
    /// a texture where it holds none.
    pub open spec fn is_new(
        self,
        texture_name: Seq<char>,
        draw_order: i32,
        texture_manager: TextureManager,
    ) -> bool {
        &&& self.base.owner is None
        &&& self.texture_height == 0
        &&& self.texture_width == 0
        &&& self.draw_order == draw_order
        &&& self.texture_name@ == texture_name
        &&& self.texture == texture_manager.lookup(texture_name)
    }

    /// A sprite for the texture in the file `texture_name`, which is loaded
    /// into the registry on the way. `image` is the size of the image
    /// decoded from the file, or `None` where it could not be read; it is
    /// looked at only where the name is not registered yet. Where the name
    /// is not registered and the file could not be read, the sprite has no
    /// texture and is never drawn.
    pub fn new(
        texture_name: &str,
        draw_order: i32,
        texture_manager: &mut TextureManager,
        image: Option<(u32, u32)>,
    ) -> (sprite: SpriteComponent)
        requires
            old(texture_manager).wf(),
            old(texture_manager).has_room(texture_name@, image),
        ensures
            final(texture_manager).wf(),
            final(texture_manager).has_loaded(old(texture_manager), texture_name@, image),
            sprite.is_new(texture_name@, draw_order, *final(texture_manager)),
    {
        texture_manager.load_texture(texture_name, image);
        SpriteComponent::resolved(texture_name, draw_order, texture_manager)
    }

    /// A sprite that shows the texture registered under `texture_name`, as
    /// the registry stands.
    pub fn resolved(texture_name: &str, draw_order: i32, texture_manager: &TextureManager) -> (sprite:
        SpriteComponent)
        requires
            texture_manager.wf(),
        ensures
            sprite.is_new(texture_name@, draw_order, *texture_manager),
    {
        let texture = texture_manager.get_texture(texture_name);
        SpriteComponent {
            base: ComponentBase::new(),
            texture_height: 0,
            texture_width: 0,
            draw_order,
            texture_name: texture_name.to_owned(),
            texture,
        }
    }

    pub fn texture_height(&self) -> (height: i32)
        ensures
            height == self.texture_height,
    {
        self.texture_height
    }

    pub fn texture_width(&self) -> (width: i32)
        ensures
            width == self.texture_width,
    {
        self.texture_width
    }

    pub fn draw_order(&self) -> (order: i32)
        ensures
            order == self.draw_order,
    {
        self.draw_order
    }

    /// Record the size at which the texture is shown.
    pub fn set_texture(&mut self, width: i32, height: i32)
        ensures
            *final(self) == (SpriteComponent {
                texture_width: width,
                texture_height: height,
                ..*old(self)
            }),
    {
        self.texture_width = width;
        self.texture_height = height;
    }

    /// The component attached to the actor `id`.
    pub open spec fn attached_to(self, id: u32) -> SpriteComponent {
        SpriteComponent { base: ComponentBase { owner: Some(id) }, ..self }
    }

    /// Record `owner` as the actor that the component belongs to.
    pub fn set_owner(&mut self, owner: &Actor)
        ensures
            *final(self) == old(self).attached_to(owner@.id),
    {
        self.base.set_owner(owner);
    }

    /// The owning actor, looked up in `game`.
    pub fn owner<'a>(&self, game: &'a Game) -> (actor: Option<&'a Actor>)
        requires
            game.wf(),
        ensures
            match actor {
                Some(a) => self.base.owner_in(game) == Some(a@),
                None => self.base.owner_in(game) is None,
            },
    {
        self.base.owner(game)
    }

    /// The owning actor, looked up in `game`, to be changed in place.
    pub fn owner_mut<'a>(&self, game: &'a mut Game) -> (actor: Option<&'a mut Actor>)
        requires
            old(game).wf(),
        ensures
            final(game).wf(),
            final(game).same_frame(old(game)),
            final(game).ids() == old(game).ids(),
            match actor {
                Some(a) => {
                    &&& self.base.owner is Some
                    &&& self.base.owner_in(old(game)) == Some(a@)
                    &&& final(game).actors() == old(game).actors().update(
                        old(game).slot(self.base.owner->0),
                        final(a)@,
                    )
                },
                None => self.base.owner_in(old(game)) is None && final(game).actors() == old(
                    game,
                ).actors(),
            },
    {
        self.base.owner_mut(game)
    }

    /// The draw call for this sprite: its texture at its owner's transform.
    /// A sprite without an owner in `game`, or without a texture, is not
    /// drawn.
    pub open spec fn drawn(self, game: &Game) -> Option<DrawCommand> {
        match (self.base.owner_in(game), self.texture) {
            (Some(owner), Some(texture)) => Some(
                DrawCommand {
                    texture,
                    draw_order: self.draw_order,
                    position: owner.state.position,
                    rotation: owner.state.rotation,
                    scale: owner.state.scale,
                },
            ),
            _ => None,
        }
    }

    /// The draw call for this sprite, for the renderer to carry out.
    pub fn draw(&self, game: &Game) -> (command: Option<DrawCommand>)
        requires
            game.wf(),
        ensures
            command == self.drawn(game),
    {
        match (self.owner(game), self.texture) {
            (Some(owner), Some(texture)) => Some(
                DrawCommand {
                    texture,
                    draw_order: self.draw_order,
                    position: owner.position(),
                    rotation: owner.rotation(),
                    scale: owner.scale(),
                },
            ),
            _ => None,
        }
    }

    /// A sprite has no state of its own to advance: the renderer reads the
    /// owner's transform afresh each frame.
    pub fn update(&mut self, dt: Fixed, owner: &mut ActorState)
        ensures
            *final(self) == *old(self),
            *final(owner) == *old(owner),
    {
    }
}

} // verus!
