//! One viewer's session: its world, the size of its grid and the state of
//! its connection, and what it does on a click and on a message.

use vstd::prelude::*;

use crate::component::{Color, EntityId};
use crate::grid::init_grid;
use crate::hit::lemma_first_hit;
use crate::link::{LinkEvent, LinkState};
use crate::message::MessageType;
use crate::render::{commands_view, DrawCommand};
use crate::world::{World, WorldView};

verus! {

/// The dimension of a session's grid: as many rows, and as many cells a row.
pub const GRID_SIZE: u32 = 8;

/// The width and height of a cell of a session's grid.
pub const CELL_SIZE: u32 = 50;

/// What became of a message that came in.
#[derive(Clone, Copy, Debug, PartialEq, Eq, Structural)]
pub enum Inbound {
    /// It set the colour of an entity. The world is to be drawn again.
    Applied,
    /// It named an entity that has no colour here; it was dropped.
    UnknownEntity,
    /// It told of a click; nothing is done on that.
    Ignored,
    /// It could not be read; it was dropped.
    Malformed,
}

impl Inbound {
    /// Whether the world changed, so that it is to be drawn again.
    pub open spec fn spec_needs_redraw(self) -> bool {
        self == Inbound::Applied
    }

    #[verifier::when_used_as_spec(spec_needs_redraw)]
    pub fn needs_redraw(self) -> (b: bool)
        ensures
            b == self.spec_needs_redraw(),
    {
        match self {
            Inbound::Applied => true,
            _ => false,
        }
    }
}

impl WorldView {
    /// This world after a click at `(x, y)`: the colour of the entity under
    /// the point is inverted. A click on no entity changes nothing.
    pub open spec fn clicked(self, x: int, y: int) -> WorldView {
        match self.hit(x, y) {
            Some(entity) => self.with_toggled(entity),
            None => self,
        }
    }

    /// What a click at `(x, y)` gives the other viewers to know: the new
    /// colour of the entity under the point. Nothing where the click is on
    /// no entity, or on one without a colour.
    pub open spec fn click_update(self, x: int, y: int) -> Option<MessageType> {
        match self.hit(x, y) {
            Some(entity) => if self.colors.contains_key(entity) {
                let color = self.colors[entity].inverted();
                Some(MessageType::ColorUpdate { entity, r: color.r, g: color.g, b: color.b })
            } else {
                None
            },
            None => None,
        }
    }

    /// This world after the message `decoded` came in, `None` standing for a
    /// payload that could not be read. Only an update of the colour of an
    /// entity that has a colour changes the world; the last update wins.
    pub open spec fn delivered(self, decoded: Option<MessageType>) -> WorldView {
        match decoded {
            Some(MessageType::ColorUpdate { entity, r, g, b }) => self.with_color(
                entity,
                Color { r, g, b },
            ),
            _ => self,
        }
    }

    /// What becomes of the message `decoded` in this world.
    pub open spec fn delivery(self, decoded: Option<MessageType>) -> Inbound {
        match decoded {
            Some(MessageType::ColorUpdate { entity, .. }) => if self.colors.contains_key(entity) {
                Inbound::Applied
            } else {
                Inbound::UnknownEntity
            },
            Some(MessageType::Click { .. }) => Inbound::Ignored,
            None => Inbound::Malformed,
        }
    }
}

/// What a session holds.
#[verifier::ext_equal]
pub struct GameView {
    pub world: WorldView,
    pub grid_size: u32,
    pub link: LinkState,
}

/// One viewer's session.
pub struct Game {
    world: World,
    grid_size: u32,
    link: LinkState,
}

impl View for Game {
    type V = GameView;

    closed spec fn view(&self) -> GameView {
        GameView { world: self.world@, grid_size: self.grid_size, link: self.link }
    }
}

impl Game {
    /// The world of a session is well-formed at all times.
    #[verifier::type_invariant]
    spec fn sound(self) -> bool {
        self.world@.wf()
    }

    /// A session with an empty world and no connection.
    pub fn new() -> (game: Game)
        ensures
            game@ == (GameView {
                world: WorldView::empty(),
                grid_size: GRID_SIZE,
                link: LinkState::Disconnected,
            }),
            game@.world.wf(),
    {
        Game { world: World::new(), grid_size: GRID_SIZE, link: LinkState::Disconnected }
    }

    /// Takes the world out of the session, an empty one in its place, so
    /// that it can be worked on and put back.
    fn take_world(&mut self) -> (world: World)
        ensures
            world@ == old(self)@.world,
            world@.wf(),
            final(self)@ == (GameView { world: WorldView::empty(), ..old(self)@ }),
    {
        proof {
            use_type_invariant(&*self);
        }
        let mut world = World::new();
        std::mem::swap(&mut world, &mut self.world);
        world
    }

    /// The world of this session.
    pub fn world(&self) -> (world: &World)
        ensures
            world@ == self@.world,
            world@.wf(),
    {
        proof {
            use_type_invariant(self);
        }
        &self.world
    }

    /// The dimension of this session's grid.
    pub fn grid_size(&self) -> (n: u32)
        ensures
            n == self@.grid_size,
    {
        self.grid_size
    }

    /// The state of this session's connection.
    pub fn link(&self) -> (link: LinkState)
        ensures
            link == self@.link,
    {
        self.link
    }

    /// Takes note of what happened to the connection.
    pub fn link_event(&mut self, event: LinkEvent)
        ensures
            final(self)@ == (GameView { link: old(self)@.link.after(event), ..old(self)@ }),
    {
        proof {
            use_type_invariant(&*self);
        }
        self.link = self.link.after(event);
    }

    /// Takes note that a connection was asked for: it is being made from now
    /// on, whatever the state of an earlier one.
    pub fn connect(&mut self)
        ensures
            final(self)@ == (GameView { link: LinkState::Connecting, ..old(self)@ }),
    {
        self.link_event(LinkEvent::Requested);
    }

    /// Adds the session's grid to its world: `GRID_SIZE` rows of `GRID_SIZE`
    /// white cells, each `CELL_SIZE` wide and high. The handles left must
    /// suffice.
    pub fn init(&mut self)
        requires
            old(self)@.world.count + old(self)@.grid_size * old(self)@.grid_size <= u32::MAX,
        ensures
            final(self)@ == (GameView {
                world: old(self)@.world.with_grid(old(self)@.grid_size as nat, CELL_SIZE),
                ..old(self)@
            }),
            final(self)@.world.wf(),
    {
        let mut world = self.take_world();
        init_grid(&mut world, self.grid_size, CELL_SIZE);
        self.world = world;
    }

    /// The commands that show the session's world on a surface `width` wide
    /// and `height` high.
    pub fn render(&self, width: u32, height: u32) -> (list: Vec<DrawCommand>)
        ensures
            commands_view(list@) == self@.world.display_list(width, height),
    {
        self.world.display_list(width, height)
    }

    /// Handles a click at `(x, y)`, a point in the coordinate space of the
    /// world. The colour of the entity under the point is inverted, whatever
    /// the state of the connection. What comes back is the payload to send to
    /// the other viewers: the update of that colour, while the connection is
    /// open; nothing while it is not.
    pub fn handle_click(&mut self, x: i64, y: i64) -> (outbound: Option<String>)
        ensures
            final(self)@ == (GameView {
                world: old(self)@.world.clicked(x as int, y as int),
                ..old(self)@
            }),
            final(self)@.world.wf(),
            outbound is Some <==> old(self)@.link.can_send() && old(self)@.world.click_update(
                x as int,
                y as int,
            ) is Some,
            outbound matches Some(text) ==> text@ == old(self)@.world.click_update(
                x as int,
                y as int,
            )->0.wire(),
    {
        proof {
            use_type_invariant(&*self);
        }
        let entity: EntityId = match self.world.hit_test(x, y) {
            Some(entity) => entity,
            None => {
                return None;
            },
        };
        let mut world = self.take_world();
        let toggled = world.toggle_color(entity);
        self.world = world;
        let color: Color = match toggled {
            Some(color) => color,
            None => {
                return None;
            },
        };
        if self.link.can_send() {
            let update = MessageType::ColorUpdate { entity, r: color.r, g: color.g, b: color.b };
            Some(update.encode())
        } else {
            None
        }
    }

    /// Handles a message that was read already, `None` standing for a payload
    /// that could not be read. An update sets the colour of its entity, if
    /// that entity has a colour; everything else leaves the world as it is.
    pub fn deliver(&mut self, decoded: Option<MessageType>) -> (outcome: Inbound)
        ensures
            outcome == old(self)@.world.delivery(decoded),
            final(self)@ == (GameView { world: old(self)@.world.delivered(decoded), ..old(self)@ }),
            final(self)@.world.wf(),
            !outcome.needs_redraw() ==> final(self)@ == old(self)@,
            decoded matches Some(MessageType::ColorUpdate { entity, .. })
                && entity >= old(self)@.world.count ==> outcome == Inbound::UnknownEntity,
    {
        proof {
            use_type_invariant(&*self);
        }
        match decoded {
            Some(MessageType::ColorUpdate { entity, r, g, b }) => {
                let mut world = self.take_world();
                let known = world.set_color(entity, Color { r, g, b });
                self.world = world;
                if known {
                    Inbound::Applied
                } else {
                    Inbound::UnknownEntity
                }
            },
            Some(MessageType::Click { .. }) => Inbound::Ignored,
            None => Inbound::Malformed,
        }
    }

    /// Handles the payload of a message that came in. A payload that cannot
    /// be read is dropped, and so is an update for an entity without a
    /// colour: neither changes anything, and neither is an error.
    pub fn handle_message(&mut self, payload: &str) -> (outcome: Inbound)
        ensures
            outcome == old(self)@.world.delivery(MessageType::parsed(payload@)),
            final(self)@ == (GameView {
                world: old(self)@.world.delivered(MessageType::parsed(payload@)),
                ..old(self)@
            }),
            final(self)@.world.wf(),
            !outcome.needs_redraw() ==> final(self)@ == old(self)@,
            MessageType::parsed(payload@) is None ==> outcome == Inbound::Malformed,
            MessageType::parsed(payload@) matches Some(MessageType::ColorUpdate { entity, .. })
                && entity >= old(self)@.world.count ==> outcome == Inbound::UnknownEntity,
    {
        let decoded = MessageType::decode(payload);
        self.deliver(decoded)
    }
}

/// Inverting the colour of an entity twice gives the world back.
pub proof fn lemma_toggle_twice(w: WorldView, entity: EntityId)
    ensures
        w.with_toggled(entity).with_toggled(entity) == w,
{
    if w.colors.contains_key(entity) {
        let c = w.colors[entity];
        c.lemma_inverted_twice();
        assert(w.with_toggled(entity).colors[entity] == c.inverted());
        assert(w.with_toggled(entity).with_toggled(entity).colors =~= w.colors);
    }
}

/// Inverting colours moves no rectangle: the entity under a point stays the
/// same.
pub proof fn lemma_hit_after_click(w: WorldView, x: int, y: int, px: int, py: int)
    ensures
        w.clicked(x, y).hit(px, py) == w.hit(px, py),
{
    let v = w.clicked(x, y);
    assert(v.positions == w.positions && v.sizes == w.sizes && v.count == w.count);
    assert forall|e: EntityId| v.first_hit(px, py, e) == w.first_hit(px, py, e) by {
        assert forall|d: EntityId| v.covers(d, px, py) == w.covers(d, px, py) by {}
    }
    if w.hit(px, py) is Some {
        let e = w.hit(px, py)->0;
        assert(w.first_hit(px, py, e));
        assert(v.first_hit(px, py, e));
        lemma_first_hit(v, px, py, e);
    } else {
        if v.hit(px, py) is Some {
            let e = v.hit(px, py)->0;
            assert(v.first_hit(px, py, e));
            assert(w.first_hit(px, py, e));
        }
    }
}

/// Two clicks at the same point give the world back.
pub proof fn lemma_click_twice(w: WorldView, x: int, y: int)
    ensures
        w.clicked(x, y).clicked(x, y) == w,
{
    lemma_hit_after_click(w, x, y, x, y);
    match w.hit(x, y) {
        Some(entity) => {
            lemma_toggle_twice(w, entity);
        },
        None => {},
    }
}

/// An update that inverts the colour which a toggle gave an entity gives the
/// world from before the toggle back: what a second viewer sends on its own
/// click, after it took the first viewer's update, undoes the first click.
pub proof fn lemma_update_undoes_toggle(w: WorldView, entity: EntityId)
    requires
        w.colors.contains_key(entity),
    ensures
        ({
            let toggled = w.with_toggled(entity);
            let back = toggled.colors[entity].inverted();
            toggled.delivered(
                Some(MessageType::ColorUpdate { entity, r: back.r, g: back.g, b: back.b }),
            ) == w
        }),
{
    let toggled = w.with_toggled(entity);
    w.colors[entity].lemma_inverted_twice();
    let back = toggled.colors[entity].inverted();
    assert(back == w.colors[entity]);
    assert(toggled.with_color(entity, back).colors =~= w.colors);
}

/// The update that a click gives the other viewers brings them to the colour
/// that the click gave the entity here: a viewer that takes the update shows
/// the entity as the viewer that was clicked does.
pub proof fn lemma_update_carries_click(w: WorldView, v: WorldView, x: int, y: int)
    requires
        w.click_update(x, y) is Some,
    ensures
        ({
            let update = w.click_update(x, y);
            let entity = update->0->entity;
            &&& w.hit(x, y) == Some(entity)
            &&& w.clicked(x, y).colors.contains_key(entity)
            &&& v.colors.contains_key(entity) ==> v.delivery(update) == Inbound::Applied
                && v.delivered(update).colors.contains_key(entity) && v.delivered(
                update,
            ).colors[entity] == w.clicked(x, y).colors[entity]
            &&& v.colors == w.colors ==> v.delivered(update).colors == w.clicked(x, y).colors
        }),
{
    let update = w.click_update(x, y);
    let entity = w.hit(x, y)->0;
    if v.colors == w.colors {
        assert(v.delivered(update).colors =~= w.clicked(x, y).colors);
    }
}

/// An update for an entity that was never allocated leaves a well-formed
/// world as it is.
pub proof fn lemma_update_beyond_count(w: WorldView, entity: EntityId, r: u8, g: u8, b: u8)
    requires
        w.wf(),
        entity >= w.count,
    ensures
        w.delivered(Some(MessageType::ColorUpdate { entity, r, g, b })) == w,
        w.delivery(Some(MessageType::ColorUpdate { entity, r, g, b })) == Inbound::UnknownEntity,
{
}

/// A payload that cannot be read leaves the world as it is.
pub proof fn lemma_unread_payload(w: WorldView)
    ensures
        w.delivered(None) == w,
        w.delivery(None) == Inbound::Malformed,
{
}

} // verus!
