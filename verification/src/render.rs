//! What the drawing surface is asked to do to show a world.

use vstd::prelude::*;

use crate::component::{Color, EntityId};
use crate::numeral::{append_decimal, decimal};
use crate::world::{World, WorldView};

verus! {

/// One request to the drawing surface.
#[derive(Debug, PartialEq, Eq)]
pub enum DrawCommand {
    /// Clear the rectangle from the origin that is `width` wide and `height`
    /// high.
    Clear { width: u32, height: u32 },
    /// Fill a rectangle with the colour that `style` names.
    FillRect { x: i64, y: i64, width: u32, height: u32, style: String },
    /// Draw the outline of a rectangle in the colour that `style` names.
    StrokeRect { x: i64, y: i64, width: u32, height: u32, style: String },
}

/// A request to the drawing surface as contracts see it.
pub enum DrawCommandView {
    Clear { width: u32, height: u32 },
    FillRect { x: i64, y: i64, width: u32, height: u32, style: Seq<char> },
    StrokeRect { x: i64, y: i64, width: u32, height: u32, style: Seq<char> },
}

impl View for DrawCommand {
    type V = DrawCommandView;

    open spec fn view(&self) -> DrawCommandView {
        match *self {
            DrawCommand::Clear { width, height } => DrawCommandView::Clear { width, height },
            DrawCommand::FillRect { x, y, width, height, style } => DrawCommandView::FillRect {
                x,
                y,
                width,
                height,
                style: style@,
            },
            DrawCommand::StrokeRect { x, y, width, height, style } => DrawCommandView::StrokeRect {
                x,
                y,
                width,
                height,
                style: style@,
            },
        }
    }
}

/// The commands of a list, each by its view.
pub open spec fn commands_view(list: Seq<DrawCommand>) -> Seq<DrawCommandView> {
    list.map_values(|c: DrawCommand| c@)
}

/// How the drawing surface names `color`: `rgb(r,g,b)`, the channels in
/// decimal.
pub open spec fn fill_style(color: Color) -> Seq<char> {
    "rgb("@ + decimal(color.r as nat) + ","@ + decimal(color.g as nat) + ","@ + decimal(
        color.b as nat,
    ) + ")"@
}

/// How the drawing surface names the colour of every outline.
pub open spec fn stroke_style() -> Seq<char> {
    "black"@
}

/// The name of `color` for the drawing surface.
pub fn fill_style_of(color: Color) -> (style: String)
    ensures
        style@ == fill_style(color),
{
    let mut style = String::from_str("rgb(");
    append_decimal(&mut style, color.r as u64);
    style.append(",");
    append_decimal(&mut style, color.g as u64);
    style.append(",");
    append_decimal(&mut style, color.b as u64);
    style.append(")");
    style
}

impl WorldView {
    /// `entity` has all it takes to be drawn: a position, a size and a
    /// colour.
    pub open spec fn drawable(self, entity: EntityId) -> bool {
        &&& self.positions.contains_key(entity)
        &&& self.sizes.contains_key(entity)
        &&& self.colors.contains_key(entity)
    }

    /// The commands that draw `entity`: its rectangle filled with its
    /// colour, then outlined. None for an entity that lacks a component.
    pub open spec fn cell_commands(self, entity: EntityId) -> Seq<DrawCommandView> {
        if self.drawable(entity) {
            seq![
                DrawCommandView::FillRect {
                    x: self.positions[entity].x,
                    y: self.positions[entity].y,
                    width: self.sizes[entity].width,
                    height: self.sizes[entity].height,
                    style: fill_style(self.colors[entity]),
                },
                DrawCommandView::StrokeRect {
                    x: self.positions[entity].x,
                    y: self.positions[entity].y,
                    width: self.sizes[entity].width,
                    height: self.sizes[entity].height,
                    style: stroke_style(),
                },
            ]
        } else {
            Seq::empty()
        }
    }

    /// The commands that draw the first `upto` entities, in ascending order.
    pub open spec fn cells_drawn(self, upto: nat) -> Seq<DrawCommandView>
        decreases upto,
    {
        if upto == 0 {
            Seq::empty()
        } else {
            self.cells_drawn((upto - 1) as nat) + self.cell_commands((upto - 1) as EntityId)
        }
    }

    /// The commands that show this world on a surface `width` wide and
    /// `height` high: the surface is cleared, then every allocated entity is
    /// drawn, in ascending order.
    pub open spec fn display_list(self, width: u32, height: u32) -> Seq<DrawCommandView> {
        seq![DrawCommandView::Clear { width, height }] + self.cells_drawn(self.count)
    }
}

impl World {
    /// The commands that show this world on a surface `width` wide and
    /// `height` high.
    pub fn display_list(&self, width: u32, height: u32) -> (list: Vec<DrawCommand>)
        ensures
            commands_view(list@) == self@.display_list(width, height),
    {
        let mut list: Vec<DrawCommand> = Vec::new();
        list.push(DrawCommand::Clear { width, height });
        let count: EntityId = self.entity_count();
        let mut entity: EntityId = 0;
        assert(commands_view(list@) =~= seq![DrawCommandView::Clear { width, height }]
            + self@.cells_drawn(0));
        while entity < count
            invariant
                entity <= count,
                count == self@.count,
                commands_view(list@) == seq![DrawCommandView::Clear { width, height }]
                    + self@.cells_drawn(entity as nat),
            decreases count - entity,
        {
            let ghost before = commands_view(list@);
            if let Some(pos) = self.position(entity) {
                if let Some(size) = self.size(entity) {
                    if let Some(color) = self.color(entity) {
                        list.push(
                            DrawCommand::FillRect {
                                x: pos.x,
                                y: pos.y,
                                width: size.width,
                                height: size.height,
                                style: fill_style_of(color),
                            },
                        );
                        list.push(
                            DrawCommand::StrokeRect {
                                x: pos.x,
                                y: pos.y,
                                width: size.width,
                                height: size.height,
                                style: String::from_str("black"),
                            },
                        );
                    }
                }
            }
            assert(commands_view(list@) =~= before + self@.cell_commands(entity));
            entity += 1;
            assert(commands_view(list@) =~= seq![DrawCommandView::Clear { width, height }]
                + self@.cells_drawn(entity as nat));
        }
        list
    }
}

} // verus!
