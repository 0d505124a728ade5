//! The hit test: which entity, if any, lies under a point.

use vstd::arithmetic::div_mod::{
    lemma_fundamental_div_mod,
    lemma_fundamental_div_mod_converse,
};
use vstd::prelude::*;

use crate::component::{rect_holds, EntityId, Position, Size};
use crate::grid::{cell_position, lemma_cell_corner_fits, lemma_cell_index};
use crate::world::{World, WorldView};

verus! {

impl WorldView {
    /// `entity` is the first allocated entity, in ascending order, whose
    /// rectangle holds the point `(x, y)`.
    pub open spec fn first_hit(self, x: int, y: int, entity: EntityId) -> bool {
        &&& self.allocated(entity)
        &&& self.covers(entity, x, y)
        &&& forall|d: EntityId| d < entity ==> !self.covers(d, x, y)
    }

    /// The entity under the point `(x, y)`: the first allocated entity whose
    /// rectangle holds the point, if there is one.
    pub open spec fn hit(self, x: int, y: int) -> Option<EntityId> {
        if exists|e: EntityId| self.first_hit(x, y, e) {
            Some(choose|e: EntityId| self.first_hit(x, y, e))
        } else {
            None
        }
    }
}

/// There is at most one first hit, so the one at hand is the entity under
/// the point.
pub proof fn lemma_first_hit(w: WorldView, x: int, y: int, e: EntityId)
    requires
        w.first_hit(x, y, e),
    ensures
        w.hit(x, y) == Some(e),
{
    let h = choose|h: EntityId| w.first_hit(x, y, h);
    assert(w.first_hit(x, y, h));
    if h < e {
        assert(!w.covers(h, x, y));
    }
    if e < h {
        assert(!w.covers(e, x, y));
    }
}

/// A point that no allocated entity's rectangle holds is under no entity.
pub proof fn lemma_miss(w: WorldView, x: int, y: int)
    requires
        forall|e: EntityId| w.allocated(e) ==> !w.covers(e, x, y),
    ensures
        w.hit(x, y) is None,
{
}

/// Where several rectangles hold the point, the entity under it is the one
/// with the lowest handle: no entity whose rectangle holds the point comes
/// before the hit.
pub proof fn lemma_hit_is_lowest(w: WorldView, x: int, y: int, e: EntityId)
    requires
        w.allocated(e),
        w.covers(e, x, y),
    ensures
        w.hit(x, y) is Some,
        w.hit(x, y)->0 <= e,
        w.first_hit(x, y, w.hit(x, y)->0),
    decreases e,
{
    if forall|d: EntityId| d < e ==> !w.covers(d, x, y) {
        lemma_first_hit(w, x, y, e);
    } else {
        let d = choose|d: EntityId| d < e && w.covers(d, x, y);
        lemma_hit_is_lowest(w, x, y, d);
    }
}

/// Whether the rectangle at `pos` of extent `size` holds the point `(x, y)`,
/// its four edges included.
pub fn holds_point(pos: Position, size: Size, x: i64, y: i64) -> (b: bool)
    ensures
        b == rect_holds(pos, size, x as int, y as int),
{
    let right: i128 = (pos.x as i128) + (size.width as i128);
    let bottom: i128 = (pos.y as i128) + (size.height as i128);
    pos.x <= x && (x as i128) <= right && pos.y <= y && (y as i128) <= bottom
}

impl World {
    /// The entity under the point `(x, y)`: entities are tried in ascending
    /// order, and the first that has a position and a size whose rectangle
    /// holds the point, edges included, is the answer. `None` where no
    /// rectangle holds the point.
    pub fn hit_test(&self, x: i64, y: i64) -> (r: Option<EntityId>)
        ensures
            r == self@.hit(x as int, y as int),
            match r {
                Some(e) => self@.first_hit(x as int, y as int, e),
                None => forall|e: EntityId|
                    self@.allocated(e) ==> !self@.covers(e, x as int, y as int),
            },
    {
        let count: EntityId = self.entity_count();
        let mut entity: EntityId = 0;
        while entity < count
            invariant
                entity <= count,
                count == self@.count,
                forall|d: EntityId| d < entity ==> !self@.covers(d, x as int, y as int),
            decreases count - entity,
        {
            if let Some(pos) = self.position(entity) {
                if let Some(size) = self.size(entity) {
                    if holds_point(pos, size, x, y) {
                        proof {
                            lemma_first_hit(self@, x as int, y as int, entity);
                        }
                        return Some(entity);
                    }
                }
            }
            entity += 1;
        }
        proof {
            lemma_miss(self@, x as int, y as int);
        }
        None
    }
}

/// The first column (or row) of a grid with cells `cell` wide whose span,
/// ends included, holds the coordinate `p`.
pub open spec fn first_span(cell: u32, p: int) -> int {
    if p <= 0 {
        0
    } else {
        (p - 1) / (cell as int)
    }
}

/// The span that `first_span` names holds `p` and lies in the grid, and
/// `p` lies past its start unless it is the first span of all.
proof fn lemma_first_span(n: nat, cell: u32, p: int)
    requires
        n > 0,
        cell > 0,
        0 <= p <= n * cell,
    ensures
        0 <= first_span(cell, p) < n,
        first_span(cell, p) * cell <= p <= (first_span(cell, p) + 1) * cell,
        first_span(cell, p) > 0 ==> first_span(cell, p) * cell < p,
{
    let q = first_span(cell, p);
    let w = cell as int;
    if p > 0 {
        lemma_fundamental_div_mod(p - 1, w);
        let r = (p - 1) % w;
        assert(0 <= r < w);
        assert(w * q == q * w) by (nonlinear_arith);
        assert((q + 1) * w == q * w + w) by (nonlinear_arith);
        assert(0 <= q) by (nonlinear_arith)
            requires
                q * w + r == p - 1,
                r < w,
                p >= 1,
                w > 0,
        ;
        assert(q < n) by (nonlinear_arith)
            requires
                q * w <= p - 1,
                p <= n * w,
                w > 0,
        ;
    } else {
        assert((q + 1) * w == w) by (nonlinear_arith)
            requires
                q == 0,
        ;
    }
}

/// In a world that is nothing but a grid, the entity under a point of the
/// grid's square, edges included, is the cell in the first row and, there,
/// the first column whose spans hold the point.
pub proof fn lemma_grid_hit(n: nat, cell: u32, px: int, py: int)
    requires
        n > 0,
        n * n <= u32::MAX,
        cell > 0,
        0 <= px <= n * cell,
        0 <= py <= n * cell,
    ensures
        0 <= first_span(cell, py) * n + first_span(cell, px) < n * n,
        WorldView::grid(n, cell).hit(px, py) == Some(
            (first_span(cell, py) * n + first_span(cell, px)) as EntityId,
        ),
{
    let w = WorldView::grid(n, cell);
    let cx = first_span(cell, px);
    let cy = first_span(cell, py);
    lemma_first_span(n, cell, px);
    lemma_first_span(n, cell, py);
    lemma_cell_index(n, cx as nat, cy as nat);
    lemma_cell_corner_fits(n, cell, cx as nat);
    lemma_cell_corner_fits(n, cell, cy as nat);
    let e = (cy * n + cx) as EntityId;
    assert((cx + 1) * cell == cx * cell + cell) by (nonlinear_arith);
    assert((cy + 1) * cell == cy * cell + cell) by (nonlinear_arith);
    assert(w.positions[e] == cell_position(n, cell, e as nat));
    assert(w.covers(e, px, py));
    assert forall|d: EntityId| d < e implies !w.covers(d, px, py) by {
        let dx = (d as int) % (n as int);
        let dy = (d as int) / (n as int);
        lemma_fundamental_div_mod(d as int, n as int);
        assert(0 <= dx < n);
        assert((n as int) * dy == dy * n) by (nonlinear_arith);
        assert(0 <= dy) by (nonlinear_arith)
            requires
                dy * n + dx == d,
                dx < n,
                d >= 0,
                n > 0,
        ;
        assert(dy <= cy) by (nonlinear_arith)
            requires
                dy * n + dx < cy * n + cx,
                0 <= dx,
                cx < n,
                n > 0,
        ;
        lemma_cell_corner_fits(n, cell, dx as nat);
        lemma_cell_corner_fits(n, cell, dy as nat);
        assert(w.positions[d].x == dx * cell);
        assert(w.positions[d].y == dy * cell);
        assert((dx + 1) * cell == dx * cell + cell) by (nonlinear_arith);
        assert((dy + 1) * cell == dy * cell + cell) by (nonlinear_arith);
        if dy < cy {
            assert((dy + 1) * cell <= cy * cell) by (nonlinear_arith)
                requires
                    dy + 1 <= cy,
            ;
        } else {
            assert(dx < cx);
            assert((dx + 1) * cell <= cx * cell) by (nonlinear_arith)
                requires
                    dx + 1 <= cx,
            ;
        }
    }
    lemma_first_hit(w, px, py, e);
}

/// A point strictly inside the cell in column `x` of row `y` is under that
/// cell's entity, `y * n + x`.
pub proof fn lemma_hit_inside_cell(n: nat, cell: u32, x: nat, y: nat, px: int, py: int)
    requires
        n * n <= u32::MAX,
        x < n,
        y < n,
        x * cell < px < (x + 1) * cell,
        y * cell < py < (y + 1) * cell,
    ensures
        WorldView::grid(n, cell).hit(px, py) == Some((y * n + x) as EntityId),
{
    lemma_span_of(n, cell, x, px);
    lemma_span_of(n, cell, y, py);
    lemma_grid_hit(n, cell, px, py);
}

/// A point on the edge that the cells in columns `x` and `x + 1` of row `y`
/// share, between its ends, is under the left one, which has the lower
/// handle.
pub proof fn lemma_hit_on_shared_column_edge(n: nat, cell: u32, x: nat, y: nat, py: int)
    requires
        n * n <= u32::MAX,
        x + 1 < n,
        y < n,
        y * cell < py < (y + 1) * cell,
    ensures
        WorldView::grid(n, cell).hit((x + 1) * cell, py) == Some((y * n + x) as EntityId),
        y * n + x < y * n + (x + 1),
{
    let px = (x + 1) * cell;
    lemma_span_of(n, cell, y, py);
    assert(x * cell < px) by (nonlinear_arith)
        requires
            px == (x + 1) * cell,
            cell > 0,
    ;
    lemma_span_of(n, cell, x, px);
    lemma_grid_hit(n, cell, px, py);
}

/// A point on the edge that the cells in rows `y` and `y + 1` of column `x`
/// share, between its ends, is under the upper one, which has the lower
/// handle.
pub proof fn lemma_hit_on_shared_row_edge(n: nat, cell: u32, x: nat, y: nat, px: int)
    requires
        n * n <= u32::MAX,
        x < n,
        y + 1 < n,
        x * cell < px < (x + 1) * cell,
    ensures
        WorldView::grid(n, cell).hit(px, (y + 1) * cell) == Some((y * n + x) as EntityId),
        y * n + x < (y + 1) * n + x,
{
    let py = (y + 1) * cell;
    lemma_span_of(n, cell, x, px);
    assert(y * cell < py) by (nonlinear_arith)
        requires
            py == (y + 1) * cell,
            cell > 0,
    ;
    assert(y * n + x < (y + 1) * n + x) by (nonlinear_arith)
        requires
            n > 0,
    ;
    lemma_span_of(n, cell, y, py);
    lemma_grid_hit(n, cell, px, py);
}

/// A coordinate past the start of span `c` and not past its end has `c` as
/// its first span.
proof fn lemma_span_of(n: nat, cell: u32, c: nat, p: int)
    requires
        c < n,
        c * cell < p <= (c + 1) * cell,
    ensures
        n > 0,
        cell > 0,
        first_span(cell, p) == c,
        0 <= p <= n * cell,
{
    let w = cell as int;
    assert(w > 0) by (nonlinear_arith)
        requires
            c * w < (c + 1) * w,
    ;
    assert(0 <= c * w) by (nonlinear_arith)
        requires
            c >= 0,
            w > 0,
    ;
    assert((c + 1) * w == c * w + w) by (nonlinear_arith);
    assert((c + 1) * w <= n * w) by (nonlinear_arith)
        requires
            c + 1 <= n,
            w > 0,
    ;
    lemma_fundamental_div_mod_converse(p - 1, w, c as int, p - 1 - c * w);
}

/// A point outside the grid's square is under no entity.
pub proof fn lemma_hit_outside_grid(n: nat, cell: u32, px: int, py: int)
    requires
        n * n <= u32::MAX,
        px < 0 || px > n * cell || py < 0 || py > n * cell,
    ensures
        WorldView::grid(n, cell).hit(px, py) is None,
{
    let w = WorldView::grid(n, cell);
    assert forall|e: EntityId| w.allocated(e) implies !w.covers(e, px, py) by {
        let dx = (e as int) % (n as int);
        let dy = (e as int) / (n as int);
        assert(n > 0);
        lemma_fundamental_div_mod(e as int, n as int);
        assert(0 <= dx < n);
        assert((n as int) * dy == dy * n) by (nonlinear_arith);
        assert(0 <= dy < n) by (nonlinear_arith)
            requires
                dy * n + dx == e,
                0 <= dx < n,
                0 <= e < n * n,
        ;
        lemma_cell_corner_fits(n, cell, dx as nat);
        lemma_cell_corner_fits(n, cell, dy as nat);
        assert((dx + 1) * cell <= n * cell) by (nonlinear_arith)
            requires
                dx + 1 <= n,
        ;
        assert((dy + 1) * cell <= n * cell) by (nonlinear_arith)
            requires
                dy + 1 <= n,
        ;
        assert((dx + 1) * cell == dx * cell + cell) by (nonlinear_arith);
        assert((dy + 1) * cell == dy * cell + cell) by (nonlinear_arith);
    }
    lemma_miss(w, px, py);
}

} // verus!
