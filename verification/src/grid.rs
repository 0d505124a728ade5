//! The grid initialiser: an `n` by `n` lattice of equal square cells, laid
//! out row by row, so that every viewer gives the same cell the same entity.

use vstd::arithmetic::div_mod::lemma_fundamental_div_mod_converse;
use vstd::prelude::*;

use crate::component::{Color, EntityId, Position, Size};
use crate::world::{World, WorldView};

verus! {

/// Where the `k`-th cell of a grid with `n` cells a row lies: rows are filled
/// from the left, then from the top.
pub open spec fn cell_position(n: nat, cell: u32, k: nat) -> Position {
    Position { x: ((k % n) * cell) as i64, y: ((k / n) * cell) as i64 }
}

/// The size of every cell of a grid with cells `cell` wide.
pub open spec fn cell_size(cell: u32) -> Size {
    Size { width: cell, height: cell }
}

impl WorldView {
    /// `entity` is one of the `m` entities allocated after those of `self`.
    pub open spec fn is_new(self, m: nat, entity: EntityId) -> bool {
        self.count <= entity < self.count + m
    }

    /// This world after the first `m` cells of a grid with `n` cells a row
    /// were added to it, each a new entity with its position, its size and a
    /// white colour.
    pub open spec fn with_cells(self, n: nat, cell: u32, m: nat) -> WorldView {
        WorldView {
            count: self.count + m,
            positions: Map::new(
                |e: EntityId| self.positions.contains_key(e) || self.is_new(m, e),
                |e: EntityId|
                    if self.is_new(m, e) {
                        cell_position(n, cell, (e - self.count) as nat)
                    } else {
                        self.positions[e]
                    },
            ),
            sizes: Map::new(
                |e: EntityId| self.sizes.contains_key(e) || self.is_new(m, e),
                |e: EntityId|
                    if self.is_new(m, e) {
                        cell_size(cell)
                    } else {
                        self.sizes[e]
                    },
            ),
            colors: Map::new(
                |e: EntityId| self.colors.contains_key(e) || self.is_new(m, e),
                |e: EntityId|
                    if self.is_new(m, e) {
                        Color::white()
                    } else {
                        self.colors[e]
                    },
            ),
        }
    }

    /// This world after a whole grid of `n` by `n` cells was added to it.
    pub open spec fn with_grid(self, n: nat, cell: u32) -> WorldView {
        self.with_cells(n, cell, n * n)
    }

    /// The world that a viewer starts from: nothing but a grid.
    pub open spec fn grid(n: nat, cell: u32) -> WorldView {
        WorldView::empty().with_grid(n, cell)
    }
}

/// The cell in column `x` of row `y` is cell number `y * n + x`.
pub proof fn lemma_cell_index(n: nat, x: nat, y: nat)
    requires
        x < n,
        y < n,
    ensures
        y * n + x < n * n,
        (y * n + x) % n == x,
        (y * n + x) / n == y,
{
    assert(y * n + x < n * n) by (nonlinear_arith)
        requires
            x < n,
            y < n,
    ;
    lemma_fundamental_div_mod_converse((y * n + x) as int, n as int, y as int, x as int);
}

/// The corner of every cell fits the coordinate type, in a grid whose cells
/// all get a handle.
pub proof fn lemma_cell_corner_fits(n: nat, cell: u32, c: nat)
    requires
        n * n <= u32::MAX,
        c < n,
    ensures
        0 <= c * cell <= i64::MAX,
{
    assert(n <= 0xffff) by (nonlinear_arith)
        requires
            n * n <= 0xffff_ffff,
    ;
    assert(0 <= c * cell <= 0xffff * 0xffff_ffff) by (nonlinear_arith)
        requires
            0 <= c <= 0xffff,
            0 <= cell <= 0xffff_ffff,
    ;
}

/// Adds an `n` by `n` grid of cells `cell` wide to `world`: for each row `y`
/// from the top and each column `x` from the left one new entity, at
/// `(x * cell, y * cell)`, of size `(cell, cell)`, coloured white. The
/// handles left must suffice for the `n * n` new entities.
pub fn init_grid(world: &mut World, n: u32, cell: u32)
    requires
        old(world)@.count + n * n <= u32::MAX,
    ensures
        final(world)@ == old(world)@.with_grid(n as nat, cell),
        old(world)@.wf() && cell > 0 ==> final(world)@.wf(),
{
    let ghost start = world@;
    assert(world@ == start.with_cells(n as nat, cell, 0));
    let mut y: u32 = 0;
    while y < n
        invariant
            y <= n,
            start.count + n * n <= u32::MAX,
            world@ == start.with_cells(n as nat, cell, (y * n) as nat),
            start.wf() && cell > 0 ==> world@.wf(),
        decreases n - y,
    {
        let mut x: u32 = 0;
        while x < n
            invariant
                x <= n,
                y < n,
                start.count + n * n <= u32::MAX,
                world@ == start.with_cells(n as nat, cell, (y * n + x) as nat),
                start.wf() && cell > 0 ==> world@.wf(),
            decreases n - x,
        {
            let ghost k = (y * n + x) as nat;
            proof {
                lemma_cell_index(n as nat, x as nat, y as nat);
                lemma_cell_corner_fits(n as nat, cell, x as nat);
                lemma_cell_corner_fits(n as nat, cell, y as nat);
            }
            let entity: EntityId = world.create_entity();
            let left: i64 = (x as i64) * (cell as i64);
            let top: i64 = (y as i64) * (cell as i64);
            world.add_position(entity, Position { x: left, y: top });
            world.add_size(entity, Size { width: cell, height: cell });
            world.add_color(entity, Color::white());
            x += 1;
            proof {
                assert(Position { x: left, y: top } == cell_position(n as nat, cell, k));
                assert(world@ == start.with_cells(n as nat, cell, k + 1));
            }
        }
        proof {
            assert(y * n + n == (y + 1) * n) by (nonlinear_arith);
        }
        y += 1;
    }
    proof {
        assert(y * n == n * n);
    }
}

/// In a world that is nothing but a grid, the cell in column `x` of row `y`
/// is entity `y * n + x`, at `(x * cell, y * cell)`, of size `(cell, cell)`
/// and white.
pub proof fn lemma_grid_layout(n: nat, cell: u32, x: nat, y: nat)
    requires
        n * n <= u32::MAX,
        x < n,
        y < n,
    ensures
        y * n + x < n * n,
        ({
            let w = WorldView::grid(n, cell);
            let e = (y * n + x) as EntityId;
            &&& w.positions.contains_key(e)
            &&& w.positions[e].x == x * cell
            &&& w.positions[e].y == y * cell
            &&& w.sizes.contains_key(e)
            &&& w.sizes[e] == cell_size(cell)
            &&& w.colors.contains_key(e)
            &&& w.colors[e] == Color::white()
        }),
{
    lemma_cell_index(n, x, y);
    lemma_cell_corner_fits(n, cell, x);
    lemma_cell_corner_fits(n, cell, y);
}

/// A world that is nothing but a grid has exactly `n * n` entities, and
/// they, and no others, carry components. It is well-formed where the cells
/// have an extent.
pub proof fn lemma_grid_extent(n: nat, cell: u32, e: EntityId)
    requires
        n * n <= u32::MAX,
    ensures
        WorldView::grid(n, cell).count == n * n,
        cell > 0 ==> WorldView::grid(n, cell).wf(),
        WorldView::grid(n, cell).positions.contains_key(e) <==> e < n * n,
        WorldView::grid(n, cell).sizes.contains_key(e) <==> e < n * n,
        WorldView::grid(n, cell).colors.contains_key(e) <==> e < n * n,
{
}

} // verus!
