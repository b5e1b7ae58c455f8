//! Grids of `MAP_HEIGHT` rows of `MAP_WIDTH` cells.

use vstd::prelude::*;
use crate::util::in_bounds;
use crate::{MAP_HEIGHT, MAP_WIDTH};

verus! {

/// A grid of `MAP_HEIGHT` rows of `MAP_WIDTH` cells each.
pub open spec fn grid_wf<T>(g: Vec<Vec<T>>) -> bool {
    &&& g@.len() == MAP_HEIGHT
    &&& forall|y: int| 0 <= y < MAP_HEIGHT ==> (#[trigger] g@[y])@.len() == MAP_WIDTH
}

/// The cell in column `x` of row `y`.
pub open spec fn cell_at<T>(g: Vec<Vec<T>>, x: int, y: int) -> T {
    g@[y]@[x]
}

/// Executable form of [`grid_wf`].
pub fn has_grid_shape<T>(g: &Vec<Vec<T>>) -> (b: bool)
    ensures
        b == grid_wf(*g),
{
    if g.len() != MAP_HEIGHT as usize {
        return false;
    }
    let mut y: usize = 0;
    while y < MAP_HEIGHT as usize
        invariant
            0 <= y <= MAP_HEIGHT,
            g@.len() == MAP_HEIGHT,
            forall|j: int| 0 <= j < y ==> (#[trigger] g@[j])@.len() == MAP_WIDTH,
        decreases MAP_HEIGHT - y,
    {
        if g[y].len() != MAP_WIDTH as usize {
            return false;
        }
        y += 1;
    }
    true
}

/// A grid whose every cell holds `value`.
pub fn filled_grid<T: Copy>(value: T) -> (g: Vec<Vec<T>>)
    ensures
        grid_wf(g),
        forall|x: int, y: int| in_bounds(x, y) ==> #[trigger] cell_at(g, x, y) == value,
{
    let mut g: Vec<Vec<T>> = Vec::new();
    let mut y: i32 = 0;
    while y < MAP_HEIGHT
        invariant
            0 <= y <= MAP_HEIGHT,
            g@.len() == y,
            forall|j: int| 0 <= j < y ==> (#[trigger] g@[j])@.len() == MAP_WIDTH,
            forall|i: int, j: int|
                0 <= i < MAP_WIDTH && 0 <= j < y ==> #[trigger] cell_at(g, i, j) == value,
        decreases MAP_HEIGHT - y,
    {
        let mut row: Vec<T> = Vec::new();
        let mut x: i32 = 0;
        while x < MAP_WIDTH
            invariant
                0 <= x <= MAP_WIDTH,
                row@.len() == x,
                forall|i: int| 0 <= i < x ==> row@[i] == value,
            decreases MAP_WIDTH - x,
        {
            row.push(value);
            x += 1;
        }
        let ghost above = g;
        g.push(row);
        assert forall|i: int, j: int| 0 <= i < MAP_WIDTH && 0 <= j <= y implies #[trigger] cell_at(
            g,
            i,
            j,
        ) == value by {
            if j < y {
                assert(cell_at(above, i, j) == value);
            }
        }
        y += 1;
    }
    g
}

/// Writes `value` into the cell `(x, y)` and leaves every other cell as it
/// was.
pub fn set_cell<T: Copy>(g: &mut Vec<Vec<T>>, x: i32, y: i32, value: T)
    requires
        grid_wf(*old(g)),
        in_bounds(x as int, y as int),
    ensures
        grid_wf(*final(g)),
        forall|i: int, j: int|
            in_bounds(i, j) ==> #[trigger] cell_at(*final(g), i, j) == (if i == x && j == y {
                value
            } else {
                cell_at(*old(g), i, j)
            }),
{
    g[y as usize][x as usize] = value;
}

} // verus!
