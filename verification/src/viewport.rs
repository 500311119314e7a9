//! The square grids of tiles that the gpos and navigation map windows draw
//! around a center: their size, the tile of each cell, and the colour and
//! mark of a cell.
use vstd::prelude::*;
use crate::picking::TilePos;
use crate::chunks::Rgb;

verus! {

/// Cells per side of a grid that reaches `radius` tiles out from its center
/// (at least one).
pub open spec fn side_spec(radius: int) -> int {
    if radius * 2 + 1 >= 1 { radius * 2 + 1 } else { 1 }
}

/// Cells per side of a grid that reaches `radius` tiles out from its center.
pub fn viewport_side(radius: i32) -> (res: usize)
    requires
        radius * 2 + 1 <= i32::MAX,
        radius * 2 + 1 >= i32::MIN,
    ensures
        res as int == side_spec(radius as int),
{
    let s = radius * 2 + 1;
    if s >= 1 { s as usize } else { 1 }
}

/// The tile of the cell at `row` and `col` of a grid of radius `radius`
/// around `center`: columns go right, rows go down.
pub open spec fn cell_spec(center: TilePos, radius: int, row: int, col: int) -> (int, int) {
    (center.x + (col - radius), center.y + (radius - row))
}

/// The tile of the cell at `row` and `col` (see `cell_spec`).
pub fn viewport_cell(center: TilePos, radius: i32, row: i32, col: i32) -> (res: TilePos)
    requires
        i32::MIN <= col - radius <= i32::MAX,
        i32::MIN <= radius - row <= i32::MAX,
        i32::MIN <= center.x + (col - radius) <= i32::MAX,
        i32::MIN <= center.y + (radius - row) <= i32::MAX,
    ensures
        (res.x as int, res.y as int) == cell_spec(center, radius as int, row as int, col as int),
{
    TilePos { x: center.x + (col - radius), y: center.y + (radius - row) }
}

/// The tile under the pointer, from the row and column of the cell under it:
/// none when the pointer is outside the grid.
pub fn viewport_cell_under_pointer(center: TilePos, radius: i32, side: usize, row: i32, col: i32) -> (res: Option<TilePos>)
    requires
        side as int == side_spec(radius as int),
        radius >= 0,
        radius * 2 + 1 <= i32::MAX,
        (0 <= row < side && 0 <= col < side) ==> i32::MIN <= center.x + (col - radius) <= i32::MAX,
        (0 <= row < side && 0 <= col < side) ==> i32::MIN <= center.y + (radius - row) <= i32::MAX,
    ensures
        (0 <= row < side && 0 <= col < side) ==> res is Some
            && (res->0.x as int, res->0.y as int) == cell_spec(center, radius as int, row as int, col as int),
        !(0 <= row < side && 0 <= col < side) ==> res is None,
{
    if row >= 0 && col >= 0 && (row as usize) < side && (col as usize) < side {
        Some(viewport_cell(center, radius, row, col))
    } else {
        None
    }
}

/// The cells of a grid stand for distinct tiles, all within `radius` of the
/// center in both directions, and every such tile has a cell.
pub proof fn lemma_viewport_cells_cover_square(center: TilePos, radius: int)
    requires
        radius >= 0,
    ensures
        forall|r1: int, c1: int, r2: int, c2: int|
            0 <= r1 < side_spec(radius) && 0 <= c1 < side_spec(radius)
            && 0 <= r2 < side_spec(radius) && 0 <= c2 < side_spec(radius)
            && #[trigger] cell_spec(center, radius, r1, c1) == #[trigger] cell_spec(center, radius, r2, c2)
            ==> r1 == r2 && c1 == c2,
        forall|r: int, c: int| 0 <= r < side_spec(radius) && 0 <= c < side_spec(radius) ==> {
            let p = #[trigger] cell_spec(center, radius, r, c);
            &&& center.x - radius <= p.0 <= center.x + radius
            &&& center.y - radius <= p.1 <= center.y + radius
        },
        forall|x: int, y: int| center.x - radius <= x <= center.x + radius && center.y - radius <= y <= center.y + radius
            ==> #[trigger] cell_spec(center, radius, radius - (y - center.y), radius + (x - center.x)) == (x, y),
{
}

/// The colour of a cell of the gpos maps for the number of things on its
/// tile: dark when none, redder the more there are.
pub open spec fn heat_spec(count: usize) -> Rgb {
    if count == 0 {
        Rgb { r: 18, g: 18, b: 18 }
    } else {
        Rgb { r: (50 + 24 * (if count < 9 { count as int } else { 9 })) as u8, g: 40, b: 40 }
    }
}

/// The colour of a cell of the gpos maps (see `heat_spec`).  With nine
/// things or more on a tile the red part would pass 255.
pub fn count_heat_color(count: usize) -> (res: Rgb)
    requires
        count < 9,
    ensures
        res == heat_spec(count),
{
    if count == 0 {
        Rgb { r: 18, g: 18, b: 18 }
    } else {
        let heat: u8 = (if count < 9 { count } else { 9 }) as u8 * 24;
        Rgb { r: 50 + heat, g: 40, b: 40 }
    }
}

/// The fill of a cell of the navigation map: dark outside the navigation
/// grid, red where a tile blocks, green where passable, and a duller red
/// where not passable.
pub fn nav_cell_fill(in_grid: bool, blocked_by_tile: bool, passable: bool) -> (res: Rgb)
    ensures
        res == if !in_grid {
            Rgb { r: 20, g: 20, b: 20 }
        } else if blocked_by_tile {
            Rgb { r: 104, g: 28, b: 28 }
        } else if passable {
            Rgb { r: 34, g: 52, b: 34 }
        } else {
            Rgb { r: 92, g: 38, b: 38 }
        },
{
    if !in_grid {
        Rgb { r: 20, g: 20, b: 20 }
    } else if blocked_by_tile {
        Rgb { r: 104, g: 28, b: 28 }
    } else if passable {
        Rgb { r: 34, g: 52, b: 34 }
    } else {
        Rgb { r: 92, g: 38, b: 38 }
    }
}

/// The mark written in a cell of the navigation map: a being stands there
/// (when occupants are shown), a tile blocks it, it is not passable, or
/// nothing.
#[derive(PartialEq, Eq, Structural, Clone, Copy, Debug)]
pub enum NavCellMark {
    Being,
    TileBlocked,
    Impassable,
    Nothing,
}

/// The mark written in a cell of the navigation map, the first that applies.
pub fn nav_cell_mark(show_occupied: bool, occupied: bool, blocked_by_tile: bool, passable: bool) -> (res: NavCellMark)
    ensures
        res == if show_occupied && occupied {
            NavCellMark::Being
        } else if blocked_by_tile {
            NavCellMark::TileBlocked
        } else if !passable {
            NavCellMark::Impassable
        } else {
            NavCellMark::Nothing
        },
{
    if show_occupied && occupied {
        NavCellMark::Being
    } else if blocked_by_tile {
        NavCellMark::TileBlocked
    } else if !passable {
        NavCellMark::Impassable
    } else {
        NavCellMark::Nothing
    }
}

} // verus!
