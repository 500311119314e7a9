use game_debug::picking::TilePos;
use game_debug::preview::{extend_bounds, preview_cell, preview_side};

fn p(x: i32, y: i32) -> TilePos {
    TilePos { x, y }
}

#[test]
fn bounds_grow_to_hold_samples() {
    let start_lo = p(i32::MAX, i32::MAX);
    let start_hi = p(i32::MIN, i32::MIN);
    let (lo, hi) = extend_bounds(start_lo, start_hi, &vec![p(4, -2), p(-3, 7), p(0, 0)]);
    assert_eq!(lo, p(-3, -2));
    assert_eq!(hi, p(5, 8));
    // with no sample the bounds stay as they were
    assert_eq!(extend_bounds(p(0, 0), p(32, 32), &vec![]), (p(0, 0), p(32, 32)));
    // samples inside change nothing
    assert_eq!(extend_bounds(p(0, 0), p(32, 32), &vec![p(3, 31)]), (p(0, 0), p(32, 32)));
}

#[test]
fn preview_side_rounds_up() {
    assert_eq!(preview_side(0, 32, 4), 8);
    assert_eq!(preview_side(0, 33, 4), 9);
    assert_eq!(preview_side(-3, 5, 1), 8);
    assert_eq!(preview_side(5, 5, 4), 1);
    assert_eq!(preview_side(9, 2, 2), 1);
}

#[test]
fn preview_cells() {
    let lo = p(0, 0);
    let step = p(4, 4);
    // eight by eight pixels for 32 tiles a side
    assert_eq!(preview_cell(lo, step, 8, 8, p(0, 0)), Some((0, 7)));
    assert_eq!(preview_cell(lo, step, 8, 8, p(31, 31)), Some((7, 0)));
    assert_eq!(preview_cell(lo, step, 8, 8, p(9, 5)), Some((2, 6)));
    // before the start: the first column, the bottom row
    assert_eq!(preview_cell(lo, step, 8, 8, p(-20, -20)), Some((0, 7)));
    // past the right edge: no pixel; above the top: the top row
    assert_eq!(preview_cell(lo, step, 8, 8, p(40, 0)), None);
    assert_eq!(preview_cell(lo, step, 8, 8, p(0, 100)), Some((0, 0)));
}
