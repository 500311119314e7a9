use game_debug::grid::{
    bounding_box, bucket_window, choose_metric, div_floor_i32, in_bucket_window, sample_step,
    sort_i32, sort_reading_order,
};
use game_debug::picking::TilePos;
use game_debug::viewport::{
    count_heat_color, nav_cell_fill, nav_cell_mark, viewport_cell, viewport_cell_under_pointer,
    viewport_side, NavCellMark,
};
use game_debug::chunks::Rgb;

fn p(x: i32, y: i32) -> TilePos {
    TilePos { x, y }
}

#[test]
fn div_floor_rounds_down() {
    assert_eq!(div_floor_i32(7, 2), 3);
    assert_eq!(div_floor_i32(-7, 2), -4);
    assert_eq!(div_floor_i32(-8, 4), -2);
    assert_eq!(div_floor_i32(0, 5), 0);
    assert_eq!(div_floor_i32(-1, 16), -1);
}

#[test]
fn bucket_window_around_camera() {
    // buckets of 8 tiles; the camera's tile (-1, 17) is in bucket (-1, 2)
    let (lo, hi) = bucket_window(p(-1, 17), 8, 4);
    assert_eq!(lo, p(-5, -2));
    assert_eq!(hi, p(3, 6));
    // sizes below one and radii below four are raised
    let (lo, hi) = bucket_window(p(3, 3), 0, 1);
    assert_eq!(lo, p(-1, -1));
    assert_eq!(hi, p(7, 7));
}

#[test]
fn bucket_membership() {
    assert!(in_bucket_window(p(0, 0), p(-1, -1), p(1, 1)));
    assert!(in_bucket_window(p(1, -1), p(-1, -1), p(1, 1)));
    assert!(!in_bucket_window(p(2, 0), p(-1, -1), p(1, 1)));
    assert!(!in_bucket_window(p(0, -2), p(-1, -1), p(1, 1)));
}

#[test]
fn metric_falls_back_to_first_captured() {
    assert_eq!(choose_metric(&vec![4, 5, 6], 5), 5);
    assert_eq!(choose_metric(&vec![4, 5, 6], 9), 4);
    assert_eq!(choose_metric(&vec![], 9), 9);
}

#[test]
fn bounding_box_of_regions() {
    assert_eq!(bounding_box(&vec![]), None);
    assert_eq!(bounding_box(&vec![p(2, 3)]), Some((p(2, 3), p(2, 3))));
    assert_eq!(bounding_box(&vec![p(2, -3), p(-1, 5), p(4, 0)]), Some((p(-1, -3), p(4, 5))));
}

#[test]
fn sort_i32_orders_values() {
    assert_eq!(sort_i32(&vec![3, -1, 2, -1]), vec![-1, -1, 2, 3]);
    assert_eq!(sort_i32(&vec![]), Vec::<i32>::new());
}

#[test]
fn sample_step_is_smallest_gap() {
    assert_eq!(sample_step(&vec![0, 8, 16, 4]), 4);
    assert_eq!(sample_step(&vec![10, 10, 10]), 1);
    assert_eq!(sample_step(&vec![5]), 1);
    assert_eq!(sample_step(&vec![]), 1);
    assert_eq!(sample_step(&vec![-6, 3, -3]), 3);
}

#[test]
fn reading_order_is_by_row_then_column() {
    let sorted = sort_reading_order(&vec![p(3, 1), p(0, 2), p(-1, 1), p(5, 0)]);
    assert_eq!(sorted, vec![p(5, 0), p(-1, 1), p(3, 1), p(0, 2)]);
}

#[test]
fn viewport_side_and_cells() {
    assert_eq!(viewport_side(3), 7);
    assert_eq!(viewport_side(0), 1);
    assert_eq!(viewport_side(-4), 1);
    // the top-left cell is up and to the left of the center
    assert_eq!(viewport_cell(p(10, 20), 3, 0, 0), p(7, 23));
    assert_eq!(viewport_cell(p(10, 20), 3, 3, 3), p(10, 20));
    assert_eq!(viewport_cell(p(10, 20), 3, 6, 6), p(13, 17));
}

#[test]
fn pointer_outside_grid_gives_no_tile() {
    assert_eq!(viewport_cell_under_pointer(p(0, 0), 2, 5, 1, 4), Some(p(2, 1)));
    assert_eq!(viewport_cell_under_pointer(p(0, 0), 2, 5, 5, 0), None);
    assert_eq!(viewport_cell_under_pointer(p(0, 0), 2, 5, -1, 0), None);
}

#[test]
fn heat_colour_reddens_with_count() {
    assert_eq!(count_heat_color(0), Rgb { r: 18, g: 18, b: 18 });
    assert_eq!(count_heat_color(1), Rgb { r: 74, g: 40, b: 40 });
    assert_eq!(count_heat_color(8), Rgb { r: 242, g: 40, b: 40 });
}

#[test]
fn nav_cells() {
    assert_eq!(nav_cell_fill(false, true, true), Rgb { r: 20, g: 20, b: 20 });
    assert_eq!(nav_cell_fill(true, true, true), Rgb { r: 104, g: 28, b: 28 });
    assert_eq!(nav_cell_fill(true, false, true), Rgb { r: 34, g: 52, b: 34 });
    assert_eq!(nav_cell_fill(true, false, false), Rgb { r: 92, g: 38, b: 38 });
    assert_eq!(nav_cell_mark(true, true, true, false), NavCellMark::Being);
    assert_eq!(nav_cell_mark(false, true, true, false), NavCellMark::TileBlocked);
    assert_eq!(nav_cell_mark(false, false, false, false), NavCellMark::Impassable);
    assert_eq!(nav_cell_mark(true, false, false, true), NavCellMark::Nothing);
}
