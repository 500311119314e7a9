use game_debug::picking::DebugBeingNavUiState;
use game_debug::windows::DebugChunkingUiState;
use game_debug::picking::{
    select_next_being, sort_by_index, tile_to_remove, grid_cell_gpos, dedup_consecutive,
    BeingTileClickInspectorState, EntityKey, TilePos, set_being_click_picker_active,
};

#[test]
fn first_click_selects_first_being() {
    assert_eq!(select_next_being(&vec![7, 3, 9], false, Some(3)), Some(7));
    assert_eq!(select_next_being(&vec![7, 3, 9], true, None), Some(7));
    assert_eq!(select_next_being(&vec![], true, Some(3)), None);
}

#[test]
fn repeat_click_cycles_through_beings() {
    let beings = vec![7, 3, 9];
    assert_eq!(select_next_being(&beings, true, Some(7)), Some(3));
    assert_eq!(select_next_being(&beings, true, Some(3)), Some(9));
    assert_eq!(select_next_being(&beings, true, Some(9)), Some(7));
    // a previously selected being that left the tile restarts at the first
    assert_eq!(select_next_being(&beings, true, Some(42)), Some(7));
}

#[test]
fn sort_by_index_orders_entities() {
    let items = vec![
        EntityKey { bits: 30, index: 3 },
        EntityKey { bits: 10, index: 1 },
        EntityKey { bits: 20, index: 2 },
    ];
    let sorted = sort_by_index(&items);
    let bits: Vec<u64> = sorted.iter().map(|e| e.bits).collect();
    assert_eq!(bits, vec![10, 20, 30]);
}

#[test]
fn picker_click_cycles_and_remembers() {
    let mut state = BeingTileClickInspectorState::new();
    let beings = vec![EntityKey { bits: 200, index: 2 }, EntityKey { bits: 100, index: 1 }];
    let at = TilePos { x: 4, y: -2 };
    assert_eq!(state.click(1, at, &beings), Some(100));
    assert_eq!(state.last_selected_being, Some(100));
    assert_eq!(state.click(1, at, &beings), Some(200));
    assert_eq!(state.click(1, at, &beings), Some(100));
    // another tile starts over at the lowest index
    assert_eq!(state.click(1, TilePos { x: 5, y: -2 }, &beings), Some(100));
    // another dimension too
    assert_eq!(state.click(2, TilePos { x: 5, y: -2 }, &beings), Some(100));
    // an empty tile selects nothing and keeps the state
    let before = state;
    assert_eq!(state.click(2, TilePos { x: 0, y: 0 }, &vec![]), None);
    assert_eq!(state, before);
}

#[test]
fn hiding_picker_forgets_click() {
    let mut state = BeingTileClickInspectorState::new();
    state.click(1, TilePos { x: 0, y: 0 }, &vec![EntityKey { bits: 5, index: 5 }]);
    assert!(set_being_click_picker_active(true, &mut state));
    assert_eq!(state.last_selected_being, Some(5));
    assert!(!set_being_click_picker_active(false, &mut state));
    assert_eq!(state.last_selected_being, None);
    assert_eq!(state.last_clicked_dim, None);
    assert_eq!(state.last_clicked_gpos, None);
}

#[test]
fn dedup_keeps_runs_once() {
    assert_eq!(dedup_consecutive(&vec![1, 1, 2, 2, 2, 1, 3]), vec![1, 2, 1, 3]);
    assert_eq!(dedup_consecutive(&vec![]), Vec::<u64>::new());
}

#[test]
fn tile_remover_takes_topmost_but_spares_last() {
    assert_eq!(tile_to_remove(&vec![], true), None);
    assert_eq!(tile_to_remove(&vec![8], false), None);
    assert_eq!(tile_to_remove(&vec![8, 8], false), None);
    assert_eq!(tile_to_remove(&vec![8], true), Some(8));
    assert_eq!(tile_to_remove(&vec![8, 4], false), Some(8));
}

#[test]
fn grid_cells_around_center() {
    let center = TilePos { x: 10, y: 20 };
    // a 5-wide grid: row 0, col 0 is the top-left cell
    assert_eq!(grid_cell_gpos(center, 0, 0, 5), TilePos { x: 8, y: 22 });
    assert_eq!(grid_cell_gpos(center, 2, 2, 5), center);
    assert_eq!(grid_cell_gpos(center, 4, 3, 5), TilePos { x: 11, y: 18 });
}

#[test]
fn nav_picker_picks_only_when_tracking() {
    let beings = vec![EntityKey { bits: 90, index: 9 }, EntityKey { bits: 40, index: 4 }];
    let gpos = TilePos { x: 1, y: 1 };
    let mut st = DebugBeingNavUiState::default();
    assert_eq!(st.pick(3, gpos, &beings), None);
    st.track_new_being = true;
    assert_eq!(st.pick(3, gpos, &beings), Some(40));
    st.remember(3, gpos, 40);
    assert_eq!(st.last_selected_being, Some(40));
    // a second click on the same tile moves on to the next being
    assert_eq!(st.pick(3, gpos, &beings), Some(90));
    assert_eq!(st.pick(3, gpos, &vec![]), None);
}

#[test]
fn chunking_window_follows_camera_by_default() {
    let st = DebugChunkingUiState::default();
    assert!(st.follow_camera_chunk && st.follow_camera_region && st.follow_camera_macrochunk);
    assert_eq!(st.open_tilemap_type, None);
    assert_eq!(st.chunk_details_open_nonce, 0);
    assert_eq!(st.selected_macrochunk_chunk, None);
}
