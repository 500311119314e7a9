use bevy_platform::collections::HashSet;
use game_debug::inspector::{
    apply_tile_click, faction_in_view, picker_side_from_slider, picker_side_in_use,
    set_mult_being_windows, set_mult_tile_windows, ClickInspectorState,
};
use game_debug::picking::TilePos;
use game_debug::selection::{
    forget_removed_tile, select_being_details, select_being_for_details, select_tile_for_details,
    toggle_being_selection, toggle_tile_selection, DebugSelectedEntities,
};
use game_debug::windows::DubugWindowsVisibility;

fn set_of(ids: &[u64]) -> HashSet<u64> {
    let mut s = HashSet::default();
    for id in ids {
        s.insert(*id);
    }
    s
}

#[test]
fn new_selection_is_empty() {
    let s = DebugSelectedEntities::new();
    assert!(s.selected_tiles.is_empty() && s.selected_beings.is_empty());
    assert_eq!(s.selected_tile, None);
    assert_eq!(s.selected_being, None);
    assert!(s.river_samples_show_sources && s.river_samples_show_failed_centers);
    assert!(!s.show_full_being_components);
}

#[test]
fn selecting_a_tile_with_one_window_replaces_it() {
    let mut s = DebugSelectedEntities::new();
    let mut w = DubugWindowsVisibility::default();
    s.selected_tiles.insert(3);
    s.selected_exempted_entity = Some(8);
    select_tile_for_details(false, &mut s, &mut w, 5);
    assert_eq!(s.selected_tile, Some(5));
    assert!(s.selected_tiles.is_empty());
    assert_eq!(s.selected_exempted_entity, None);
    assert!(w.tile_details);
}

#[test]
fn selecting_a_tile_with_several_windows_adds_it() {
    let mut s = DebugSelectedEntities::new();
    let mut w = DubugWindowsVisibility::default();
    s.selected_tiles.insert(3);
    s.selected_exempted_entity = Some(8);
    select_tile_for_details(true, &mut s, &mut w, 5);
    assert_eq!(s.selected_tiles, set_of(&[3, 5]));
    assert_eq!(s.selected_exempted_entity, Some(8));
    assert!(w.tile_details);
}

#[test]
fn selecting_a_being_resets_its_parts() {
    let mut s = DebugSelectedEntities::new();
    let mut w = DubugWindowsVisibility::default();
    s.selected_being_bodypart = Some(4);
    s.show_full_being_components = true;
    select_being_for_details(false, &mut s, &mut w, 9);
    assert_eq!(s.selected_being, Some(9));
    assert_eq!(s.selected_being_bodypart, None);
    assert!(!s.show_full_being_components);
    assert!(w.being_details);
    select_being_for_details(true, &mut s, &mut w, 10);
    assert_eq!(s.selected_beings, set_of(&[10]));
}

#[test]
fn toggling_a_tile_twice_restores_open_tiles() {
    let mut s = DebugSelectedEntities::new();
    let mut w = DubugWindowsVisibility::default();
    s.selected_tiles.insert(1);
    toggle_tile_selection(true, &mut s, &mut w, 2);
    assert_eq!(s.selected_tiles, set_of(&[1, 2]));
    assert_eq!(s.selected_tile, Some(2));
    assert!(w.tile_details);
    toggle_tile_selection(true, &mut s, &mut w, 2);
    assert_eq!(s.selected_tiles, set_of(&[1]));
    assert_eq!(s.selected_tile, Some(1));
    assert!(w.tile_details);
    toggle_tile_selection(true, &mut s, &mut w, 1);
    assert!(s.selected_tiles.is_empty());
    assert_eq!(s.selected_tile, None);
    assert!(!w.tile_details);
}

#[test]
fn toggling_the_current_tile_with_one_window_closes_it() {
    let mut s = DebugSelectedEntities::new();
    let mut w = DubugWindowsVisibility::default();
    toggle_tile_selection(false, &mut s, &mut w, 4);
    assert_eq!(s.selected_tile, Some(4));
    assert!(w.tile_details);
    toggle_tile_selection(false, &mut s, &mut w, 4);
    assert_eq!(s.selected_tile, None);
    assert!(!w.tile_details);
}

#[test]
fn toggling_beings() {
    let mut s = DebugSelectedEntities::new();
    let mut w = DubugWindowsVisibility::default();
    s.selected_being_interaction_zone = Some(77);
    toggle_being_selection(false, &mut s, &mut w, 6);
    assert_eq!(s.selected_being, Some(6));
    assert_eq!(s.selected_being_interaction_zone, None);
    assert!(w.being_details);
    toggle_being_selection(true, &mut s, &mut w, 7);
    assert_eq!(s.selected_beings, set_of(&[7]));
    toggle_being_selection(true, &mut s, &mut w, 7);
    assert!(s.selected_beings.is_empty());
    assert_eq!(s.selected_being, None);
    assert!(!w.being_details);
}

#[test]
fn being_picker_shows_being_details() {
    let mut s = DebugSelectedEntities::new();
    let mut w = DubugWindowsVisibility { tile_details: true, ..DubugWindowsVisibility::default() };
    s.selected_tile = Some(1);
    s.selected_exempted_entity = Some(2);
    select_being_details(12, &mut s, &mut w);
    assert_eq!(s.selected_being, Some(12));
    assert_eq!(s.selected_tile, None);
    assert_eq!(s.selected_exempted_entity, None);
    assert!(!w.tile_details && w.being_details);
}

#[test]
fn removed_tile_is_forgotten() {
    let mut s = DebugSelectedEntities::new();
    s.selected_tile = Some(3);
    s.selected_exempted_entity = Some(4);
    forget_removed_tile(&mut s, 3);
    assert_eq!(s.selected_tile, None);
    assert_eq!(s.selected_exempted_entity, Some(4));
    forget_removed_tile(&mut s, 4);
    assert_eq!(s.selected_exempted_entity, None);
}

#[test]
fn picker_state_defaults() {
    let st = ClickInspectorState::default();
    assert!(!st.enabled && st.picking_enabled);
    assert_eq!(st.picker_side, 5);
    assert!(st.auto_open_being_details && st.auto_open_tile_details);
    assert_eq!(st.clicked_dim, None);
    let mut clicked = ClickInspectorState { clicked_dim: Some(1), clicked_gpos: Some(TilePos { x: 1, y: 2 }), ..st };
    clicked.clear_picker_selection();
    assert_eq!(clicked, st);
}

#[test]
fn picker_sides() {
    assert_eq!(picker_side_in_use(1), 3);
    assert_eq!(picker_side_in_use(9), 9);
    assert_eq!(picker_side_in_use(40), 15);
    assert_eq!(picker_side_from_slider(4), 5);
    assert_eq!(picker_side_from_slider(7), 7);
    assert_eq!(picker_side_from_slider(2), 3);
    assert_eq!(picker_side_from_slider(1), 3);
    assert_eq!(picker_side_from_slider(16), 15);
    assert_eq!(picker_side_from_slider(20), 15);
}

#[test]
fn several_windows_keep_the_tile_in_view() {
    let mut s = DebugSelectedEntities::new();
    s.selected_exempted_entity = Some(6);
    set_mult_tile_windows(true, &mut s);
    assert_eq!(s.selected_tiles, set_of(&[6]));
    s.selected_tile = Some(2);
    set_mult_tile_windows(true, &mut s);
    assert_eq!(s.selected_tiles, set_of(&[2, 6]));
    set_mult_tile_windows(false, &mut s);
    assert!(s.selected_tiles.is_empty());
    s.selected_being = Some(3);
    set_mult_being_windows(true, &mut s);
    assert_eq!(s.selected_beings, set_of(&[3]));
    set_mult_being_windows(false, &mut s);
    assert!(s.selected_beings.is_empty());
}

#[test]
fn tile_click_opens_details() {
    let mut st = ClickInspectorState::default();
    let mut s = DebugSelectedEntities::new();
    let mut w = DubugWindowsVisibility::default();
    let gpos = TilePos { x: 4, y: -2 };
    apply_tile_click(&mut st, &mut s, &mut w, 1, gpos, Some(50), Some(60));
    assert_eq!(st.clicked_dim, Some(1));
    assert_eq!(st.clicked_gpos, Some(gpos));
    assert_eq!(s.selected_tile, Some(50));
    assert_eq!(s.selected_being, Some(60));
    assert!(w.tile_details && w.being_details);
    // an empty tile deselects the tile
    apply_tile_click(&mut st, &mut s, &mut w, 1, gpos, None, None);
    assert_eq!(s.selected_tile, None);
    assert_eq!(s.selected_being, Some(60));
}

#[test]
fn tile_click_with_several_windows_adds_tile() {
    let mut st = ClickInspectorState { mult_tile_windows: true, ..ClickInspectorState::default() };
    let mut s = DebugSelectedEntities::new();
    let mut w = DubugWindowsVisibility::default();
    s.selected_tiles.insert(9);
    apply_tile_click(&mut st, &mut s, &mut w, 2, TilePos { x: 0, y: 0 }, Some(11), None);
    assert_eq!(s.selected_tiles, set_of(&[9, 11]));
    assert!(!w.being_details);
}

#[test]
fn faction_in_view_falls_back_to_first() {
    assert_eq!(faction_in_view(&vec![4, 5], Some(5)), Some(5));
    assert_eq!(faction_in_view(&vec![4, 5], Some(9)), Some(4));
    assert_eq!(faction_in_view(&vec![4, 5], None), Some(4));
    assert_eq!(faction_in_view(&vec![], Some(9)), None);
}
