use game_debug::window_state::{being_details_step, tile_indices_map_needs_reset};
use bevy_platform::collections::HashSet;
use game_debug::expr_text::{format_expr_compact, Expr};
use game_debug::faction::player_regroup_step;
use game_debug::picking::TilePos;
use game_debug::selection::DebugSelectedEntities;
use game_debug::window_state::{
    faction_details_step, follow_camera_chunk, follow_camera_macrochunk, metric_in_view,
    metrics_in_view, regions_list_step, regions_list_was_open_after, snapshot_missing,
    InlandnessHidden, InlandnessWindowMemory,
};

fn set_of(ids: &[u64]) -> HashSet<u64> {
    let mut s = HashSet::default();
    for id in ids {
        s.insert(*id);
    }
    s
}

#[test]
fn chunk_list_follows_camera() {
    let mut s = DebugSelectedEntities::new();
    s.selected_chunks.insert(1);
    s.selected_chunks.insert(2);
    follow_camera_chunk(true, Some(7), &mut s);
    assert_eq!(s.selected_chunks, set_of(&[7]));
    follow_camera_chunk(false, Some(9), &mut s);
    assert_eq!(s.selected_chunks, set_of(&[7]));
    follow_camera_chunk(true, None, &mut s);
    assert_eq!(s.selected_chunks, set_of(&[7]));
    follow_camera_macrochunk(true, Some(30), &mut s);
    assert_eq!(s.selected_macrochunk, Some(30));
    follow_camera_macrochunk(false, Some(31), &mut s);
    assert_eq!(s.selected_macrochunk, Some(30));
}

#[test]
fn region_list_selects_camera_region_on_opening() {
    let mut s = DebugSelectedEntities::new();
    s.selected_regions.insert(3);
    assert!(regions_list_step(true, false, false, Some(5), &mut s));
    assert_eq!(s.selected_regions, set_of(&[5]));
    assert_eq!(s.selected_river_debug_region, Some(5));
    // already open and not following: nothing changes
    assert!(!regions_list_step(true, true, false, Some(6), &mut s));
    assert_eq!(s.selected_regions, set_of(&[5]));
    // following the camera
    assert!(!regions_list_step(true, true, true, Some(6), &mut s));
    assert_eq!(s.selected_regions, set_of(&[6]));
    // hidden: nothing happens
    assert!(!regions_list_step(false, false, true, Some(8), &mut s));
    assert_eq!(s.selected_regions, set_of(&[6]));
    assert!(!regions_list_was_open_after(true, false, false));
    assert!(regions_list_was_open_after(false, true, false));
}

#[test]
fn hidden_inlandness_window_drops_its_probe() {
    let mut m = InlandnessWindowMemory {
        was_open: true,
        active_probe: Some((4, 5)),
        camera_region_prev: Some((1, TilePos { x: 0, y: 0 })),
        camera_tile_prev: Some(TilePos { x: 3, y: 3 }),
    };
    assert_eq!(m.on_hidden(), InlandnessHidden { despawn: Some((4, 5)), clear_preview: true });
    assert_eq!(m, InlandnessWindowMemory { was_open: false, active_probe: None, camera_region_prev: None, camera_tile_prev: None });
    let mut closed = InlandnessWindowMemory { was_open: false, active_probe: Some((4, 5)), camera_region_prev: None, camera_tile_prev: None };
    assert_eq!(closed.on_hidden(), InlandnessHidden { despawn: None, clear_preview: false });
    assert_eq!(closed.active_probe, Some((4, 5)));
}

#[test]
fn faction_inspector_keeps_a_listed_faction() {
    assert_eq!(faction_details_step(&vec![4, 5], Some(5), true, false, true), (Some(5), true, true));
    assert_eq!(faction_details_step(&vec![4, 5], Some(9), true, false, false), (Some(4), true, false));
    assert_eq!(faction_details_step(&vec![4, 5], Some(5), true, true, true), (None, false, true));
    assert_eq!(faction_details_step(&vec![], None, false, false, true), (None, false, true));
}

#[test]
fn metrics_are_listed_once_in_order() {
    assert_eq!(metrics_in_view(&vec![9, 3, 9, 1], 5), vec![1, 3, 5, 9]);
    assert_eq!(metrics_in_view(&vec![], 5), vec![5]);
    assert_eq!(metric_in_view(&vec![9, 3], 5, 9), 9);
    assert_eq!(metric_in_view(&vec![9, 3], 5, 4), 3);
    assert_eq!(metric_in_view(&vec![], 5, 4), 5);
}

#[test]
fn noise_snapshots_keep_the_first_value() {
    let old = vec![(1, 10), (2, 20)];
    let seen = vec![(2, 99), (3, 30), (3, 31), (4, 40)];
    assert_eq!(snapshot_missing(&old, &seen), vec![(1, 10), (2, 20), (3, 30), (4, 40)]);
    assert_eq!(snapshot_missing(&vec![], &vec![]), vec![]);
}

#[test]
fn player_bookkeeping() {
    let factions = set_of(&[10, 20]);
    let joined = vec![1, 20, 2, 10];
    let a = player_regroup_step(Some(20), true, Some(10), Some(&joined), &factions);
    assert_eq!(a.leave, Some(20));
    assert_eq!(a.faction, Some(20));
    assert!(a.set_faction_ref && !a.drop_faction_ref);
    assert_eq!(a.groups, Some(vec![1, 20, 2]));
    assert_eq!(a.join, Some(20));
    assert_eq!(a.remember, Some(20));
    // settled: the same player again changes nothing more
    let b = player_regroup_step(Some(20), true, Some(20), Some(&vec![1, 20, 2]), &factions);
    assert_eq!(b.faction, Some(20));
    assert!(!b.set_faction_ref);
    assert_eq!(b.groups, Some(vec![1, 20, 2]));
    // no groups: the reference's faction becomes the only group
    let c = player_regroup_step(None, false, Some(10), None, &factions);
    assert_eq!(c.groups, Some(vec![10]));
    // a reference to no faction goes
    let d = player_regroup_step(None, false, Some(7), None, &factions);
    assert!(d.drop_faction_ref);
    assert_eq!(d.faction, None);
    assert_eq!(d.groups, None);
    // the previous group no longer records members: the player is left alone
    let e = player_regroup_step(Some(10), false, Some(10), Some(&joined), &factions);
    assert_eq!(e.leave, Some(10));
    assert_eq!(e.faction, None);
    assert_eq!(e.remember, None);
}

#[test]
fn compact_form_is_one_line() {
    let e = Expr::Clamp {
        value: Box::new(Expr::Literal("1.000".to_string())),
        min: Box::new(Expr::Noise { complement: false, seed_offset: "1".to_string() }),
        max: Box::new(Expr::Max { values: vec![Expr::Literal("2.000".to_string())] }),
    };
    let text = format_expr_compact(&e);
    assert_eq!(text, "clamp(1.000, noise, max(2.000))");
    assert!(!text.contains('\n') && !text.starts_with(' '));
}

#[test]
fn gpos_maps_center_follows_camera_then_being() {
    use_center();
}

fn use_center() {
    let cur = (1u64, TilePos { x: 0, y: 0 });
    let cam = (2u64, TilePos { x: 5, y: 6 });
    let being = (3u64, TilePos { x: -1, y: 4 });
    assert_eq!(game_debug::window_state::gpos_maps_center(true, Some(cam), Some(being), cur), cam);
    assert_eq!(game_debug::window_state::gpos_maps_center(true, None, Some(being), cur), being);
    assert_eq!(game_debug::window_state::gpos_maps_center(true, None, None, cur), cur);
    assert_eq!(game_debug::window_state::gpos_maps_center(false, Some(cam), Some(being), cur), cur);
}

#[test]
fn being_inspector_keeps_a_listed_part() {
    let mut s = DebugSelectedEntities::new();
    s.selected_being = Some(1);
    being_details_step(&vec![7, 8], Some(9), Some(3), true, false, &mut s);
    assert_eq!(s.selected_being_bodypart, Some(7));
    assert_eq!(s.selected_being_interaction_zone, Some(3));
    assert!(s.show_full_being_components);
    assert_eq!(s.selected_being, Some(1));
    being_details_step(&vec![7, 8], Some(8), None, false, false, &mut s);
    assert_eq!(s.selected_being_bodypart, Some(8));
    being_details_step(&vec![7, 8], Some(8), Some(3), true, true, &mut s);
    assert_eq!(s.selected_being, None);
    assert_eq!(s.selected_being_bodypart, None);
    assert_eq!(s.selected_being_interaction_zone, None);
    assert!(!s.show_full_being_components);
    assert!(tile_indices_map_needs_reset(0));
    assert!(tile_indices_map_needs_reset(-3));
    assert!(!tile_indices_map_needs_reset(1));
}
