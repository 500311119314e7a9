//! What the debug tools have selected, and how a click in the tile picker
//! changes the selection and the detail windows.
use vstd::prelude::*;
use bevy_platform::collections::HashSet;
use crate::collections::{id_set_contents, id_set_new, id_set_insert, id_set_remove, id_set_clear, id_set_is_empty, id_set_first};
use crate::windows::DubugWindowsVisibility;

verus! {

/// The entities and options selected in the debug tools.
pub struct DebugSelectedEntities {
    pub selected_regions: HashSet<u64>,
    pub selected_chunks: HashSet<u64>,
    pub selected_macrochunk: Option<u64>,
    pub selected_portals: HashSet<u64>,
    pub selected_operationlist: Option<u64>,
    pub selected_noise: Option<u64>,
    pub selected_tile: Option<u64>,
    pub selected_tiles: HashSet<u64>,
    pub selected_being: Option<u64>,
    pub selected_beings: HashSet<u64>,
    pub selected_being_interaction_zone: Option<u64>,
    pub selected_being_bodypart: Option<u64>,
    pub show_full_being_components: bool,
    pub selected_faction: Option<u64>,
    pub show_full_faction_components: bool,
    pub selected_player: Option<u64>,
    pub selected_exempted_entity: Option<u64>,
    pub selected_sprite: Option<u64>,
    pub selected_tilemap: Option<u64>,
    pub selected_river_debug_region: Option<u64>,
    pub river_samples_show_sources: bool,
    pub river_samples_show_mouths: bool,
    pub river_samples_show_region_bounds: bool,
    pub river_samples_show_failed_centers: bool,
}

/// What `DebugSelectedEntities` holds, its sets by their contents.
pub struct SelectionView {
    pub selected_regions: Set<u64>,
    pub selected_chunks: Set<u64>,
    pub selected_macrochunk: Option<u64>,
    pub selected_portals: Set<u64>,
    pub selected_operationlist: Option<u64>,
    pub selected_noise: Option<u64>,
    pub selected_tile: Option<u64>,
    pub selected_tiles: Set<u64>,
    pub selected_being: Option<u64>,
    pub selected_beings: Set<u64>,
    pub selected_being_interaction_zone: Option<u64>,
    pub selected_being_bodypart: Option<u64>,
    pub show_full_being_components: bool,
    pub selected_faction: Option<u64>,
    pub show_full_faction_components: bool,
    pub selected_player: Option<u64>,
    pub selected_exempted_entity: Option<u64>,
    pub selected_sprite: Option<u64>,
    pub selected_tilemap: Option<u64>,
    pub selected_river_debug_region: Option<u64>,
    pub river_samples_show_sources: bool,
    pub river_samples_show_mouths: bool,
    pub river_samples_show_region_bounds: bool,
    pub river_samples_show_failed_centers: bool,
}

impl View for DebugSelectedEntities {
    type V = SelectionView;

    open spec fn view(&self) -> SelectionView {
        SelectionView {
            selected_regions: id_set_contents(self.selected_regions),
            selected_chunks: id_set_contents(self.selected_chunks),
            selected_macrochunk: self.selected_macrochunk,
            selected_portals: id_set_contents(self.selected_portals),
            selected_operationlist: self.selected_operationlist,
            selected_noise: self.selected_noise,
            selected_tile: self.selected_tile,
            selected_tiles: id_set_contents(self.selected_tiles),
            selected_being: self.selected_being,
            selected_beings: id_set_contents(self.selected_beings),
            selected_being_interaction_zone: self.selected_being_interaction_zone,
            selected_being_bodypart: self.selected_being_bodypart,
            show_full_being_components: self.show_full_being_components,
            selected_faction: self.selected_faction,
            show_full_faction_components: self.show_full_faction_components,
            selected_player: self.selected_player,
            selected_exempted_entity: self.selected_exempted_entity,
            selected_sprite: self.selected_sprite,
            selected_tilemap: self.selected_tilemap,
            selected_river_debug_region: self.selected_river_debug_region,
            river_samples_show_sources: self.river_samples_show_sources,
            river_samples_show_mouths: self.river_samples_show_mouths,
            river_samples_show_region_bounds: self.river_samples_show_region_bounds,
            river_samples_show_failed_centers: self.river_samples_show_failed_centers,
        }
    }
}

/// `open` with `item` toggled: taken out when in it, added otherwise.
pub open spec fn toggled(open: Set<u64>, item: u64) -> Set<u64> {
    if open.contains(item) { open.remove(item) } else { open.insert(item) }
}

/// Toggles `item` in `set`; `current` becomes `item` when it was added, and
/// one of the items left, if any, when it was taken out.  True when the set
/// is left non-empty.
fn toggle_in_set(set: &mut HashSet<u64>, current: &mut Option<u64>, item: u64) -> (nonempty: bool)
    ensures
        id_set_contents(*final(set)) == toggled(id_set_contents(*old(set)), item),
        !id_set_contents(*old(set)).contains(item) ==> *final(current) == Some(item),
        id_set_contents(*old(set)).contains(item) ==> (*final(current) is None <==> id_set_contents(*final(set)) == Set::<u64>::empty())
            && (*final(current) is Some ==> id_set_contents(*final(set)).contains((*final(current))->0)),
        nonempty == (id_set_contents(*final(set)) != Set::<u64>::empty()),
{
    if !id_set_insert(set, item) {
        let _ = id_set_remove(set, &item);
        *current = id_set_first(set);
        proof {
            let before = id_set_contents(*old(set));
            assert(before.insert(item).remove(item) =~= before.remove(item));
        }
    } else {
        *current = Some(item);
    }
    !id_set_is_empty(set)
}

impl DebugSelectedEntities {
    /// Nothing selected; every river sample overlay shown.
    pub fn new() -> (res: Self)
        ensures
            id_set_contents(res.selected_regions) == Set::<u64>::empty(),
            id_set_contents(res.selected_chunks) == Set::<u64>::empty(),
            id_set_contents(res.selected_portals) == Set::<u64>::empty(),
            id_set_contents(res.selected_tiles) == Set::<u64>::empty(),
            id_set_contents(res.selected_beings) == Set::<u64>::empty(),
            res.selected_macrochunk is None,
            res.selected_operationlist is None,
            res.selected_noise is None,
            res.selected_tile is None,
            res.selected_being is None,
            res.selected_being_interaction_zone is None,
            res.selected_being_bodypart is None,
            !res.show_full_being_components,
            res.selected_faction is None,
            !res.show_full_faction_components,
            res.selected_player is None,
            res.selected_exempted_entity is None,
            res.selected_sprite is None,
            res.selected_tilemap is None,
            res.selected_river_debug_region is None,
            res.river_samples_show_sources,
            res.river_samples_show_mouths,
            res.river_samples_show_region_bounds,
            res.river_samples_show_failed_centers,
    {
        DebugSelectedEntities {
            selected_regions: id_set_new(),
            selected_chunks: id_set_new(),
            selected_macrochunk: None,
            selected_portals: id_set_new(),
            selected_operationlist: None,
            selected_noise: None,
            selected_tile: None,
            selected_tiles: id_set_new(),
            selected_being: None,
            selected_beings: id_set_new(),
            selected_being_interaction_zone: None,
            selected_being_bodypart: None,
            show_full_being_components: false,
            selected_faction: None,
            show_full_faction_components: false,
            selected_player: None,
            selected_exempted_entity: None,
            selected_sprite: None,
            selected_tilemap: None,
            selected_river_debug_region: None,
            river_samples_show_sources: true,
            river_samples_show_mouths: true,
            river_samples_show_region_bounds: true,
            river_samples_show_failed_centers: true,
        }
    }
}

/// The selection once the details of `tile` opened: with several tile
/// windows allowed the tile joins the open ones; otherwise it replaces
/// them, and an exempted entity stops being shown.
pub open spec fn tile_details_selected(mult_tile_windows: bool, v: SelectionView, tile: u64) -> SelectionView {
    if mult_tile_windows {
        SelectionView { selected_tiles: v.selected_tiles.insert(tile), selected_tile: Some(tile), ..v }
    } else {
        SelectionView {
            selected_tiles: Set::<u64>::empty(),
            selected_tile: Some(tile),
            selected_exempted_entity: None,
            ..v
        }
    }
}

/// The selection once the details of `being` opened: with several being
/// windows allowed the being joins the open ones; otherwise it replaces
/// them, and the being's zone, body part and full component view are reset.
pub open spec fn being_details_selected(mult_being_windows: bool, v: SelectionView, being: u64) -> SelectionView {
    if mult_being_windows {
        SelectionView { selected_beings: v.selected_beings.insert(being), selected_being: Some(being), ..v }
    } else {
        SelectionView {
            selected_beings: Set::<u64>::empty(),
            selected_being: Some(being),
            selected_being_interaction_zone: None,
            selected_being_bodypart: None,
            show_full_being_components: false,
            ..v
        }
    }
}

/// Opens the details of `tile` (see `tile_details_selected`).
#[verifier::rlimit(40)]
pub fn select_tile_for_details(
    mult_tile_windows: bool,
    selected: &mut DebugSelectedEntities,
    window_visible: &mut DubugWindowsVisibility,
    tile: u64,
)
    ensures
        *final(window_visible) == (DubugWindowsVisibility { tile_details: true, ..*old(window_visible) }),
        final(selected)@ == tile_details_selected(mult_tile_windows, old(selected)@, tile),
{
    if mult_tile_windows {
        let _ = id_set_insert(&mut selected.selected_tiles, tile);
        selected.selected_tile = Some(tile);
        window_visible.tile_details = true;
        return;
    }
    selected.selected_tile = Some(tile);
    selected.selected_exempted_entity = None;
    id_set_clear(&mut selected.selected_tiles);
    window_visible.tile_details = true;
}

/// Opens the details of `being` (see `being_details_selected`).
pub fn select_being_for_details(
    mult_being_windows: bool,
    selected: &mut DebugSelectedEntities,
    window_visible: &mut DubugWindowsVisibility,
    being: u64,
)
    ensures
        *final(window_visible) == (DubugWindowsVisibility { being_details: true, ..*old(window_visible) }),
        final(selected)@ == being_details_selected(mult_being_windows, old(selected)@, being),
{
    if mult_being_windows {
        let _ = id_set_insert(&mut selected.selected_beings, being);
        selected.selected_being = Some(being);
        window_visible.being_details = true;
        return;
    } else {
        selected.selected_being = Some(being);
        id_set_clear(&mut selected.selected_beings);
        selected.selected_being_interaction_zone = None;
        selected.selected_being_bodypart = None;
        selected.show_full_being_components = false;
    }
    window_visible.being_details = true;
}

/// Toggles the details of `tile`.  With several tile windows allowed, a
/// tile already open closes (the current tile becomes one of those left
/// open, if any), another one opens and becomes the current one, and the
/// details window shows while some tile is open.  Otherwise the tile closes
/// when it is the current one, and else becomes the only one open.
pub fn toggle_tile_selection(
    mult_tile_windows: bool,
    selected: &mut DebugSelectedEntities,
    window_visible: &mut DubugWindowsVisibility,
    tile: u64,
)
    ensures
        mult_tile_windows ==> {
            let before = old(selected)@.selected_tiles;
            let after = final(selected)@.selected_tiles;
            &&& final(selected)@ == (SelectionView { selected_tiles: toggled(before, tile), selected_tile: final(selected)@.selected_tile, ..old(selected)@ })
            &&& !before.contains(tile) ==> final(selected)@.selected_tile == Some(tile)
            &&& before.contains(tile) ==> (final(selected)@.selected_tile is None <==> after == Set::<u64>::empty())
                && (final(selected)@.selected_tile is Some ==> after.contains(final(selected)@.selected_tile->0))
            &&& *final(window_visible) == (DubugWindowsVisibility { tile_details: after != Set::<u64>::empty(), ..*old(window_visible) })
        },
        !mult_tile_windows && old(selected).selected_tile == Some(tile) ==>
            final(selected)@ == (SelectionView { selected_tile: None, ..old(selected)@ })
            && *final(window_visible) == (DubugWindowsVisibility { tile_details: false, ..*old(window_visible) }),
        !mult_tile_windows && old(selected).selected_tile != Some(tile) ==>
            final(selected)@ == (SelectionView { selected_tiles: Set::<u64>::empty(), selected_tile: Some(tile), ..old(selected)@ })
            && *final(window_visible) == (DubugWindowsVisibility { tile_details: true, ..*old(window_visible) }),
{
    if mult_tile_windows {
        let open = toggle_in_set(&mut selected.selected_tiles, &mut selected.selected_tile, tile);
        window_visible.tile_details = open;
    } else if selected.selected_tile == Some(tile) {
        selected.selected_tile = None;
        window_visible.tile_details = false;
    } else {
        selected.selected_tile = Some(tile);
        id_set_clear(&mut selected.selected_tiles);
        window_visible.tile_details = true;
    }
}

/// Toggles the details of `being`, as `toggle_tile_selection` does for
/// tiles; a being that becomes the only one open also has its zone, body
/// part and full component view reset.
pub fn toggle_being_selection(
    mult_being_windows: bool,
    selected: &mut DebugSelectedEntities,
    window_visible: &mut DubugWindowsVisibility,
    being: u64,
)
    ensures
        mult_being_windows ==> {
            let before = old(selected)@.selected_beings;
            let after = final(selected)@.selected_beings;
            &&& final(selected)@ == (SelectionView { selected_beings: toggled(before, being), selected_being: final(selected)@.selected_being, ..old(selected)@ })
            &&& !before.contains(being) ==> final(selected)@.selected_being == Some(being)
            &&& before.contains(being) ==> (final(selected)@.selected_being is None <==> after == Set::<u64>::empty())
                && (final(selected)@.selected_being is Some ==> after.contains(final(selected)@.selected_being->0))
            &&& *final(window_visible) == (DubugWindowsVisibility { being_details: after != Set::<u64>::empty(), ..*old(window_visible) })
        },
        !mult_being_windows && old(selected).selected_being == Some(being) ==>
            final(selected)@ == (SelectionView { selected_being: None, ..old(selected)@ })
            && *final(window_visible) == (DubugWindowsVisibility { being_details: false, ..*old(window_visible) }),
        !mult_being_windows && old(selected).selected_being != Some(being) ==>
            final(selected)@ == (SelectionView {
                selected_beings: Set::<u64>::empty(),
                selected_being: Some(being),
                selected_being_interaction_zone: None,
                selected_being_bodypart: None,
                show_full_being_components: false,
                ..old(selected)@
            })
            && *final(window_visible) == (DubugWindowsVisibility { being_details: true, ..*old(window_visible) }),
{
    if mult_being_windows {
        let open = toggle_in_set(&mut selected.selected_beings, &mut selected.selected_being, being);
        window_visible.being_details = open;
    } else if selected.selected_being == Some(being) {
        selected.selected_being = None;
        window_visible.being_details = false;
    } else {
        selected.selected_being = Some(being);
        id_set_clear(&mut selected.selected_beings);
        selected.selected_being_interaction_zone = None;
        selected.selected_being_bodypart = None;
        selected.show_full_being_components = false;
        window_visible.being_details = true;
    }
}

/// Opening a being's details with several being windows allowed keeps
/// every being window that was open, adds the being's, and makes it the
/// current being; with one window only, the being's window is the only one
/// left.  Likewise for tiles.
pub proof fn lemma_details_windows_accumulate(v: SelectionView, being: u64, tile: u64)
    ensures
        forall|b: u64| v.selected_beings.contains(b) ==> #[trigger] being_details_selected(true, v, being).selected_beings.contains(b),
        being_details_selected(true, v, being).selected_beings.contains(being),
        forall|b: u64| #[trigger] being_details_selected(true, v, being).selected_beings.contains(b)
            ==> b == being || v.selected_beings.contains(b),
        being_details_selected(true, v, being).selected_being == Some(being),
        being_details_selected(true, v, being).selected_tiles == v.selected_tiles,
        being_details_selected(false, v, being).selected_beings.is_empty(),
        being_details_selected(false, v, being).selected_being == Some(being),
        forall|t: u64| v.selected_tiles.contains(t) ==> #[trigger] tile_details_selected(true, v, tile).selected_tiles.contains(t),
        tile_details_selected(true, v, tile).selected_tiles.contains(tile),
        forall|t: u64| #[trigger] tile_details_selected(true, v, tile).selected_tiles.contains(t)
            ==> t == tile || v.selected_tiles.contains(t),
        tile_details_selected(true, v, tile).selected_tile == Some(tile),
        tile_details_selected(true, v, tile).selected_beings == v.selected_beings,
        tile_details_selected(false, v, tile).selected_tiles.is_empty(),
{
}

/// Toggling the same tile twice with several tile windows allowed gives
/// back the set of open tiles.
pub proof fn lemma_toggle_twice_restores(open: Set<u64>, tile: u64)
    ensures
        ({
            let once = if open.contains(tile) { open.remove(tile) } else { open.insert(tile) };
            let twice = if once.contains(tile) { once.remove(tile) } else { once.insert(tile) };
            twice == open
        }),
{
    let once = if open.contains(tile) { open.remove(tile) } else { open.insert(tile) };
    let twice = if once.contains(tile) { once.remove(tile) } else { once.insert(tile) };
    assert(twice =~= open);
}

/// Shows the details of the being the being picker selected: the tile and
/// exempted entity views close, and the being's body part and full
/// component view are reset.
pub fn select_being_details(entity: u64, selected: &mut DebugSelectedEntities, window_visible: &mut DubugWindowsVisibility)
    ensures
        final(selected)@ == (SelectionView {
            selected_being: Some(entity),
            selected_being_bodypart: None,
            show_full_being_components: false,
            selected_exempted_entity: None,
            selected_tile: None,
            ..old(selected)@
        }),
        *final(window_visible) == (DubugWindowsVisibility { tile_details: false, being_details: true, ..*old(window_visible) }),
{
    selected.selected_being = Some(entity);
    selected.selected_being_bodypart = None;
    selected.show_full_being_components = false;
    selected.selected_exempted_entity = None;
    selected.selected_tile = None;
    window_visible.tile_details = false;
    window_visible.being_details = true;
}

/// After the tile remover despawned `tile`, it is no longer the selected
/// tile or the selected exempted entity.
pub fn forget_removed_tile(selected: &mut DebugSelectedEntities, tile: u64)
    ensures
        final(selected)@ == (SelectionView {
            selected_tile: if old(selected).selected_tile == Some(tile) { None } else { old(selected).selected_tile },
            selected_exempted_entity: if old(selected).selected_exempted_entity == Some(tile) {
                None
            } else {
                old(selected).selected_exempted_entity
            },
            ..old(selected)@
        }),
{
    if selected.selected_tile == Some(tile) {
        selected.selected_tile = None;
    }
    if selected.selected_exempted_entity == Some(tile) {
        selected.selected_exempted_entity = None;
    }
}

} // verus!
