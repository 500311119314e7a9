//! The tile picker window: its state, the size of its grid, and what a
//! click in it does to the selection and the detail windows.
use vstd::prelude::*;
use crate::collections::{id_set_contents, id_set_insert, id_set_clear};
use crate::windows::DubugWindowsVisibility;
use crate::picking::TilePos;
use crate::selection::{
    DebugSelectedEntities, SelectionView, select_tile_for_details, select_being_for_details,
    tile_details_selected, being_details_selected,
};

verus! {

/// The state of the tile picker window.
#[derive(PartialEq, Eq, Structural, Clone, Copy, Debug)]
pub struct ClickInspectorState {
    pub enabled: bool,
    pub picking_enabled: bool,
    pub picker_side: usize,
    pub mult_being_windows: bool,
    pub mult_tile_windows: bool,
    pub auto_open_being_details: bool,
    pub auto_open_tile_details: bool,
    pub clicked_dim: Option<u64>,
    pub clicked_gpos: Option<TilePos>,
    pub highlighted_center_tile: Option<u64>,
    /// Whether the highlighted tile had a colour of its own before, which
    /// comes back when the highlight goes.
    pub highlighted_center_tile_had_color: bool,
}

impl Default for ClickInspectorState {
    /// Picker off with picking on, a grid five cells wide, one window per
    /// tile and per being, details opened on click, nothing clicked.
    fn default() -> (res: Self)
        ensures
            res == (ClickInspectorState {
                enabled: false,
                picking_enabled: true,
                picker_side: 5,
                mult_being_windows: false,
                mult_tile_windows: false,
                auto_open_being_details: true,
                auto_open_tile_details: true,
                clicked_dim: None,
                clicked_gpos: None,
                highlighted_center_tile: None,
                highlighted_center_tile_had_color: false,
            }),
    {
        ClickInspectorState {
            enabled: false,
            picking_enabled: true,
            picker_side: 5,
            mult_being_windows: false,
            mult_tile_windows: false,
            auto_open_being_details: true,
            auto_open_tile_details: true,
            clicked_dim: None,
            clicked_gpos: None,
            highlighted_center_tile: None,
            highlighted_center_tile_had_color: false,
        }
    }
}

impl ClickInspectorState {
    /// Forgets the clicked tile.
    pub fn clear_picker_selection(&mut self)
        ensures
            *final(self) == (ClickInspectorState { clicked_dim: None, clicked_gpos: None, ..*old(self) }),
    {
        self.clicked_dim = None;
        self.clicked_gpos = None;
    }
}

/// The narrowest picker grid.
pub const PICKER_MIN_SIDE: usize = 3;
/// The widest picker grid.
pub const PICKER_MAX_SIDE: usize = 15;

/// `v` brought within `lo..=hi`.
pub open spec fn clamp_spec(v: int, lo: int, hi: int) -> int {
    if v < lo { lo } else if v > hi { hi } else { v }
}

/// The side of the picker grid that is drawn: the chosen side brought
/// within the narrowest and widest grids.
pub fn picker_side_in_use(picker_side: usize) -> (res: usize)
    ensures
        res as int == clamp_spec(picker_side as int, PICKER_MIN_SIDE as int, PICKER_MAX_SIDE as int),
{
    if picker_side < PICKER_MIN_SIDE {
        PICKER_MIN_SIDE
    } else if picker_side > PICKER_MAX_SIDE {
        PICKER_MAX_SIDE
    } else {
        picker_side
    }
}

/// The picker side kept after the size slider moved to `size`: an even
/// size goes up by one (the grid has a center cell), within the narrowest
/// and widest grids.
pub fn picker_side_from_slider(size: usize) -> (res: usize)
    ensures
        res as int == clamp_spec(
            if size % 2 == 0 {
                if size as int + 1 < PICKER_MAX_SIDE as int { size as int + 1 } else { PICKER_MAX_SIDE as int }
            } else {
                size as int
            },
            PICKER_MIN_SIDE as int,
            PICKER_MAX_SIDE as int,
        ),
        res % 2 == 1,
{
    let mut side = size;
    if side % 2 == 0 {
        side = if side < usize::MAX { side + 1 } else { side };
        if side > PICKER_MAX_SIDE {
            side = PICKER_MAX_SIDE;
        }
    }
    picker_side_in_use(side)
}

/// Turns several tile windows on or off: turning them on keeps the tile
/// (or else the exempted entity) in view among the open tiles; turning
/// them off closes every tile window but the current one.
pub fn set_mult_tile_windows(enabled: bool, selected: &mut DebugSelectedEntities)
    ensures
        final(selected)@ == (SelectionView {
            selected_tiles: if !enabled {
                Set::<u64>::empty()
            } else {
                match old(selected).selected_tile {
                    Some(t) => old(selected)@.selected_tiles.insert(t),
                    None => match old(selected).selected_exempted_entity {
                        Some(e) => old(selected)@.selected_tiles.insert(e),
                        None => old(selected)@.selected_tiles,
                    },
                }
            },
            ..old(selected)@
        }),
{
    if enabled {
        let shown = match selected.selected_tile {
            Some(t) => Some(t),
            None => selected.selected_exempted_entity,
        };
        match shown {
            Some(t) => {
                let _ = id_set_insert(&mut selected.selected_tiles, t);
            },
            None => {},
        }
    } else {
        id_set_clear(&mut selected.selected_tiles);
    }
}

/// Turns several being windows on or off, as `set_mult_tile_windows` does
/// for tiles.
pub fn set_mult_being_windows(enabled: bool, selected: &mut DebugSelectedEntities)
    ensures
        final(selected)@ == (SelectionView {
            selected_beings: if !enabled {
                Set::<u64>::empty()
            } else {
                match old(selected).selected_being {
                    Some(b) => old(selected)@.selected_beings.insert(b),
                    None => match old(selected).selected_exempted_entity {
                        Some(e) => old(selected)@.selected_beings.insert(e),
                        None => old(selected)@.selected_beings,
                    },
                }
            },
            ..old(selected)@
        }),
{
    if enabled {
        let shown = match selected.selected_being {
            Some(b) => Some(b),
            None => selected.selected_exempted_entity,
        };
        match shown {
            Some(b) => {
                let _ = id_set_insert(&mut selected.selected_beings, b);
            },
            None => {},
        }
    } else {
        id_set_clear(&mut selected.selected_beings);
    }
}

/// The selection after a click of the tile picker on a tile whose topmost
/// tile is `center_tile` and whose first being is `center_being`: with no
/// tile there the tile and the exempted entity are deselected; otherwise
/// the tile's and the being's details open as the picker's options say;
/// and with one tile window only, no other tile window stays open.
pub open spec fn clicked_selection(
    state: ClickInspectorState,
    v: SelectionView,
    center_tile: Option<u64>,
    center_being: Option<u64>,
) -> SelectionView {
    let opened = match center_tile {
        None => SelectionView { selected_tile: None, selected_exempted_entity: None, ..v },
        Some(t) => {
            let with_tile = if state.auto_open_tile_details {
                tile_details_selected(state.mult_tile_windows, v, t)
            } else {
                v
            };
            match center_being {
                Some(b) => if state.auto_open_being_details {
                    being_details_selected(state.mult_being_windows, with_tile, b)
                } else {
                    with_tile
                },
                None => with_tile,
            }
        },
    };
    if state.mult_tile_windows { opened } else { SelectionView { selected_tiles: Set::<u64>::empty(), ..opened } }
}

/// The windows after a click of the tile picker (see `clicked_selection`):
/// the tile details window opens when the tile's details do, and the being
/// details window when the being's do.
pub open spec fn clicked_windows(
    state: ClickInspectorState,
    w: DubugWindowsVisibility,
    center_tile: Option<u64>,
    center_being: Option<u64>,
) -> DubugWindowsVisibility {
    match center_tile {
        None => w,
        Some(_) => DubugWindowsVisibility {
            tile_details: w.tile_details || state.auto_open_tile_details,
            being_details: w.being_details || (state.auto_open_being_details && center_being is Some),
            ..w
        },
    }
}

/// A click of the tile picker on tile `gpos` of dimension `dim`: the picker
/// remembers the click, and the selection and the windows change as
/// `clicked_selection` and `clicked_windows` say.
#[verifier::rlimit(40)]
pub fn apply_tile_click(
    state: &mut ClickInspectorState,
    selected: &mut DebugSelectedEntities,
    window_visible: &mut DubugWindowsVisibility,
    dim: u64,
    gpos: TilePos,
    center_tile: Option<u64>,
    center_being: Option<u64>,
)
    ensures
        *final(state) == (ClickInspectorState { clicked_dim: Some(dim), clicked_gpos: Some(gpos), ..*old(state) }),
        final(selected)@ == clicked_selection(*old(state), old(selected)@, center_tile, center_being),
        *final(window_visible) == clicked_windows(*old(state), *old(window_visible), center_tile, center_being),
{
    state.clicked_dim = Some(dim);
    state.clicked_gpos = Some(gpos);
    match center_tile {
        None => {
            selected.selected_tile = None;
            selected.selected_exempted_entity = None;
        },
        Some(tile) => {
            if state.auto_open_tile_details {
                select_tile_for_details(state.mult_tile_windows, selected, window_visible, tile);
            }
            if state.auto_open_being_details {
                match center_being {
                    Some(being) => select_being_for_details(state.mult_being_windows, selected, window_visible, being),
                    None => {},
                }
            }
        },
    }
    if !state.mult_tile_windows {
        id_set_clear(&mut selected.selected_tiles);
    }
}

/// What a list shows as chosen: the chosen item while it is listed, else the
/// first one listed (none when none is).
pub open spec fn listed_or_first(items: Seq<u64>, chosen: Option<u64>) -> Option<u64> {
    match chosen {
        Some(f) => if items.contains(f) { Some(f) } else if items.len() > 0 { Some(items[0]) } else { None::<u64> },
        None => if items.len() > 0 { Some(items[0]) } else { None::<u64> },
    }
}

/// The faction whose details show: the selected one while it is among the
/// factions listed, else the first one listed (see `listed_or_first`).
pub fn faction_in_view(factions: &Vec<u64>, selected: Option<u64>) -> (res: Option<u64>)
    ensures
        res == listed_or_first(factions@, selected),
{
    match selected {
        Some(f) => {
            let mut i: usize = 0;
            while i < factions.len()
                invariant
                    i <= factions.len(),
                    selected == Some(f),
                    forall|j: int| 0 <= j < i ==> factions@[j] != f,
                decreases factions.len() - i,
            {
                if factions[i] == f {
                    proof {
                        assert(factions@[i as int] == f);
                        assert(factions@.contains(f));
                    }
                    return Some(f);
                }
                i = i + 1;
            }
        },
        None => {},
    }
    if factions.len() > 0 { Some(factions[0]) } else { None }
}

/// What becomes of the colour of a tile whose highlight goes.
#[derive(PartialEq, Eq, Structural, Clone, Copy, Debug)]
pub enum ColorRestore {
    /// No tile was highlighted.
    Nothing,
    /// The tile gets back the colour it had.
    Reinsert(u64),
    /// The tile had no colour of its own: the highlight colour is removed.
    RemoveColor(u64),
}

/// The restoration that ends the highlight held in `state`.
pub open spec fn restore_for(state: ClickInspectorState) -> ColorRestore {
    match state.highlighted_center_tile {
        None => ColorRestore::Nothing,
        Some(t) => if state.highlighted_center_tile_had_color {
            ColorRestore::Reinsert(t)
        } else {
            ColorRestore::RemoveColor(t)
        },
    }
}

impl ClickInspectorState {
    /// Ends the highlight of the center tile: no tile stays highlighted, and
    /// the result says how the tile that was gets its colour back.
    pub fn clear_center_highlight(&mut self) -> (res: ColorRestore)
        ensures
            res == restore_for(*old(self)),
            *final(self) == (ClickInspectorState {
                highlighted_center_tile: None,
                highlighted_center_tile_had_color: false,
                ..*old(self)
            }),
    {
        let res = match self.highlighted_center_tile {
            None => ColorRestore::Nothing,
            Some(t) => if self.highlighted_center_tile_had_color {
                ColorRestore::Reinsert(t)
            } else {
                ColorRestore::RemoveColor(t)
            },
        };
        self.highlighted_center_tile = None;
        self.highlighted_center_tile_had_color = false;
        res
    }

    /// Moves the highlight to `center_tile` (the topmost tile at the center
    /// of the picker; `center_has_color` says whether it has a colour of its
    /// own).  Nothing changes when it is already the highlighted one;
    /// otherwise the old highlight ends (see `clear_center_highlight`) and
    /// the new tile, if any, is highlighted.  The result says how the old
    /// tile gets its colour back and which tile gets the highlight colour.
    pub fn sync_center_highlight(&mut self, center_tile: Option<u64>, center_has_color: bool)
        -> (res: (ColorRestore, Option<u64>))
        ensures
            (*final(self), res) == synced(*old(self), center_tile, center_has_color),
            final(self).highlighted_center_tile == center_tile,
    {
        if self.highlighted_center_tile == center_tile {
            return (ColorRestore::Nothing, None);
        }
        let restore = self.clear_center_highlight();
        match center_tile {
            Some(t) => {
                self.highlighted_center_tile = Some(t);
                self.highlighted_center_tile_had_color = center_has_color;
            },
            None => {},
        }
        (restore, center_tile)
    }
}

/// The state after the highlight moved to `center_tile`, and what
/// `sync_center_highlight` answers.
pub open spec fn synced(state: ClickInspectorState, center_tile: Option<u64>, center_has_color: bool)
    -> (ClickInspectorState, (ColorRestore, Option<u64>))
{
    if state.highlighted_center_tile == center_tile {
        (state, (ColorRestore::Nothing, None))
    } else {
        (
            ClickInspectorState {
                highlighted_center_tile: center_tile,
                highlighted_center_tile_had_color: center_tile is Some && center_has_color,
                ..state
            },
            (restore_for(state), center_tile),
        )
    }
}

/// Moving the highlight to the tile that already has it changes nothing;
/// and once a tile got the highlight, ending it gives the tile back the
/// colour it had.
pub proof fn lemma_highlight_sync_settles(state: ClickInspectorState, center_tile: Option<u64>, center_has_color: bool, again_has_color: bool)
    ensures
        ({
            let once = synced(state, center_tile, center_has_color).0;
            &&& synced(once, center_tile, again_has_color) == (once, (ColorRestore::Nothing, None::<u64>))
            &&& state.highlighted_center_tile != center_tile && center_tile is Some ==> restore_for(once) == (
                if center_has_color { ColorRestore::Reinsert(center_tile->0) } else { ColorRestore::RemoveColor(center_tile->0) })
        }),
{
}

} // verus!
