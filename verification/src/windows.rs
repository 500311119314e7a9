//! Which debug windows are open, and the debug configuration read at start.
use vstd::prelude::*;
use crate::picking::TilePos;

verus! {

/// Which debug windows are open.
#[derive(PartialEq, Eq, Structural, Clone, Copy, Debug)]
pub struct DubugWindowsVisibility {
    pub states: bool,
    pub all_states: bool,
    pub main_menu: bool,
    pub dimension_changer: bool,
    pub chunks_list: bool,
    pub macrochunks_grid: bool,
    pub regions_list: bool,
    pub beings_list: bool,
    pub players_list: bool,
    pub portals_list: bool,
    pub terrgen_values: bool,
    pub inlandness_visualizer: bool,
    pub settings_editor: bool,
    pub daylight: bool,
    pub tile_details: bool,
    pub chunk_details: bool,
    pub region_details: bool,
    pub tilemap_details: bool,
    pub being_details: bool,
    pub faction_details: bool,
    pub player_details: bool,
    pub registered_positions: bool,
    pub exempted_entity_details: bool,
    pub sprite_configs_list: bool,
    pub sprite_details: bool,
    pub gpos_maps: bool,
    pub tile_indices_map: bool,
    pub nav_maps: bool,
    pub click_picker: bool,
    pub tile_click_remover: bool,
    pub being_click_remover: bool,
    pub hot_reload_window_open_on_start: bool,
    pub river_debug: bool,
}

/// Every window closed.
pub open spec fn all_windows_closed() -> DubugWindowsVisibility {
    DubugWindowsVisibility {
        states: false,
        all_states: false,
        main_menu: false,
        dimension_changer: false,
        chunks_list: false,
        macrochunks_grid: false,
        regions_list: false,
        beings_list: false,
        players_list: false,
        portals_list: false,
        terrgen_values: false,
        inlandness_visualizer: false,
        settings_editor: false,
        daylight: false,
        tile_details: false,
        chunk_details: false,
        region_details: false,
        tilemap_details: false,
        being_details: false,
        faction_details: false,
        player_details: false,
        registered_positions: false,
        exempted_entity_details: false,
        sprite_configs_list: false,
        sprite_details: false,
        gpos_maps: false,
        tile_indices_map: false,
        nav_maps: false,
        click_picker: false,
        tile_click_remover: false,
        being_click_remover: false,
        hot_reload_window_open_on_start: false,
        river_debug: false,
    }
}

impl Default for DubugWindowsVisibility {
    /// Every window closed.
    fn default() -> (res: Self)
        ensures
            res == all_windows_closed(),
    {
        DubugWindowsVisibility {
            states: false,
            all_states: false,
            main_menu: false,
            dimension_changer: false,
            chunks_list: false,
            macrochunks_grid: false,
            regions_list: false,
            beings_list: false,
            players_list: false,
            portals_list: false,
            terrgen_values: false,
            inlandness_visualizer: false,
            settings_editor: false,
            daylight: false,
            tile_details: false,
            chunk_details: false,
            region_details: false,
            tilemap_details: false,
            being_details: false,
            faction_details: false,
            player_details: false,
            registered_positions: false,
            exempted_entity_details: false,
            sprite_configs_list: false,
            sprite_details: false,
            gpos_maps: false,
            tile_indices_map: false,
            nav_maps: false,
            click_picker: false,
            tile_click_remover: false,
            being_click_remover: false,
            hot_reload_window_open_on_start: false,
            river_debug: false,
        }
    }
}

/// Which kinds of assets hot reloading watches.
#[derive(PartialEq, Eq, Structural, Clone, Copy, Debug)]
pub struct HotReloadSelection {
    pub tiles: bool,
    pub sprite_configs_and_animations: bool,
    pub terrain_oplists_and_noises: bool,
    pub probes_and_filters: bool,
    pub terrgen_settings: bool,
    pub beings_inst_templates: bool,
    pub races: bool,
    pub sexes: bool,
}

/// Which kinds of assets hot reloading watches, as the settings file says
/// (each missing entry is false).
#[derive(PartialEq, Eq, Structural, Clone, Copy, Debug)]
pub struct DebugHotReloadDefaultsSeri {
    pub tiles: bool,
    pub sprite_configs_and_animations: bool,
    pub terrain_oplists_and_noises: bool,
    pub probes_and_filters: bool,
    pub terrgen_settings: bool,
    pub beings_inst_templates: bool,
    pub races: bool,
    pub sexes: bool,
}

/// Which windows open at start, as the settings file says (each missing
/// entry is false).
#[derive(PartialEq, Eq, Structural, Clone, Copy, Debug)]
pub struct DebugWindowsOpenOnStartSeri {
    pub main_menu: bool,
    pub hot_reload_window_open_on_start: bool,
    pub all_states: bool,
    pub terrgen_editor: bool,
    pub terrgen_values: bool,
    pub settings_editor: bool,
    pub daylight: bool,
    pub nav_maps: bool,
}

/// The debug settings as the settings file holds them.
#[derive(PartialEq, Eq, Clone, Debug)]
pub struct DebugUiConfigSeri {
    pub id: String,
    pub enable_debug_menus: bool,
    pub wall_phaser: bool,
    pub invulnerable: bool,
    pub client_debug: bool,
    pub hot_reload_defaults: DebugHotReloadDefaultsSeri,
    pub windows_open_on_start: DebugWindowsOpenOnStartSeri,
}

/// Debug menus are on unless the settings file turns them off.
pub fn default_enable_debug_menus() -> (res: bool)
    ensures
        res,
{
    true
}

/// The debug settings in effect.
#[derive(PartialEq, Eq, Structural, Clone, Copy, Debug)]
pub struct DebugUiConfig {
    pub enable_debug_menus: bool,
    pub wall_phaser: bool,
    pub invulnerable: bool,
    pub client_debug: bool,
    pub hot_reload_defaults: HotReloadSelection,
    pub windows_open_on_start: DubugWindowsVisibility,
}

impl Default for DebugUiConfig {
    /// Debug menus on, every other switch off, no window open.
    fn default() -> (res: Self)
        ensures
            res.enable_debug_menus,
            !res.wall_phaser,
            !res.invulnerable,
            !res.client_debug,
            res.hot_reload_defaults == (HotReloadSelection {
                tiles: false,
                sprite_configs_and_animations: false,
                terrain_oplists_and_noises: false,
                probes_and_filters: false,
                terrgen_settings: false,
                beings_inst_templates: false,
                races: false,
                sexes: false,
            }),
            res.windows_open_on_start == all_windows_closed(),
    {
        DebugUiConfig {
            enable_debug_menus: true,
            wall_phaser: false,
            invulnerable: false,
            client_debug: false,
            hot_reload_defaults: HotReloadSelection {
                tiles: false,
                sprite_configs_and_animations: false,
                terrain_oplists_and_noises: false,
                probes_and_filters: false,
                terrgen_settings: false,
                beings_inst_templates: false,
                races: false,
                sexes: false,
            },
            windows_open_on_start: DubugWindowsVisibility::default(),
        }
    }
}

/// The settings in effect for what the settings file holds: its switches
/// and hot reload choices as they are, and the windows it names open at
/// start, every other window closed.
pub open spec fn config_of(seri: DebugUiConfigSeri) -> DebugUiConfig {
    DebugUiConfig {
        enable_debug_menus: seri.enable_debug_menus,
        wall_phaser: seri.wall_phaser,
        invulnerable: seri.invulnerable,
        client_debug: seri.client_debug,
        hot_reload_defaults: HotReloadSelection {
            tiles: seri.hot_reload_defaults.tiles,
            sprite_configs_and_animations: seri.hot_reload_defaults.sprite_configs_and_animations,
            terrain_oplists_and_noises: seri.hot_reload_defaults.terrain_oplists_and_noises,
            probes_and_filters: seri.hot_reload_defaults.probes_and_filters,
            terrgen_settings: seri.hot_reload_defaults.terrgen_settings,
            beings_inst_templates: seri.hot_reload_defaults.beings_inst_templates,
            races: seri.hot_reload_defaults.races,
            sexes: seri.hot_reload_defaults.sexes,
        },
        windows_open_on_start: DubugWindowsVisibility {
            main_menu: seri.windows_open_on_start.main_menu,
            hot_reload_window_open_on_start: seri.windows_open_on_start.hot_reload_window_open_on_start,
            all_states: seri.windows_open_on_start.all_states,
            terrgen_values: seri.windows_open_on_start.terrgen_values,
            settings_editor: seri.windows_open_on_start.settings_editor,
            daylight: seri.windows_open_on_start.daylight,
            nav_maps: seri.windows_open_on_start.nav_maps,
            ..all_windows_closed()
        },
    }
}

/// Every switch, hot reload choice and open-on-start flag of the settings
/// file is carried into the settings in effect; the windows the file cannot
/// name start closed.
pub proof fn lemma_config_carries_every_flag(seri: DebugUiConfigSeri)
    ensures
        ({
            let c = config_of(seri);
            let w = seri.windows_open_on_start;
            let h = seri.hot_reload_defaults;
            &&& c.enable_debug_menus == seri.enable_debug_menus
            &&& c.wall_phaser == seri.wall_phaser
            &&& c.invulnerable == seri.invulnerable
            &&& c.client_debug == seri.client_debug
            &&& c.hot_reload_defaults.tiles == h.tiles
            &&& c.hot_reload_defaults.sprite_configs_and_animations == h.sprite_configs_and_animations
            &&& c.hot_reload_defaults.terrain_oplists_and_noises == h.terrain_oplists_and_noises
            &&& c.hot_reload_defaults.probes_and_filters == h.probes_and_filters
            &&& c.hot_reload_defaults.terrgen_settings == h.terrgen_settings
            &&& c.hot_reload_defaults.beings_inst_templates == h.beings_inst_templates
            &&& c.hot_reload_defaults.races == h.races
            &&& c.hot_reload_defaults.sexes == h.sexes
            &&& c.windows_open_on_start.main_menu == w.main_menu
            &&& c.windows_open_on_start.hot_reload_window_open_on_start == w.hot_reload_window_open_on_start
            &&& c.windows_open_on_start.all_states == w.all_states
            &&& c.windows_open_on_start.terrgen_values == w.terrgen_values
            &&& c.windows_open_on_start.settings_editor == w.settings_editor
            &&& c.windows_open_on_start.daylight == w.daylight
            &&& c.windows_open_on_start.nav_maps == w.nav_maps
            &&& !c.windows_open_on_start.states && !c.windows_open_on_start.tile_details
            &&& !c.windows_open_on_start.being_details && !c.windows_open_on_start.click_picker
            &&& !c.windows_open_on_start.gpos_maps && !c.windows_open_on_start.chunks_list
            &&& !c.windows_open_on_start.regions_list && !c.windows_open_on_start.tile_click_remover
        }),
{
}

impl DebugUiConfigSeri {
    /// The settings in effect for what the settings file holds (see
    /// `config_of`).
    pub fn to_config(&self) -> (res: DebugUiConfig)
        ensures
            res == config_of(*self),
    {
        let mut v = DubugWindowsVisibility::default();
        v.main_menu = self.windows_open_on_start.main_menu;
        v.hot_reload_window_open_on_start = self.windows_open_on_start.hot_reload_window_open_on_start;
        v.all_states = self.windows_open_on_start.all_states;
        v.terrgen_values = self.windows_open_on_start.terrgen_values;
        v.settings_editor = self.windows_open_on_start.settings_editor;
        v.daylight = self.windows_open_on_start.daylight;
        v.nav_maps = self.windows_open_on_start.nav_maps;
        DebugUiConfig {
            enable_debug_menus: self.enable_debug_menus,
            wall_phaser: self.wall_phaser,
            invulnerable: self.invulnerable,
            client_debug: self.client_debug,
            hot_reload_defaults: HotReloadSelection {
                tiles: self.hot_reload_defaults.tiles,
                sprite_configs_and_animations: self.hot_reload_defaults.sprite_configs_and_animations,
                terrain_oplists_and_noises: self.hot_reload_defaults.terrain_oplists_and_noises,
                probes_and_filters: self.hot_reload_defaults.probes_and_filters,
                terrgen_settings: self.hot_reload_defaults.terrgen_settings,
                beings_inst_templates: self.hot_reload_defaults.beings_inst_templates,
                races: self.hot_reload_defaults.races,
                sexes: self.hot_reload_defaults.sexes,
            },
            windows_open_on_start: v,
        }
    }
}

/// The settings to apply from the settings definitions that were loaded:
/// those of the first definition, or none when no definition was loaded.
pub fn config_from_defs(defs: &Vec<DebugUiConfigSeri>) -> (res: Option<DebugUiConfig>)
    ensures
        defs@.len() == 0 ==> res is None,
        defs@.len() > 0 ==> res == Some(config_of(defs@[0])),
{
    if defs.len() == 0 {
        None
    } else {
        Some(defs[0].to_config())
    }
}

/// Shows or hides the tile click remover (or the being click remover): the
/// window flag follows `active`; nothing else changes.
pub fn set_tile_click_remover_active(active: bool, window_visible: &mut DubugWindowsVisibility)
    ensures
        *final(window_visible) == (DubugWindowsVisibility { tile_click_remover: active, ..*old(window_visible) }),
{
    window_visible.tile_click_remover = active;
}

/// Shows or hides the being click remover; nothing else changes.
pub fn set_being_click_remover_active(active: bool, window_visible: &mut DubugWindowsVisibility)
    ensures
        *final(window_visible) == (DubugWindowsVisibility { being_click_remover: active, ..*old(window_visible) }),
{
    window_visible.being_click_remover = active;
}

/// What the chunking window follows and has open.
pub struct DebugChunkingUiState {
    pub follow_camera_chunk: bool,
    pub follow_camera_region: bool,
    pub follow_camera_macrochunk: bool,
    pub open_tilemap_type: Option<String>,
    pub chunk_details_open_nonce: u64,
    pub selected_macrochunk_chunk: Option<TilePos>,
}

impl Default for DebugChunkingUiState {
    /// Following the camera's chunk, region and macrochunk, with nothing
    /// open.
    fn default() -> (res: Self)
        ensures
            res.follow_camera_chunk,
            res.follow_camera_region,
            res.follow_camera_macrochunk,
            res.open_tilemap_type is None,
            res.chunk_details_open_nonce == 0,
            res.selected_macrochunk_chunk is None,
    {
        DebugChunkingUiState {
            follow_camera_chunk: true,
            follow_camera_region: true,
            follow_camera_macrochunk: true,
            open_tilemap_type: None,
            chunk_details_open_nonce: 0,
            selected_macrochunk_chunk: None,
        }
    }
}

} // verus!
