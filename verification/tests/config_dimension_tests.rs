use bevy_platform::collections::HashSet;
use game_debug::dimension::{camera_first, needs_dimension_parent, resolve_dimension_refs, MultipleDimensionStringRefs};
use game_debug::windows::{
    config_from_defs, default_enable_debug_menus, set_being_click_remover_active,
    set_tile_click_remover_active, DebugHotReloadDefaultsSeri, DebugUiConfig, DebugUiConfigSeri,
    DebugWindowsOpenOnStartSeri, DubugWindowsVisibility,
};

fn seri() -> DebugUiConfigSeri {
    DebugUiConfigSeri {
        id: "debug".to_string(),
        enable_debug_menus: false,
        wall_phaser: true,
        invulnerable: false,
        client_debug: true,
        hot_reload_defaults: DebugHotReloadDefaultsSeri {
            tiles: true,
            sprite_configs_and_animations: false,
            terrain_oplists_and_noises: false,
            probes_and_filters: false,
            terrgen_settings: false,
            beings_inst_templates: false,
            races: true,
            sexes: false,
        },
        windows_open_on_start: DebugWindowsOpenOnStartSeri {
            main_menu: true,
            hot_reload_window_open_on_start: false,
            all_states: false,
            terrgen_editor: false,
            terrgen_values: false,
            settings_editor: false,
            daylight: true,
            nav_maps: false,
        },
    }
}

#[test]
fn default_windows_are_closed() {
    let v = DubugWindowsVisibility::default();
    assert!(!v.main_menu && !v.tile_details && !v.click_picker && !v.river_debug);
    assert!(default_enable_debug_menus());
    let c = DebugUiConfig::default();
    assert!(c.enable_debug_menus);
    assert!(!c.wall_phaser && !c.invulnerable && !c.client_debug);
    assert_eq!(c.windows_open_on_start, DubugWindowsVisibility::default());
}

#[test]
fn config_follows_first_definition() {
    assert_eq!(config_from_defs(&vec![]), None);
    let config = config_from_defs(&vec![seri(), DebugUiConfigSeri { wall_phaser: false, ..seri() }]).unwrap();
    assert!(!config.enable_debug_menus);
    assert!(config.wall_phaser);
    assert!(config.client_debug);
    assert!(config.hot_reload_defaults.tiles && config.hot_reload_defaults.races);
    assert!(!config.hot_reload_defaults.sexes);
    let expected = DubugWindowsVisibility { main_menu: true, daylight: true, ..DubugWindowsVisibility::default() };
    assert_eq!(config.windows_open_on_start, expected);
    assert_eq!(seri().to_config(), config);
}

#[test]
fn removers_only_touch_their_flag() {
    let mut v = DubugWindowsVisibility { main_menu: true, ..DubugWindowsVisibility::default() };
    set_tile_click_remover_active(true, &mut v);
    assert_eq!(v, DubugWindowsVisibility { main_menu: true, tile_click_remover: true, ..DubugWindowsVisibility::default() });
    set_being_click_remover_active(true, &mut v);
    set_tile_click_remover_active(false, &mut v);
    assert_eq!(v, DubugWindowsVisibility { main_menu: true, being_click_remover: true, ..DubugWindowsVisibility::default() });
}

#[test]
fn dimension_refs_drop_empty_names() {
    let refs = MultipleDimensionStringRefs::new(vec!["overworld".to_string(), "".to_string(), "caves".to_string()]);
    let names: Vec<String> = refs.iter().cloned().collect();
    assert_eq!(names, vec!["overworld".to_string(), "caves".to_string()]);
}

#[test]
fn dimension_refs_resolve_to_hash_ids() {
    let refs = MultipleDimensionStringRefs::new(vec!["overworld".to_string(), "caves".to_string(), "void".to_string()]);
    let known = vec![
        ("caves".to_string(), Some(22)),
        ("overworld".to_string(), Some(11)),
        ("void".to_string(), None),
        ("caves".to_string(), Some(99)),
    ];
    let mut expected = HashSet::default();
    expected.insert(11u64);
    expected.insert(22u64);
    assert_eq!(resolve_dimension_refs(&refs, &known), expected);
}

#[test]
fn camera_dimension_listed_first() {
    let keys = vec!["a".to_string(), "b".to_string(), "c".to_string()];
    let b = "b".to_string();
    let z = "z".to_string();
    assert_eq!(camera_first(&keys, Some(&b)), vec!["b".to_string(), "a".to_string(), "c".to_string()]);
    assert_eq!(camera_first(&keys, Some(&z)), keys);
    assert_eq!(camera_first(&keys, None), keys);
}

#[test]
fn dimension_parent_rule() {
    assert!(needs_dimension_parent(None));
    assert!(needs_dimension_parent(Some(true)));
    assert!(!needs_dimension_parent(Some(false)));
}
