use game_debug::chunks::{
    chunk_state_color, chunk_state_name, color_for_str_id, is_discovered, macrochunk_fill_color,
    macrochunk_stroke, stats_of, tile_palette_index, BiomeSampling, MacroChunkChunkStats,
    MacroChunkStroke, Rgb, TerrGenState,
};
use game_debug::labels::{
    being_list_entry_label, entity_label, is_ascii_alphanumeric, nav_being_label, nav_kind_label,
    short_macrochunk_label, short_tile_label, to_ascii_uppercase, NavDebugKind,
};

#[test]
fn chunk_stats_count_each_state() {
    let stats = stats_of(&vec![
        TerrGenState::Pending,
        TerrGenState::Finished,
        TerrGenState::Finished,
        TerrGenState::Disabled,
    ]);
    assert_eq!(
        stats,
        MacroChunkChunkStats {
            total_chunks: 4,
            pending_chunks: 1,
            ready_chunks: 0,
            ops_launched_chunks: 0,
            finished_chunks: 2,
            disabled_chunks: 1,
        }
    );
    let pushed = MacroChunkChunkStats::new().push(TerrGenState::Ready);
    assert_eq!(pushed.total_chunks, 1);
    assert_eq!(pushed.ready_chunks, 1);
    assert_eq!(stats_of(&vec![]), MacroChunkChunkStats::new());
}

#[test]
fn chunk_state_names_and_colours() {
    assert_eq!(chunk_state_name(TerrGenState::OpsLaunched), "OpsLaunched");
    assert_eq!(chunk_state_name(TerrGenState::Pending), "Pending");
    assert_eq!(chunk_state_color(TerrGenState::Finished), Rgb { r: 70, g: 160, b: 95 });
    assert_eq!(chunk_state_color(TerrGenState::Disabled), Rgb { r: 135, g: 65, b: 65 });
}

#[test]
fn macrochunk_fill_and_stroke() {
    assert_eq!(macrochunk_fill_color(BiomeSampling::Unsampled, true), Rgb { r: 52, g: 52, b: 52 });
    assert_eq!(macrochunk_fill_color(BiomeSampling::Sampled, true), Rgb { r: 60, g: 140, b: 82 });
    assert_eq!(macrochunk_fill_color(BiomeSampling::Sampled, false), Rgb { r: 65, g: 105, b: 165 });
    let pending = vec![TerrGenState::Pending, TerrGenState::Pending];
    let started = vec![TerrGenState::Pending, TerrGenState::Ready];
    assert!(!is_discovered(&pending));
    assert!(is_discovered(&started));
    assert_eq!(macrochunk_stroke(&pending, true, true), MacroChunkStroke::Camera);
    assert_eq!(macrochunk_stroke(&pending, true, false), MacroChunkStroke::Selected);
    assert_eq!(macrochunk_stroke(&started, false, false), MacroChunkStroke::Discovered);
    assert_eq!(macrochunk_stroke(&pending, false, false), MacroChunkStroke::Plain);
}

#[test]
fn str_id_colours_follow_the_hash() {
    // "ab": 97 * 31 + 98 = 3105, entry 5
    assert_eq!(tile_palette_index("ab"), 5);
    assert_eq!(color_for_str_id("ab"), Rgb { r: 100, g: 200, b: 200 });
    assert_eq!(tile_palette_index("a"), 7);
    assert_eq!(color_for_str_id(""), Rgb { r: 100, g: 200, b: 100 });
}

#[test]
fn ascii_helpers() {
    assert!(is_ascii_alphanumeric('z'));
    assert!(is_ascii_alphanumeric('7'));
    assert!(!is_ascii_alphanumeric('_'));
    assert!(!is_ascii_alphanumeric('é'));
    assert_eq!(to_ascii_uppercase('q'), 'Q');
    assert_eq!(to_ascii_uppercase('Q'), 'Q');
    assert_eq!(to_ascii_uppercase('3'), '3');
}

#[test]
fn short_labels() {
    assert_eq!(short_tile_label("grass"), "gs");
    assert_eq!(short_tile_label("x"), "xx");
    assert_eq!(short_tile_label(""), "..");
    assert_eq!(short_macrochunk_label("temperate forest"), "TE");
    assert_eq!(short_macrochunk_label("_a_"), "AA");
    assert_eq!(short_macrochunk_label("--"), "..");
}

#[test]
fn entity_labels() {
    assert_eq!(entity_label("5v1", Some("Bob"), Some("bob_id")), "Bob (5v1)");
    assert_eq!(entity_label("5v1", Some(""), Some("bob_id")), "bob_id (5v1)");
    assert_eq!(entity_label("5v1", None, None), "5v1");
    assert_eq!(nav_being_label("5v1", None, Some("wolf"), true), "wolf");
    assert_eq!(nav_being_label("5v1", None, None, false), "5v1 (missing)");
}

#[test]
fn being_list_entries() {
    assert_eq!(
        being_list_entry_label(Some("  Being Anna "), None, Some("human"), Some("villager")),
        "Anna | human | villager"
    );
    assert_eq!(being_list_entry_label(None, Some("being "), None, Some("wolf")), "being | - | wolf");
    assert_eq!(being_list_entry_label(Some("   "), Some("Rex"), None, Some("wolf")), "- | wolf");
    assert_eq!(being_list_entry_label(None, Some("being  cub"), None, None), "cub | - | -");
    assert_eq!(being_list_entry_label(None, None, None, None), "- | -");
    assert_eq!(being_list_entry_label(None, Some("Rex"), Some("dog"), None), "Rex | dog | -");
    // white space of every kind is trimmed, as `str::trim` does
    assert_eq!(being_list_entry_label(Some("\u{3000}Being Bo\t"), None, None, None), "Bo | - | -");
    assert_eq!(being_list_entry_label(Some("\n\u{a0}"), Some("Rex"), None, None), "- | -");
}

#[test]
fn nav_kind_labels() {
    assert_eq!(nav_kind_label(&NavDebugKind::Repath), "Repath");
    assert_eq!(nav_kind_label(&NavDebugKind::Other("custom".to_string())), "custom");
}
