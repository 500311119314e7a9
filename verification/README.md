# game_debug

The decisions behind the game's debug tools, dimensions and factions, written
as a Verus library: each function states what it computes in its contract,
and Verus proves the code against it.

- `src/` — the verified library.
  - `faction` — the pool of faction template instances, the faction markers
    of things, the faction of each player, cultures' opinions of races.
  - `picking`, `selection`, `inspector` — the click pickers, what the debug
    tools have selected, and the tile picker window.
  - `grid`, `viewport`, `preview`, `chunks` — tile grid arithmetic, map and
    preview cells, colours.
  - `labels`, `nav_text`, `expr_text` — the texts the debug windows show.
  - `windows`, `window_state`, `dimension` — open windows and settings, the
    decisions of the debug windows; dimension references.
  - `collections` — the `bevy_platform` hash collections, declared to Verus.
- `tests/` — tests of the library on concrete values.
- `app/` — the Bevy systems around the library: queries, commands, the
  settings file, and the views that compute on floating point.
