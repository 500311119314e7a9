//! What the macrochunk and chunk debug views show of terrain generation: the
//! chunk counts of a macrochunk by generation state, the names and colours of
//! the states, and how a macrochunk cell is drawn.
use vstd::prelude::*;
use vstd::string::StringSliceAdditionalSpecFns;

verus! {

/// How far terrain generation of a chunk has come.
#[derive(PartialEq, Eq, Structural, Clone, Copy, Debug)]
pub enum TerrGenState {
    Pending,
    Ready,
    OpsLaunched,
    Finished,
    Disabled,
}

/// The chunks of a macrochunk, counted in all and by generation state.
#[derive(PartialEq, Eq, Structural, Clone, Copy, Debug)]
pub struct MacroChunkChunkStats {
    pub total_chunks: usize,
    pub pending_chunks: usize,
    pub ready_chunks: usize,
    pub ops_launched_chunks: usize,
    pub finished_chunks: usize,
    pub disabled_chunks: usize,
}

/// The count of `stats` for chunks in `state`.
pub open spec fn count_of(stats: MacroChunkChunkStats, state: TerrGenState) -> int {
    match state {
        TerrGenState::Pending => stats.pending_chunks as int,
        TerrGenState::Ready => stats.ready_chunks as int,
        TerrGenState::OpsLaunched => stats.ops_launched_chunks as int,
        TerrGenState::Finished => stats.finished_chunks as int,
        TerrGenState::Disabled => stats.disabled_chunks as int,
    }
}

/// The total is the sum of the counts by state.
pub open spec fn stats_consistent(stats: MacroChunkChunkStats) -> bool {
    stats.total_chunks as int == stats.pending_chunks + stats.ready_chunks + stats.ops_launched_chunks
        + stats.finished_chunks + stats.disabled_chunks
}

impl MacroChunkChunkStats {
    /// No chunk counted.
    pub fn new() -> (res: Self)
        ensures
            res.total_chunks == 0,
            forall|s: TerrGenState| count_of(res, s) == 0,
            stats_consistent(res),
    {
        MacroChunkChunkStats {
            total_chunks: 0,
            pending_chunks: 0,
            ready_chunks: 0,
            ops_launched_chunks: 0,
            finished_chunks: 0,
            disabled_chunks: 0,
        }
    }

    /// The counts with one more chunk, in state `terrgen_state`.
    pub fn push(self, terrgen_state: TerrGenState) -> (res: Self)
        requires
            self.total_chunks < usize::MAX,
            count_of(self, terrgen_state) < usize::MAX,
        ensures
            res.total_chunks == self.total_chunks + 1,
            count_of(res, terrgen_state) == count_of(self, terrgen_state) + 1,
            forall|s: TerrGenState| s != terrgen_state ==> count_of(res, s) == count_of(self, s),
    {
        let mut next = self;
        next.total_chunks = next.total_chunks + 1;
        match terrgen_state {
            TerrGenState::Pending => next.pending_chunks = next.pending_chunks + 1,
            TerrGenState::Ready => next.ready_chunks = next.ready_chunks + 1,
            TerrGenState::OpsLaunched => next.ops_launched_chunks = next.ops_launched_chunks + 1,
            TerrGenState::Finished => next.finished_chunks = next.finished_chunks + 1,
            TerrGenState::Disabled => next.disabled_chunks = next.disabled_chunks + 1,
        }
        next
    }
}

/// Counting a chunk keeps the total equal to the sum of the counts by state.
pub proof fn lemma_push_keeps_stats_consistent(stats: MacroChunkChunkStats, state: TerrGenState, next: MacroChunkChunkStats)
    requires
        stats_consistent(stats),
        next.total_chunks == stats.total_chunks + 1,
        count_of(next, state) == count_of(stats, state) + 1,
        forall|s: TerrGenState| s != state ==> count_of(next, s) == count_of(stats, s),
    ensures
        stats_consistent(next),
{
    assert(count_of(next, TerrGenState::Pending) == count_of(stats, TerrGenState::Pending) + if state == TerrGenState::Pending { 1int } else { 0 });
    assert(count_of(next, TerrGenState::Ready) == count_of(stats, TerrGenState::Ready) + if state == TerrGenState::Ready { 1int } else { 0 });
    assert(count_of(next, TerrGenState::OpsLaunched) == count_of(stats, TerrGenState::OpsLaunched) + if state == TerrGenState::OpsLaunched { 1int } else { 0 });
    assert(count_of(next, TerrGenState::Finished) == count_of(stats, TerrGenState::Finished) + if state == TerrGenState::Finished { 1int } else { 0 });
    assert(count_of(next, TerrGenState::Disabled) == count_of(stats, TerrGenState::Disabled) + if state == TerrGenState::Disabled { 1int } else { 0 });
}

/// The number of entries of `states` that are `state`.
pub open spec fn occurrences(states: Seq<TerrGenState>, state: TerrGenState) -> int
    decreases states.len(),
{
    if states.len() == 0 {
        0
    } else {
        occurrences(states.drop_last(), state) + if states.last() == state { 1int } else { 0 }
    }
}

/// The counts of the chunks whose states are `states`.
pub fn stats_of(states: &Vec<TerrGenState>) -> (res: MacroChunkChunkStats)
    ensures
        res.total_chunks == states@.len(),
        forall|s: TerrGenState| count_of(res, s) == occurrences(states@, s),
        stats_consistent(res),
{
    let mut stats = MacroChunkChunkStats::new();
    let mut i: usize = 0;
    while i < states.len()
        invariant
            i <= states.len(),
            stats.total_chunks == i,
            forall|s: TerrGenState| count_of(stats, s) == occurrences(states@.take(i as int), s),
            forall|s: TerrGenState| 0 <= #[trigger] count_of(stats, s) <= i,
            stats_consistent(stats),
        decreases states.len() - i,
    {
        let ghost before = stats;
        proof {
            assert(states@.take(i + 1).drop_last() == states@.take(i as int));
            assert(states@.take(i + 1).last() == states@[i as int]);
        }
        stats = stats.push(states[i]);
        proof {
            lemma_push_keeps_stats_consistent(before, states@[i as int], stats);
            assert forall|s: TerrGenState| count_of(stats, s) == occurrences(states@.take(i + 1), s) by {
                if s == states@[i as int] {
                } else {
                }
            }
        }
        i = i + 1;
    }
    proof {
        assert(states@.take(states.len() as int) == states@);
    }
    stats
}

/// The name under which a state is shown.
pub fn chunk_state_name(terrgen_state: TerrGenState) -> (res: &'static str)
    ensures
        res@ == match terrgen_state {
            TerrGenState::Pending => "Pending"@,
            TerrGenState::Ready => "Ready"@,
            TerrGenState::OpsLaunched => "OpsLaunched"@,
            TerrGenState::Finished => "Finished"@,
            TerrGenState::Disabled => "Disabled"@,
        },
{
    match terrgen_state {
        TerrGenState::Pending => "Pending",
        TerrGenState::Ready => "Ready",
        TerrGenState::OpsLaunched => "OpsLaunched",
        TerrGenState::Finished => "Finished",
        TerrGenState::Disabled => "Disabled",
    }
}

/// An opaque colour, by its red, green and blue parts.
#[derive(PartialEq, Eq, Structural, Clone, Copy, Debug)]
pub struct Rgb {
    pub r: u8,
    pub g: u8,
    pub b: u8,
}

/// The colour of a chunk of the given state in the chunk map.
pub open spec fn chunk_state_rgb(terrgen_state: TerrGenState) -> Rgb {
    match terrgen_state {
        TerrGenState::Pending => Rgb { r: 95, g: 95, b: 95 },
        TerrGenState::Ready => Rgb { r: 90, g: 140, b: 225 },
        TerrGenState::OpsLaunched => Rgb { r: 215, g: 155, b: 60 },
        TerrGenState::Finished => Rgb { r: 70, g: 160, b: 95 },
        TerrGenState::Disabled => Rgb { r: 135, g: 65, b: 65 },
    }
}

/// The colour of a chunk of the given state in the chunk map.
pub fn chunk_state_color(terrgen_state: TerrGenState) -> (res: Rgb)
    ensures
        res == chunk_state_rgb(terrgen_state),
{
    match terrgen_state {
        TerrGenState::Pending => Rgb { r: 95, g: 95, b: 95 },
        TerrGenState::Ready => Rgb { r: 90, g: 140, b: 225 },
        TerrGenState::OpsLaunched => Rgb { r: 215, g: 155, b: 60 },
        TerrGenState::Finished => Rgb { r: 70, g: 160, b: 95 },
        TerrGenState::Disabled => Rgb { r: 135, g: 65, b: 65 },
    }
}

/// Where biome sampling of a macrochunk stands.
#[derive(PartialEq, Eq, Structural, Clone, Copy, Debug)]
pub enum BiomeSampling {
    Unsampled,
    Sampling,
    Sampled,
}

/// The fill colour of a macrochunk cell: by its biome sampling, and once
/// sampled, by whether wildlife was seeded in it.
pub fn macrochunk_fill_color(sampling: BiomeSampling, seeded_for_wildlife: bool) -> (res: Rgb)
    ensures
        res == match sampling {
            BiomeSampling::Unsampled => Rgb { r: 52, g: 52, b: 52 },
            BiomeSampling::Sampling => Rgb { r: 170, g: 120, b: 60 },
            BiomeSampling::Sampled => if seeded_for_wildlife { Rgb { r: 60, g: 140, b: 82 } } else { Rgb { r: 65, g: 105, b: 165 } },
        },
{
    match sampling {
        BiomeSampling::Unsampled => Rgb { r: 52, g: 52, b: 52 },
        BiomeSampling::Sampling => Rgb { r: 170, g: 120, b: 60 },
        BiomeSampling::Sampled => if seeded_for_wildlife {
            Rgb { r: 60, g: 140, b: 82 }
        } else {
            Rgb { r: 65, g: 105, b: 165 }
        },
    }
}

/// Some chunk of the macrochunk has left the pending state.
pub open spec fn discovered_spec(states: Seq<TerrGenState>) -> bool {
    exists|i: int| 0 <= i < states.len() && states[i] != TerrGenState::Pending
}

/// Whether some chunk of the macrochunk has left the pending state.
pub fn is_discovered(states: &Vec<TerrGenState>) -> (res: bool)
    ensures
        res == discovered_spec(states@),
{
    let mut i: usize = 0;
    while i < states.len()
        invariant
            i <= states.len(),
            forall|j: int| 0 <= j < i ==> states@[j] == TerrGenState::Pending,
        decreases states.len() - i,
    {
        if states[i] != TerrGenState::Pending {
            return true;
        }
        i = i + 1;
    }
    false
}

/// The outline of a macrochunk cell, from the most to the least salient.
#[derive(PartialEq, Eq, Structural, Clone, Copy, Debug)]
pub enum MacroChunkStroke {
    /// The macrochunk of the camera.
    Camera,
    /// The selected macrochunk.
    Selected,
    /// A macrochunk with some chunk past the pending state.
    Discovered,
    /// Any other macrochunk.
    Plain,
}

/// The outline of a macrochunk cell.
pub fn macrochunk_stroke(states: &Vec<TerrGenState>, is_selected: bool, is_camera_macrochunk: bool) -> (res: MacroChunkStroke)
    ensures
        res == if is_camera_macrochunk {
            MacroChunkStroke::Camera
        } else if is_selected {
            MacroChunkStroke::Selected
        } else if discovered_spec(states@) {
            MacroChunkStroke::Discovered
        } else {
            MacroChunkStroke::Plain
        },
{
    if is_camera_macrochunk {
        MacroChunkStroke::Camera
    } else if is_selected {
        MacroChunkStroke::Selected
    } else if is_discovered(states) {
        MacroChunkStroke::Discovered
    } else {
        MacroChunkStroke::Plain
    }
}

/// The hash of a string id's bytes by which the tile views pick a colour.
pub open spec fn str_id_hash(bytes: Seq<u8>) -> usize
    decreases bytes.len(),
{
    if bytes.len() == 0 {
        0
    } else {
        str_id_hash(bytes.drop_last()).wrapping_mul(31).wrapping_add(bytes.last() as usize)
    }
}

/// The number of colours of the tile palette.
pub const TILE_PALETTE_LEN: usize = 10;

/// The palette entry of a string id in the tile views: its hash over its
/// UTF-8 bytes, modulo the size of the palette.
pub fn tile_palette_index(str_id: &str) -> (res: usize)
    ensures
        res == str_id_hash(str_id.spec_bytes()) % TILE_PALETTE_LEN,
        res < TILE_PALETTE_LEN,
{
    let bytes = str_id.as_bytes();
    let mut hash: usize = 0;
    let mut i: usize = 0;
    while i < bytes.len()
        invariant
            i <= bytes@.len(),
            bytes@ == str_id.spec_bytes(),
            hash == str_id_hash(bytes@.take(i as int)),
        decreases bytes@.len() - i,
    {
        proof {
            assert(bytes@.take(i + 1).drop_last() == bytes@.take(i as int));
            assert(bytes@.take(i + 1).last() == bytes@[i as int]);
        }
        hash = hash.wrapping_mul(31).wrapping_add(bytes[i] as usize);
        i = i + 1;
    }
    proof {
        assert(bytes@.take(bytes@.len() as int) == bytes@);
    }
    hash % TILE_PALETTE_LEN
}

/// The tile palette: readable colours that tell tile types apart.
pub open spec fn tile_palette(i: int) -> Rgb {
    if i == 0 { Rgb { r: 100, g: 200, b: 100 } }
    else if i == 1 { Rgb { r: 100, g: 150, b: 255 } }
    else if i == 2 { Rgb { r: 255, g: 200, b: 100 } }
    else if i == 3 { Rgb { r: 200, g: 100, b: 255 } }
    else if i == 4 { Rgb { r: 255, g: 150, b: 150 } }
    else if i == 5 { Rgb { r: 100, g: 200, b: 200 } }
    else if i == 6 { Rgb { r: 255, g: 255, b: 100 } }
    else if i == 7 { Rgb { r: 200, g: 200, b: 100 } }
    else if i == 8 { Rgb { r: 150, g: 200, b: 150 } }
    else { Rgb { r: 200, g: 150, b: 255 } }
}

/// The colour of a string id in the tile views.
pub fn color_for_str_id(str_id: &str) -> (res: Rgb)
    ensures
        res == tile_palette((str_id_hash(str_id.spec_bytes()) % TILE_PALETTE_LEN) as int),
{
    let i = tile_palette_index(str_id);
    if i == 0 { Rgb { r: 100, g: 200, b: 100 } }
    else if i == 1 { Rgb { r: 100, g: 150, b: 255 } }
    else if i == 2 { Rgb { r: 255, g: 200, b: 100 } }
    else if i == 3 { Rgb { r: 200, g: 100, b: 255 } }
    else if i == 4 { Rgb { r: 255, g: 150, b: 150 } }
    else if i == 5 { Rgb { r: 100, g: 200, b: 200 } }
    else if i == 6 { Rgb { r: 255, g: 255, b: 100 } }
    else if i == 7 { Rgb { r: 200, g: 200, b: 100 } }
    else if i == 8 { Rgb { r: 150, g: 200, b: 150 } }
    else { Rgb { r: 200, g: 150, b: 255 } }
}

} // verus!
