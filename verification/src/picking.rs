//! The click pickers of the debug tools: which being a click on a tile
//! selects, which tile the tile remover despawns, and the cell of the picker
//! grid that a row and a column stand for.
use vstd::prelude::*;

verus! {

/// A global tile position.
#[derive(PartialEq, Eq, Structural, Clone, Copy, Debug)]
pub struct TilePos {
    pub x: i32,
    pub y: i32,
}

/// An entity as the pickers see it: its opaque bits, which identify it, and
/// its row index, by which the pickers order entities.
#[derive(PartialEq, Eq, Structural, Clone, Copy, Debug)]
pub struct EntityKey {
    pub bits: u64,
    pub index: u32,
}

/// The entities of `s` are in increasing order of index.
pub open spec fn sorted_by_index(s: Seq<EntityKey>) -> bool {
    forall|i: int, j: int| 0 <= i < j < s.len() ==> s[i].index <= s[j].index
}

/// The entities of `items`, ordered by index.
pub fn sort_by_index(items: &Vec<EntityKey>) -> (res: Vec<EntityKey>)
    ensures
        res@.to_multiset() == items@.to_multiset(),
        sorted_by_index(res@),
{
    broadcast use vstd::seq_lib::group_to_multiset_ensures;
    let mut res: Vec<EntityKey> = Vec::new();
    let mut i: usize = 0;
    while i < items.len()
        invariant
            i <= items.len(),
            res@.to_multiset() == items@.take(i as int).to_multiset(),
            sorted_by_index(res@),
        decreases items.len() - i,
    {
        let item = items[i];
        // Find where the item goes: after every entity whose index is not larger.
        let mut pos: usize = res.len();
        while pos > 0 && res[pos - 1].index > item.index
            invariant
                pos <= res.len(),
                sorted_by_index(res@),
                forall|k: int| pos <= k < res.len() ==> res@[k].index > item.index,
            decreases pos,
        {
            pos = pos - 1;
        }
        let ghost before = res@;
        res.insert(pos, item);
        proof {
            assert(items@.take(i + 1) == items@.take(i as int).push(item));
            assert(res@ == before.insert(pos as int, item));
            before.insert_ensures(pos as int, item);
            assert forall|a: int, b: int| 0 <= a < b < res@.len() implies res@[a].index <= res@[b].index by {
                if a < pos && b == pos {
                    assert(before[a].index <= before[pos - 1].index);
                } else if a == pos && b > pos {
                    assert(res@[b] == before[b - 1]);
                } else if a < pos && b > pos {
                    assert(res@[b] == before[b - 1]);
                } else if a > pos {
                    assert(res@[a] == before[a - 1] && res@[b] == before[b - 1]);
                }
            }
            crate::grid::lemma_insert_multiset(before, pos as int, item, items@.take(i as int));
        }
        i = i + 1;
    }
    proof {
        assert(items@.take(items.len() as int) == items@);
    }
    res
}

/// The being that a click selects among the beings on the clicked tile, in
/// their order: the first one, unless the click repeats the previous click
/// on the same tile and the previously selected being is still there, in
/// which case the one after it, cycling round.
pub open spec fn next_being_spec(beings: Seq<u64>, repeat_click_on_same_tile: bool, last_selected: Option<u64>) -> Option<u64> {
    if beings.len() == 0 {
        None
    } else if !repeat_click_on_same_tile {
        Some(beings[0])
    } else {
        match last_selected {
            None => Some(beings[0]),
            Some(last) => match beings.index_of_first(last) {
                None => Some(beings[0]),
                Some(k) => Some(beings[(k + 1) % (beings.len() as int)]),
            },
        }
    }
}

/// The being that a click selects (see `next_being_spec`).
pub fn select_next_being(beings: &Vec<u64>, repeat_click_on_same_tile: bool, last_selected_being: Option<u64>) -> (res: Option<u64>)
    ensures
        res == next_being_spec(beings@, repeat_click_on_same_tile, last_selected_being),
{
    if beings.len() == 0 {
        return None;
    }
    if !repeat_click_on_same_tile {
        return Some(beings[0]);
    }
    let last = match last_selected_being {
        Some(last) => last,
        None => { return Some(beings[0]); },
    };
    let mut i: usize = 0;
    while i < beings.len()
        invariant
            i <= beings.len(),
            beings@.len() > 0,
            repeat_click_on_same_tile,
            last_selected_being == Some(last),
            forall|j: int| 0 <= j < i ==> beings@[j] != last,
        decreases beings.len() - i,
    {
        if beings[i] == last {
            proof {
                beings@.index_of_first_ensures(last);
                let k = beings@.index_of_first(last)->0;
                assert(k == i as int) by {
                    if k < i {
                    } else if k > i {
                    }
                }
            }
            let next = (i + 1) % beings.len();
            assert(next as int == (i as int + 1) % (beings@.len() as int));
            assert(beings@.index_of_first(last) == Some(i as int));
            return Some(beings[next]);
        }
        i = i + 1;
    }
    proof {
        beings@.index_of_first_ensures(last);
    }
    Some(beings[0])
}

/// Clicking again on the same tile, where the same distinct beings stand,
/// moves the selection to the next being, and from the last one back to the
/// first; a first click selects the first being.
pub proof fn lemma_repeat_click_cycles(beings: Seq<u64>, k: int)
    requires
        beings.no_duplicates(),
        0 <= k < beings.len(),
    ensures
        next_being_spec(beings, true, Some(beings[k])) == Some(beings[(k + 1) % (beings.len() as int)]),
        next_being_spec(beings, false, Some(beings[k])) == Some(beings[0]),
{
    beings.index_of_first_ensures(beings[k]);
    let j = beings.index_of_first(beings[k])->0;
    assert(j == k) by {
        if j != k {
            assert(beings[j] == beings[k]);
        }
    }
}

/// What the being click picker remembers of the last click.
#[derive(PartialEq, Eq, Structural, Clone, Copy, Debug)]
pub struct BeingTileClickInspectorState {
    pub last_clicked_dim: Option<u64>,
    pub last_clicked_gpos: Option<TilePos>,
    pub last_selected_being: Option<u64>,
}

/// The bits of the entities of `s`, in order.
pub open spec fn bits_of(s: Seq<EntityKey>) -> Seq<u64> {
    s.map_values(|e: EntityKey| e.bits)
}

impl BeingTileClickInspectorState {
    /// A picker that remembers no click.
    pub fn new() -> (res: Self)
        ensures
            res.last_clicked_dim is None,
            res.last_clicked_gpos is None,
            res.last_selected_being is None,
    {
        BeingTileClickInspectorState { last_clicked_dim: None, last_clicked_gpos: None, last_selected_being: None }
    }

    /// Forgets the last click.
    pub fn clear_selection(&mut self)
        ensures
            final(self).last_clicked_dim is None,
            final(self).last_clicked_gpos is None,
            final(self).last_selected_being is None,
    {
        self.last_clicked_dim = None;
        self.last_clicked_gpos = None;
        self.last_selected_being = None;
    }

    /// A click on tile `gpos` of dimension `dim`, where the beings
    /// `beings_at` stand: they are ordered by index, the picker selects one
    /// of them (see `next_being_spec`), and remembers the click and the
    /// selection.  With no being on the tile nothing is selected and the
    /// picker is left as it was.
    pub fn click(&mut self, dim: u64, gpos: TilePos, beings_at: &Vec<EntityKey>) -> (res: Option<u64>)
        ensures
            exists|sorted: Seq<EntityKey>|
                #![trigger bits_of(sorted)]
                sorted.to_multiset() == beings_at@.to_multiset() && sorted_by_index(sorted)
                && res == next_being_spec(
                    bits_of(sorted),
                    old(self).last_clicked_dim == Some(dim) && old(self).last_clicked_gpos == Some(gpos),
                    old(self).last_selected_being,
                ),
            res is None <==> beings_at@.len() == 0,
            res is None ==> *final(self) == *old(self),
            res is Some ==> *final(self) == (BeingTileClickInspectorState {
                last_clicked_dim: Some(dim),
                last_clicked_gpos: Some(gpos),
                last_selected_being: res,
            }),
    {
        let sorted = sort_by_index(beings_at);
        let mut bits: Vec<u64> = Vec::new();
        let mut i: usize = 0;
        while i < sorted.len()
            invariant
                i <= sorted.len(),
                bits@ == bits_of(sorted@.take(i as int)),
            decreases sorted.len() - i,
        {
            bits.push(sorted[i].bits);
            proof {
                assert(bits_of(sorted@.take(i + 1)) =~= bits_of(sorted@.take(i as int)).push(sorted@[i as int].bits));
            }
            i = i + 1;
        }
        proof {
            assert(sorted@.take(sorted.len() as int) == sorted@);
            sorted@.to_multiset_ensures();
            beings_at@.to_multiset_ensures();
        }
        let repeat = match (self.last_clicked_dim, self.last_clicked_gpos) {
            (Some(d), Some(g)) => d == dim && g == gpos,
            _ => false,
        };
        let selected = select_next_being(&bits, repeat, self.last_selected_being);
        if selected.is_some() {
            self.last_clicked_dim = Some(dim);
            self.last_clicked_gpos = Some(gpos);
            self.last_selected_being = selected;
        }
        selected
    }
}

/// The being navigation picker: whether a click picks a being to follow in
/// the navigation log, and what it remembers of the last pick.
#[derive(PartialEq, Eq, Structural, Clone, Copy, Debug)]
pub struct DebugBeingNavUiState {
    pub track_new_being: bool,
    pub last_clicked_dim: Option<u64>,
    pub last_clicked_gpos: Option<TilePos>,
    pub last_selected_being: Option<u64>,
}

impl Default for DebugBeingNavUiState {
    /// Not picking, and remembering no click.
    fn default() -> (res: Self)
        ensures
            res == (DebugBeingNavUiState {
                track_new_being: false,
                last_clicked_dim: None,
                last_clicked_gpos: None,
                last_selected_being: None,
            }),
    {
        DebugBeingNavUiState { track_new_being: false, last_clicked_dim: None, last_clicked_gpos: None, last_selected_being: None }
    }
}

impl DebugBeingNavUiState {
    /// The being that a click on tile `gpos` of dimension `dim` picks among
    /// the beings `beings_at` standing there, as the being click picker
    /// picks (see `BeingTileClickInspectorState::click`); none while the
    /// picker is off.
    pub fn pick(&self, dim: u64, gpos: TilePos, beings_at: &Vec<EntityKey>) -> (res: Option<u64>)
        ensures
            !self.track_new_being ==> res is None,
            self.track_new_being ==> (res is None <==> beings_at@.len() == 0),
            self.track_new_being ==> exists|sorted: Seq<EntityKey>|
                #![trigger bits_of(sorted)]
                sorted.to_multiset() == beings_at@.to_multiset() && sorted_by_index(sorted)
                && res == next_being_spec(
                    bits_of(sorted),
                    self.last_clicked_dim == Some(dim) && self.last_clicked_gpos == Some(gpos),
                    self.last_selected_being,
                ),
    {
        if !self.track_new_being {
            return None;
        }
        let mut probe = BeingTileClickInspectorState {
            last_clicked_dim: self.last_clicked_dim,
            last_clicked_gpos: self.last_clicked_gpos,
            last_selected_being: self.last_selected_being,
        };
        probe.click(dim, gpos, beings_at)
    }

    /// Remembers that a click on tile `gpos` of dimension `dim` picked
    /// `being`.
    pub fn remember(&mut self, dim: u64, gpos: TilePos, being: u64)
        ensures
            *final(self) == (DebugBeingNavUiState {
                last_clicked_dim: Some(dim),
                last_clicked_gpos: Some(gpos),
                last_selected_being: Some(being),
                ..*old(self)
            }),
    {
        self.last_clicked_dim = Some(dim);
        self.last_clicked_gpos = Some(gpos);
        self.last_selected_being = Some(being);
    }
}

/// Shows or hides the being click picker; hiding it forgets the last click.
/// Gives back whether the picker window is now visible.
pub fn set_being_click_picker_active(active: bool, state: &mut BeingTileClickInspectorState) -> (visible: bool)
    ensures
        visible == active,
        active ==> *final(state) == *old(state),
        !active ==> final(state).last_clicked_dim is None && final(state).last_clicked_gpos is None
            && final(state).last_selected_being is None,
{
    if !active {
        state.clear_selection();
    }
    active
}

/// `s` with each run of equal neighbours kept once.
pub open spec fn dedup_spec(s: Seq<u64>) -> Seq<u64>
    decreases s.len(),
{
    if s.len() <= 1 {
        s
    } else if s.last() == s[s.len() - 2] {
        dedup_spec(s.drop_last())
    } else {
        dedup_spec(s.drop_last()).push(s.last())
    }
}

proof fn lemma_dedup_shape(s: Seq<u64>)
    ensures
        s.len() == 0 ==> dedup_spec(s).len() == 0,
        s.len() > 0 ==> dedup_spec(s).len() > 0 && dedup_spec(s)[0] == s[0] && dedup_spec(s).last() == s.last(),
    decreases s.len(),
{
    if s.len() > 1 {
        lemma_dedup_shape(s.drop_last());
    }
}

/// `v` with each run of equal neighbours kept once, as `Vec::dedup` leaves it.
pub fn dedup_consecutive(v: &Vec<u64>) -> (res: Vec<u64>)
    ensures
        res@ == dedup_spec(v@),
{
    let mut res: Vec<u64> = Vec::new();
    let mut i: usize = 0;
    while i < v.len()
        invariant
            i <= v.len(),
            res@ == dedup_spec(v@.take(i as int)),
        decreases v.len() - i,
    {
        proof {
            let t = v@.take(i + 1);
            assert(t.drop_last() == v@.take(i as int));
            lemma_dedup_shape(v@.take(i as int));
            if i > 0 {
                assert(t[t.len() - 2] == v@[i - 1]);
                assert(v@.take(i as int).last() == v@[i - 1]);
            }
        }
        if i == 0 || v[i] != v[i - 1] {
            res.push(v[i]);
            proof {
                if i == 0 {
                    assert(v@.take(1) == seq![v@[0]]);
                }
            }
        }
        i = i + 1;
    }
    proof {
        assert(v@.take(v.len() as int) == v@);
    }
    res
}

/// The tile that a click of the tile remover despawns, among the tiles on
/// the clicked tile position, topmost first: the topmost, unless no tile is
/// there, or a single one is there and the last tile of a position may not
/// be despawned.
pub open spec fn tile_to_remove_spec(tiles: Seq<u64>, despawn_last_tile: bool) -> Option<u64> {
    let d = dedup_spec(tiles);
    if d.len() == 0 || (d.len() == 1 && !despawn_last_tile) { None } else { Some(d[0]) }
}

/// The tile that a click of the tile remover despawns (see
/// `tile_to_remove_spec`); `tiles` come topmost first.
pub fn tile_to_remove(tiles: &Vec<u64>, despawn_last_tile: bool) -> (res: Option<u64>)
    ensures
        res == tile_to_remove_spec(tiles@, despawn_last_tile),
        res is Some ==> tiles@.len() > 0 && res->0 == tiles@[0],
{
    let d = dedup_consecutive(tiles);
    proof {
        lemma_dedup_shape(tiles@);
    }
    if d.len() == 0 {
        return None;
    }
    if d.len() == 1 && !despawn_last_tile {
        return None;
    }
    Some(d[0])
}

/// The tile position of the picker grid's cell at `row` and `col`: the grid
/// is `picker_side` cells wide, centered on `center`, rows going down.
pub open spec fn grid_cell_spec(center: TilePos, row: usize, col: usize, picker_side: usize) -> TilePos {
    let radius = (picker_side / 2) as i32;
    TilePos {
        x: (center.x + ((col as i32) - radius)) as i32,
        y: (center.y + (radius - (row as i32))) as i32,
    }
}

/// The tile position of the picker grid's cell at `row` and `col`.
pub fn grid_cell_gpos(center: TilePos, row: usize, col: usize, picker_side: usize) -> (res: TilePos)
    requires
        i32::MIN <= (col as i32) - ((picker_side / 2) as i32) <= i32::MAX,
        i32::MIN <= ((picker_side / 2) as i32) - (row as i32) <= i32::MAX,
        i32::MIN <= center.x + ((col as i32) - ((picker_side / 2) as i32)) <= i32::MAX,
        i32::MIN <= center.y + (((picker_side / 2) as i32) - (row as i32)) <= i32::MAX,
    ensures
        res == grid_cell_spec(center, row, col, picker_side),
{
    let radius = (picker_side / 2) as i32;
    let dx = col as i32 - radius;
    let dy = radius - row as i32;
    TilePos { x: center.x + dx, y: center.y + dy }
}

} // verus!
