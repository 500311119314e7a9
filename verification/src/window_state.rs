//! The decisions of the debug windows that do not draw: following the
//! camera, what a window does when it opens or is hidden, which faction and
//! which metric a window shows, and the noises it remembers.
use vstd::prelude::*;
use crate::collections::{id_set_contents, id_set_clear, id_set_insert};
use crate::picking::TilePos;
use crate::selection::{DebugSelectedEntities, SelectionView};
use crate::inspector::{faction_in_view, listed_or_first};
use crate::grid::choose_metric;

verus! {

/// The selection of the chunk list while it follows the camera: the chunk
/// under the camera (when there is one loaded) becomes the only selected
/// chunk; otherwise nothing changes.
pub fn follow_camera_chunk(follow: bool, camera_chunk: Option<u64>, selected: &mut DebugSelectedEntities)
    ensures
        follow && camera_chunk is Some ==> final(selected)@ == (SelectionView {
            selected_chunks: set![camera_chunk->0],
            ..old(selected)@
        }),
        !(follow && camera_chunk is Some) ==> final(selected)@ == old(selected)@,
{
    if follow {
        match camera_chunk {
            Some(c) => {
                id_set_clear(&mut selected.selected_chunks);
                let _ = id_set_insert(&mut selected.selected_chunks, c);
                proof {
                    assert(Set::<u64>::empty().insert(c) =~= set![c]);
                }
            },
            None => {},
        }
    }
}

/// The selection of the macrochunk grid while it follows the camera: the
/// macrochunk under the camera (when there is one) becomes the selected one;
/// otherwise nothing changes.
pub fn follow_camera_macrochunk(follow: bool, camera_macrochunk: Option<u64>, selected: &mut DebugSelectedEntities)
    ensures
        follow && camera_macrochunk is Some ==> final(selected)@ == (SelectionView {
            selected_macrochunk: camera_macrochunk,
            ..old(selected)@
        }),
        !(follow && camera_macrochunk is Some) ==> final(selected)@ == old(selected)@,
{
    if follow {
        match camera_macrochunk {
            Some(m) => {
                selected.selected_macrochunk = Some(m);
            },
            None => {},
        }
    }
}

/// The selection once the region `region` is selected: the only selected
/// region, and the region whose rivers the river window shows.
pub open spec fn region_selected(v: SelectionView, region: u64) -> SelectionView {
    SelectionView { selected_regions: set![region], selected_river_debug_region: Some(region), ..v }
}

/// The region list before it draws, while it is `visible`: when it opens
/// (it was not open before) or follows the camera, the region under the
/// camera (when there is one) is selected (see `region_selected`); nothing
/// changes otherwise.  Gives back whether the list opens now.
pub fn regions_list_step(
    visible: bool,
    was_open: bool,
    follow_camera_region: bool,
    camera_region: Option<u64>,
    selected: &mut DebugSelectedEntities,
) -> (opening_now: bool)
    ensures
        opening_now == (visible && !was_open),
        visible && (!was_open || follow_camera_region) && camera_region is Some
            ==> final(selected)@ == region_selected(old(selected)@, camera_region->0),
        !(visible && (!was_open || follow_camera_region) && camera_region is Some)
            ==> final(selected)@ == old(selected)@,
{
    if !visible {
        return false;
    }
    let opening_now = !was_open;
    if opening_now || follow_camera_region {
        match camera_region {
            Some(r) => {
                id_set_clear(&mut selected.selected_regions);
                let _ = id_set_insert(&mut selected.selected_regions, r);
                selected.selected_river_debug_region = Some(r);
                proof {
                    assert(Set::<u64>::empty().insert(r) =~= set![r]);
                }
            },
            None => {},
        }
    }
    opening_now
}

/// Whether the region list counts as open on the next frame: while it is
/// shown, whether it is still open after drawing (its close button); while
/// hidden, it keeps what it remembered.
pub fn regions_list_was_open_after(visible: bool, was_open: bool, still_open: bool) -> (res: bool)
    ensures
        res == if visible { still_open } else { was_open },
{
    if visible { still_open } else { was_open }
}

/// What the inlandness visualizer remembers between frames: whether it was
/// open, the probe it sent (its requester and its template), and the region
/// and tile of the camera it last saw.
#[derive(PartialEq, Eq, Clone, Copy, Debug)]
pub struct InlandnessWindowMemory {
    pub was_open: bool,
    pub active_probe: Option<(u64, u64)>,
    pub camera_region_prev: Option<(u64, TilePos)>,
    pub camera_tile_prev: Option<TilePos>,
}

/// What to do when the inlandness visualizer is hidden.
#[derive(PartialEq, Eq, Clone, Copy, Debug)]
pub struct InlandnessHidden {
    /// The probe entities (requester, template) to despawn.
    pub despawn: Option<(u64, u64)>,
    /// Whether the preview image is dropped.
    pub clear_preview: bool,
}

impl InlandnessWindowMemory {
    /// The visualizer is hidden: when it was open, its probe is despawned
    /// and forgotten and its preview dropped; in any case it counts as
    /// closed and forgets where the camera was.
    pub fn on_hidden(&mut self) -> (res: InlandnessHidden)
        ensures
            res.despawn == (if old(self).was_open { old(self).active_probe } else { None }),
            res.clear_preview == old(self).was_open,
            *final(self) == (InlandnessWindowMemory {
                was_open: false,
                active_probe: if old(self).was_open { None } else { old(self).active_probe },
                camera_region_prev: None,
                camera_tile_prev: None,
            }),
    {
        let was_open = self.was_open;
        let despawn = if was_open {
            let probe = self.active_probe;
            self.active_probe = None;
            probe
        } else {
            None
        };
        self.was_open = false;
        self.camera_region_prev = None;
        self.camera_tile_prev = None;
        InlandnessHidden { despawn, clear_preview: was_open }
    }
}

/// What the faction inspector keeps after drawing, from the factions listed
/// and what the user chose (`chosen`, with `show_full` for the full
/// component view): with the selection cleared, no faction and no full
/// view; otherwise the faction in view (see `listed_or_first`) and the
/// full view as chosen.  The last part says whether the window stays open.
pub fn faction_details_step(
    factions: &Vec<u64>,
    chosen: Option<u64>,
    show_full: bool,
    clear_clicked: bool,
    still_open: bool,
) -> (res: (Option<u64>, bool, bool))
    ensures
        clear_clicked ==> res.0 is None && !res.1,
        !clear_clicked ==> res.0 == listed_or_first(factions@, chosen) && res.1 == show_full,
        res.2 == still_open,
{
    if clear_clicked {
        (None, false, still_open)
    } else {
        (faction_in_view(factions, chosen), show_full, still_open)
    }
}

/// The values of `s` strictly increase.
pub open spec fn strictly_ascending(s: Seq<u64>) -> bool {
    forall|i: int, j: int| 0 <= i < j < s.len() ==> s[i] < s[j]
}

/// `v` put into the strictly ascending `s`, unless it is there already.
fn insert_sorted(s: &mut Vec<u64>, v: u64)
    requires
        strictly_ascending(old(s)@),
    ensures
        strictly_ascending(final(s)@),
        final(s)@.to_set() == old(s)@.to_set().insert(v),
{
    let mut pos: usize = 0;
    while pos < s.len() && s[pos] < v
        invariant
            pos <= s.len(),
            s@ == old(s)@,
            strictly_ascending(s@),
            forall|k: int| 0 <= k < pos ==> s@[k] < v,
        decreases s.len() - pos,
    {
        pos = pos + 1;
    }
    if pos < s.len() && s[pos] == v {
        proof {
            assert(old(s)@.to_set().insert(v) =~= old(s)@.to_set()) by {
                assert(old(s)@.contains(v)) by { assert(old(s)@[pos as int] == v); }
            }
        }
        return;
    }
    let ghost before = s@;
    s.insert(pos, v);
    proof {
        assert(s@ == before.insert(pos as int, v));
        assert forall|i: int, j: int| 0 <= i < j < s@.len() implies s@[i] < s@[j] by {
            if j < pos {
                assert(s@[i] == before[i] && s@[j] == before[j]);
            } else if j == pos {
                assert(s@[i] == before[i]);
            } else if i < pos {
                assert(s@[i] == before[i] && s@[j] == before[j - 1]);
            } else if i == pos {
                assert(s@[j] == before[j - 1]);
            } else {
                assert(s@[i] == before[i - 1] && s@[j] == before[j - 1]);
            }
        }
        assert forall|x: u64| #[trigger] s@.to_set().contains(x) <==> before.to_set().insert(v).contains(x) by {
            if s@.contains(x) {
                let k = choose|k: int| 0 <= k < s@.len() && s@[k] == x;
                if k < pos {
                    assert(before[k] == x);
                } else if k > pos {
                    assert(before[k - 1] == x);
                }
            }
            if before.contains(x) {
                let k = choose|k: int| 0 <= k < before.len() && before[k] == x;
                if k < pos {
                    assert(s@[k] == x);
                } else {
                    assert(s@[k + 1] == x);
                }
            }
            if x == v {
                assert(s@[pos as int] == v);
            }
        }
        assert(s@.to_set() =~= before.to_set().insert(v));
    }
}

/// The metrics the terrain value window lists: the output metric and the
/// variables captured at the tiles, each once, in increasing order.
pub fn metrics_in_view(vars: &Vec<u64>, out_metric: u64) -> (res: Vec<u64>)
    ensures
        res@.to_set() == vars@.to_set().insert(out_metric),
        res@.no_duplicates(),
        strictly_ascending(res@),
{
    let mut res: Vec<u64> = Vec::new();
    insert_sorted(&mut res, out_metric);
    proof {
        assert(Seq::<u64>::empty().to_set() =~= Set::<u64>::empty());
    }
    let mut i: usize = 0;
    while i < vars.len()
        invariant
            i <= vars.len(),
            strictly_ascending(res@),
            res@.to_set() == vars@.take(i as int).to_set().insert(out_metric),
        decreases vars.len() - i,
    {
        insert_sorted(&mut res, vars[i]);
        proof {
            assert(vars@.take(i + 1) =~= vars@.take(i as int).push(vars@[i as int]));
            assert(vars@.take(i + 1).to_set() =~= vars@.take(i as int).to_set().insert(vars@[i as int])) by {
                broadcast use vstd::seq_lib::group_seq_properties;
                vstd::seq_lib::seq_to_set_distributes_over_add(vars@.take(i as int), seq![vars@[i as int]]);
            }
            assert(res@.to_set() =~= vars@.take(i + 1).to_set().insert(out_metric));
        }
        i = i + 1;
    }
    proof {
        assert(vars@.take(vars.len() as int) =~= vars@);
        assert forall|a: int, b: int| 0 <= a < res@.len() && 0 <= b < res@.len() && a != b implies res@[a] != res@[b] by {
            if a < b { assert(res@[a] < res@[b]); } else { assert(res@[b] < res@[a]); }
        }
    }
    res
}

/// The metric the terrain value window shows: the selected one while it is
/// among the metrics in view (see `metrics_in_view`), else the smallest of
/// them.
pub fn metric_in_view(vars: &Vec<u64>, out_metric: u64, selected: u64) -> (res: u64)
    ensures
        vars@.to_set().insert(out_metric).contains(res),
        vars@.to_set().insert(out_metric).contains(selected) ==> res == selected,
        !vars@.to_set().insert(out_metric).contains(selected) ==>
            forall|m: u64| vars@.to_set().insert(out_metric).contains(m) ==> res <= m,
{
    let metrics = metrics_in_view(vars, out_metric);
    proof {
        assert(metrics@.to_set().contains(out_metric));
        assert(metrics@.len() > 0);
    }
    let res = choose_metric(&metrics, selected);
    proof {
        if !metrics@.contains(selected) {
            assert(res == metrics@[0]);
            assert(metrics@.to_set().contains(metrics@[0]));
            assert forall|m: u64| metrics@.to_set().contains(m) implies res <= m by {
                let k = choose|k: int| 0 <= k < metrics@.len() && metrics@[k] == m;
                if k > 0 {
                    assert(metrics@[0] < metrics@[k]);
                }
            }
        } else {
            assert(metrics@.to_set().contains(selected));
        }
    }
    res
}

/// Some pair of `s` has key `k`.
pub open spec fn has_key(s: Seq<(u64, u64)>, k: u64) -> bool {
    exists|i: int| 0 <= i < s.len() && (#[trigger] s[i]).0 == k
}

/// The noises remembered as they first were: those of `old`, then each noise
/// of `seen` (by its entity, with its value as a handle) that was not
/// remembered yet, in the order seen.
pub open spec fn snapshot_spec(old: Seq<(u64, u64)>, seen: Seq<(u64, u64)>) -> Seq<(u64, u64)>
    decreases seen.len(),
{
    if seen.len() == 0 {
        old
    } else {
        let r = snapshot_spec(old, seen.drop_last());
        if has_key(r, seen.last().0) { r } else { r.push(seen.last()) }
    }
}

/// The remembered noises once those of `seen` are taken into account (see
/// `snapshot_spec`).
pub fn snapshot_missing(old: &Vec<(u64, u64)>, seen: &Vec<(u64, u64)>) -> (res: Vec<(u64, u64)>)
    ensures
        res@ == snapshot_spec(old@, seen@),
{
    let mut res: Vec<(u64, u64)> = Vec::new();
    let mut c: usize = 0;
    while c < old.len()
        invariant
            c <= old.len(),
            res@ == old@.take(c as int),
        decreases old.len() - c,
    {
        res.push(old[c]);
        proof {
            assert(old@.take(c + 1) =~= old@.take(c as int).push(old@[c as int]));
        }
        c = c + 1;
    }
    proof {
        assert(old@.take(old.len() as int) =~= old@);
    }
    let mut i: usize = 0;
    while i < seen.len()
        invariant
            i <= seen.len(),
            res@ == snapshot_spec(old@, seen@.take(i as int)),
        decreases seen.len() - i,
    {
        let (k, v) = seen[i];
        proof {
            assert(seen@.take(i + 1).drop_last() =~= seen@.take(i as int));
            assert(seen@.take(i + 1).last() == seen@[i as int]);
        }
        let mut j: usize = 0;
        let mut found = false;
        while j < res.len()
            invariant
                j <= res.len(),
                found == exists|t: int| 0 <= t < j && (#[trigger] res@[t]).0 == k,
            decreases res.len() - j,
        {
            if res[j].0 == k {
                found = true;
            }
            j = j + 1;
        }
        if !found {
            res.push((k, v));
        }
        i = i + 1;
    }
    proof {
        assert(seen@.take(seen.len() as int) =~= seen@);
    }
    res
}

/// Remembering noises keeps those remembered before, with their values,
/// and afterwards remembers a noise exactly when it was remembered before
/// or seen.
pub proof fn lemma_snapshot_keeps_first(old: Seq<(u64, u64)>, seen: Seq<(u64, u64)>)
    ensures
        snapshot_spec(old, seen).len() >= old.len(),
        snapshot_spec(old, seen).subrange(0, old.len() as int) == old,
        forall|k: u64| #[trigger] has_key(snapshot_spec(old, seen), k) <==> has_key(old, k) || has_key(seen, k),
    decreases seen.len(),
{
    if seen.len() > 0 {
        let rest = seen.drop_last();
        lemma_snapshot_keeps_first(old, rest);
        let r = snapshot_spec(old, rest);
        let last = seen.last();
        if !has_key(r, last.0) {
            assert(r.push(last).subrange(0, old.len() as int) =~= r.subrange(0, old.len() as int));
        }
        assert forall|k: u64| #[trigger] has_key(snapshot_spec(old, seen), k) <==> has_key(old, k) || has_key(seen, k) by {
            if has_key(rest, k) {
                let t = choose|t: int| 0 <= t < rest.len() && (#[trigger] rest[t]).0 == k;
                assert(seen[t] == rest[t]);
            }
            if has_key(seen, k) {
                let t = choose|t: int| 0 <= t < seen.len() && (#[trigger] seen[t]).0 == k;
                if t < seen.len() - 1 {
                    assert(rest[t] == seen[t]);
                }
            }
            if !has_key(r, last.0) {
                let s = r.push(last);
                if has_key(s, k) {
                    let t = choose|t: int| 0 <= t < s.len() && (#[trigger] s[t]).0 == k;
                    if t < r.len() {
                        assert(r[t] == s[t]);
                    } else {
                        assert(seen[seen.len() - 1] == last);
                    }
                }
                if has_key(r, k) {
                    let t = choose|t: int| 0 <= t < r.len() && (#[trigger] r[t]).0 == k;
                    assert(s[t] == r[t]);
                }
                if k == last.0 {
                    assert(s[r.len() as int] == last);
                }
            } else if k == last.0 {
                assert(seen[seen.len() - 1] == last);
            }
        }
    } else {
        assert(old.subrange(0, old.len() as int) =~= old);
    }
}

/// The center of the gpos maps: while following, the camera's tile (with its
/// dimension), else the selected being's tile when it has one; otherwise
/// the center stays.
pub fn gpos_maps_center(
    follow_camera_target: bool,
    camera: Option<(u64, TilePos)>,
    selected_being_at: Option<(u64, TilePos)>,
    current: (u64, TilePos),
) -> (res: (u64, TilePos))
    ensures
        res == if !follow_camera_target {
            current
        } else {
            match camera {
                Some(c) => c,
                None => match selected_being_at {
                    Some(b) => b,
                    None => current,
                },
            }
        },
{
    if !follow_camera_target {
        return current;
    }
    match camera {
        Some(c) => c,
        None => match selected_being_at {
            Some(b) => b,
            None => current,
        },
    }
}

/// What the being inspector keeps after drawing, from the body parts of the
/// being and what the user chose: with the selection cleared, no being, no
/// zone, no part and no full view; otherwise the zone and full view as
/// chosen, and the chosen part while it is among the being's parts, else
/// its first part (none when it has none).
pub fn being_details_step(
    parts: &Vec<u64>,
    chosen_part: Option<u64>,
    chosen_zone: Option<u64>,
    show_full: bool,
    clear_clicked: bool,
    selected: &mut DebugSelectedEntities,
)
    ensures
        clear_clicked ==> final(selected)@ == (SelectionView {
            selected_being: None,
            selected_being_interaction_zone: None,
            selected_being_bodypart: None,
            show_full_being_components: false,
            ..old(selected)@
        }),
        !clear_clicked ==> final(selected)@ == (SelectionView {
            selected_being_interaction_zone: chosen_zone,
            selected_being_bodypart: listed_or_first(parts@, chosen_part),
            show_full_being_components: show_full,
            ..old(selected)@
        }),
{
    if clear_clicked {
        selected.selected_being = None;
        selected.selected_being_interaction_zone = None;
        selected.selected_being_bodypart = None;
        selected.show_full_being_components = false;
    } else {
        selected.selected_being_interaction_zone = chosen_zone;
        selected.selected_being_bodypart = faction_in_view(parts, chosen_part);
        selected.show_full_being_components = show_full;
    }
}

/// Whether the tile index map goes back to its default state: when its
/// radius is not positive.
pub fn tile_indices_map_needs_reset(radius: i32) -> (res: bool)
    ensures
        res == (radius <= 0),
{
    radius <= 0
}

} // verus!
