//! Arithmetic on tile grids for the debug maps: floor division of tile
//! coordinates, the step between sampled rows and columns, and the reading
//! order of tile positions.
use vstd::prelude::*;
use crate::picking::TilePos;

verus! {

/// `v` divided by `d`, rounding so that the remainder is never negative
/// (what `i32::div_euclid` computes).
pub fn div_floor_i32(v: i32, d: i32) -> (res: i32)
    requires
        d != 0,
        !(v == i32::MIN && d == -1),
    ensures
        res as int == (v as int) / (d as int),
{
    proof {
        lemma_euclid_quotient_fits(v as int, d as int);
    }
    match v.checked_div_euclid(d) {
        Some(q) => q,
        None => 0,
    }
}

proof fn lemma_euclid_quotient_fits(v: int, d: int)
    requires
        d != 0,
        i32::MIN <= v <= i32::MAX,
        i32::MIN <= d <= i32::MAX,
        !(v == i32::MIN && d == -1),
    ensures
        i32::MIN <= v / d <= i32::MAX,
{
    let q = v / d;
    let r = v % d;
    assert(v == d * q + r && 0 <= r < if d > 0 { d } else { -d }) by (nonlinear_arith)
        requires d != 0, q == v / d, r == v % d;
    if d > 0 {
        assert(i32::MIN <= q <= i32::MAX) by (nonlinear_arith)
            requires v == d * q + r, 0 <= r < d, d >= 1, i32::MIN <= v <= i32::MAX;
    } else {
        assert(i32::MIN <= q <= i32::MAX) by (nonlinear_arith)
            requires v == d * q + r, 0 <= r < -d, d <= -1, i32::MIN <= v <= i32::MAX,
                i32::MIN <= d, !(v == i32::MIN && d == -1);
    }
}

/// Inserting an item anywhere into a sequence with the multiset of `prefix`
/// gives the multiset of `prefix` with the item pushed.
pub(crate) proof fn lemma_insert_multiset<A>(before: Seq<A>, pos: int, item: A, prefix: Seq<A>)
    requires
        0 <= pos <= before.len(),
        before.to_multiset() == prefix.to_multiset(),
    ensures
        before.insert(pos, item).to_multiset() == prefix.push(item).to_multiset(),
{
    broadcast use vstd::multiset::group_multiset_axioms;
    let x = before.subrange(0, pos);
    let y = before.subrange(pos, before.len() as int);
    assert(before == x + y);
    assert(before.insert(pos, item) == x.push(item) + y);
    vstd::seq_lib::lemma_multiset_commutative(x, y);
    vstd::seq_lib::lemma_multiset_commutative(x.push(item), y);
    x.to_multiset_ensures();
    prefix.to_multiset_ensures();
    assert(before.insert(pos, item).to_multiset() =~= prefix.push(item).to_multiset());
}

/// The buckets shown by the terrain value map around the camera: the
/// bucket of the camera's tile (buckets are `bucket_size_tiles` wide, at
/// least one) and those up to `bucket_radius` buckets away (at least four),
/// as the lowest and the highest corner.
pub open spec fn bucket_window_spec(anchor: TilePos, bucket_size_tiles: i32, bucket_radius: i32) -> ((int, int), (int, int)) {
    let size: int = if bucket_size_tiles >= 1 { bucket_size_tiles as int } else { 1 };
    let radius: int = if bucket_radius >= 4 { bucket_radius as int } else { 4 };
    let bx = (anchor.x as int) / size;
    let by = (anchor.y as int) / size;
    ((bx - radius, by - radius), (bx + radius, by + radius))
}

/// The buckets shown by the terrain value map (see `bucket_window_spec`).
pub fn bucket_window(anchor: TilePos, bucket_size_tiles: i32, bucket_radius: i32) -> (res: (TilePos, TilePos))
    requires
        ({
            let (lo, hi) = bucket_window_spec(anchor, bucket_size_tiles, bucket_radius);
            &&& i32::MIN <= lo.0 && hi.0 <= i32::MAX
            &&& i32::MIN <= lo.1 && hi.1 <= i32::MAX
        }),
    ensures
        ({
            let (lo, hi) = bucket_window_spec(anchor, bucket_size_tiles, bucket_radius);
            let (rlo, rhi) = res;
            (rlo.x as int, rlo.y as int) == lo && (rhi.x as int, rhi.y as int) == hi
        }),
{
    let size = if bucket_size_tiles >= 1 { bucket_size_tiles } else { 1 };
    let radius = if bucket_radius >= 4 { bucket_radius } else { 4 };
    let bx = div_floor_i32(anchor.x, size);
    let by = div_floor_i32(anchor.y, size);
    (TilePos { x: bx - radius, y: by - radius }, TilePos { x: bx + radius, y: by + radius })
}

/// Whether bucket `b` lies within the window from `min` to `max`.
pub fn in_bucket_window(b: TilePos, min: TilePos, max: TilePos) -> (res: bool)
    ensures
        res == (min.x <= b.x <= max.x && min.y <= b.y <= max.y),
{
    !(b.x < min.x || b.x > max.x || b.y < min.y || b.y > max.y)
}

/// The metric the terrain value map shows: the selected one while it is
/// among the captured metrics (or none were captured), else the first
/// captured metric.
pub fn choose_metric(metrics: &Vec<u64>, selected: u64) -> (res: u64)
    ensures
        res == if metrics@.len() > 0 && !metrics@.contains(selected) { metrics@[0] } else { selected },
{
    let mut i: usize = 0;
    while i < metrics.len()
        invariant
            i <= metrics.len(),
            forall|j: int| 0 <= j < i ==> metrics@[j] != selected,
        decreases metrics.len() - i,
    {
        if metrics[i] == selected {
            return selected;
        }
        i = i + 1;
    }
    if metrics.len() > 0 { metrics[0] } else { selected }
}

/// The smallest box that holds every position of `ps`, as its lowest and
/// highest corner.
pub open spec fn is_bounding_box(ps: Seq<TilePos>, lo: TilePos, hi: TilePos) -> bool {
    &&& forall|i: int| 0 <= i < ps.len() ==> lo.x <= (#[trigger] ps[i]).x <= hi.x && lo.y <= ps[i].y <= hi.y
    &&& exists|i: int| 0 <= i < ps.len() && (#[trigger] ps[i]).x == lo.x
    &&& exists|i: int| 0 <= i < ps.len() && (#[trigger] ps[i]).x == hi.x
    &&& exists|i: int| 0 <= i < ps.len() && (#[trigger] ps[i]).y == lo.y
    &&& exists|i: int| 0 <= i < ps.len() && (#[trigger] ps[i]).y == hi.y
}

/// The box that the region grid spans: the least and greatest coordinates
/// of the region positions, none when there is no region.
pub fn bounding_box(ps: &Vec<TilePos>) -> (res: Option<(TilePos, TilePos)>)
    ensures
        ps@.len() == 0 <==> res is None,
        match res {
            Some((lo, hi)) => is_bounding_box(ps@, lo, hi),
            None => true,
        },
{
    if ps.len() == 0 {
        return None;
    }
    let mut lo = ps[0];
    let mut hi = ps[0];
    let mut i: usize = 1;
    proof {
        assert(ps@.take(1)[0] == ps@[0]);
    }
    while i < ps.len()
        invariant
            1 <= i <= ps.len(),
            is_bounding_box(ps@.take(i as int), lo, hi),
        decreases ps.len() - i,
    {
        let p = ps[i];
        let ghost before = ps@.take(i as int);
        let ghost (lo0, hi0) = (lo, hi);
        if p.x < lo.x { lo.x = p.x; }
        if p.y < lo.y { lo.y = p.y; }
        if p.x > hi.x { hi.x = p.x; }
        if p.y > hi.y { hi.y = p.y; }
        proof {
            let after = ps@.take(i + 1);
            assert(after == before.push(p));
            assert(after[i as int] == p);
            assert forall|k: int| 0 <= k < after.len() implies lo.x <= (#[trigger] after[k]).x <= hi.x && lo.y <= after[k].y <= hi.y by {
                if k < i {
                    assert(after[k] == before[k]);
                }
            }
            if p.x < lo0.x {
                assert(after[i as int].x == lo.x);
            } else {
                let k = choose|k: int| 0 <= k < before.len() && (#[trigger] before[k]).x == lo0.x;
                assert(after[k] == before[k]);
            }
            if p.x > hi0.x {
                assert(after[i as int].x == hi.x);
            } else {
                let k = choose|k: int| 0 <= k < before.len() && (#[trigger] before[k]).x == hi0.x;
                assert(after[k] == before[k]);
            }
            if p.y < lo0.y {
                assert(after[i as int].y == lo.y);
            } else {
                let k = choose|k: int| 0 <= k < before.len() && (#[trigger] before[k]).y == lo0.y;
                assert(after[k] == before[k]);
            }
            if p.y > hi0.y {
                assert(after[i as int].y == hi.y);
            } else {
                let k = choose|k: int| 0 <= k < before.len() && (#[trigger] before[k]).y == hi0.y;
                assert(after[k] == before[k]);
            }
        }
        i = i + 1;
    }
    proof {
        assert(ps@.take(ps.len() as int) == ps@);
    }
    Some((lo, hi))
}

/// `s` is in increasing order.
pub open spec fn ascending(s: Seq<i32>) -> bool {
    forall|i: int, j: int| 0 <= i < j < s.len() ==> s[i] <= s[j]
}

/// The values of `v`, in increasing order.
pub fn sort_i32(v: &Vec<i32>) -> (res: Vec<i32>)
    ensures
        res@.to_multiset() == v@.to_multiset(),
        ascending(res@),
{
    broadcast use vstd::seq_lib::group_to_multiset_ensures;
    let mut res: Vec<i32> = Vec::new();
    let mut i: usize = 0;
    while i < v.len()
        invariant
            i <= v.len(),
            res@.to_multiset() == v@.take(i as int).to_multiset(),
            ascending(res@),
        decreases v.len() - i,
    {
        let item = v[i];
        let mut pos: usize = res.len();
        while pos > 0 && res[pos - 1] > item
            invariant
                pos <= res.len(),
                ascending(res@),
                forall|k: int| pos <= k < res.len() ==> res@[k] > item,
            decreases pos,
        {
            pos = pos - 1;
        }
        let ghost before = res@;
        res.insert(pos, item);
        proof {
            assert(v@.take(i + 1) == v@.take(i as int).push(item));
            before.insert_ensures(pos as int, item);
            assert forall|a: int, b: int| 0 <= a < b < res@.len() implies res@[a] <= res@[b] by {
                if a < pos && b == pos {
                    assert(before[a] <= before[pos - 1]);
                } else if a >= pos && b > pos {
                    assert(res@[b] == before[b - 1]);
                    if a > pos {
                        assert(res@[a] == before[a - 1]);
                    }
                } else if a < pos && b > pos {
                    assert(res@[b] == before[b - 1]);
                }
            }
            lemma_insert_multiset(before, pos as int, item, v@.take(i as int));
        }
        i = i + 1;
    }
    proof {
        assert(v@.take(v.len() as int) == v@);
    }
    res
}

/// `g` is a gap between two of the values of `s`: the difference of a
/// larger value and a smaller one.
pub open spec fn is_positive_gap(s: Seq<i32>, g: int) -> bool {
    exists|i: int, j: int| 0 <= i < s.len() && 0 <= j < s.len() && s[i] < s[j] && g == s[j] - s[i]
}

/// The step between sampled rows (or columns) of a map, from the sampled
/// coordinates along one axis: the smallest gap between two distinct
/// coordinates, or 1 when there are not two distinct ones.
pub open spec fn sample_step_spec(coords: Seq<i32>, step: int) -> bool {
    if exists|g: int| is_positive_gap(coords, g) {
        is_positive_gap(coords, step) && forall|g: int| is_positive_gap(coords, g) ==> step <= g
    } else {
        step == 1
    }
}

proof fn lemma_gap_has_adjacent(s: Seq<i32>, i: int, j: int)
    requires
        ascending(s),
        0 <= i < j < s.len(),
        s[i] < s[j],
    ensures
        exists|k: int| i <= k < j && #[trigger] s[k] < s[k + 1] && s[k + 1] - s[k] <= s[j] - s[i],
    decreases j - i,
{
    if s[j - 1] == s[j] {
        lemma_gap_has_adjacent(s, i, j - 1);
    } else {
        assert(s[i] <= s[j - 1]);
        assert(j - 1 >= i && s[j - 1] < s[j]);
    }
}

proof fn lemma_same_gaps(coords: Seq<i32>, s: Seq<i32>)
    requires
        forall|i: int| 0 <= i < s.len() ==> coords.contains(#[trigger] s[i]),
        forall|i: int| 0 <= i < coords.len() ==> s.contains(#[trigger] coords[i]),
    ensures
        forall|g: int| is_positive_gap(coords, g) <==> is_positive_gap(s, g),
{
    assert forall|g: int| is_positive_gap(coords, g) <==> is_positive_gap(s, g) by {
        if is_positive_gap(coords, g) {
            let (i, j) = choose|i: int, j: int| 0 <= i < coords.len() && 0 <= j < coords.len() && coords[i] < coords[j] && g == coords[j] - coords[i];
            assert(s.contains(coords[i]) && s.contains(coords[j]));
            let a = choose|a: int| 0 <= a < s.len() && s[a] == coords[i];
            let b = choose|b: int| 0 <= b < s.len() && s[b] == coords[j];
            assert(is_positive_gap(s, g));
        }
        if is_positive_gap(s, g) {
            let (a, b) = choose|a: int, b: int| 0 <= a < s.len() && 0 <= b < s.len() && s[a] < s[b] && g == s[b] - s[a];
            assert(coords.contains(s[a]) && coords.contains(s[b]));
            let i = choose|i: int| 0 <= i < coords.len() && coords[i] == s[a];
            let j = choose|j: int| 0 <= j < coords.len() && coords[j] == s[b];
            assert(is_positive_gap(coords, g));
        }
    }
}

proof fn lemma_same_elements(a: Seq<i32>, b: Seq<i32>)
    requires
        a.to_multiset() == b.to_multiset(),
    ensures
        forall|i: int| 0 <= i < b.len() ==> a.contains(#[trigger] b[i]),
        forall|i: int| 0 <= i < a.len() ==> b.contains(#[trigger] a[i]),
{
    broadcast use vstd::seq_lib::group_to_multiset_ensures;
    assert forall|i: int| 0 <= i < b.len() implies a.contains(#[trigger] b[i]) by {
        assert(b.to_multiset().count(b[i]) > 0);
    }
    assert forall|i: int| 0 <= i < a.len() implies b.contains(#[trigger] a[i]) by {
        assert(a.to_multiset().count(a[i]) > 0);
    }
}

/// Every gap between values of an ascending sequence is at least some gap
/// between neighbours.
proof fn lemma_gaps_bounded_by_neighbours(s: Seq<i32>, g: int)
    requires
        ascending(s),
        is_positive_gap(s, g),
    ensures
        exists|k: int| 0 <= k && k + 1 < s.len() && #[trigger] s[k] < s[k + 1] && s[k + 1] - s[k] <= g,
{
    let (a, b) = choose|a: int, b: int| 0 <= a < s.len() && 0 <= b < s.len() && s[a] < s[b] && g == s[b] - s[a];
    if a < b {
        lemma_gap_has_adjacent(s, a, b);
    } else {
        assert(s[b] <= s[a]);
    }
}

/// What the scan of `sample_step` found, read over the sorted coordinates:
/// no positive gap at all, or the smallest one.
proof fn lemma_best_gap_is_smallest(s: Seq<i32>, best: Option<i32>, j: int)
    requires
        ascending(s),
        1 <= j,
        j >= s.len(),
        match best {
            None => forall|a: int| 0 <= a && a + 1 < j && a + 1 < s.len() ==> #[trigger] s[a] == s[a + 1],
            Some(b) => b > 0
                && (exists|a: int| 0 <= a && a + 1 < j && a + 1 < s.len() && #[trigger] s[a] < s[a + 1] && b == s[a + 1] - s[a])
                && forall|a: int| 0 <= a && a + 1 < j && a + 1 < s.len() && #[trigger] s[a] < s[a + 1] ==> b <= s[a + 1] - s[a],
        },
    ensures
        match best {
            None => forall|g: int| !is_positive_gap(s, g),
            Some(b) => is_positive_gap(s, b as int) && forall|g: int| is_positive_gap(s, g) ==> b <= g,
        },
{
    match best {
        None => {
            assert forall|g: int| !is_positive_gap(s, g) by {
                if is_positive_gap(s, g) {
                    lemma_gaps_bounded_by_neighbours(s, g);
                }
            }
        },
        Some(bv) => {
            let a0 = choose|a: int| 0 <= a && a + 1 < j && a + 1 < s.len() && #[trigger] s[a] < s[a + 1] && bv == s[a + 1] - s[a];
            assert(is_positive_gap(s, bv as int));
            assert forall|g: int| is_positive_gap(s, g) implies bv <= g by {
                lemma_gaps_bounded_by_neighbours(s, g);
            }
        },
    }
}

/// The gap after position `a` of `s` fits an `i32`.
pub open spec fn next_gap_fits(s: Seq<i32>, a: int) -> bool {
    i32::MIN <= s[a + 1] - s[a] <= i32::MAX
}

/// The smallest positive gap between neighbours of the ascending `s`, none
/// when all of them are equal.
fn smallest_positive_step(s: &Vec<i32>) -> (best: Option<i32>)
    requires
        ascending(s@),
        forall|a: int| 0 <= a && a + 1 < s@.len() ==> #[trigger] next_gap_fits(s@, a),
    ensures
        match best {
            None => forall|g: int| !is_positive_gap(s@, g),
            Some(b) => b > 0 && is_positive_gap(s@, b as int) && forall|g: int| is_positive_gap(s@, g) ==> b <= g,
        },
{
    let mut best: Option<i32> = None;
    let mut j: usize = 1;
    while j < s.len()
        invariant
            ascending(s@),
            forall|a: int| 0 <= a && a + 1 < s@.len() ==> #[trigger] next_gap_fits(s@, a),
            1 <= j,
            j <= s@.len() || s@.len() == 0,
            match best {
                None => forall|a: int| 0 <= a && a + 1 < j && a + 1 < s@.len() ==> #[trigger] s@[a] == s@[a + 1],
                Some(b) => b > 0
                    && (exists|a: int| 0 <= a && a + 1 < j && a + 1 < s@.len() && #[trigger] s@[a] < s@[a + 1] && b == s@[a + 1] - s@[a])
                    && forall|a: int| 0 <= a && a + 1 < j && a + 1 < s@.len() && #[trigger] s@[a] < s@[a + 1] ==> b <= s@[a + 1] - s@[a],
            },
        decreases s@.len() - j,
    {
        proof {
            assert(next_gap_fits(s@, j - 1));
        }
        let gap = s[j] - s[j - 1];
        if gap > 0 {
            match best {
                None => { best = Some(gap); },
                Some(b) => if gap < b { best = Some(gap); },
            }
        }
        j = j + 1;
    }
    proof {
        lemma_best_gap_is_smallest(s@, best, j as int);
    }
    best
}

/// The step between sampled coordinates along one axis (see
/// `sample_step_spec`).
pub fn sample_step(coords: &Vec<i32>) -> (res: i32)
    requires
        forall|i: int, j: int| 0 <= i < coords@.len() && 0 <= j < coords@.len()
            ==> i32::MIN <= #[trigger] coords@[j] - #[trigger] coords@[i] <= i32::MAX,
    ensures
        sample_step_spec(coords@, res as int),
        res >= 1,
{
    let sorted = sort_i32(coords);
    proof {
        lemma_same_elements(coords@, sorted@);
        lemma_same_gaps(coords@, sorted@);
        assert forall|a: int| 0 <= a && a + 1 < sorted@.len() implies #[trigger] next_gap_fits(sorted@, a) by {
            assert(coords@.contains(sorted@[a]) && coords@.contains(sorted@[a + 1]));
            let ia = choose|i: int| 0 <= i < coords@.len() && coords@[i] == sorted@[a];
            let ib = choose|i: int| 0 <= i < coords@.len() && coords@[i] == sorted@[a + 1];
            assert(i32::MIN <= coords@[ib] - coords@[ia] <= i32::MAX);
        }
    }
    match smallest_positive_step(&sorted) {
        Some(b) => b,
        None => 1,
    }
}

/// `p` comes before `q` in reading order: by row, then by column.
pub open spec fn row_major_le(p: TilePos, q: TilePos) -> bool {
    p.y < q.y || (p.y == q.y && p.x <= q.x)
}

/// The positions of `s` are in reading order.
pub open spec fn in_reading_order(s: Seq<TilePos>) -> bool {
    forall|i: int, j: int| 0 <= i < j < s.len() ==> row_major_le(s[i], s[j])
}

/// The positions of `s` rearranged into reading order (there is one such
/// arrangement: see `lemma_reading_order_unique`).
pub open spec fn reading_order_of(s: Seq<TilePos>) -> Seq<TilePos> {
    choose|t: Seq<TilePos>| t.to_multiset() == s.to_multiset() && in_reading_order(t)
}

/// Two arrangements of the same positions that are both in reading order
/// are the same: reading order leaves no tie between distinct positions.
pub proof fn lemma_reading_order_unique(a: Seq<TilePos>, b: Seq<TilePos>)
    requires
        a.to_multiset() == b.to_multiset(),
        in_reading_order(a),
        in_reading_order(b),
    ensures
        a == b,
{
    let leq = |p: TilePos, q: TilePos| row_major_le(p, q);
    assert(vstd::relations::total_ordering(leq)) by {
        assert forall|p: TilePos, q: TilePos| #[trigger] leq(p, q) && #[trigger] leq(q, p) implies p == q by {
            assert(p.x == q.x && p.y == q.y);
        }
    }
    assert(vstd::relations::sorted_by(a, leq));
    assert(vstd::relations::sorted_by(b, leq));
    vstd::seq_lib::lemma_sorted_unique(a, b, leq);
}

/// The positions of `v` in reading order: by row, then by column (the order
/// in which the region window lists river sources, mouths and chunks).
pub fn sort_reading_order(v: &Vec<TilePos>) -> (res: Vec<TilePos>)
    ensures
        res@.to_multiset() == v@.to_multiset(),
        in_reading_order(res@),
        res@ == reading_order_of(v@),
{
    let res = insert_in_reading_order(v);
    proof {
        let t = reading_order_of(v@);
        assert(t.to_multiset() == v@.to_multiset() && in_reading_order(t));
        lemma_reading_order_unique(res@, t);
    }
    res
}

/// The positions of `v` in reading order, by insertion.
fn insert_in_reading_order(v: &Vec<TilePos>) -> (res: Vec<TilePos>)
    ensures
        res@.to_multiset() == v@.to_multiset(),
        in_reading_order(res@),
{
    broadcast use vstd::seq_lib::group_to_multiset_ensures;
    let mut res: Vec<TilePos> = Vec::new();
    let mut i: usize = 0;
    while i < v.len()
        invariant
            i <= v.len(),
            res@.to_multiset() == v@.take(i as int).to_multiset(),
            in_reading_order(res@),
        decreases v.len() - i,
    {
        let item = v[i];
        let mut pos: usize = res.len();
        while pos > 0 && (res[pos - 1].y > item.y || (res[pos - 1].y == item.y && res[pos - 1].x > item.x))
            invariant
                pos <= res.len(),
                in_reading_order(res@),
                forall|k: int| pos <= k < res.len() ==> !row_major_le(res@[k], item),
            decreases pos,
        {
            pos = pos - 1;
        }
        let ghost before = res@;
        res.insert(pos, item);
        proof {
            assert(v@.take(i + 1) == v@.take(i as int).push(item));
            before.insert_ensures(pos as int, item);
            assert forall|a: int, b: int| 0 <= a < b < res@.len() implies row_major_le(res@[a], res@[b]) by {
                if a < pos && b == pos {
                    assert(row_major_le(before[a], before[pos - 1]));
                } else if a >= pos && b > pos {
                    assert(res@[b] == before[b - 1]);
                    if a > pos {
                        assert(res@[a] == before[a - 1]);
                    }
                } else if a < pos && b > pos {
                    assert(res@[b] == before[b - 1]);
                    if pos > 0 {
                        assert(row_major_le(before[a], before[pos - 1]));
                    }
                }
            }
            lemma_insert_multiset(before, pos as int, item, v@.take(i as int));
        }
        i = i + 1;
    }
    proof {
        assert(v@.take(v.len() as int) == v@);
    }
    res
}

} // verus!
