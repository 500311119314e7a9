//! The grid of the sample previews (terrain values, river samples): the
//! tiles that the samples span, the size of the image, and the pixel of each
//! tile.  Rows of the image go down while tile rows go up.
use vstd::prelude::*;
use crate::picking::TilePos;

verus! {

/// The least column among `init` and the positions of `ps`.
pub open spec fn least_x(ps: Seq<TilePos>, init: int) -> int
    decreases ps.len(),
{
    if ps.len() == 0 {
        init
    } else {
        let m = least_x(ps.drop_last(), init);
        if (ps.last().x as int) < m { ps.last().x as int } else { m }
    }
}

/// The least row among `init` and the positions of `ps`.
pub open spec fn least_y(ps: Seq<TilePos>, init: int) -> int
    decreases ps.len(),
{
    if ps.len() == 0 {
        init
    } else {
        let m = least_y(ps.drop_last(), init);
        if (ps.last().y as int) < m { ps.last().y as int } else { m }
    }
}

/// The greatest of `init` and the columns just past the positions of `ps`.
pub open spec fn past_x(ps: Seq<TilePos>, init: int) -> int
    decreases ps.len(),
{
    if ps.len() == 0 {
        init
    } else {
        let m = past_x(ps.drop_last(), init);
        if ps.last().x + 1 > m { ps.last().x + 1 } else { m }
    }
}

/// The greatest of `init` and the rows just past the positions of `ps`.
pub open spec fn past_y(ps: Seq<TilePos>, init: int) -> int
    decreases ps.len(),
{
    if ps.len() == 0 {
        init
    } else {
        let m = past_y(ps.drop_last(), init);
        if ps.last().y + 1 > m { ps.last().y + 1 } else { m }
    }
}

/// The tiles from `lo` (inclusive) to `hi_excl` (exclusive) grown to hold
/// every position of `ps`: the least corner and the corner just past the
/// greatest one.
pub fn extend_bounds(lo: TilePos, hi_excl: TilePos, ps: &Vec<TilePos>) -> (res: (TilePos, TilePos))
    requires
        forall|i: int| 0 <= i < ps@.len() ==> (#[trigger] ps@[i]).x < i32::MAX && ps@[i].y < i32::MAX,
    ensures
        res.0.x == least_x(ps@, lo.x as int),
        res.0.y == least_y(ps@, lo.y as int),
        res.1.x == past_x(ps@, hi_excl.x as int),
        res.1.y == past_y(ps@, hi_excl.y as int),
{
    let mut min = lo;
    let mut max_excl = hi_excl;
    let mut i: usize = 0;
    while i < ps.len()
        invariant
            i <= ps.len(),
            forall|k: int| 0 <= k < ps@.len() ==> (#[trigger] ps@[k]).x < i32::MAX && ps@[k].y < i32::MAX,
            min.x == least_x(ps@.take(i as int), lo.x as int),
            min.y == least_y(ps@.take(i as int), lo.y as int),
            max_excl.x == past_x(ps@.take(i as int), hi_excl.x as int),
            max_excl.y == past_y(ps@.take(i as int), hi_excl.y as int),
        decreases ps.len() - i,
    {
        let p = ps[i];
        proof {
            let next = ps@.take(i + 1);
            assert(next.drop_last() =~= ps@.take(i as int));
            assert(next.last() == p);
        }
        if p.x < min.x {
            min.x = p.x;
        }
        if p.y < min.y {
            min.y = p.y;
        }
        if p.x + 1 > max_excl.x {
            max_excl.x = p.x + 1;
        }
        if p.y + 1 > max_excl.y {
            max_excl.y = p.y + 1;
        }
        i = i + 1;
    }
    proof {
        assert(ps@.take(ps.len() as int) =~= ps@);
    }
    (min, max_excl)
}

/// The grown bounds hold the bounds they started from and every position.
pub proof fn lemma_bounds_hold_samples(ps: Seq<TilePos>, lo: TilePos, hi_excl: TilePos)
    ensures
        least_x(ps, lo.x as int) <= lo.x,
        least_y(ps, lo.y as int) <= lo.y,
        past_x(ps, hi_excl.x as int) >= hi_excl.x,
        past_y(ps, hi_excl.y as int) >= hi_excl.y,
        forall|i: int| 0 <= i < ps.len() ==> {
            &&& least_x(ps, lo.x as int) <= (#[trigger] ps[i]).x < past_x(ps, hi_excl.x as int)
            &&& least_y(ps, lo.y as int) <= ps[i].y < past_y(ps, hi_excl.y as int)
        },
    decreases ps.len(),
{
    if ps.len() > 0 {
        let rest = ps.drop_last();
        lemma_bounds_hold_samples(rest, lo, hi_excl);
        assert forall|i: int| 0 <= i < ps.len() implies {
            &&& least_x(ps, lo.x as int) <= (#[trigger] ps[i]).x < past_x(ps, hi_excl.x as int)
            &&& least_y(ps, lo.y as int) <= ps[i].y < past_y(ps, hi_excl.y as int)
        } by {
            if i < ps.len() - 1 {
                assert(ps[i] == rest[i]);
            }
        }
    }
}

/// The number of pixels along one axis of a preview of the tiles from `lo`
/// to `hi_excl`, sampled every `step` tiles: the tiles divided by the step,
/// rounding up, and at least one.
pub open spec fn side_for(lo: int, hi_excl: int, step: int) -> int {
    let num = hi_excl - lo + step - 1;
    if num <= 0 || num / step < 1 { 1 } else { num / step }
}

/// The pixels along one axis of a preview (see `side_for`).
pub fn preview_side(lo: i32, hi_excl: i32, step: i32) -> (res: usize)
    requires
        step >= 1,
        i32::MIN <= hi_excl - lo <= i32::MAX,
        i32::MIN <= hi_excl - lo + step <= i32::MAX,
        i32::MIN <= hi_excl - lo + step - 1 <= i32::MAX,
    ensures
        res as int == side_for(lo as int, hi_excl as int, step as int),
{
    let num: i64 = hi_excl as i64 - lo as i64 + step as i64 - 1;
    if num <= 0 {
        1
    } else {
        let q: i64 = num / (step as i64);
        if q < 1 { 1 } else { q as usize }
    }
}

/// The pixel column (or, counted from the bottom, row) of coordinate `v`
/// in a preview starting at `lo` and sampled every `step` tiles: none
/// before the start.
pub open spec fn cell_index(lo: int, v: int, step: int) -> int {
    let d = v - lo;
    if d <= 0 { 0 } else { d / step }
}

/// The pixel of position `p` in a preview of `width` by `height` pixels
/// whose least tile is `lo`, sampled every `step` tiles: its column, and
/// its row counted from the top (the top row when it lies above); none when
/// the column is past the right edge.
pub open spec fn preview_cell_spec(lo: TilePos, step: TilePos, width: usize, height: usize, p: TilePos) -> Option<(usize, usize)> {
    let cx = cell_index(lo.x as int, p.x as int, step.x as int);
    let from_bottom = cell_index(lo.y as int, p.y as int, step.y as int);
    let top = if height == 0 { 0 } else { height - 1 };
    let cy = if top - from_bottom < 0 { 0 } else { top - from_bottom };
    if cx < width && cy < height { Some((cx as usize, cy as usize)) } else { None }
}

/// The pixel of position `p` in a preview (see `preview_cell_spec`).
pub fn preview_cell(lo: TilePos, step: TilePos, width: usize, height: usize, p: TilePos) -> (res: Option<(usize, usize)>)
    requires
        step.x >= 1,
        step.y >= 1,
        i32::MIN <= p.x - lo.x <= i32::MAX,
        i32::MIN <= p.y - lo.y <= i32::MAX,
    ensures
        res == preview_cell_spec(lo, step, width, height, p),
{
    let dx: i32 = p.x - lo.x;
    let dy: i32 = p.y - lo.y;
    let cx: usize = if dx <= 0 { 0 } else { (dx / step.x) as usize };
    let from_bottom: usize = if dy <= 0 { 0 } else { (dy / step.y) as usize };
    let top: usize = if height == 0 { 0 } else { height - 1 };
    let cy: usize = if top < from_bottom { 0 } else { top - from_bottom };
    if cx < width && cy < height { Some((cx, cy)) } else { None }
}

/// Every tile between the preview's least tile and the tile just past its
/// greatest one has a pixel: the preview is wide and tall enough.
pub proof fn lemma_samples_land_inside(lo: TilePos, hi_excl: TilePos, step: TilePos, p: TilePos)
    requires
        step.x >= 1,
        step.y >= 1,
        lo.x <= p.x < hi_excl.x,
        lo.y <= p.y < hi_excl.y,
        side_for(lo.x as int, hi_excl.x as int, step.x as int) <= usize::MAX,
        side_for(lo.y as int, hi_excl.y as int, step.y as int) <= usize::MAX,
    ensures
        preview_cell_spec(
            lo,
            step,
            side_for(lo.x as int, hi_excl.x as int, step.x as int) as usize,
            side_for(lo.y as int, hi_excl.y as int, step.y as int) as usize,
            p,
        ) is Some,
{
    lemma_index_below_side(lo.x as int, hi_excl.x as int, step.x as int, p.x as int);
}

/// The pixel index of a coordinate before the end stays below the number
/// of pixels.
proof fn lemma_index_below_side(lo: int, hi_excl: int, step: int, v: int)
    requires
        step >= 1,
        lo <= v < hi_excl,
    ensures
        cell_index(lo, v, step) < side_for(lo, hi_excl, step),
{
    let n = hi_excl - lo;
    let d = v - lo;
    assert(0 <= d < n);
    vstd::arithmetic::div_mod::lemma_div_is_ordered(d, n - 1, step);
    vstd::arithmetic::div_mod::lemma_div_plus_one(n - 1, step);
    assert(n + step - 1 == step + (n - 1));
    if d > 0 {
        assert(d / step <= (n - 1) / step);
    }
    vstd::arithmetic::div_mod::lemma_div_pos_is_pos(n - 1, step);
}

} // verus!
