//! Which frames a contact sheet shows, and where each thumbnail sits on it.
use vstd::prelude::*;
use vstd::arithmetic::div_mod::{lemma_div_is_ordered, lemma_div_by_multiple, lemma_div_pos_is_pos};
use vstd::arithmetic::mul::{lemma_mul_inequality, lemma_mul_is_distributive_add};
use crate::timeline::{key_frame, lemma_start_monotone, lemma_start_step, start, sum, FilmTimeline};

verus! {

/// Pixels between thumbnails, and around them.
pub const GAP: u32 = 12;

/// The last frame a sheet may sample: `total_frames().max(1) - 1`.
pub open spec fn last_frame(s: Seq<usize>) -> int {
    if sum(s) < 1 {
        0
    } else {
        sum(s) - 1
    }
}

/// The frame shown by tile `i` of `tile_count`: with one tile per scene, the
/// middle of that scene; otherwise frames spread evenly from the first to
/// the last.
pub open spec fn sample_frame(s: Seq<usize>, tile_count: int, i: int) -> int {
    if tile_count == s.len() && tile_count > 0 {
        if key_frame(s, i) < last_frame(s) {
            key_frame(s, i)
        } else {
            last_frame(s)
        }
    } else if tile_count > 1 {
        i * last_frame(s) / (tile_count - 1)
    } else {
        0
    }
}

/// The frames to render for a sheet of `tile_count` tiles.
pub fn sample_frames(timeline: &FilmTimeline, tile_count: usize) -> (r: Vec<usize>)
    requires
        timeline.wf(),
        tile_count > 1 ==> (tile_count - 1) * last_frame(timeline@) <= usize::MAX,
    ensures
        r@.len() == tile_count,
        forall|i: int| 0 <= i < tile_count ==> r@[i] == sample_frame(timeline@, tile_count as int, i),
        tile_count == timeline@.len() && tile_count > 0 ==> forall|i: int| 0 <= i < tile_count ==> {
            let mid = start(timeline@, i) + timeline@[i] / 2;
            let end = if sum(timeline@) < 1 { 0 } else { sum(timeline@) - 1 };
            #[trigger] r@[i] == if mid < end { mid } else { end }
        },
{
    let ghost s = timeline@;
    let total = timeline.total_frames();
    let last: usize = if total < 1 { 0 } else { total - 1 };
    let n = timeline.scene_count();
    let mut r: Vec<usize> = Vec::new();
    if tile_count == n && tile_count > 0 {
        let mut acc: usize = 0;
        let mut i: usize = 0;
        while i < n
            invariant
                s == timeline@,
                n == s.len(),
                tile_count == n,
                i <= n,
                acc == start(s, i as int),
                sum(s) <= usize::MAX,
                last == last_frame(s),
                r@.len() == i,
                forall|k: int| 0 <= k < i ==> r@[k] == sample_frame(s, tile_count as int, k),
            decreases n - i,
        {
            proof {
                lemma_start_step(s, i as int);
                lemma_start_monotone(s, i + 1, n as int);
            }
            let d = timeline.duration_frames(i);
            let mid = acc + d / 2;
            r.push(if mid < last { mid } else { last });
            acc = acc + d;
            i = i + 1;
        }
    } else {
        let mut i: usize = 0;
        while i < tile_count
            invariant
                s == timeline@,
                !(tile_count == s.len() && tile_count > 0),
                tile_count > 1 ==> (tile_count - 1) * last_frame(s) <= usize::MAX,
                i <= tile_count,
                last == last_frame(s),
                r@.len() == i,
                forall|k: int| 0 <= k < i ==> r@[k] == sample_frame(s, tile_count as int, k),
            decreases tile_count - i,
        {
            if tile_count > 1 {
                proof {
                    lemma_mul_inequality(i as int, (tile_count - 1) as int, last as int);
                }
                r.push((i * last) / (tile_count - 1));
            } else {
                r.push(0);
            }
            i = i + 1;
        }
    }
    r
}

/// With one tile per scene, every tile shows the middle of its own scene
/// (the frame half its length after its start), or the film's last frame
/// if that comes sooner.
pub proof fn lemma_one_tile_per_scene(s: Seq<usize>, tile_count: int, i: int)
    requires
        tile_count == s.len(),
        tile_count > 0,
        0 <= i < tile_count,
    ensures
        ({
            let mid = start(s, i) + s[i] / 2;
            let end = if sum(s) < 1 { 0 } else { sum(s) - 1 };
            sample_frame(s, tile_count, i) == if mid < end { mid } else { end }
        }),
{
}

/// Every sampled frame lies inside the film.
pub proof fn lemma_samples_inside_film(s: Seq<usize>, tile_count: int, i: int)
    requires
        0 <= i < tile_count,
    ensures
        0 <= sample_frame(s, tile_count, i) <= last_frame(s),
{
    if tile_count == s.len() && tile_count > 0 {
        lemma_start_monotone(s, i, i);
    } else if tile_count > 1 {
        lemma_mul_inequality(i, tile_count - 1, last_frame(s));
        lemma_div_is_ordered(i * last_frame(s), (tile_count - 1) * last_frame(s), tile_count - 1);
        lemma_div_by_multiple(last_frame(s), tile_count - 1);
        assert((tile_count - 1) * last_frame(s) == last_frame(s) * (tile_count - 1)) by (nonlinear_arith);
        lemma_mul_inequality(0, i, last_frame(s));
        lemma_div_pos_is_pos(i * last_frame(s), tile_count - 1);
    }
}

/// Spread evenly, the samples run from the first frame to the last without
/// ever going back.
pub proof fn lemma_spread_samples(s: Seq<usize>, tile_count: int, i: int, j: int)
    requires
        tile_count > 1,
        tile_count != s.len(),
        0 <= i <= j < tile_count,
    ensures
        sample_frame(s, tile_count, 0) == 0,
        sample_frame(s, tile_count, tile_count - 1) == last_frame(s),
        sample_frame(s, tile_count, i) <= sample_frame(s, tile_count, j),
{
    let e = last_frame(s);
    assert(0 * e == 0);
    assert((tile_count - 1) * e == e * (tile_count - 1)) by (nonlinear_arith);
    lemma_div_by_multiple(e, tile_count - 1);
    lemma_mul_inequality(i, j, e);
    lemma_div_is_ordered(i * e, j * e, tile_count - 1);
}

/// Where the thumbnails of a contact sheet go.
#[derive(Clone, Copy, Debug, PartialEq, Eq)]
pub struct SheetLayout {
    pub tiles: usize,
    pub columns: usize,
    pub rows: usize,
    pub thumb_width: u32,
    pub thumb_height: u32,
    pub width: u32,
    pub height: u32,
}

/// Rows needed for `tiles` thumbnails in `columns` columns.
pub open spec fn rows_for(tiles: int, columns: int) -> int {
    (tiles + columns - 1) / columns
}

/// Length of a side holding `count` thumbnails of `thumb` pixels, with a gap
/// before, between and after them.
pub open spec fn side_length(count: u32, thumb: u32) -> int {
    count * thumb + (count + 1) * GAP
}

/// The sheet a `width` × `height` film makes with `tiles` thumbnails in
/// `columns` columns: thumbnails a quarter of the frame each way. Counts
/// are taken to `u32` by truncation, as `as u32` does.
pub open spec fn sheet_layout(width: u32, height: u32, tiles: usize, columns: usize) -> SheetLayout {
    let rows = rows_for(tiles as int, columns as int);
    SheetLayout {
        tiles,
        columns,
        rows: rows as usize,
        thumb_width: width / 4,
        thumb_height: height / 4,
        width: side_length(columns as u32, width / 4) as u32,
        height: side_length(rows as u32, height / 4) as u32,
    }
}

/// Lays out a contact sheet.
pub fn layout(width: u32, height: u32, tiles: usize, columns: usize) -> (l: SheetLayout)
    requires
        columns > 0,
        tiles + columns <= usize::MAX,
        (columns as u32) + 1 <= u32::MAX,
        side_length(columns as u32, width / 4) <= u32::MAX,
        (rows_for(tiles as int, columns as int) as u32) + 1 <= u32::MAX,
        side_length(rows_for(tiles as int, columns as int) as u32, height / 4) <= u32::MAX,
    ensures
        l == sheet_layout(width, height, tiles, columns),
{
    let rows = (tiles + columns - 1) / columns;
    let tw = width / 4;
    let th = height / 4;
    let c = columns as u32;
    let r = rows as u32;
    proof {
        lemma_mul_inequality(0, c as int, tw as int);
        lemma_mul_inequality(0, r as int, th as int);
    }
    let sheet_w = c * tw + (c + 1) * GAP;
    let sheet_h = r * th + (r + 1) * GAP;
    SheetLayout { tiles, columns, rows, thumb_width: tw, thumb_height: th, width: sheet_w, height: sheet_h }
}

/// Top-left corner of thumbnail `idx`: filled row by row.
pub open spec fn tile_origin_of(l: SheetLayout, idx: int) -> (int, int) {
    let col = (idx % (l.columns as int)) as u32;
    let row = (idx / (l.columns as int)) as u32;
    (GAP + col * (l.thumb_width + GAP), GAP + row * (l.thumb_height + GAP))
}

impl SheetLayout {
    /// Top-left corner of thumbnail `idx`.
    pub fn tile_origin(&self, idx: usize) -> (p: (u32, u32))
        requires
            self.columns > 0,
            self.thumb_width + GAP <= u32::MAX,
            self.thumb_height + GAP <= u32::MAX,
            tile_origin_of(*self, idx as int).0 <= u32::MAX,
            tile_origin_of(*self, idx as int).1 <= u32::MAX,
        ensures
            p.0 == tile_origin_of(*self, idx as int).0,
            p.1 == tile_origin_of(*self, idx as int).1,
    {
        let col = (idx % self.columns) as u32;
        let row = (idx / self.columns) as u32;
        proof {
            lemma_mul_inequality(0, col as int, (self.thumb_width + GAP) as int);
            lemma_mul_inequality(0, row as int, (self.thumb_height + GAP) as int);
        }
        (GAP + col * (self.thumb_width + GAP), GAP + row * (self.thumb_height + GAP))
    }
}

/// On a sheet laid out by `layout` whose counts fit in `u32`, every tile of
/// the sheet lies inside it, a gap clear of the right and bottom edges.
pub proof fn lemma_tiles_inside_sheet(width: u32, height: u32, tiles: usize, columns: usize, idx: int)
    requires
        columns > 0,
        columns < u32::MAX,
        rows_for(tiles as int, columns as int) < u32::MAX,
        side_length(columns as u32, width / 4) <= u32::MAX,
        side_length(rows_for(tiles as int, columns as int) as u32, height / 4) <= u32::MAX,
        0 <= idx < tiles,
    ensures
        ({
            let l = sheet_layout(width, height, tiles, columns);
            let o = tile_origin_of(l, idx);
            &&& o.0 + l.thumb_width + GAP <= l.width
            &&& o.1 + l.thumb_height + GAP <= l.height
        }),
{
    let l = sheet_layout(width, height, tiles, columns);
    let c = columns as int;
    let rows = rows_for(tiles as int, c);
    let col = idx % c;
    let row = idx / c;
    let tw = l.thumb_width as int;
    let th = l.thumb_height as int;
    assert(0 <= col < c);
    assert(0 <= row);
    assert(row < rows) by {
        assert(idx == c * row + col) by {
            vstd::arithmetic::div_mod::lemma_fundamental_div_mod(idx, c);
        }
        assert(c * row <= idx);
        assert(c * (row + 1) == c * row + c) by (nonlinear_arith);
        assert(c * (row + 1) <= tiles + c - 1);
        assert((tiles + c - 1) / c >= row + 1) by {
            vstd::arithmetic::div_mod::lemma_div_is_ordered(c * (row + 1), tiles + c - 1, c);
            lemma_div_by_multiple(row + 1, c);
            assert(c * (row + 1) == (row + 1) * c) by (nonlinear_arith);
        }
    }
    lemma_mul_inequality(col + 1, c, tw + GAP);
    lemma_mul_inequality(row + 1, rows, th + GAP);
    lemma_mul_is_distributive_add(tw + GAP, col, 1);
    lemma_mul_is_distributive_add(th + GAP, row, 1);
    assert(c * tw + (c + 1) * GAP == GAP + c * (tw + GAP)) by (nonlinear_arith);
    assert(rows * th + (rows + 1) * GAP == GAP + rows * (th + GAP)) by (nonlinear_arith);
    assert((col + 1) * (tw + GAP) == col * (tw + GAP) + (tw + GAP)) by (nonlinear_arith);
    assert((row + 1) * (th + GAP) == row * (th + GAP) + (th + GAP)) by (nonlinear_arith);
}

} // verus!
