//! Nearest-palette-color matching.
//!
//! The device can only display colors from a fixed palette table, supplied
//! by the caller as a list of RGB triples indexed from 0. An arbitrary
//! 24-bit color is resolved to the palette index whose entry is closest by
//! squared Euclidean distance over the three channels, ties broken by the
//! lowest index.

use vstd::prelude::*;

verus! {

/// A 24-bit color: three 8-bit channels.
#[derive(Clone, Copy, Debug, PartialEq, Eq, Structural)]
pub struct RGBColor {
    pub red: u8,
    pub green: u8,
    pub blue: u8,
}

/// Squared Euclidean distance between two colors over the three channels.
pub open spec fn dist2(a: RGBColor, b: RGBColor) -> int {
    (a.red - b.red) * (a.red - b.red)
        + (a.green - b.green) * (a.green - b.green)
        + (a.blue - b.blue) * (a.blue - b.blue)
}

/// The index of the palette entry nearest to `c`, scanning in ascending
/// index order and replacing the running best only on a strictly smaller
/// distance, so that ties keep the lower index.
pub open spec fn nearest_index(palette: Seq<RGBColor>, c: RGBColor) -> int
    decreases palette.len(),
{
    if palette.len() <= 1 {
        0
    } else {
        let prev = nearest_index(palette.drop_last(), c);
        if dist2(c, palette.last()) < dist2(c, palette[prev]) {
            palette.len() - 1
        } else {
            prev
        }
    }
}

fn dist2_exec(a: RGBColor, b: RGBColor) -> (d: u32)
    ensures
        d as int == dist2(a, b),
{
    let dr = a.red as i32 - b.red as i32;
    let dg = a.green as i32 - b.green as i32;
    let db = a.blue as i32 - b.blue as i32;
    proof {
        assert(0 <= dr * dr <= 65025 && 0 <= dg * dg <= 65025 && 0 <= db * db <= 65025)
            by (nonlinear_arith)
            requires
                -255 <= dr <= 255,
                -255 <= dg <= 255,
                -255 <= db <= 255,
        ;
    }
    (dr * dr + dg * dg + db * db) as u32
}

/// Resolve an arbitrary RGB color to the index of the nearest entry of the
/// fixed palette table, by squared Euclidean distance over the channels,
/// ties broken by the lowest index. The table holds at most 128 entries, so
/// the result is always a valid palette color index.
pub fn nearest_palette(rgb: RGBColor, palette: &Vec<RGBColor>) -> (idx: u8)
    requires
        1 <= palette@.len() <= 128,
    ensures
        idx as int == nearest_index(palette@, rgb),
        idx < palette@.len(),
        idx <= 127,
{
    let mut best: usize = 0;
    let mut best_d: u32 = dist2_exec(rgb, palette[0]);
    let mut k: usize = 1;
    proof {
        assert(palette@.subrange(0, 1).len() == 1);
    }
    while k < palette.len()
        invariant
            1 <= k <= palette@.len() <= 128,
            best < k,
            best as int == nearest_index(palette@.subrange(0, k as int), rgb),
            best_d as int == dist2(rgb, palette@[best as int]),
        decreases palette@.len() - k,
    {
        let d = dist2_exec(rgb, palette[k]);
        proof {
            let p = palette@.subrange(0, k + 1 as int);
            assert(p.drop_last() =~= palette@.subrange(0, k as int));
            assert(p.last() == palette@[k as int]);
            assert(p[best as int] == palette@[best as int]);
        }
        if d < best_d {
            best = k;
            best_d = d;
        }
        k = k + 1;
    }
    proof {
        assert(palette@.subrange(0, palette@.len() as int) =~= palette@);
    }
    best as u8
}

/// The squared distance is never negative, and is zero exactly when the two
/// colors are channel-for-channel equal.
pub proof fn lemma_dist2_zero(a: RGBColor, b: RGBColor)
    ensures
        dist2(a, b) >= 0,
        dist2(a, b) == 0 <==> a == b,
{
    let dr = a.red - b.red;
    let dg = a.green - b.green;
    let db = a.blue - b.blue;
    assert(dr * dr >= 0 && dg * dg >= 0 && db * db >= 0 && (dr != 0 ==> dr * dr > 0) && (dg != 0
        ==> dg * dg > 0) && (db != 0 ==> db * db > 0)) by (nonlinear_arith);
}

/// Law: `nearest_index` returns a valid index of the table; its entry's
/// distance to the query is minimal over the whole table; and every entry
/// before it is strictly farther, so ties go to the lowest index.
pub proof fn lemma_nearest_index_properties(palette: Seq<RGBColor>, c: RGBColor)
    requires
        palette.len() > 0,
    ensures
        0 <= nearest_index(palette, c) < palette.len(),
        forall|j: int|
            0 <= j < palette.len() ==> dist2(c, palette[nearest_index(palette, c)]) <= dist2(
                c,
                #[trigger] palette[j],
            ),
        forall|j: int|
            0 <= j < nearest_index(palette, c) ==> dist2(c, #[trigger] palette[j]) > dist2(
                c,
                palette[nearest_index(palette, c)],
            ),
    decreases palette.len(),
{
    if palette.len() > 1 {
        let front = palette.drop_last();
        lemma_nearest_index_properties(front, c);
        assert(forall|j: int| 0 <= j < front.len() ==> #[trigger] front[j] == palette[j]);
        let prev = nearest_index(front, c);
        let n = nearest_index(palette, c);
        let last = palette.len() - 1;
        assert(palette.last() == palette[last]);
        assert forall|j: int| 0 <= j < palette.len() implies dist2(c, palette[n]) <= dist2(
            c,
            #[trigger] palette[j],
        ) by {
            if j < last {
                assert(dist2(c, front[prev]) <= dist2(c, front[j]));
            }
        }
        assert forall|j: int| 0 <= j < n implies dist2(c, #[trigger] palette[j]) > dist2(
            c,
            palette[n],
        ) by {
            if n == last {
                if j == prev {
                    assert(dist2(c, front[j]) == dist2(c, palette[j]));
                } else if j < prev {
                    assert(dist2(c, front[j]) > dist2(c, front[prev]));
                } else {
                    assert(dist2(c, front[prev]) <= dist2(c, front[j]));
                }
            } else {
                assert(dist2(c, front[j]) > dist2(c, front[prev]));
            }
        }
    }
}

/// Law (round-trip identity): querying with a palette entry's own color
/// returns that entry's index, provided no earlier entry holds the same
/// color.
pub proof fn lemma_nearest_round_trip(palette: Seq<RGBColor>, i: int)
    requires
        0 <= i < palette.len(),
        forall|j: int| 0 <= j < i ==> #[trigger] palette[j] != palette[i],
    ensures
        nearest_index(palette, palette[i]) == i,
{
    let c = palette[i];
    let n = nearest_index(palette, c);
    lemma_nearest_index_properties(palette, c);
    lemma_dist2_zero(c, c);
    lemma_dist2_zero(c, palette[n]);
    assert(dist2(c, palette[n]) <= dist2(c, palette[i]));
    assert(palette[n] == c);
    if n < i {
        assert(palette[n] != palette[i]);
    }
    if n > i {
        assert(dist2(c, palette[i]) > dist2(c, palette[n]));
    }
}

/// Law (tie-break): of two palette entries equidistant from the query
/// color, the one with the higher index is never the one returned.
pub proof fn lemma_nearest_tie_break(palette: Seq<RGBColor>, c: RGBColor, i: int, j: int)
    requires
        0 <= i < j < palette.len(),
        dist2(c, palette[i]) == dist2(c, palette[j]),
    ensures
        nearest_index(palette, c) != j,
{
    lemma_nearest_index_properties(palette, c);
    if nearest_index(palette, c) == j {
        assert(dist2(c, palette[i]) > dist2(c, palette[j]));
    }
}

} // verus!
