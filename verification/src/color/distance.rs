//! Color distance in RGB space and nearest-color search.
//!
//! Distances are compared through their squares in exact integer
//! arithmetic. The square root is strictly monotone on non-negative
//! integers, so the nearest entry under the squared distance is the
//! nearest entry under the Euclidean distance as well, and the
//! comparison cannot be disturbed by rounding.

use vstd::prelude::*;

use crate::color::Rgb;

verus! {

pub open spec fn sq(x: int) -> int {
    x * x
}

/// Squared Euclidean distance between two colors in RGB space.
pub open spec fn dist_sq(a: Rgb, b: Rgb) -> int {
    sq(a.0[0] - b.0[0]) + sq(a.0[1] - b.0[1]) + sq(a.0[2] - b.0[2])
}

/// Index of the palette entry nearest to `c`, ties resolved to the
/// lowest index: a later entry displaces an earlier one only when its
/// distance is strictly smaller.
pub open spec fn closest_idx(c: Rgb, pal: Seq<Rgb>) -> int
    recommends
        pal.len() > 0,
    decreases pal.len(),
{
    if pal.len() <= 1 {
        0
    } else {
        let best = closest_idx(c, pal.drop_last());
        if dist_sq(c, pal.last()) < dist_sq(c, pal[best]) {
            pal.len() - 1
        } else {
            best
        }
    }
}

/// The squared distance is symmetric and zero on equal colors.
pub proof fn lemma_dist_sq_symmetric(a: Rgb, b: Rgb)
    ensures
        dist_sq(a, b) == dist_sq(b, a),
        dist_sq(a, a) == 0,
        dist_sq(a, b) >= 0,
{
    let x0 = a.0[0] as int;
    let y0 = b.0[0] as int;
    let x1 = a.0[1] as int;
    let y1 = b.0[1] as int;
    let x2 = a.0[2] as int;
    let y2 = b.0[2] as int;
    assert((x0 - y0) * (x0 - y0) == (y0 - x0) * (y0 - x0) && (x0 - y0) * (x0 - y0) >= 0)
        by (nonlinear_arith);
    assert((x1 - y1) * (x1 - y1) == (y1 - x1) * (y1 - x1) && (x1 - y1) * (x1 - y1) >= 0)
        by (nonlinear_arith);
    assert((x2 - y2) * (x2 - y2) == (y2 - x2) * (y2 - x2) && (x2 - y2) * (x2 - y2) >= 0)
        by (nonlinear_arith);
}

/// `closest_idx` names a valid index whose entry no other entry beats,
/// and every entry before it is strictly farther away.
pub proof fn lemma_closest_is_nearest(c: Rgb, pal: Seq<Rgb>)
    requires
        pal.len() > 0,
    ensures
        0 <= closest_idx(c, pal) < pal.len(),
        forall|j: int|
            0 <= j < pal.len() ==> dist_sq(c, pal[closest_idx(c, pal)]) <= dist_sq(
                c,
                #[trigger] pal[j],
            ),
        forall|j: int|
            0 <= j < closest_idx(c, pal) ==> dist_sq(c, #[trigger] pal[j]) > dist_sq(
                c,
                pal[closest_idx(c, pal)],
            ),
    decreases pal.len(),
{
    if pal.len() > 1 {
        lemma_closest_is_nearest(c, pal.drop_last());
        assert forall|j: int| 0 <= j < pal.len() - 1 implies pal.drop_last()[j] == pal[j] by {}
    }
}

/// Squared Euclidean distance between two colors.
pub fn distance_squared(a: &Rgb, b: &Rgb) -> (d: u32)
    ensures
        d as int == dist_sq(*a, *b),
{
    let dr: i64 = a.0[0] as i64 - b.0[0] as i64;
    let dg: i64 = a.0[1] as i64 - b.0[1] as i64;
    let db: i64 = a.0[2] as i64 - b.0[2] as i64;
    assert(0 <= dr * dr <= 65025 && 0 <= dg * dg <= 65025 && 0 <= db * db <= 65025)
        by (nonlinear_arith)
        requires
            -255 <= dr <= 255,
            -255 <= dg <= 255,
            -255 <= db <= 255,
    ;
    (dr * dr + dg * dg + db * db) as u32
}

/// Find the closest color in a palette to the given color.
///
/// Returns the index and value of the closest entry, or `None` when the
/// palette is empty. The scan compares with a strict `<` in palette
/// order, so a tie keeps the earliest entry.
pub fn find_closest_color(color: &Rgb, palette: &[Rgb]) -> (r: Option<(usize, Rgb)>)
    ensures
        r is Some <==> palette@.len() > 0,
        r matches Some((i, c)) ==> i < palette@.len() && i as int == closest_idx(*color, palette@)
            && c == palette@[i as int],
{
    if palette.len() == 0 {
        return None;
    }
    let mut best: usize = 0;
    let mut best_d: u32 = distance_squared(color, &palette[0]);
    let mut i: usize = 1;
    while i < palette.len()
        invariant
            1 <= i <= palette@.len(),
            best < i,
            best_d as int == dist_sq(*color, palette@[best as int]),
            best as int == closest_idx(*color, palette@.take(i as int)),
        decreases palette@.len() - i,
    {
        let d = distance_squared(color, &palette[i]);
        proof {
            assert(palette@.take(i + 1).drop_last() =~= palette@.take(i as int));
            assert(palette@.take(i + 1).last() == palette@[i as int]);
        }
        if d < best_d {
            best = i;
            best_d = d;
        }
        i = i + 1;
    }
    proof {
        assert(palette@.take(palette@.len() as int) =~= palette@);
    }
    Some((best, palette[best]))
}

} // verus!
