//! Discrete screen coordinates and the ghost view of point buffers.
use vstd::prelude::*;

verus! {

/// A discrete screen location: an ordered pair of signed integers.
pub type PixelCoord = (i32, i32);

/// Largest coordinate magnitude the rasterizers accept; keeping centers and
/// extents within this bound keeps every intermediate sum inside `i32`.
pub const COORD_LIMIT: i32 = 0x1000_0000;

/// A coordinate that is far enough from the `i32` bounds for rasterization.
pub open spec fn coord_ok(c: int) -> bool {
    -(COORD_LIMIT as int) <= c <= COORD_LIMIT as int
}

/// The mathematical value of a pixel coordinate pair.
pub open spec fn point_view(p: PixelCoord) -> (int, int) {
    (p.0 as int, p.1 as int)
}

/// The mathematical value of a buffer of pixel coordinates.
pub open spec fn view_points(s: Seq<PixelCoord>) -> Seq<(int, int)> {
    s.map_values(|p: PixelCoord| point_view(p))
}

pub proof fn lemma_view_points_push(s: Seq<PixelCoord>, p: PixelCoord)
    ensures
        view_points(s.push(p)) == view_points(s).push(point_view(p)),
{
    assert(view_points(s.push(p)) =~= view_points(s).push(point_view(p)));
}

/// Rasterization is deterministic: every rasterizer promises that its
/// output buffer's mathematical value equals a sequence computed from the
/// inputs alone, and two buffers with the same mathematical value hold the
/// same pixels. So two runs of any rasterizer on identical inputs, into
/// freshly cleared buffers, yield identical buffers.
pub proof fn lemma_rasterization_deterministic(s: Seq<PixelCoord>, t: Seq<PixelCoord>, points: Seq<(int, int)>)
    requires
        view_points(s) == points,
        view_points(t) == points,
    ensures
        s == t,
{
    assert(s.len() == view_points(s).len());
    assert(t.len() == view_points(t).len());
    assert forall|i: int| 0 <= i < s.len() implies s[i] == t[i] by {
        assert(view_points(s)[i] == point_view(s[i]));
        assert(view_points(t)[i] == point_view(t[i]));
        assert(s[i].0 == t[i].0 && s[i].1 == t[i].1);
    }
    assert(s =~= t);
}

} // verus!
