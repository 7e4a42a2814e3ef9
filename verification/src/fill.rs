//! Scanline fill: computes the interior pixel set enclosed by an outline
//! point set, without recursion and without mutating the outline.
use vstd::prelude::*;

use crate::coord::{view_points, PixelCoord};
use crate::coord::lemma_view_points_push;

verus! {

/// Whether `(x, y)` is one of the outline points.
pub open spec fn on_outline(outline: Seq<(int, int)>, x: int, y: int) -> bool {
    exists|i: int| 0 <= i < outline.len() && outline[i] == (x, y)
}

/// Whether `(x, y)` is an outline point lying on the canvas.
pub open spec fn on_canvas_outline(outline: Seq<(int, int)>, w: int, h: int, x: int, y: int) -> bool {
    0 <= x < w && 0 <= y < h && on_outline(outline, x, y)
}

/// How many horizontal outline runs begin at a column in `0..=x` of row
/// `y`: a run begins where an outline pixel has no outline pixel to its
/// left.
pub open spec fn run_starts(outline: Seq<(int, int)>, w: int, h: int, y: int, x: int) -> int
    decreases x + 1,
{
    if x < 0 {
        0
    } else {
        run_starts(outline, w, h, y, x - 1)
            + if on_canvas_outline(outline, w, h, x, y) && !on_canvas_outline(outline, w, h, x - 1, y) {
                1int
            } else {
                0int
            }
    }
}

/// Whether some outline point lies on the canvas in row `y`, strictly to
/// the right of column `x`.
pub open spec fn outline_beyond(outline: Seq<(int, int)>, w: int, h: int, x: int, y: int) -> bool {
    exists|i: int| 0 <= i < outline.len()
        && outline[i].1 == y && x < outline[i].0 && outline[i].0 < w && 0 <= y < h
}

/// A canvas pixel is interior when it is not on the outline, an odd number
/// of outline runs begin at or before its column — the scanline has
/// crossed into the shape and not yet crossed out — and the outline
/// continues somewhere to its right, so an unclosed run never bleeds to
/// the canvas edge.
pub open spec fn inside_fill(outline: Seq<(int, int)>, w: int, h: int, x: int, y: int) -> bool {
    0 <= x < w && 0 <= y < h
        && !on_canvas_outline(outline, w, h, x, y)
        && run_starts(outline, w, h, y, x) % 2 == 1
        && outline_beyond(outline, w, h, x, y)
}

/// The interior points of row `y` with column below `x`, left to right.
pub open spec fn row_fill(outline: Seq<(int, int)>, w: int, h: int, y: int, x: int) -> Seq<(int, int)>
    decreases (if x > 0 { x } else { 0 }),
{
    if x <= 0 {
        Seq::empty()
    } else {
        row_fill(outline, w, h, y, x - 1)
            + if inside_fill(outline, w, h, x - 1, y) { seq![(x - 1, y)] } else { Seq::empty() }
    }
}

/// The interior points of the rows below `y`, top to bottom.
pub open spec fn fill_rows(outline: Seq<(int, int)>, w: int, h: int, y: int) -> Seq<(int, int)>
    decreases (if y > 0 { y } else { 0 }),
{
    if y <= 0 {
        Seq::empty()
    } else {
        fill_rows(outline, w, h, y - 1) + row_fill(outline, w, h, y - 1, w)
    }
}

/// All interior points of the outline on a `w` by `h` canvas.
pub open spec fn fill_points(outline: Seq<(int, int)>, w: int, h: int) -> Seq<(int, int)> {
    fill_rows(outline, w, h, h)
}

proof fn lemma_run_starts_empty(outline: Seq<(int, int)>, w: int, h: int, y: int, x: int)
    requires
        outline.len() == 0,
    ensures
        run_starts(outline, w, h, y, x) == 0,
    decreases x + 1,
{
    if x >= 0 {
        lemma_run_starts_empty(outline, w, h, y, x - 1);
    }
}

proof fn lemma_row_fill_empty(outline: Seq<(int, int)>, w: int, h: int, y: int, x: int)
    requires
        outline.len() == 0,
    ensures
        row_fill(outline, w, h, y, x) == Seq::<(int, int)>::empty(),
    decreases (if x > 0 { x } else { 0 }),
{
    if x > 0 {
        lemma_row_fill_empty(outline, w, h, y, x - 1);
        lemma_run_starts_empty(outline, w, h, y, x - 1);
        assert(row_fill(outline, w, h, y, x) =~= Seq::<(int, int)>::empty());
    }
}

proof fn lemma_fill_rows_empty(outline: Seq<(int, int)>, w: int, h: int, y: int)
    requires
        outline.len() == 0,
    ensures
        fill_rows(outline, w, h, y) == Seq::<(int, int)>::empty(),
    decreases (if y > 0 { y } else { 0 }),
{
    if y > 0 {
        lemma_fill_rows_empty(outline, w, h, y - 1);
        lemma_row_fill_empty(outline, w, h, y - 1, w);
        assert(fill_rows(outline, w, h, y) =~= Seq::<(int, int)>::empty());
    }
}

/// An empty outline has no usable seeds: the fill of an empty outline is
/// empty, on any canvas.
pub proof fn lemma_fill_empty_outline(outline: Seq<(int, int)>, w: int, h: int)
    requires
        outline.len() == 0,
    ensures
        fill_points(outline, w, h) == Seq::<(int, int)>::empty(),
{
    lemma_fill_rows_empty(outline, w, h, h);
}

proof fn lemma_fill_row_interior(outline: Seq<(int, int)>, w: int, h: int, y: int, x: int)
    ensures
        forall|i: int| 0 <= i < row_fill(outline, w, h, y, x).len() ==> {
            let p = #[trigger] row_fill(outline, w, h, y, x)[i];
            inside_fill(outline, w, h, p.0, p.1)
        },
    decreases (if x > 0 { x } else { 0 }),
{
    if x > 0 {
        lemma_fill_row_interior(outline, w, h, y, x - 1);
        let s = row_fill(outline, w, h, y, x);
        let a = row_fill(outline, w, h, y, x - 1);
        assert forall|i: int| 0 <= i < s.len() implies {
            let p = #[trigger] s[i];
            inside_fill(outline, w, h, p.0, p.1)
        } by {
            if i < a.len() {
                assert(s[i] == a[i]);
            } else {
                assert(inside_fill(outline, w, h, x - 1, y));
                assert(s[i] == (x - 1, y));
            }
        }
    }
}

proof fn lemma_fill_rows_interior(outline: Seq<(int, int)>, w: int, h: int, y: int)
    ensures
        forall|i: int| 0 <= i < fill_rows(outline, w, h, y).len() ==> {
            let p = #[trigger] fill_rows(outline, w, h, y)[i];
            inside_fill(outline, w, h, p.0, p.1)
        },
    decreases (if y > 0 { y } else { 0 }),
{
    if y > 0 {
        lemma_fill_rows_interior(outline, w, h, y - 1);
        lemma_fill_row_interior(outline, w, h, y - 1, w);
        let s = fill_rows(outline, w, h, y);
        let a = fill_rows(outline, w, h, y - 1);
        let b = row_fill(outline, w, h, y - 1, w);
        assert forall|i: int| 0 <= i < s.len() implies {
            let p = #[trigger] s[i];
            inside_fill(outline, w, h, p.0, p.1)
        } by {
            if i < a.len() {
                assert(s[i] == a[i]);
            } else {
                assert(s[i] == b[i - a.len()]);
            }
        }
    }
}

/// Every fill point lies on the canvas, off the outline, and behind an odd
/// number of outline-run crossings: the scanline fill never paints over the
/// outline and never leaves the canvas.
pub proof fn lemma_fill_points_interior(outline: Seq<(int, int)>, w: int, h: int)
    ensures
        forall|i: int| 0 <= i < fill_points(outline, w, h).len() ==> {
            let p = #[trigger] fill_points(outline, w, h)[i];
            inside_fill(outline, w, h, p.0, p.1)
        },
{
    lemma_fill_rows_interior(outline, w, h, h);
}

/// Whether `(x, y)` is an outline point lying on the canvas.
fn outline_contains(outline: &Vec<PixelCoord>, w: i32, h: i32, x: i32, y: i32) -> (r: bool)
    ensures
        r == on_canvas_outline(view_points(outline@), w as int, h as int, x as int, y as int),
{
    if x < 0 || x >= w || y < 0 || y >= h {
        return false;
    }
    let ghost o = view_points(outline@);
    let mut i: usize = 0;
    while i < outline.len()
        invariant
            0 <= i <= outline.len(),
            0 <= x < w,
            0 <= y < h,
            o == view_points(outline@),
            forall|j: int| 0 <= j < i ==> o[j] != (x as int, y as int),
        decreases outline.len() - i,
    {
        let p = outline[i];
        if p.0 == x && p.1 == y {
            proof {
                assert(o[i as int] == (p.0 as int, p.1 as int));
                assert(o[i as int] == (x as int, y as int));
                assert(on_outline(o, x as int, y as int));
            }
            return true;
        }
        proof {
            assert(o[i as int] == (p.0 as int, p.1 as int));
        }
        i = i + 1;
    }
    proof {
        assert(!on_outline(o, x as int, y as int));
    }
    false
}

/// Whether the outline continues on the canvas in row `y`, to the right of
/// column `x`.
fn outline_right(outline: &Vec<PixelCoord>, w: i32, h: i32, x: i32, y: i32) -> (r: bool)
    ensures
        r == outline_beyond(view_points(outline@), w as int, h as int, x as int, y as int),
{
    if y < 0 || y >= h {
        return false;
    }
    let ghost o = view_points(outline@);
    let mut i: usize = 0;
    while i < outline.len()
        invariant
            0 <= i <= outline.len(),
            0 <= y < h,
            o == view_points(outline@),
            forall|j: int| 0 <= j < i
                ==> !(o[j].1 == y as int && (x as int) < o[j].0 && o[j].0 < w as int),
        decreases outline.len() - i,
    {
        let p = outline[i];
        proof {
            assert(o[i as int] == (p.0 as int, p.1 as int));
        }
        if p.1 == y && x < p.0 && p.0 < w {
            return true;
        }
        i = i + 1;
    }
    false
}

/// Writes the interior pixels enclosed by `outline` on a canvas of the
/// given bounds into `relleno`: a scanline walk that fills between
/// alternating outline runs of each row. An outline with no usable points
/// yields no fill points; the outline itself is never written.
pub fn flood_fill(outline: &Vec<PixelCoord>, bounds: PixelCoord, relleno: &mut Vec<PixelCoord>)
    requires
        bounds.0 >= 0,
        bounds.1 >= 0,
    ensures
        view_points(final(relleno)@) == view_points(old(relleno)@)
            + fill_points(view_points(outline@), bounds.0 as int, bounds.1 as int),
{
    let (w, h) = bounds;
    let ghost o = view_points(outline@);

    if outline.len() == 0 {
        proof {
            lemma_fill_empty_outline(o, w as int, h as int);
            assert(view_points(relleno@) =~= view_points(old(relleno)@)
                + fill_points(o, w as int, h as int));
        }
        return;
    }

    let mut y: i32 = 0;
    while y < h
        invariant
            0 <= y <= h,
            0 <= w && 0 <= h,
            o == view_points(outline@),
            view_points(relleno@) == view_points(old(relleno)@)
                + fill_rows(o, w as int, h as int, y as int),
        decreases h - y,
    {
        let mut x: i32 = 0;
        let mut parity: bool = false;
        let mut prev_on: bool = false;
        proof {
            assert(run_starts(o, w as int, h as int, y as int, -1) == 0);
            assert(row_fill(o, w as int, h as int, y as int, 0)
                == Seq::<(int, int)>::empty());
            assert(view_points(relleno@) =~= view_points(old(relleno)@)
                + fill_rows(o, w as int, h as int, y as int)
                + row_fill(o, w as int, h as int, y as int, 0));
        }
        while x < w
            invariant
                0 <= x <= w,
                0 <= y < h,
                0 <= w && 0 <= h,
                o == view_points(outline@),
                prev_on == on_canvas_outline(o, w as int, h as int, x as int - 1, y as int),
                parity == (run_starts(o, w as int, h as int, y as int, x as int - 1) % 2 == 1),
                view_points(relleno@) == view_points(old(relleno)@)
                    + fill_rows(o, w as int, h as int, y as int)
                    + row_fill(o, w as int, h as int, y as int, x as int),
            decreases w - x,
        {
            let cur_on = outline_contains(outline, w, h, x, y);
            if cur_on && !prev_on {
                parity = !parity;
            }
            proof {
                assert(run_starts(o, w as int, h as int, y as int, x as int)
                    == run_starts(o, w as int, h as int, y as int, x as int - 1)
                        + if on_canvas_outline(o, w as int, h as int, x as int, y as int)
                            && !on_canvas_outline(o, w as int, h as int, x as int - 1, y as int) {
                            1int
                        } else {
                            0int
                        });
            }
            let ghost pre = relleno@;
            if !cur_on && parity && outline_right(outline, w, h, x, y) {
                relleno.push((x, y));
                proof {
                    lemma_view_points_push(pre, (x, y));
                }
            }
            proof {
                assert(row_fill(o, w as int, h as int, y as int, x as int + 1)
                    == row_fill(o, w as int, h as int, y as int, x as int)
                        + if inside_fill(o, w as int, h as int, x as int, y as int) {
                            seq![(x as int, y as int)]
                        } else {
                            Seq::<(int, int)>::empty()
                        });
                assert(view_points(relleno@) =~= view_points(old(relleno)@)
                    + fill_rows(o, w as int, h as int, y as int)
                    + row_fill(o, w as int, h as int, y as int, x as int + 1));
            }
            prev_on = cur_on;
            x = x + 1;
        }
        proof {
            assert(fill_rows(o, w as int, h as int, y as int + 1)
                == fill_rows(o, w as int, h as int, y as int)
                    + row_fill(o, w as int, h as int, y as int, w as int));
            assert(view_points(relleno@) =~= view_points(old(relleno)@)
                + fill_rows(o, w as int, h as int, y as int + 1));
        }
        y = y + 1;
    }
}

} // verus!
