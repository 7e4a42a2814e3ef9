//! Ellipse rasterization: the two-region midpoint ellipse algorithm.
use vstd::prelude::*;

use crate::coord::{coord_ok, view_points, PixelCoord};
use vstd::arithmetic::div_mod::{lemma_fundamental_div_mod, lemma_mod_bound};

verus! {

/// Largest radius the ellipse rasterizer accepts: big enough for any
/// screen, small enough that every decision value fits a 64-bit integer.
pub const ELLIPSE_RADIUS_LIMIT: i32 = 0x4000;

/// The four symmetric boundary points derived from one first-quadrant point.
pub open spec fn ellipse_quad(cx: int, cy: int, x: int, y: int) -> Seq<(int, int)> {
    seq![(cx + x, cy + y), (cx - x, cy + y), (cx + x, cy - y), (cx - x, cy - y)]
}

/// `v4 / 4` rounded with "add one half, then truncate toward zero":
/// the documented rounding of the decision-value recomputations, applied
/// to a value carried as four times its mathematical magnitude.
pub open spec fn round_quarter(v4: int) -> int {
    if v4 + 2 >= 0 {
        (v4 + 2) / 4
    } else {
        -((-(v4 + 2)) / 4)
    }
}

/// Rounding a quarter-integer this way perturbs `v4` by a bounded error.
pub proof fn lemma_round_quarter_err(v4: int)
    ensures
        -1 <= 4 * round_quarter(v4) - v4 <= 5,
{
    if v4 + 2 >= 0 {
        lemma_fundamental_div_mod(v4 + 2, 4);
        lemma_mod_bound(v4 + 2, 4);
    } else {
        lemma_fundamental_div_mod(-(v4 + 2), 4);
        lemma_mod_bound(-(v4 + 2), 4);
    }
}

/// Points of the second region: step `y` down to the axis, letting the
/// decision value choose when `x` also steps.
pub open spec fn ellipse_region2(cx: int, cy: int, x: int, y: int, px: int, py: int, p: int, rx2: int, ry2: int) -> Seq<(int, int)>
    decreases (if y > 0 { y } else { 0 }),
{
    if y > 0 {
        let yn = y - 1;
        let pyn = py - 2 * rx2;
        let xn = if p > 0 { x } else { x + 1 };
        let pxn = if p > 0 { px } else { px + 2 * ry2 };
        let pn = if p > 0 { p + rx2 - pyn } else { p + rx2 - pyn + pxn };
        ellipse_quad(cx, cy, xn, yn) + ellipse_region2(cx, cy, xn, yn, pxn, pyn, pn, rx2, ry2)
    } else {
        Seq::empty()
    }
}

/// Entry into the second region: the decision value is recomputed from the
/// boundary state with round-half-up semantics.
pub open spec fn ellipse_region2_entry(cx: int, cy: int, x: int, y: int, px: int, py: int, rx2: int, ry2: int) -> Seq<(int, int)> {
    let p = round_quarter(ry2 * (2 * x + 1) * (2 * x + 1) + 4 * rx2 * (y - 1) * (y - 1) - 4 * rx2 * ry2);
    ellipse_region2(cx, cy, x, y, px, py, p, rx2, ry2)
}

/// Points of the first region followed by all of the second: step `x`
/// while the slope is shallow, then hand the state to region two.
pub open spec fn ellipse_region1(cx: int, cy: int, x: int, y: int, px: int, py: int, p: int, rx2: int, ry2: int) -> Seq<(int, int)>
    decreases (if py - px > 0 { py - px } else { 0 }),
{
    if px < py && ry2 > 0 && rx2 >= 0 {
        let xn = x + 1;
        let pxn = px + 2 * ry2;
        let yn = if p < 0 { y } else { y - 1 };
        let pyn = if p < 0 { py } else { py - 2 * rx2 };
        let pn = if p < 0 { p + ry2 + pxn } else { p + ry2 + pxn - pyn };
        ellipse_quad(cx, cy, xn, yn) + ellipse_region1(cx, cy, xn, yn, pxn, pyn, pn, rx2, ry2)
    } else {
        ellipse_region2_entry(cx, cy, x, y, px, py, rx2, ry2)
    }
}

/// All boundary points of the midpoint ellipse with center `(cx, cy)` and
/// radii `rx`, `ry`, in emission order, duplicates at the axis crossings
/// included.
pub open spec fn ellipse_points(cx: int, cy: int, rx: int, ry: int) -> Seq<(int, int)> {
    let rx2 = rx * rx;
    let ry2 = ry * ry;
    let p1 = round_quarter(4 * ry2 - 4 * rx2 * ry + rx2);
    ellipse_quad(cx, cy, 0, ry) + ellipse_region1(cx, cy, 0, ry, 0, 2 * rx2 * ry, p1, rx2, ry2)
}

/// The relation the region-one decision value keeps to the traced point:
/// four times the ideal midpoint test value, off by the constant rounding
/// error `e` of the initial recomputation.
pub open spec fn r1_decision(x: int, y: int, p: int, rx2: int, ry2: int, e: int) -> bool {
    4 * p == 4 * ry2 * (x + 1) * (x + 1) + rx2 * (2 * y - 1) * (2 * y - 1) - 4 * rx2 * ry2 + e
}

/// The same relation for the region-two decision value.
pub open spec fn r2_decision(x: int, y: int, p: int, rx2: int, ry2: int, e: int) -> bool {
    4 * p == ry2 * (2 * x + 1) * (2 * x + 1) + 4 * rx2 * (y - 1) * (y - 1) - 4 * rx2 * ry2 + e
}

/// Membership of a point in an emitted point sequence.
pub open spec fn seq_contains(s: Seq<(int, int)>, p: (int, int)) -> bool {
    exists|i: int| 0 <= i < s.len() && s[i] == p
}

/// The point set is closed under reflection about the vertical and the
/// horizontal axis through `(cx, cy)`.
pub open spec fn sym_closed(s: Seq<(int, int)>, cx: int, cy: int) -> bool {
    forall|q: (int, int)| #[trigger] seq_contains(s, q)
        ==> seq_contains(s, (2 * cx - q.0, q.1)) && seq_contains(s, (q.0, 2 * cy - q.1))
}

proof fn lemma_contains_concat(a: Seq<(int, int)>, b: Seq<(int, int)>, p: (int, int))
    ensures
        seq_contains(a + b, p) <==> (seq_contains(a, p) || seq_contains(b, p)),
{
    if seq_contains(a + b, p) {
        let i = choose|i: int| 0 <= i < (a + b).len() && (a + b)[i] == p;
        if i < a.len() {
            assert(a[i] == p);
        } else {
            assert(b[i - a.len()] == p);
        }
    }
    if seq_contains(a, p) {
        let i = choose|i: int| 0 <= i < a.len() && a[i] == p;
        assert((a + b)[i] == p);
    }
    if seq_contains(b, p) {
        let i = choose|i: int| 0 <= i < b.len() && b[i] == p;
        assert((a + b)[a.len() + i] == p);
    }
}

proof fn lemma_sym_closed_concat(a: Seq<(int, int)>, b: Seq<(int, int)>, cx: int, cy: int)
    requires
        sym_closed(a, cx, cy),
        sym_closed(b, cx, cy),
    ensures
        sym_closed(a + b, cx, cy),
{
    assert forall|q: (int, int)| #[trigger] seq_contains(a + b, q)
        implies seq_contains(a + b, (2 * cx - q.0, q.1)) && seq_contains(a + b, (q.0, 2 * cy - q.1)) by {
        lemma_contains_concat(a, b, q);
        lemma_contains_concat(a, b, (2 * cx - q.0, q.1));
        lemma_contains_concat(a, b, (q.0, 2 * cy - q.1));
    }
}

proof fn lemma_quad_sym(cx: int, cy: int, x: int, y: int)
    ensures
        sym_closed(ellipse_quad(cx, cy, x, y), cx, cy),
{
    let s = ellipse_quad(cx, cy, x, y);
    assert forall|q: (int, int)| #[trigger] seq_contains(s, q)
        implies seq_contains(s, (2 * cx - q.0, q.1)) && seq_contains(s, (q.0, 2 * cy - q.1)) by {
        let i = choose|i: int| 0 <= i < s.len() && s[i] == q;
        if i == 0 {
            assert(s[1] == (2 * cx - q.0, q.1));
            assert(s[2] == (q.0, 2 * cy - q.1));
        } else if i == 1 {
            assert(s[0] == (2 * cx - q.0, q.1));
            assert(s[3] == (q.0, 2 * cy - q.1));
        } else if i == 2 {
            assert(s[3] == (2 * cx - q.0, q.1));
            assert(s[0] == (q.0, 2 * cy - q.1));
        } else {
            assert(s[2] == (2 * cx - q.0, q.1));
            assert(s[1] == (q.0, 2 * cy - q.1));
        }
    }
}

proof fn lemma_empty_sym(cx: int, cy: int)
    ensures
        sym_closed(Seq::<(int, int)>::empty(), cx, cy),
{
}

proof fn lemma_region2_sym(cx: int, cy: int, x: int, y: int, px: int, py: int, p: int, rx2: int, ry2: int)
    ensures
        sym_closed(ellipse_region2(cx, cy, x, y, px, py, p, rx2, ry2), cx, cy),
    decreases (if y > 0 { y } else { 0 }),
{
    if y > 0 {
        let yn = y - 1;
        let pyn = py - 2 * rx2;
        let xn = if p > 0 { x } else { x + 1 };
        let pxn = if p > 0 { px } else { px + 2 * ry2 };
        let pn = if p > 0 { p + rx2 - pyn } else { p + rx2 - pyn + pxn };
        lemma_quad_sym(cx, cy, xn, yn);
        lemma_region2_sym(cx, cy, xn, yn, pxn, pyn, pn, rx2, ry2);
        lemma_sym_closed_concat(ellipse_quad(cx, cy, xn, yn),
            ellipse_region2(cx, cy, xn, yn, pxn, pyn, pn, rx2, ry2), cx, cy);
    } else {
        lemma_empty_sym(cx, cy);
    }
}

proof fn lemma_region1_sym(cx: int, cy: int, x: int, y: int, px: int, py: int, p: int, rx2: int, ry2: int)
    ensures
        sym_closed(ellipse_region1(cx, cy, x, y, px, py, p, rx2, ry2), cx, cy),
    decreases (if py - px > 0 { py - px } else { 0 }),
{
    if px < py && ry2 > 0 && rx2 >= 0 {
        let xn = x + 1;
        let pxn = px + 2 * ry2;
        let yn = if p < 0 { y } else { y - 1 };
        let pyn = if p < 0 { py } else { py - 2 * rx2 };
        let pn = if p < 0 { p + ry2 + pxn } else { p + ry2 + pxn - pyn };
        lemma_quad_sym(cx, cy, xn, yn);
        lemma_region1_sym(cx, cy, xn, yn, pxn, pyn, pn, rx2, ry2);
        lemma_sym_closed_concat(ellipse_quad(cx, cy, xn, yn),
            ellipse_region1(cx, cy, xn, yn, pxn, pyn, pn, rx2, ry2), cx, cy);
    } else {
        let p2 = round_quarter(ry2 * (2 * x + 1) * (2 * x + 1) + 4 * rx2 * (y - 1) * (y - 1) - 4 * rx2 * ry2);
        lemma_region2_sym(cx, cy, x, y, px, py, p2, rx2, ry2);
    }
}

/// The rasterized ellipse is symmetric about its center: reflecting any
/// emitted point across the vertical or the horizontal axis through the
/// center yields another emitted point.
pub proof fn lemma_ellipse_symmetry(cx: int, cy: int, rx: int, ry: int)
    ensures
        sym_closed(ellipse_points(cx, cy, rx, ry), cx, cy),
{
    let rx2 = rx * rx;
    let ry2 = ry * ry;
    let p1 = round_quarter(4 * ry2 - 4 * rx2 * ry + rx2);
    lemma_quad_sym(cx, cy, 0, ry);
    lemma_region1_sym(cx, cy, 0, ry, 0, 2 * rx2 * ry, p1, rx2, ry2);
    lemma_sym_closed_concat(ellipse_quad(cx, cy, 0, ry),
        ellipse_region1(cx, cy, 0, ry, 0, 2 * rx2 * ry, p1, rx2, ry2), cx, cy);
}

/// The walk starts at the top of the vertical semi-axis, so the two
/// vertical extremes of the ellipse are always emitted. (The horizontal
/// extremes are where the second region ends; that they are reached
/// exactly is not stated here.)
pub proof fn lemma_ellipse_contains_vertical_extremes(cx: int, cy: int, rx: int, ry: int)
    ensures
        seq_contains(ellipse_points(cx, cy, rx, ry), (cx, cy + ry)),
        seq_contains(ellipse_points(cx, cy, rx, ry), (cx, cy - ry)),
{
    let s = ellipse_points(cx, cy, rx, ry);
    assert(s[0] == (cx, cy + ry));
    assert(s[2] == (cx, cy - ry));
}

proof fn lemma_region2_len(cx: int, cy: int, x: int, y: int, px: int, py: int, p: int, rx2: int, ry2: int)
    ensures
        ellipse_region2(cx, cy, x, y, px, py, p, rx2, ry2).len() % 4 == 0,
    decreases (if y > 0 { y } else { 0 }),
{
    if y > 0 {
        let yn = y - 1;
        let pyn = py - 2 * rx2;
        let xn = if p > 0 { x } else { x + 1 };
        let pxn = if p > 0 { px } else { px + 2 * ry2 };
        let pn = if p > 0 { p + rx2 - pyn } else { p + rx2 - pyn + pxn };
        lemma_region2_len(cx, cy, xn, yn, pxn, pyn, pn, rx2, ry2);
    }
}

proof fn lemma_region1_len(cx: int, cy: int, x: int, y: int, px: int, py: int, p: int, rx2: int, ry2: int)
    ensures
        ellipse_region1(cx, cy, x, y, px, py, p, rx2, ry2).len() % 4 == 0,
    decreases (if py - px > 0 { py - px } else { 0 }),
{
    if px < py && ry2 > 0 && rx2 >= 0 {
        let xn = x + 1;
        let pxn = px + 2 * ry2;
        let yn = if p < 0 { y } else { y - 1 };
        let pyn = if p < 0 { py } else { py - 2 * rx2 };
        let pn = if p < 0 { p + ry2 + pxn } else { p + ry2 + pxn - pyn };
        lemma_region1_len(cx, cy, xn, yn, pxn, pyn, pn, rx2, ry2);
    } else {
        let p2 = round_quarter(ry2 * (2 * x + 1) * (2 * x + 1) + 4 * rx2 * (y - 1) * (y - 1) - 4 * rx2 * ry2);
        lemma_region2_len(cx, cy, x, y, px, py, p2, rx2, ry2);
    }
}

/// The midpoint ellipse walk emits four symmetric points per step: the
/// total point count is a multiple of four, and at least one full
/// quadruple is emitted.
pub proof fn lemma_ellipse_points_count(cx: int, cy: int, rx: int, ry: int)
    ensures
        ellipse_points(cx, cy, rx, ry).len() % 4 == 0,
        ellipse_points(cx, cy, rx, ry).len() >= 4,
{
    let rx2 = rx * rx;
    let ry2 = ry * ry;
    let p1 = round_quarter(4 * ry2 - 4 * rx2 * ry + rx2);
    lemma_region1_len(cx, cy, 0, ry, 0, 2 * rx2 * ry, p1, rx2, ry2);
}

fn round_quarter_exec(v4: i64) -> (r: i64)
    requires
        -0x4000_0000_0000_0000 <= v4 <= 0x4000_0000_0000_0000,
    ensures
        r as int == round_quarter(v4 as int),
{
    if v4 + 2 >= 0 {
        (((v4 + 2) as u64) / 4) as i64
    } else {
        let u: u64 = (-(v4 + 2)) as u64;
        proof {
            lemma_fundamental_div_mod(u as int, 4);
            lemma_mod_bound(u as int, 4);
        }
        -((u / 4) as i64)
    }
}

fn push_quad(puntos: &mut Vec<PixelCoord>, cx: i32, cy: i32, x: i64, y: i64)
    requires
        coord_ok(cx as int),
        coord_ok(cy as int),
        -0x1000_0000 <= x as int <= 0x1000_0000,
        -0x1000_0000 <= y as int <= 0x1000_0000,
    ensures
        view_points(final(puntos)@) == view_points(old(puntos)@)
            + ellipse_quad(cx as int, cy as int, x as int, y as int),
{
    puntos.push(((cx as i64 + x) as i32, (cy as i64 + y) as i32));
    puntos.push(((cx as i64 - x) as i32, (cy as i64 + y) as i32));
    puntos.push(((cx as i64 + x) as i32, (cy as i64 - y) as i32));
    puntos.push(((cx as i64 - x) as i32, (cy as i64 - y) as i32));
    proof {
        assert(view_points(puntos@) =~= view_points(old(puntos)@)
            + ellipse_quad(cx as int, cy as int, x as int, y as int));
    }
}

/// Writes the boundary of the ellipse with the given center and radii into
/// `puntos` using the two-region midpoint ellipse algorithm.
pub fn write_ellipse_middle_point(centro: PixelCoord, rx: i32, ry: i32, puntos: &mut Vec<PixelCoord>)
    requires
        0 <= rx <= ELLIPSE_RADIUS_LIMIT,
        0 <= ry <= ELLIPSE_RADIUS_LIMIT,
        coord_ok(centro.0 as int),
        coord_ok(centro.1 as int),
    ensures
        view_points(final(puntos)@) == view_points(old(puntos)@)
            + ellipse_points(centro.0 as int, centro.1 as int, rx as int, ry as int),
{
    let (cx, cy) = (centro.0, centro.1);
    proof {
        assert(0 <= rx as int * rx as int <= 0x1000_0000) by (nonlinear_arith)
            requires 0 <= rx <= 0x4000;
        assert(0 <= ry as int * ry as int <= 0x1000_0000) by (nonlinear_arith)
            requires 0 <= ry <= 0x4000;
    }
    let rx2: i64 = (rx as i64) * (rx as i64);
    let ry2: i64 = (ry as i64) * (ry as i64);
    let two_rx2: i64 = 2 * rx2;
    let two_ry2: i64 = 2 * ry2;
    let ghost full = ellipse_points(cx as int, cy as int, rx as int, ry as int);

    let mut x: i64 = 0;
    let mut y: i64 = ry as i64;

    push_quad(puntos, cx, cy, x, y);

    let mut px: i64 = 0;
    proof {
        assert(0 <= 2 * (rx2 as int) * (ry as int) <= 0x20_0000_0000_0000) by (nonlinear_arith)
            requires 0 <= rx2 <= 0x1000_0000 && 0 <= ry <= 0x4000;
        assert(0 <= 4 * (rx2 as int) * (ry as int) <= 0x40_0000_0000_0000) by (nonlinear_arith)
            requires 0 <= rx2 <= 0x1000_0000 && 0 <= ry <= 0x4000;
    }
    let mut py: i64 = two_rx2 * y;
    let v4_1: i64 = 4 * ry2 - 4 * rx2 * (ry as i64) + rx2;
    let mut p: i64 = round_quarter_exec(v4_1);
    let ghost e1 = 4 * (p as int) - v4_1 as int;
    proof {
        lemma_round_quarter_err(v4_1 as int);
        assert(r1_decision(0, ry as int, p as int, rx2 as int, ry2 as int, e1)) by (nonlinear_arith)
            requires
                4 * (p as int) == 4 * (ry2 as int) - 4 * (rx2 as int) * (ry as int) + rx2 as int + e1,
                rx2 as int == (rx as int) * (rx as int),
                ry2 as int == (ry as int) * (ry as int);
        assert(full == ellipse_quad(cx as int, cy as int, 0, ry as int)
            + ellipse_region1(cx as int, cy as int, 0, ry as int, 0, 2 * (rx2 as int) * (ry as int),
                p as int, rx2 as int, ry2 as int));
    }

    // Region one: advance x while the boundary slope stays shallow.
    while px < py
        invariant
            0 <= rx <= ELLIPSE_RADIUS_LIMIT,
            0 <= ry <= ELLIPSE_RADIUS_LIMIT,
            coord_ok(cx as int),
            coord_ok(cy as int),
            rx2 == rx as int * rx as int,
            ry2 == ry as int * ry as int,
            0 <= rx2 <= 0x1000_0000,
            0 <= ry2 <= 0x1000_0000,
            two_rx2 == 2 * rx2,
            two_ry2 == 2 * ry2,
            0 <= y <= ry as int,
            0 <= x,
            x as int <= rx as int + (ry as int - y as int) + 1,
            px == 2 * (ry2 as int) * (x as int),
            py == 2 * (rx2 as int) * (y as int),
            0 <= px <= 0x20_0000_0000_0000,
            0 <= py <= 0x20_0000_0000_0000,
            -1 <= e1 <= 5,
            r1_decision(x as int, y as int, p as int, rx2 as int, ry2 as int, e1),
            view_points(puntos@) + ellipse_region1(cx as int, cy as int, x as int, y as int,
                px as int, py as int, p as int, rx2 as int, ry2 as int)
                == view_points(old(puntos)@) + full,
        decreases (if py > px { py - px } else { 0int }),
    {
        let ghost (gx, gy, gpx, gpy, gp) = (x as int, y as int, px as int, py as int, p as int);
        proof {
            // The loop can only run with a positive vertical radius.
            assert(ry2 > 0) by (nonlinear_arith)
                requires
                    px < py,
                    px == 2 * (ry2 as int) * (x as int),
                    py == 2 * (rx2 as int) * (y as int),
                    0 <= x,
                    0 <= y <= ry as int,
                    rx2 == rx as int * rx as int,
                    ry2 == ry as int * ry as int,
                    0 <= ry;
            assert(y >= 1) by (nonlinear_arith)
                requires
                    px < py,
                    px == 2 * (ry2 as int) * (x as int),
                    py == 2 * (rx2 as int) * (y as int),
                    0 <= rx2 && 0 <= ry2,
                    0 <= x && 0 <= y;
            // Bound the decision value so the updates stay inside i64.
            assert(-0x1000_0000_0000_0000 <= gp <= 0x1000_0000_0000_0000) by (nonlinear_arith)
                requires
                    r1_decision(gx, gy, gp, rx2 as int, ry2 as int, e1),
                    -1 <= e1 <= 5,
                    0 <= gx <= 0x8002,
                    0 <= gy <= 0x4000,
                    0 <= rx2 <= 0x1000_0000,
                    0 <= ry2 <= 0x1000_0000;
            // While the decision value is negative, x has not passed rx.
            if gp < 0 {
                assert(gx < rx as int) by (nonlinear_arith)
                    requires
                        r1_decision(gx, gy, gp, rx2 as int, ry2 as int, e1),
                        gp < 0,
                        -1 <= e1 <= 5,
                        rx2 == rx as int * rx as int,
                        ry2 == ry as int * ry as int,
                        ry2 > 0,
                        0 <= rx,
                        0 <= gx;
            }
        }
        x = x + 1;
        px = px + two_ry2;
        if p < 0 {
            p = p + ry2 + px;
            proof {
                assert(r1_decision(x as int, y as int, p as int, rx2 as int, ry2 as int, e1))
                    by (nonlinear_arith)
                    requires
                        r1_decision(gx, gy, gp, rx2 as int, ry2 as int, e1),
                        x as int == gx + 1,
                        y as int == gy,
                        p as int == gp + ry2 as int + (gpx + 2 * (ry2 as int)),
                        px as int == gpx + 2 * (ry2 as int),
                        gpx == 2 * (ry2 as int) * gx;
            }
        } else {
            y = y - 1;
            py = py - two_rx2;
            p = p + ry2 + px - py;
            proof {
                assert(r1_decision(x as int, y as int, p as int, rx2 as int, ry2 as int, e1))
                    by (nonlinear_arith)
                    requires
                        r1_decision(gx, gy, gp, rx2 as int, ry2 as int, e1),
                        x as int == gx + 1,
                        y as int == gy - 1,
                        p as int == gp + ry2 as int + (gpx + 2 * (ry2 as int)) - (gpy - 2 * (rx2 as int)),
                        px as int == gpx + 2 * (ry2 as int),
                        py as int == gpy - 2 * (rx2 as int),
                        gpx == 2 * (ry2 as int) * gx,
                        gpy == 2 * (rx2 as int) * gy;
            }
        }
        push_quad(puntos, cx, cy, x, y);
        proof {
            assert(px == 2 * (ry2 as int) * (x as int)) by (nonlinear_arith)
                requires
                    px as int == gpx + 2 * (ry2 as int),
                    gpx == 2 * (ry2 as int) * gx,
                    x as int == gx + 1;
            if gp >= 0 {
                assert(py == 2 * (rx2 as int) * (y as int)) by (nonlinear_arith)
                    requires
                        py as int == gpy - 2 * (rx2 as int),
                        gpy == 2 * (rx2 as int) * gy,
                        y as int == gy - 1;
            }
            assert(0 <= px <= 0x20_0000_0000_0000) by (nonlinear_arith)
                requires
                    px == 2 * (ry2 as int) * (x as int),
                    0 <= ry2 <= 0x1000_0000,
                    0 <= x as int <= 0x8002;
            assert(0 <= py <= 0x20_0000_0000_0000) by (nonlinear_arith)
                requires
                    py == 2 * (rx2 as int) * (y as int),
                    0 <= rx2 <= 0x1000_0000,
                    0 <= y as int <= 0x4000;
            assert(ellipse_region1(cx as int, cy as int, gx, gy, gpx, gpy, gp, rx2 as int, ry2 as int)
                == ellipse_quad(cx as int, cy as int, x as int, y as int)
                    + ellipse_region1(cx as int, cy as int, x as int, y as int, px as int, py as int,
                        p as int, rx2 as int, ry2 as int));
            assert(view_points(puntos@) + ellipse_region1(cx as int, cy as int, x as int, y as int,
                px as int, py as int, p as int, rx2 as int, ry2 as int)
                =~= view_points(old(puntos)@) + full);
        }
    }

    let ghost (r2x, r2y) = (x as int, y as int);
    proof {
        assert(ellipse_region1(cx as int, cy as int, x as int, y as int, px as int, py as int,
            p as int, rx2 as int, ry2 as int)
            == ellipse_region2_entry(cx as int, cy as int, x as int, y as int, px as int, py as int,
                rx2 as int, ry2 as int));
    }

    // Region two: recompute the decision value at the boundary, then step y
    // down to the axis.
    let tx: i64 = 2 * x + 1;
    let ty: i64 = y - 1;
    proof {
        assert(1 <= tx <= 0x10003);
        assert(-1 <= ty <= 0x4000);
        assert(0 <= ry2 as int * (tx as int) <= 0x2000_0000_0000) by (nonlinear_arith)
            requires
                0 <= ry2 <= 0x1000_0000,
                1 <= tx <= 0x10003;
        assert(0 <= ry2 as int * (tx as int) * (tx as int) <= 0x1800_0000_0000_0000) by (nonlinear_arith)
            requires
                0 <= ry2 <= 0x1000_0000,
                1 <= tx <= 0x10003;
        assert(-0x2000_0000_0000 <= 4 * (rx2 as int) * (ty as int) <= 0x2000_0000_0000) by (nonlinear_arith)
            requires
                0 <= rx2 <= 0x1000_0000,
                -1 <= ty <= 0x4000;
        assert(0 <= 4 * (rx2 as int) * (ty as int) * (ty as int) <= 0x1000_0000_0000_0000) by (nonlinear_arith)
            requires
                0 <= rx2 <= 0x1000_0000,
                -1 <= ty <= 0x4000;
        assert(0 <= 4 * (rx2 as int) * (ry2 as int) <= 0x1000_0000_0000_0000) by (nonlinear_arith)
            requires
                0 <= rx2 <= 0x1000_0000,
                0 <= ry2 <= 0x1000_0000;
    }
    let v4_2: i64 = ry2 * tx * tx + 4 * rx2 * ty * ty - 4 * rx2 * ry2;
    let mut p2: i64 = round_quarter_exec(v4_2);
    let ghost e2 = 4 * (p2 as int) - v4_2 as int;
    proof {
        lemma_round_quarter_err(v4_2 as int);
        assert(r2_decision(x as int, y as int, p2 as int, rx2 as int, ry2 as int, e2));
        assert(ellipse_region2_entry(cx as int, cy as int, x as int, y as int, px as int, py as int,
            rx2 as int, ry2 as int)
            == ellipse_region2(cx as int, cy as int, x as int, y as int, px as int, py as int,
                p2 as int, rx2 as int, ry2 as int));
    }

    while y > 0
        invariant
            0 <= rx <= ELLIPSE_RADIUS_LIMIT,
            0 <= ry <= ELLIPSE_RADIUS_LIMIT,
            coord_ok(cx as int),
            coord_ok(cy as int),
            rx2 == rx as int * rx as int,
            ry2 == ry as int * ry as int,
            0 <= rx2 <= 0x1000_0000,
            0 <= ry2 <= 0x1000_0000,
            two_rx2 == 2 * rx2,
            two_ry2 == 2 * ry2,
            0 <= y <= ry as int,
            0 <= x,
            x as int + y as int <= r2x + r2y,
            r2x + r2y <= rx as int + 2 * (ry as int) + 1,
            px == 2 * (ry2 as int) * (x as int),
            py == 2 * (rx2 as int) * (y as int),
            0 <= px <= 0x20_0000_0000_0000,
            0 <= py <= 0x20_0000_0000_0000,
            -1 <= e2 <= 5,
            r2_decision(x as int, y as int, p2 as int, rx2 as int, ry2 as int, e2),
            view_points(puntos@) + ellipse_region2(cx as int, cy as int, x as int, y as int,
                px as int, py as int, p2 as int, rx2 as int, ry2 as int)
                == view_points(old(puntos)@) + full,
        decreases y,
    {
        let ghost (gx, gy, gpx, gpy, gp) = (x as int, y as int, px as int, py as int, p2 as int);
        proof {
            // Bound the decision value so the updates stay inside i64.
            assert(-0x2000_0000_0000_0000 <= gp <= 0x2000_0000_0000_0000) by (nonlinear_arith)
                requires
                    r2_decision(gx, gy, gp, rx2 as int, ry2 as int, e2),
                    -1 <= e2 <= 5,
                    0 <= gx <= 0xC002,
                    0 <= gy <= 0x4000,
                    0 <= rx2 <= 0x1000_0000,
                    0 <= ry2 <= 0x1000_0000;
        }
        y = y - 1;
        py = py - two_rx2;
        if p2 > 0 {
            p2 = p2 + rx2 - py;
            proof {
                assert(r2_decision(x as int, y as int, p2 as int, rx2 as int, ry2 as int, e2))
                    by (nonlinear_arith)
                    requires
                        r2_decision(gx, gy, gp, rx2 as int, ry2 as int, e2),
                        x as int == gx,
                        y as int == gy - 1,
                        p2 as int == gp + rx2 as int - (gpy - 2 * (rx2 as int)),
                        py as int == gpy - 2 * (rx2 as int),
                        gpy == 2 * (rx2 as int) * gy;
            }
        } else {
            x = x + 1;
            px = px + two_ry2;
            p2 = p2 + rx2 - py + px;
            proof {
                assert(r2_decision(x as int, y as int, p2 as int, rx2 as int, ry2 as int, e2))
                    by (nonlinear_arith)
                    requires
                        r2_decision(gx, gy, gp, rx2 as int, ry2 as int, e2),
                        x as int == gx + 1,
                        y as int == gy - 1,
                        p2 as int == gp + rx2 as int - (gpy - 2 * (rx2 as int)) + (gpx + 2 * (ry2 as int)),
                        px as int == gpx + 2 * (ry2 as int),
                        py as int == gpy - 2 * (rx2 as int),
                        gpx == 2 * (ry2 as int) * gx,
                        gpy == 2 * (rx2 as int) * gy;
                assert(px == 2 * (ry2 as int) * (x as int)) by (nonlinear_arith)
                    requires
                        px as int == gpx + 2 * (ry2 as int),
                        gpx == 2 * (ry2 as int) * gx,
                        x as int == gx + 1;
            }
        }
        proof {
            assert(py == 2 * (rx2 as int) * (y as int)) by (nonlinear_arith)
                requires
                    py as int == gpy - 2 * (rx2 as int),
                    gpy == 2 * (rx2 as int) * gy,
                    y as int == gy - 1;
            assert(0 <= px <= 0x20_0000_0000_0000) by (nonlinear_arith)
                requires
                    px == 2 * (ry2 as int) * (x as int),
                    0 <= ry2 <= 0x1000_0000,
                    0 <= x as int <= 0xC002;
            assert(0 <= py <= 0x20_0000_0000_0000) by (nonlinear_arith)
                requires
                    py == 2 * (rx2 as int) * (y as int),
                    0 <= rx2 <= 0x1000_0000,
                    0 <= y as int <= 0x4000;
        }
        push_quad(puntos, cx, cy, x, y);
        proof {
            assert(ellipse_region2(cx as int, cy as int, gx, gy, gpx, gpy, gp, rx2 as int, ry2 as int)
                == ellipse_quad(cx as int, cy as int, x as int, y as int)
                    + ellipse_region2(cx as int, cy as int, x as int, y as int, px as int, py as int,
                        p2 as int, rx2 as int, ry2 as int));
            assert(view_points(puntos@) + ellipse_region2(cx as int, cy as int, x as int, y as int,
                px as int, py as int, p2 as int, rx2 as int, ry2 as int)
                =~= view_points(old(puntos)@) + full);
        }
    }
    proof {
        assert(ellipse_region2(cx as int, cy as int, x as int, y as int, px as int, py as int,
            p2 as int, rx2 as int, ry2 as int) == Seq::<(int, int)>::empty());
        assert(view_points(puntos@) =~= view_points(old(puntos)@) + full);
    }
}

} // verus!
