//! Line rasterization: the DDA algorithm and the Bresenham family.
use vstd::prelude::*;

use crate::coord::{coord_ok, point_view, view_points, PixelCoord};
use crate::coord::lemma_view_points_push;
use vstd::arithmetic::div_mod::{
    lemma_basic_div, lemma_div_is_ordered, lemma_div_is_ordered_by_denominator,
    lemma_div_plus_one, lemma_div_pos_is_pos, lemma_fundamental_div_mod_converse,
};

verus! {

/// `num / den` rounded to the nearest integer, ties away from zero.
/// Meaningful for `den > 0`.
pub open spec fn rdiv(num: int, den: int) -> int {
    if num >= 0 {
        (2 * num + den) / (2 * den)
    } else {
        -((2 * (-num) + den) / (2 * den))
    }
}

/// Rounding is an odd function of the numerator.
pub proof fn lemma_rdiv_symm(num: int, den: int)
    requires
        0 < den,
    ensures
        rdiv(-num, den) == -rdiv(num, den),
{
    if num == 0 {
        assert(rdiv(0, den) == den / (2 * den));
        lemma_basic_div(den, 2 * den);
    }
}

/// Rounding an exact multiple of the denominator recovers the factor.
pub proof fn lemma_rdiv_exact(a: int, den: int)
    requires
        0 < den,
    ensures
        rdiv(a * den, den) == a,
{
    if a >= 0 {
        assert(a * den >= 0) by (nonlinear_arith)
            requires a >= 0 && den > 0;
        assert(2 * (a * den) + den == a * (2 * den) + den) by (nonlinear_arith);
        lemma_fundamental_div_mod_converse(2 * (a * den) + den, 2 * den, a, den);
    } else {
        assert(a * den < 0) by (nonlinear_arith)
            requires a < 0 && den > 0;
        assert(2 * (-(a * den)) + den == (-a) * (2 * den) + den) by (nonlinear_arith);
        lemma_fundamental_div_mod_converse(2 * (-(a * den)) + den, 2 * den, -a, den);
    }
}

/// Rounding is monotone in the numerator.
pub proof fn lemma_rdiv_ordered(n1: int, n2: int, den: int)
    requires
        0 < den,
        n1 <= n2,
    ensures
        rdiv(n1, den) <= rdiv(n2, den),
{
    if n1 >= 0 {
        lemma_div_is_ordered(2 * n1 + den, 2 * n2 + den, 2 * den);
    } else if n2 < 0 {
        lemma_div_is_ordered(2 * (-n2) + den, 2 * (-n1) + den, 2 * den);
    } else {
        lemma_div_pos_is_pos(2 * (-n1) + den, 2 * den);
        lemma_div_pos_is_pos(2 * n2 + den, 2 * den);
    }
}

/// Between consecutive multiples of `a`, the rounded quotient moves by at
/// most one, in the direction of the sign of `a`.
pub proof fn lemma_rdiv_step(a: int, k: int, den: int)
    requires
        0 < den,
        -den <= a <= den,
        0 <= k,
    ensures
        a >= 0 ==> rdiv(a * k, den) <= rdiv(a * (k + 1), den) <= rdiv(a * k, den) + 1,
        a < 0 ==> rdiv(a * k, den) - 1 <= rdiv(a * (k + 1), den) <= rdiv(a * k, den),
    decreases (if a < 0 { 1int } else { 0int }),
{
    if a >= 0 {
        assert(a * k >= 0) by (nonlinear_arith)
            requires a >= 0 && k >= 0;
        assert(a * (k + 1) == a * k + a) by (nonlinear_arith);
        lemma_rdiv_ordered(a * k, a * k + a, den);
        lemma_div_plus_one(2 * (a * k) + den, 2 * den);
        lemma_div_is_ordered(2 * (a * k + a) + den, 2 * (a * k) + den + 2 * den, 2 * den);
    } else {
        assert((-a) * (k + 1) == (-a) * k + (-a)) by (nonlinear_arith);
        lemma_rdiv_step(-a, k, den);
        lemma_rdiv_symm((-a) * k, den);
        lemma_rdiv_symm((-a) * (k + 1), den);
        assert((-a) * k == -(a * k)) by (nonlinear_arith);
        assert((-a) * (k + 1) == -(a * (k + 1))) by (nonlinear_arith);
    }
}

/// The rounded quotient of `a * k / s` stays between `0` and `a` while
/// `0 <= k <= s`.
pub proof fn lemma_rdiv_range(a: int, k: int, s: int)
    requires
        0 < s,
        -s <= a <= s,
        0 <= k <= s,
    ensures
        vstd::math::min(a, 0) <= rdiv(a * k, s) <= vstd::math::max(a, 0),
{
    lemma_rdiv_exact(0, s);
    assert(0 * s == 0) by (nonlinear_arith);
    lemma_rdiv_exact(a, s);
    if a >= 0 {
        assert(0 <= a * k <= a * s) by (nonlinear_arith)
            requires 0 <= a && 0 <= k <= s;
        lemma_rdiv_ordered(0, a * k, s);
        lemma_rdiv_ordered(a * k, a * s, s);
    } else {
        assert(a * s <= a * k <= 0) by (nonlinear_arith)
            requires a < 0 && 0 <= k <= s;
        lemma_rdiv_ordered(a * k, 0, s);
        lemma_rdiv_ordered(a * s, a * k, s);
    }
}

/// Number of steps the DDA walk takes: the larger coordinate distance.
pub open spec fn dda_steps(x0: int, y0: int, x1: int, y1: int) -> int {
    vstd::math::max(vstd::math::abs(x1 - x0) as int, vstd::math::abs(y1 - y0) as int)
}

/// The point sequence of the DDA line from `(x0, y0)` to `(x1, y1)`:
/// both endpoints included, each coordinate interpolated with
/// round-to-nearest. A zero-length segment yields the single start point.
pub open spec fn dda_points(x0: int, y0: int, x1: int, y1: int) -> Seq<(int, int)> {
    let s = dda_steps(x0, y0, x1, y1);
    if s == 0 {
        seq![(x0, y0)]
    } else {
        Seq::new((s + 1) as nat, |k: int|
            (x0 + rdiv((x1 - x0) * k, s), y0 + rdiv((y1 - y0) * k, s)))
    }
}

/// Rounded division on machine integers, ties away from zero.
fn round_div(num: i64, den: i64) -> (r: i64)
    requires
        0 < den <= 0x4000_0000_0000_0000,
        -0x4000_0000_0000_0000 <= num <= 0x4000_0000_0000_0000,
    ensures
        r as int == rdiv(num as int, den as int),
{
    let d2: u64 = 2 * (den as u64);
    if num >= 0 {
        let top: u64 = 2 * (num as u64) + den as u64;
        let q: u64 = top / d2;
        proof {
            lemma_div_is_ordered(top as int, 0xc000_0000_0000_0000int, d2 as int);
            lemma_div_is_ordered_by_denominator(top as int, 2, d2 as int);
        }
        q as i64
    } else {
        let top: u64 = 2 * ((-num) as u64) + den as u64;
        let q: u64 = top / d2;
        proof {
            lemma_div_is_ordered_by_denominator(top as int, 2, d2 as int);
        }
        -(q as i64)
    }
}

/// Writes the DDA line from `p0` to `p` into `puntos`, both endpoints
/// included.
pub fn write_dda(p0: PixelCoord, p: PixelCoord, puntos: &mut Vec<PixelCoord>)
    requires
        coord_ok(p0.0 as int),
        coord_ok(p0.1 as int),
        coord_ok(p.0 as int),
        coord_ok(p.1 as int),
    ensures
        view_points(final(puntos)@) == view_points(old(puntos)@)
            + dda_points(p0.0 as int, p0.1 as int, p.0 as int, p.1 as int),
{
    let (x_0, y_0, x, y) = (p0.0, p0.1, p.0, p.1);
    let delta_x: i64 = x as i64 - x_0 as i64;
    let delta_y: i64 = y as i64 - y_0 as i64;
    let abs_x: i64 = if delta_x < 0 { -delta_x } else { delta_x };
    let abs_y: i64 = if delta_y < 0 { -delta_y } else { delta_y };
    let steps: i64 = if abs_x > abs_y { abs_x } else { abs_y };
    let ghost gs = dda_points(x_0 as int, y_0 as int, x as int, y as int);

    if steps == 0 {
        // Degenerate segment: emit the single start point.
        puntos.push((x_0, y_0));
        proof {
            lemma_view_points_push(old(puntos)@, (x_0, y_0));
            assert(gs =~= seq![(x_0 as int, y_0 as int)]);
            assert(view_points(puntos@) =~= view_points(old(puntos)@) + gs);
        }
        return;
    }

    let mut k: i64 = 0;
    while k <= steps
        invariant
            1 <= steps <= 0x2000_0000,
            0 <= k <= steps + 1,
            delta_x == x as int - x_0 as int,
            delta_y == y as int - y_0 as int,
            -steps <= delta_x <= steps,
            -steps <= delta_y <= steps,
            steps == dda_steps(x_0 as int, y_0 as int, x as int, y as int),
            coord_ok(x_0 as int) && coord_ok(y_0 as int) && coord_ok(x as int) && coord_ok(y as int),
            gs == dda_points(x_0 as int, y_0 as int, x as int, y as int),
            gs.len() == steps + 1,
            view_points(puntos@) == view_points(old(puntos)@) + gs.subrange(0, k as int),
        decreases steps + 1 - k,
    {
        proof {
            assert(-0x4000_0000_0000_0000 <= delta_x as int * k as int <= 0x4000_0000_0000_0000)
                by (nonlinear_arith)
                requires -0x2000_0000 <= delta_x <= 0x2000_0000 && 0 <= k <= 0x2000_0000;
            assert(-0x4000_0000_0000_0000 <= delta_y as int * k as int <= 0x4000_0000_0000_0000)
                by (nonlinear_arith)
                requires -0x2000_0000 <= delta_y <= 0x2000_0000 && 0 <= k <= 0x2000_0000;
        }
        let dx_k: i64 = round_div(delta_x * k, steps);
        let dy_k: i64 = round_div(delta_y * k, steps);
        proof {
            lemma_rdiv_range(delta_x as int, k as int, steps as int);
            lemma_rdiv_range(delta_y as int, k as int, steps as int);
        }
        let px: i32 = (x_0 as i64 + dx_k) as i32;
        let py: i32 = (y_0 as i64 + dy_k) as i32;
        let ghost pre = puntos@;
        puntos.push((px, py));
        proof {
            lemma_view_points_push(pre, (px, py));
            assert(gs[k as int] == (x_0 as int + rdiv(delta_x as int * k, steps as int),
                                    y_0 as int + rdiv(delta_y as int * k, steps as int)));
            assert(gs.subrange(0, k as int + 1) =~= gs.subrange(0, k as int).push(gs[k as int]));
            assert(view_points(puntos@) =~= view_points(old(puntos)@) + gs.subrange(0, k as int + 1));
        }
        k = k + 1;
    }
    proof {
        assert(gs.subrange(0, steps as int + 1) =~= gs);
    }
}

/// The DDA line from `p0` to `p` as a fresh vector.
pub fn dda(p0: PixelCoord, p: PixelCoord) -> (r: Vec<PixelCoord>)
    requires
        coord_ok(p0.0 as int),
        coord_ok(p0.1 as int),
        coord_ok(p.0 as int),
        coord_ok(p.1 as int),
    ensures
        view_points(r@) == dda_points(p0.0 as int, p0.1 as int, p.0 as int, p.1 as int),
{
    let mut puntos: Vec<PixelCoord> = Vec::new();
    write_dda(p0, p, &mut puntos);
    proof {
        assert(view_points(puntos@) =~= dda_points(p0.0 as int, p0.1 as int, p.0 as int, p.1 as int));
    }
    puntos
}

/// The points the Bresenham walk emits after its start point, stepping the
/// driving axis by one and letting the decision value `p` choose when the
/// other axis moves.
pub open spec fn h_bress_rest(x: int, y: int, p: int, x1: int, y_inc: int, two_dy: int, two_dy_dx: int) -> Seq<(int, int)>
    decreases (if x1 - x > 0 { x1 - x } else { 0 }),
{
    if x < x1 {
        let xn = x + 1;
        let yn = if p < 0 { y } else { y + y_inc };
        let pn = if p < 0 { p + two_dy } else { p + two_dy_dx };
        seq![(xn, yn)] + h_bress_rest(xn, yn, pn, x1, y_inc, two_dy, two_dy_dx)
    } else {
        Seq::empty()
    }
}

/// Bresenham points for a mostly-horizontal segment, emitted from the
/// endpoint with the smaller x.
pub open spec fn h_bress_points(p0: (int, int), p1: (int, int)) -> Seq<(int, int)> {
    let (xa, ya) = if p1.0 < p0.0 { p1 } else { p0 };
    let (xb, yb) = if p1.0 < p0.0 { p0 } else { p1 };
    let dx = vstd::math::abs(xb - xa) as int;
    let dy = vstd::math::abs(yb - ya) as int;
    let y_inc: int = if ya < yb { 1 } else { -1 };
    seq![(xa, ya)] + h_bress_rest(xa, ya, 2 * dy - dx, xb, y_inc, 2 * dy, 2 * (dy - dx))
}

/// Bresenham points for a mostly-vertical segment, emitted from the
/// endpoint with the smaller y; the same walk with the axes exchanged.
pub open spec fn v_bress_points(p0: (int, int), p1: (int, int)) -> Seq<(int, int)> {
    let (xa, ya) = if p1.1 < p0.1 { p1 } else { p0 };
    let (xb, yb) = if p1.1 < p0.1 { p0 } else { p1 };
    let dx = vstd::math::abs(xb - xa) as int;
    let dy = vstd::math::abs(yb - ya) as int;
    let x_inc: int = if xa > xb { -1 } else { 1 };
    let swapped = h_bress_rest(ya, xa, 2 * dx - dy, yb, x_inc, 2 * dx, 2 * (dx - dy));
    seq![(xa, ya)] + swapped.map_values(|q: (int, int)| (q.1, q.0))
}

/// The Bresenham line between `p0` and `p1`: the walk along whichever axis
/// has the greater distance, a mostly-vertical segment walked from `p1`.
pub open spec fn bresenham_points(p0: (int, int), p1: (int, int)) -> Seq<(int, int)> {
    if vstd::math::abs(p1.1 - p0.1) <= vstd::math::abs(p1.0 - p0.0) {
        h_bress_points(p0, p1)
    } else {
        v_bress_points(p1, p0)
    }
}

/// Writes the mostly-horizontal Bresenham walk for the segment.
pub fn h_bressenham(p0: PixelCoord, p1: PixelCoord) -> (r: Vec<PixelCoord>)
    requires
        coord_ok(p0.0 as int),
        coord_ok(p0.1 as int),
        coord_ok(p1.0 as int),
        coord_ok(p1.1 as int),
    ensures
        view_points(r@) == h_bress_points(point_view(p0), point_view(p1)),
{
    let (x0, y0): (i32, i32) = if p1.0 < p0.0 { (p1.0, p1.1) } else { (p0.0, p0.1) };
    let (x1, y1): (i32, i32) = if p1.0 < p0.0 { (p0.0, p0.1) } else { (p1.0, p1.1) };

    let delta_x: i64 = x1 as i64 - x0 as i64;
    let dyr: i64 = y1 as i64 - y0 as i64;
    let delta_y: i64 = if dyr < 0 { -dyr } else { dyr };
    let y_increment: i32 = if y0 < y1 { 1 } else { -1 };

    let mut p: i64 = 2 * delta_y - delta_x;
    let two_dy: i64 = 2 * delta_y;
    let two_dy_dx: i64 = 2 * (delta_y - delta_x);

    let ghost full = h_bress_points(point_view(p0), point_view(p1));
    let mut points: Vec<PixelCoord> = Vec::new();
    let mut x: i32 = x0;
    let mut y: i32 = y0;
    points.push((x0, y0));
    proof {
        lemma_view_points_push(Seq::empty(), (x0, y0));
        assert(view_points(Seq::<PixelCoord>::empty()) =~= Seq::<(int, int)>::empty());
        assert(full == seq![(x0 as int, y0 as int)]
            + h_bress_rest(x0 as int, y0 as int, p as int, x1 as int, y_increment as int,
                two_dy as int, two_dy_dx as int));
        assert(view_points(points@)
            + h_bress_rest(x as int, y as int, p as int, x1 as int, y_increment as int,
                two_dy as int, two_dy_dx as int) =~= full);
    }
    while x < x1
        invariant
            x0 <= x <= x1,
            coord_ok(x0 as int) && coord_ok(x1 as int) && coord_ok(y0 as int) && coord_ok(y1 as int),
            y_increment == 1 || y_increment == -1,
            -(x as int - x0 as int) <= y as int - y0 as int <= x as int - x0 as int,
            0 <= two_dy <= 0x4000_0000,
            -0x8000_0000 <= two_dy_dx <= 0x4000_0000,
            -0x1_0000_0000 * (2 + x as int - x0 as int) <= p
                <= 0x1_0000_0000 * (2 + x as int - x0 as int),
            view_points(points@)
                + h_bress_rest(x as int, y as int, p as int, x1 as int, y_increment as int,
                    two_dy as int, two_dy_dx as int) == full,
        decreases x1 as int - x as int,
    {
        let ghost rest_pre = h_bress_rest(x as int, y as int, p as int, x1 as int,
            y_increment as int, two_dy as int, two_dy_dx as int);
        x = x + 1;
        if p < 0 {
            p = p + two_dy;
        } else {
            y = y + y_increment;
            p = p + two_dy_dx;
        }
        let ghost pre = points@;
        points.push((x, y));
        proof {
            lemma_view_points_push(pre, (x, y));
            assert(rest_pre == seq![(x as int, y as int)]
                + h_bress_rest(x as int, y as int, p as int, x1 as int, y_increment as int,
                    two_dy as int, two_dy_dx as int));
            assert(view_points(points@)
                + h_bress_rest(x as int, y as int, p as int, x1 as int, y_increment as int,
                    two_dy as int, two_dy_dx as int) =~= full);
        }
    }
    proof {
        assert(h_bress_rest(x as int, y as int, p as int, x1 as int, y_increment as int,
            two_dy as int, two_dy_dx as int) == Seq::<(int, int)>::empty());
        assert(view_points(points@) =~= full);
    }
    points
}

/// The same point sequence with the two axes exchanged.
pub open spec fn swap_points(s: Seq<(int, int)>) -> Seq<(int, int)> {
    s.map_values(|q: (int, int)| (q.1, q.0))
}

/// Writes the mostly-vertical Bresenham walk for the segment.
pub fn v_bressenham(p0: PixelCoord, p1: PixelCoord) -> (r: Vec<PixelCoord>)
    requires
        coord_ok(p0.0 as int),
        coord_ok(p0.1 as int),
        coord_ok(p1.0 as int),
        coord_ok(p1.1 as int),
    ensures
        view_points(r@) == v_bress_points(point_view(p0), point_view(p1)),
{
    let (x0, y0): (i32, i32) = if p1.1 < p0.1 { (p1.0, p1.1) } else { (p0.0, p0.1) };
    let (x1, y1): (i32, i32) = if p1.1 < p0.1 { (p0.0, p0.1) } else { (p1.0, p1.1) };

    let delta_y: i64 = y1 as i64 - y0 as i64;
    let dxr: i64 = x1 as i64 - x0 as i64;
    let delta_x: i64 = if dxr < 0 { -dxr } else { dxr };
    let x_increment: i32 = if x0 > x1 { -1 } else { 1 };

    let mut p: i64 = 2 * delta_x - delta_y;
    let two_dx: i64 = 2 * delta_x;
    let two_dx_dy: i64 = 2 * (delta_x - delta_y);

    let ghost full = v_bress_points(point_view(p0), point_view(p1));
    let mut points: Vec<PixelCoord> = Vec::new();
    let mut x: i32 = x0;
    let mut y: i32 = y0;
    points.push((x0, y0));
    proof {
        lemma_view_points_push(Seq::empty(), (x0, y0));
        assert(view_points(Seq::<PixelCoord>::empty()) =~= Seq::<(int, int)>::empty());
        assert(full == seq![(x0 as int, y0 as int)]
            + swap_points(h_bress_rest(y0 as int, x0 as int, p as int, y1 as int,
                x_increment as int, two_dx as int, two_dx_dy as int)));
        assert(view_points(points@)
            + swap_points(h_bress_rest(y as int, x as int, p as int, y1 as int,
                x_increment as int, two_dx as int, two_dx_dy as int)) =~= full);
    }
    while y < y1
        invariant
            y0 <= y <= y1,
            coord_ok(x0 as int) && coord_ok(x1 as int) && coord_ok(y0 as int) && coord_ok(y1 as int),
            x_increment == 1 || x_increment == -1,
            -(y as int - y0 as int) <= x as int - x0 as int <= y as int - y0 as int,
            0 <= two_dx <= 0x4000_0000,
            -0x8000_0000 <= two_dx_dy <= 0x4000_0000,
            -0x1_0000_0000 * (2 + y as int - y0 as int) <= p
                <= 0x1_0000_0000 * (2 + y as int - y0 as int),
            view_points(points@)
                + swap_points(h_bress_rest(y as int, x as int, p as int, y1 as int,
                    x_increment as int, two_dx as int, two_dx_dy as int)) == full,
        decreases y1 as int - y as int,
    {
        let ghost rest_pre = h_bress_rest(y as int, x as int, p as int, y1 as int,
            x_increment as int, two_dx as int, two_dx_dy as int);
        y = y + 1;
        if p < 0 {
            p = p + two_dx;
        } else {
            x = x + x_increment;
            p = p + two_dx_dy;
        }
        let ghost pre = points@;
        points.push((x, y));
        proof {
            lemma_view_points_push(pre, (x, y));
            assert(rest_pre == seq![(y as int, x as int)]
                + h_bress_rest(y as int, x as int, p as int, y1 as int, x_increment as int,
                    two_dx as int, two_dx_dy as int));
            assert(swap_points(rest_pre) =~= seq![(x as int, y as int)]
                + swap_points(h_bress_rest(y as int, x as int, p as int, y1 as int,
                    x_increment as int, two_dx as int, two_dx_dy as int)));
            assert(view_points(points@)
                + swap_points(h_bress_rest(y as int, x as int, p as int, y1 as int,
                    x_increment as int, two_dx as int, two_dx_dy as int)) =~= full);
        }
    }
    proof {
        assert(h_bress_rest(y as int, x as int, p as int, y1 as int, x_increment as int,
            two_dx as int, two_dx_dy as int) == Seq::<(int, int)>::empty());
        assert(swap_points(Seq::<(int, int)>::empty()) =~= Seq::<(int, int)>::empty());
        assert(view_points(points@) =~= full);
    }
    points
}

/// The Bresenham line between `p0` and `p1`, walking along whichever axis
/// spans the greater distance; a mostly-vertical segment is walked with the
/// endpoints exchanged.
pub fn bresenham(p0: PixelCoord, p1: PixelCoord) -> (r: Vec<PixelCoord>)
    requires
        coord_ok(p0.0 as int),
        coord_ok(p0.1 as int),
        coord_ok(p1.0 as int),
        coord_ok(p1.1 as int),
    ensures
        view_points(r@) == bresenham_points(point_view(p0), point_view(p1)),
{
    let delta_x: i64 = p1.0 as i64 - p0.0 as i64;
    let delta_y: i64 = p1.1 as i64 - p0.1 as i64;
    let abs_x: i64 = if delta_x < 0 { -delta_x } else { delta_x };
    let abs_y: i64 = if delta_y < 0 { -delta_y } else { delta_y };
    if abs_y <= abs_x {
        h_bressenham(p0, p1)
    } else {
        v_bressenham(p1, p0)
    }
}

proof fn lemma_h_rest_steps(x: int, y: int, p: int, x1: int, y_inc: int, two_dy: int, two_dy_dx: int)
    requires
        y_inc == 1 || y_inc == -1,
    ensures
        ({
            let s = h_bress_rest(x, y, p, x1, y_inc, two_dy, two_dy_dx);
            &&& s.len() == (if x1 - x > 0 { x1 - x } else { 0 })
            &&& (s.len() > 0 ==> s[0].0 == x + 1 && -1 <= s[0].1 - y <= 1)
            &&& forall|i: int| 0 <= i < s.len() - 1
                ==> (#[trigger] s[i + 1]).0 == s[i].0 + 1 && -1 <= s[i + 1].1 - s[i].1 <= 1
        }),
    decreases (if x1 - x > 0 { x1 - x } else { 0 }),
{
    let s = h_bress_rest(x, y, p, x1, y_inc, two_dy, two_dy_dx);
    if x < x1 {
        let xn = x + 1;
        let yn = if p < 0 { y } else { y + y_inc };
        let pn = if p < 0 { p + two_dy } else { p + two_dy_dx };
        let tail = h_bress_rest(xn, yn, pn, x1, y_inc, two_dy, two_dy_dx);
        lemma_h_rest_steps(xn, yn, pn, x1, y_inc, two_dy, two_dy_dx);
        assert(s == seq![(xn, yn)] + tail);
        assert(s.len() == 1 + tail.len());
        assert forall|i: int| 0 <= i < s.len() - 1
            implies (#[trigger] s[i + 1]).0 == s[i].0 + 1 && -1 <= s[i + 1].1 - s[i].1 <= 1 by {
            if i == 0 {
                assert(s[0] == (xn, yn));
                assert(tail.len() > 0);
                assert(s[1] == tail[0]);
                assert(tail[0].0 == xn + 1 && -1 <= tail[0].1 - yn <= 1);
            } else {
                assert(s[i] == tail[i - 1]);
                assert(s[i + 1] == tail[i]);
                assert(tail[(i - 1) + 1].0 == tail[i - 1].0 + 1
                    && -1 <= tail[(i - 1) + 1].1 - tail[i - 1].1 <= 1);
            }
        }
    }
}

/// The Bresenham walk leaves no gaps: the first point is an endpoint of
/// the segment, the walk has one point per unit of the dominant axis, and
/// consecutive points never differ by more than one pixel on either axis.
pub proof fn lemma_bresenham_no_gaps(p0: (int, int), p1: (int, int))
    ensures
        ({
            let s = bresenham_points(p0, p1);
            &&& s.len() == vstd::math::max(vstd::math::abs(p1.0 - p0.0) as int,
                    vstd::math::abs(p1.1 - p0.1) as int) + 1
            &&& s[0] == p0 || s[0] == p1
            &&& forall|i: int| 0 <= i < s.len() - 1
                ==> -1 <= (#[trigger] s[i + 1]).0 - s[i].0 <= 1 && -1 <= s[i + 1].1 - s[i].1 <= 1
        }),
{
    let s = bresenham_points(p0, p1);
    if vstd::math::abs(p1.1 - p0.1) <= vstd::math::abs(p1.0 - p0.0) {
        let (xa, ya) = if p1.0 < p0.0 { p1 } else { p0 };
        let (xb, yb) = if p1.0 < p0.0 { p0 } else { p1 };
        let dx = vstd::math::abs(xb - xa) as int;
        let dy = vstd::math::abs(yb - ya) as int;
        let y_inc: int = if ya < yb { 1 } else { -1 };
        let rest = h_bress_rest(xa, ya, 2 * dy - dx, xb, y_inc, 2 * dy, 2 * (dy - dx));
        lemma_h_rest_steps(xa, ya, 2 * dy - dx, xb, y_inc, 2 * dy, 2 * (dy - dx));
        assert(s == seq![(xa, ya)] + rest);
        assert(s.len() == 1 + rest.len());
        assert forall|i: int| 0 <= i < s.len() - 1
            implies -1 <= (#[trigger] s[i + 1]).0 - s[i].0 <= 1 && -1 <= s[i + 1].1 - s[i].1 <= 1 by {
            if i == 0 {
                assert(s[0] == (xa, ya));
                assert(rest.len() > 0);
                assert(s[1] == rest[0]);
                assert(rest[0].0 == xa + 1 && -1 <= rest[0].1 - ya <= 1);
            } else {
                assert(s[i] == rest[i - 1]);
                assert(s[i + 1] == rest[i]);
                assert(rest[(i - 1) + 1].0 == rest[i - 1].0 + 1
                    && -1 <= rest[(i - 1) + 1].1 - rest[i - 1].1 <= 1);
            }
        }
    } else {
        let q0 = p1;
        let q1 = p0;
        let (xa, ya) = if q1.1 < q0.1 { q1 } else { q0 };
        let (xb, yb) = if q1.1 < q0.1 { q0 } else { q1 };
        let dx = vstd::math::abs(xb - xa) as int;
        let dy = vstd::math::abs(yb - ya) as int;
        let x_inc: int = if xa > xb { -1 } else { 1 };
        let rest = h_bress_rest(ya, xa, 2 * dx - dy, yb, x_inc, 2 * dx, 2 * (dx - dy));
        lemma_h_rest_steps(ya, xa, 2 * dx - dy, yb, x_inc, 2 * dx, 2 * (dx - dy));
        let swapped = swap_points(rest);
        assert(s == seq![(xa, ya)] + swapped);
        assert(swapped.len() == rest.len());
        assert(s.len() == 1 + rest.len());
        assert forall|i: int| 0 <= i < s.len() - 1
            implies -1 <= (#[trigger] s[i + 1]).0 - s[i].0 <= 1 && -1 <= s[i + 1].1 - s[i].1 <= 1 by {
            if i == 0 {
                assert(s[0] == (xa, ya));
                assert(rest.len() > 0);
                assert(s[1] == swapped[0]);
                assert(swapped[0] == (rest[0].1, rest[0].0));
                assert(rest[0].0 == ya + 1 && -1 <= rest[0].1 - xa <= 1);
            } else {
                assert(s[i] == swapped[i - 1]);
                assert(s[i + 1] == swapped[i]);
                assert(swapped[i - 1] == (rest[i - 1].1, rest[i - 1].0));
                assert(swapped[i] == (rest[i].1, rest[i].0));
                assert(rest[(i - 1) + 1].0 == rest[i - 1].0 + 1
                    && -1 <= rest[(i - 1) + 1].1 - rest[i - 1].1 <= 1);
            }
        }
    }
}

/// The first DDA point is the start point, the last is the end point, and
/// consecutive points never differ by more than one pixel on either axis.
pub proof fn lemma_dda_line_properties(x0: int, y0: int, x1: int, y1: int)
    ensures
        dda_points(x0, y0, x1, y1).len() >= 1,
        dda_points(x0, y0, x1, y1).first() == (x0, y0),
        dda_points(x0, y0, x1, y1).last() == (x1, y1),
        forall|i: int| 0 <= i < dda_points(x0, y0, x1, y1).len() - 1 ==> {
            let a = #[trigger] dda_points(x0, y0, x1, y1)[i];
            let b = dda_points(x0, y0, x1, y1)[i + 1];
            -1 <= b.0 - a.0 <= 1 && -1 <= b.1 - a.1 <= 1
        },
{
    let s = dda_steps(x0, y0, x1, y1);
    let ps = dda_points(x0, y0, x1, y1);
    if s == 0 {
        assert(x1 == x0 && y1 == y0);
    } else {
        let dx = x1 - x0;
        let dy = y1 - y0;
        lemma_rdiv_exact(0, s);
        assert(dx * 0 == 0) by (nonlinear_arith);
        assert(dy * 0 == 0) by (nonlinear_arith);
        assert(ps.first() == (x0, y0));
        lemma_rdiv_exact(dx, s);
        lemma_rdiv_exact(dy, s);
        assert(dx * s == s * dx) by (nonlinear_arith);
        assert(dy * s == s * dy) by (nonlinear_arith);
        assert(ps.last() == (x0 + rdiv(dx * s, s), y0 + rdiv(dy * s, s)));
        assert(ps.last() == (x1, y1));
        assert forall|i: int| 0 <= i < ps.len() - 1 implies {
            let a = #[trigger] ps[i];
            let b = ps[i + 1];
            -1 <= b.0 - a.0 <= 1 && -1 <= b.1 - a.1 <= 1
        } by {
            lemma_rdiv_step(dx, i, s);
            lemma_rdiv_step(dy, i, s);
        }
    }
}

} // verus!
