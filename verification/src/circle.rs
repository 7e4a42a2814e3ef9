//! Circle rasterization: the midpoint circle algorithm.
use vstd::prelude::*;

use crate::coord::{coord_ok, view_points, PixelCoord};

verus! {

/// Working state of the midpoint walk: the point being traced in the
/// first octant.
pub struct Circulo(pub PixelCoord);

impl Circulo {
    pub fn new() -> (c: Self)
        ensures
            c.0 == (0i32, 0i32),
    {
        Self((0, 0))
    }

    pub fn x(&self) -> (r: i32)
        ensures
            r == self.0.0,
    {
        self.0.0
    }

    pub fn y(&self) -> (r: i32)
        ensures
            r == self.0.1,
    {
        self.0.1
    }

    pub fn set_coords(&mut self, p: PixelCoord)
        ensures
            final(self).0 == p,
    {
        self.0 = p;
    }

    pub fn x_mut(&mut self) -> (r: &mut i32)
        ensures
            *r == old(self).0.0,
            final(self).0 == (*final(r), old(self).0.1),
    {
        &mut self.0.0
    }

    pub fn y_mut(&mut self) -> (r: &mut i32)
        ensures
            *r == old(self).0.1,
            final(self).0 == (old(self).0.0, *final(r)),
    {
        &mut self.0.1
    }
}

/// The eight symmetric boundary points derived from one first-octant point.
pub open spec fn circle_octet(cx: int, cy: int, x: int, y: int) -> Seq<(int, int)> {
    seq![
        (cx + x, cy + y), (cx - x, cy + y), (cx + x, cy - y), (cx - x, cy - y),
        (cx + y, cy + x), (cx - y, cy + x), (cx + y, cy - x), (cx - y, cy - x),
    ]
}

/// The boundary points the midpoint walk emits after state `(x, y, d)`,
/// eight per step, until the first octant is exhausted.
pub open spec fn circle_rest(cx: int, cy: int, x: int, y: int, d: int) -> Seq<(int, int)>
    decreases (if y - x + 1 > 0 { y - x + 1 } else { 0 }),
{
    if x < y {
        let xn = x + 1;
        let yn = if d < 0 { y } else { y - 1 };
        let dn = if d < 0 { d + 2 * xn + 1 } else { d + 2 * (xn - yn) + 1 };
        circle_octet(cx, cy, xn, yn) + circle_rest(cx, cy, xn, yn, dn)
    } else {
        Seq::empty()
    }
}

/// All boundary points of the midpoint circle with center `(cx, cy)` and
/// radius `r`, in emission order, duplicates at the axis crossings included.
pub open spec fn circle_points(cx: int, cy: int, r: int) -> Seq<(int, int)> {
    circle_octet(cx, cy, 0, r) + circle_rest(cx, cy, 0, r, 1 - r)
}

fn push_octet(puntos: &mut Vec<PixelCoord>, cx: i32, cy: i32, x: i32, y: i32)
    requires
        coord_ok(cx as int),
        coord_ok(cy as int),
        -0x1000_0000 <= x as int <= 0x1000_0000,
        -0x1000_0000 <= y as int <= 0x1000_0000,
    ensures
        view_points(final(puntos)@) == view_points(old(puntos)@)
            + circle_octet(cx as int, cy as int, x as int, y as int),
{
    puntos.push((cx + x, cy + y));
    puntos.push((cx - x, cy + y));
    puntos.push((cx + x, cy - y));
    puntos.push((cx - x, cy - y));
    puntos.push((cx + y, cy + x));
    puntos.push((cx - y, cy + x));
    puntos.push((cx + y, cy - x));
    puntos.push((cx - y, cy - x));
    proof {
        assert(view_points(puntos@) =~= view_points(old(puntos)@)
            + circle_octet(cx as int, cy as int, x as int, y as int));
    }
}

/// The relation the midpoint decision value keeps to the traced point.
pub open spec fn circle_decision(x: int, y: int, d: int, r: int) -> bool {
    d == x * x + 2 * x + y * y - y + 1 - r * r
}

/// Writes the boundary of the circle with the given center and radius into
/// `puntos` using the midpoint circle algorithm.
pub fn write_circle_middle_point(centro: PixelCoord, r: i32, puntos: &mut Vec<PixelCoord>)
    requires
        0 <= r as int <= 0x1000_0000,
        coord_ok(centro.0 as int),
        coord_ok(centro.1 as int),
    ensures
        view_points(final(puntos)@) == view_points(old(puntos)@)
            + circle_points(centro.0 as int, centro.1 as int, r as int),
{
    let (cx, cy) = (centro.0, centro.1);
    let mut c = Circulo::new();
    c.set_coords((0, r));
    let mut d: i64 = 1 - r as i64;

    push_octet(puntos, cx, cy, c.x(), c.y());
    let ghost full = circle_points(cx as int, cy as int, r as int);

    let mut circulo = c;
    while circulo.x() < circulo.y()
        invariant
            0 <= circulo.0.0 as int <= circulo.0.1 as int + 1,
            0 <= circulo.0.1 as int <= r as int,
            0 <= r as int <= 0x1000_0000,
            coord_ok(cx as int),
            coord_ok(cy as int),
            circle_decision(circulo.0.0 as int, circulo.0.1 as int, d as int, r as int),
            view_points(puntos@) + circle_rest(cx as int, cy as int, circulo.0.0 as int,
                circulo.0.1 as int, d as int)
                == view_points(old(puntos)@) + full,
        decreases circulo.0.1 as int - circulo.0.0 as int + 1,
    {
        let ghost (gx, gy, gd) = (circulo.0.0 as int, circulo.0.1 as int, d as int);
        proof {
            assert(-0x4000_0000_0000_0000 <= gd <= 0x4000_0000_0000_0000) by (nonlinear_arith)
                requires
                    circle_decision(gx, gy, gd, r as int),
                    0 <= gx <= 0x1000_0001,
                    0 <= gy <= 0x1000_0000,
                    0 <= r as int <= 0x1000_0000;
        }
        *circulo.x_mut() += 1;
        if d < 0 {
            d += 2 * (circulo.x() as i64) + 1;
            proof {
                assert(circle_decision(circulo.0.0 as int, circulo.0.1 as int, d as int, r as int))
                    by (nonlinear_arith)
                    requires
                        circle_decision(gx, gy, gd, r as int),
                        circulo.0.0 as int == gx + 1,
                        circulo.0.1 as int == gy,
                        d as int == gd + 2 * (gx + 1) + 1;
            }
        } else {
            *circulo.y_mut() -= 1;
            d += 2 * ((circulo.x() as i64) - (circulo.y() as i64)) + 1;
            proof {
                assert(circle_decision(circulo.0.0 as int, circulo.0.1 as int, d as int, r as int))
                    by (nonlinear_arith)
                    requires
                        circle_decision(gx, gy, gd, r as int),
                        circulo.0.0 as int == gx + 1,
                        circulo.0.1 as int == gy - 1,
                        d as int == gd + 2 * ((gx + 1) - (gy - 1)) + 1;
            }
        }
        push_octet(puntos, cx, cy, circulo.x(), circulo.y());
        proof {
            assert(circle_rest(cx as int, cy as int, gx, gy, gd)
                == circle_octet(cx as int, cy as int, circulo.0.0 as int, circulo.0.1 as int)
                    + circle_rest(cx as int, cy as int, circulo.0.0 as int, circulo.0.1 as int,
                        d as int));
            assert(view_points(puntos@) + circle_rest(cx as int, cy as int, circulo.0.0 as int,
                circulo.0.1 as int, d as int)
                =~= view_points(old(puntos)@) + full);
        }
    }
    proof {
        assert(circle_rest(cx as int, cy as int, circulo.0.0 as int, circulo.0.1 as int, d as int)
            == Seq::<(int, int)>::empty());
        assert(view_points(puntos@) =~= view_points(old(puntos)@) + full);
    }
}

proof fn lemma_circle_rest_len(cx: int, cy: int, x: int, y: int, d: int)
    ensures
        circle_rest(cx, cy, x, y, d).len() % 8 == 0,
    decreases (if y - x + 1 > 0 { y - x + 1 } else { 0 }),
{
    if x < y {
        let xn = x + 1;
        let yn = if d < 0 { y } else { y - 1 };
        let dn = if d < 0 { d + 2 * xn + 1 } else { d + 2 * (xn - yn) + 1 };
        lemma_circle_rest_len(cx, cy, xn, yn, dn);
    }
}

/// The midpoint circle walk emits eight points per step: the total point
/// count is a multiple of eight (coincident points at the axis crossings
/// are still counted), and at least one full octet is emitted.
pub proof fn lemma_circle_points_count(cx: int, cy: int, r: int)
    ensures
        circle_points(cx, cy, r).len() % 8 == 0,
        circle_points(cx, cy, r).len() >= 8,
{
    lemma_circle_rest_len(cx, cy, 0, r, 1 - r);
}

/// A point lies on the rasterized ring: its squared distance from the
/// center is within the midpoint tolerance of one pixel around `r`.
pub open spec fn ring_ok(p: (int, int), cx: int, cy: int, r: int) -> bool {
    (r - 1) * (r - 1) <= (p.0 - cx) * (p.0 - cx) + (p.1 - cy) * (p.1 - cy)
        && (p.0 - cx) * (p.0 - cx) + (p.1 - cy) * (p.1 - cy) <= (r + 1) * (r + 1)
}

proof fn lemma_octet_ring(cx: int, cy: int, x: int, y: int, r: int)
    requires
        (r - 1) * (r - 1) <= x * x + y * y <= (r + 1) * (r + 1),
    ensures
        forall|i: int| 0 <= i < 8 ==> ring_ok(#[trigger] circle_octet(cx, cy, x, y)[i], cx, cy, r),
{
    assert((-x) * (-x) == x * x) by (nonlinear_arith);
    assert((-y) * (-y) == y * y) by (nonlinear_arith);
    let s = circle_octet(cx, cy, x, y);
    assert forall|i: int| 0 <= i < 8 implies ring_ok(#[trigger] s[i], cx, cy, r) by {
        assert(s[0] == (cx + x, cy + y));
        assert(s[1] == (cx - x, cy + y));
        assert(s[2] == (cx + x, cy - y));
        assert(s[3] == (cx - x, cy - y));
        assert(s[4] == (cx + y, cy + x));
        assert(s[5] == (cx - y, cy + x));
        assert(s[6] == (cx + y, cy - x));
        assert(s[7] == (cx - y, cy - x));
    }
}

proof fn lemma_circle_rest_ring(cx: int, cy: int, x: int, y: int, d: int, r: int)
    requires
        2 <= r,
        0 <= x <= y <= r,
        circle_decision(x, y, d, r),
        2 * x - 3 * y + 2 <= d <= 2 * x + 2,
        x >= 1 || (x == 0 && y == r),
    ensures
        forall|i: int| 0 <= i < circle_rest(cx, cy, x, y, d).len()
            ==> ring_ok(#[trigger] circle_rest(cx, cy, x, y, d)[i], cx, cy, r),
    decreases y - x + 1,
{
    if x < y {
        let xn = x + 1;
        let yn = if d < 0 { y } else { y - 1 };
        let dn = if d < 0 { d + 2 * xn + 1 } else { d + 2 * (xn - yn) + 1 };
        let s = circle_rest(cx, cy, x, y, d);
        let tail = circle_rest(cx, cy, xn, yn, dn);
        assert(s == circle_octet(cx, cy, xn, yn) + tail);

        // The decision relation carries over to the stepped state.
        assert(circle_decision(xn, yn, dn, r)) by (nonlinear_arith)
            requires
                circle_decision(x, y, d, r),
                xn == x + 1,
                (d < 0 ==> yn == y && dn == d + 2 * xn + 1),
                (d >= 0 ==> yn == y - 1 && dn == d + 2 * (xn - yn) + 1);

        // The freshly emitted octet sits on the ring.
        assert((r - 1) * (r - 1) <= xn * xn + yn * yn <= (r + 1) * (r + 1)) by (nonlinear_arith)
            requires
                circle_decision(xn, yn, dn, r),
                2 <= r,
                0 <= yn <= r,
                0 <= xn,
                (d < 0 ==> dn == d + 2 * xn + 1 && d >= 2 * x - 3 * y + 2 && d <= -1 && yn == y),
                (d >= 0 ==> dn == d + 2 * xn - 2 * yn + 1 && d <= 2 * x + 2 && x < y && yn == y - 1),
                x + 1 == xn,
                x < y <= r;
        lemma_octet_ring(cx, cy, xn, yn, r);

        if xn < yn {
            // Q is preserved, so the tail points follow by induction.
            if d >= 0 {
                assert(d >= 0 && (x >= 1 || (x == 0 && y == r)));
                assert(x >= 1) by {
                    if x == 0 && y == r {
                        assert(d == 1 - r) by (nonlinear_arith)
                            requires circle_decision(x, y, d, r) && x == 0 && y == r;
                    }
                }
                assert(y >= 2);
            }
            assert(2 * xn - 3 * yn + 2 <= dn <= 2 * xn + 2);
            lemma_circle_rest_ring(cx, cy, xn, yn, dn, r);
            assert forall|i: int| 0 <= i < s.len() implies ring_ok(#[trigger] s[i], cx, cy, r) by {
                if i < 8 {
                    assert(s[i] == circle_octet(cx, cy, xn, yn)[i]);
                } else {
                    assert(s[i] == tail[i - 8]);
                }
            }
        } else {
            assert(tail == Seq::<(int, int)>::empty());
            assert forall|i: int| 0 <= i < s.len() implies ring_ok(#[trigger] s[i], cx, cy, r) by {
                assert(s[i] == circle_octet(cx, cy, xn, yn)[i]);
            }
        }
    }
}

/// Every point the midpoint circle walk emits for radius `r > 0` lies at a
/// squared distance from the center between `(r - 1)^2` and `(r + 1)^2`.
pub proof fn lemma_circle_points_on_ring(cx: int, cy: int, r: int)
    requires
        1 <= r,
    ensures
        forall|i: int| 0 <= i < circle_points(cx, cy, r).len()
            ==> ring_ok(#[trigger] circle_points(cx, cy, r)[i], cx, cy, r),
{
    let s = circle_points(cx, cy, r);
    let rest = circle_rest(cx, cy, 0, r, 1 - r);
    assert((r - 1) * (r - 1) <= 0 * 0 + r * r <= (r + 1) * (r + 1)) by (nonlinear_arith)
        requires 1 <= r;
    lemma_octet_ring(cx, cy, 0, r, r);
    if r == 1 {
        assert(rest == circle_octet(cx, cy, 1, 0) + circle_rest(cx, cy, 1, 0, 3));
        assert(circle_rest(cx, cy, 1, 0, 3) == Seq::<(int, int)>::empty());
        assert((r - 1) * (r - 1) <= 1 * 1 + 0 * 0 <= (r + 1) * (r + 1)) by (nonlinear_arith)
            requires r == 1;
        lemma_octet_ring(cx, cy, 1, 0, r);
        assert forall|i: int| 0 <= i < s.len() implies ring_ok(#[trigger] s[i], cx, cy, r) by {
            if i < 8 {
                assert(s[i] == circle_octet(cx, cy, 0, r)[i]);
            } else {
                assert(rest[i - 8] == circle_octet(cx, cy, 1, 0)[i - 8]);
                assert(s[i] == circle_octet(cx, cy, 1, 0)[i - 8]);
            }
        }
    } else {
        assert(circle_decision(0, r, 1 - r, r)) by (nonlinear_arith);
        lemma_circle_rest_ring(cx, cy, 0, r, 1 - r, r);
        assert forall|i: int| 0 <= i < s.len() implies ring_ok(#[trigger] s[i], cx, cy, r) by {
            if i < 8 {
                assert(s[i] == circle_octet(cx, cy, 0, r)[i]);
            } else {
                assert(s[i] == rest[i - 8]);
            }
        }
    }
}

/// The 8-way symmetric midpoint-circle boundary of radius `r` about
/// `centro`, as a fresh vector: the same emission `write_circle_middle_point`
/// appends.
pub fn circulo_punto_medio(centro: PixelCoord, r: i32) -> (puntos: Vec<PixelCoord>)
    requires
        0 <= r as int <= 0x1000_0000,
        coord_ok(centro.0 as int),
        coord_ok(centro.1 as int),
    ensures
        view_points(puntos@) == circle_points(centro.0 as int, centro.1 as int, r as int),
{
    let mut puntos: Vec<PixelCoord> = Vec::new();
    write_circle_middle_point(centro, r, &mut puntos);
    proof {
        assert(view_points(puntos@)
            =~= circle_points(centro.0 as int, centro.1 as int, r as int));
    }
    puntos
}

} // verus!
