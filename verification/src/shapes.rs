//! The geometric shape types and the capability interface that unifies
//! them: outline generation, styling, and the fill capability.
use vstd::prelude::*;

use crate::circle::{circle_points, write_circle_middle_point};
use crate::coord::{coord_ok, view_points, PixelCoord, COORD_LIMIT};
use crate::ellipse::{ellipse_points, write_ellipse_middle_point, ELLIPSE_RADIUS_LIMIT};
use crate::style::ShapeStyle;

verus! {

/// Shape kinds a configuration can ask for.
#[derive(Debug, PartialEq, Eq, Clone, Structural)]
pub enum Figura {
    Circulo,
    Rectangulo,
    Elipse,
    Cuadrado,
}

/// Failure of a shape capability.
#[derive(Debug, PartialEq, Eq, Clone, Copy, Structural)]
pub enum ShapeError {
    /// The shape does not support computing its own fill.
    FillNotSupported,
}

/// How a geometric shape is represented in discrete 2D space.
pub trait Shape: Sized {
    /// The outline points this shape produces around the given center.
    spec fn outline_spec(&self, cx: int, cy: int) -> Seq<(int, int)>;

    /// The center used when none is passed explicitly.
    spec fn origin_spec(&self) -> (int, int);

    /// When rasterization around the given center stays within range.
    spec fn raster_ok(&self, cx: int, cy: int) -> bool;

    /// The current style.
    spec fn style_spec(&self) -> ShapeStyle;

    /// Appends the outline points of the shape, centered at `center`.
    fn write_outline_points_at(&self, buf: &mut Vec<PixelCoord>, center: PixelCoord)
        requires
            self.raster_ok(center.0 as int, center.1 as int),
        ensures
            view_points(final(buf)@) == view_points(old(buf)@)
                + self.outline_spec(center.0 as int, center.1 as int),
    ;

    /// The outline points of the shape, centered at `center`, as a fresh
    /// vector.
    fn to_outline_points(&self, center: PixelCoord) -> (r: Vec<PixelCoord>)
        requires
            self.raster_ok(center.0 as int, center.1 as int),
        ensures
            view_points(r@) == self.outline_spec(center.0 as int, center.1 as int),
    ;

    /// Appends the outline points of the shape at its default center.
    fn write_outline_points(&self, buf: &mut Vec<PixelCoord>)
        requires
            self.raster_ok(self.origin_spec().0, self.origin_spec().1),
        ensures
            view_points(final(buf)@) == view_points(old(buf)@)
                + self.outline_spec(self.origin_spec().0, self.origin_spec().1),
    ;

    /// The style of the shape.
    fn style(&self) -> (r: &ShapeStyle)
        ensures
            *r == self.style_spec(),
    ;

    /// Computes the interior fill from the outline. No shape implements
    /// this capability yet: the buffer is left alone and the caller gets
    /// an explicit "not supported" answer, distinguishable from an empty
    /// fill.
    fn flood_fill(&self, outline_points: &[PixelCoord], buf: &mut Vec<PixelCoord>) -> (r: Result<(), ShapeError>)
        ensures
            r == Err::<(), ShapeError>(ShapeError::FillNotSupported),
            final(buf)@ == old(buf)@,
    ;
}

/// The outline of an axis-aligned rectangle: every integer column at the
/// top and bottom edge, then every integer row at the left and right edge.
/// The corner is the center minus the half extents, halves truncated.
pub open spec fn square_points(x0: int, y0: int, w: int, h: int) -> Seq<(int, int)> {
    let cxa = x0 - w / 2;
    let cya = y0 - h / 2;
    Seq::new((2 * (w + 1)) as nat, |i: int|
        if i % 2 == 0 { (cxa + i / 2, cya) } else { (cxa + i / 2, cya + h) })
        + Seq::new((2 * (h + 1)) as nat, |i: int|
            if i % 2 == 0 { (cxa, cya + i / 2) } else { (cxa + w, cya + i / 2) })
}

/// An axis-aligned rectangle; the name reflects its most common use.
pub struct Square {
    pub width: u32,
    pub height: u32,
    pub style: ShapeStyle,
}

impl Square {
    /// Builds a rectangle with the given extents. Extents near the `i32`
    /// bound are rejected by the precondition.
    pub fn new(width: u32, height: u32) -> (s: Self)
        requires
            width <= COORD_LIMIT as u32,
            height <= COORD_LIMIT as u32,
        ensures
            s.width == width,
            s.height == height,
            s.style.is_default_spec(),
    {
        Self { width, height, style: ShapeStyle::new() }
    }

    /// Replaces the style of the rectangle.
    pub fn style(self, style: ShapeStyle) -> (s: Self)
        ensures
            s.width == self.width,
            s.height == self.height,
            s.style == style,
    {
        Self { style, ..self }
    }
}

impl Shape for Square {
    open spec fn outline_spec(&self, cx: int, cy: int) -> Seq<(int, int)> {
        square_points(cx, cy, self.width as int, self.height as int)
    }

    open spec fn origin_spec(&self) -> (int, int) {
        (0, 0)
    }

    open spec fn raster_ok(&self, cx: int, cy: int) -> bool {
        coord_ok(cx) && coord_ok(cy)
            && self.width <= COORD_LIMIT as u32 && self.height <= COORD_LIMIT as u32
    }

    open spec fn style_spec(&self) -> ShapeStyle {
        self.style
    }

    fn write_outline_points_at(&self, buf: &mut Vec<PixelCoord>, center: PixelCoord) {
        let (x0, y0) = center;
        let width: i32 = self.width as i32;
        let height: i32 = self.height as i32;
        let cxa: i32 = x0 - (self.width / 2) as i32;
        let cya: i32 = y0 - (self.height / 2) as i32;
        let ghost top = Seq::new((2 * (width as int + 1)) as nat, |i: int|
            if i % 2 == 0 { (cxa as int + i / 2, cya as int) } else { (cxa as int + i / 2, cya as int + height as int) });
        let ghost side = Seq::new((2 * (height as int + 1)) as nat, |i: int|
            if i % 2 == 0 { (cxa as int, cya as int + i / 2) } else { (cxa as int + width as int, cya as int + i / 2) });
        proof {
            assert(self.outline_spec(x0 as int, y0 as int) == top + side);
        }

        let mut k: i32 = 0;
        while k <= width
            invariant
                0 <= k <= width + 1,
                0 <= width <= COORD_LIMIT,
                0 <= height <= COORD_LIMIT,
                coord_ok(x0 as int) && coord_ok(y0 as int),
                cxa as int == x0 as int - width as int / 2,
                cya as int == y0 as int - height as int / 2,
                top == Seq::new((2 * (width as int + 1)) as nat, |i: int|
                    if i % 2 == 0 { (cxa as int + i / 2, cya as int) } else { (cxa as int + i / 2, cya as int + height as int) }),
                view_points(buf@) == view_points(old(buf)@) + top.subrange(0, 2 * k as int),
            decreases width + 1 - k,
        {
            let x = cxa + k;
            let y = cya;
            let p1: PixelCoord = (x, y);
            let p2: PixelCoord = (x, y + height);
            let ghost pre = buf@;
            buf.push(p1);
            buf.push(p2);
            proof {
                crate::coord::lemma_view_points_push(pre, p1);
                crate::coord::lemma_view_points_push(pre.push(p1), p2);
                assert(top[2 * k as int] == (x as int, y as int));
                assert(top[2 * k as int + 1] == (x as int, y as int + height as int));
                assert(top.subrange(0, 2 * (k as int + 1))
                    =~= top.subrange(0, 2 * k as int).push(top[2 * k as int]).push(top[2 * k as int + 1]));
                assert(view_points(buf@) =~= view_points(old(buf)@)
                    + top.subrange(0, 2 * (k as int + 1)));
            }
            k = k + 1;
        }
        proof {
            assert(top.subrange(0, 2 * (width as int + 1)) =~= top);
        }
        let mut k: i32 = 0;
        while k <= height
            invariant
                0 <= k <= height + 1,
                0 <= width <= COORD_LIMIT,
                0 <= height <= COORD_LIMIT,
                coord_ok(x0 as int) && coord_ok(y0 as int),
                cxa as int == x0 as int - width as int / 2,
                cya as int == y0 as int - height as int / 2,
                side == Seq::new((2 * (height as int + 1)) as nat, |i: int|
                    if i % 2 == 0 { (cxa as int, cya as int + i / 2) } else { (cxa as int + width as int, cya as int + i / 2) }),
                view_points(buf@) == view_points(old(buf)@) + top + side.subrange(0, 2 * k as int),
            decreases height + 1 - k,
        {
            let x = cxa;
            let y = cya + k;
            let p1: PixelCoord = (x, y);
            let p2: PixelCoord = (x + width, y);
            let ghost pre = buf@;
            buf.push(p1);
            buf.push(p2);
            proof {
                crate::coord::lemma_view_points_push(pre, p1);
                crate::coord::lemma_view_points_push(pre.push(p1), p2);
                assert(side[2 * k as int] == (x as int, y as int));
                assert(side[2 * k as int + 1] == (x as int + width as int, y as int));
                assert(side.subrange(0, 2 * (k as int + 1))
                    =~= side.subrange(0, 2 * k as int).push(side[2 * k as int]).push(side[2 * k as int + 1]));
                assert(view_points(buf@) =~= view_points(old(buf)@) + top
                    + side.subrange(0, 2 * (k as int + 1)));
            }
            k = k + 1;
        }
        proof {
            assert(side.subrange(0, 2 * (height as int + 1)) =~= side);
            assert(view_points(buf@) =~= view_points(old(buf)@)
                + self.outline_spec(x0 as int, y0 as int));
        }
    }

    fn to_outline_points(&self, center: PixelCoord) -> (r: Vec<PixelCoord>) {
        let mut points: Vec<PixelCoord> = Vec::new();
        self.write_outline_points_at(&mut points, center);
        proof {
            assert(view_points(points@)
                =~= self.outline_spec(center.0 as int, center.1 as int));
        }
        points
    }

    fn write_outline_points(&self, buf: &mut Vec<PixelCoord>) {
        self.write_outline_points_at(buf, (0, 0));
    }

    fn style(&self) -> (r: &ShapeStyle) {
        &self.style
    }

    fn flood_fill(&self, outline_points: &[PixelCoord], buf: &mut Vec<PixelCoord>) -> (r: Result<(), ShapeError>) {
        Err(ShapeError::FillNotSupported)
    }
}

/// A circle described by its radius.
pub struct Circle {
    pub radius: u32,
    pub style: ShapeStyle,
}

impl Circle {
    /// Builds a circle with the given radius. Radii near the `i32` bound
    /// are rejected by the precondition.
    pub fn new(radius: u32) -> (c: Self)
        requires
            radius <= COORD_LIMIT as u32,
        ensures
            c.radius == radius,
            c.style.is_default_spec(),
    {
        Self { radius, style: ShapeStyle::new() }
    }

    /// Replaces the style of the circle.
    pub fn style(self, style: ShapeStyle) -> (c: Self)
        ensures
            c.radius == self.radius,
            c.style == style,
    {
        Self { style, ..self }
    }
}

impl Shape for Circle {
    open spec fn outline_spec(&self, cx: int, cy: int) -> Seq<(int, int)> {
        circle_points(cx, cy, self.radius as int)
    }

    open spec fn origin_spec(&self) -> (int, int) {
        (0, 0)
    }

    open spec fn raster_ok(&self, cx: int, cy: int) -> bool {
        coord_ok(cx) && coord_ok(cy) && self.radius <= COORD_LIMIT as u32
    }

    open spec fn style_spec(&self) -> ShapeStyle {
        self.style
    }

    fn write_outline_points_at(&self, buf: &mut Vec<PixelCoord>, center: PixelCoord) {
        write_circle_middle_point(center, self.radius as i32, buf);
    }

    fn to_outline_points(&self, center: PixelCoord) -> (r: Vec<PixelCoord>) {
        let mut points: Vec<PixelCoord> = Vec::new();
        self.write_outline_points_at(&mut points, center);
        proof {
            assert(view_points(points@)
                =~= self.outline_spec(center.0 as int, center.1 as int));
        }
        points
    }

    fn write_outline_points(&self, buf: &mut Vec<PixelCoord>) {
        self.write_outline_points_at(buf, (0, 0));
    }

    fn style(&self) -> (r: &ShapeStyle) {
        &self.style
    }

    fn flood_fill(&self, outline_points: &[PixelCoord], buf: &mut Vec<PixelCoord>) -> (r: Result<(), ShapeError>) {
        Err(ShapeError::FillNotSupported)
    }
}

/// An ellipse described by its two radii, always with distinct radii:
/// building one with equal radii yields a `Circle` instead.
#[derive(Clone, Copy)]
pub struct Ellipse {
    pub radius_x: u32,
    pub radius_y: u32,
    pub style: ShapeStyle,
}

impl Ellipse {
    /// Builds an ellipse with the given radii. Equal radii degenerate to a
    /// circle, returned in the error position so callers can react.
    pub fn new(radius_x: u32, radius_y: u32) -> (r: Result<Self, Circle>)
        requires
            radius_x <= ELLIPSE_RADIUS_LIMIT as u32,
            radius_y <= ELLIPSE_RADIUS_LIMIT as u32,
        ensures
            radius_x == radius_y <==> r is Err,
            r matches Ok(e) ==> e.radius_x == radius_x && e.radius_y == radius_y
                && e.style.is_default_spec(),
            r matches Err(c) ==> c.radius == radius_x && c.style.is_default_spec(),
    {
        if radius_x == radius_y {
            Err(Circle { radius: radius_x, style: ShapeStyle::new() })
        } else {
            Ok(Self { radius_x, radius_y, style: ShapeStyle::new() })
        }
    }

    /// Replaces the style of the ellipse.
    pub fn style(self, style: ShapeStyle) -> (e: Self)
        ensures
            e.radius_x == self.radius_x,
            e.radius_y == self.radius_y,
            e.style == style,
    {
        Self { style, ..self }
    }
}

impl Shape for Ellipse {
    open spec fn outline_spec(&self, cx: int, cy: int) -> Seq<(int, int)> {
        ellipse_points(cx, cy, self.radius_x as int, self.radius_y as int)
    }

    open spec fn origin_spec(&self) -> (int, int) {
        (0, 0)
    }

    open spec fn raster_ok(&self, cx: int, cy: int) -> bool {
        coord_ok(cx) && coord_ok(cy)
            && self.radius_x <= ELLIPSE_RADIUS_LIMIT as u32
            && self.radius_y <= ELLIPSE_RADIUS_LIMIT as u32
    }

    open spec fn style_spec(&self) -> ShapeStyle {
        self.style
    }

    fn write_outline_points_at(&self, buf: &mut Vec<PixelCoord>, center: PixelCoord) {
        write_ellipse_middle_point(center, self.radius_x as i32, self.radius_y as i32, buf);
    }

    fn to_outline_points(&self, center: PixelCoord) -> (r: Vec<PixelCoord>) {
        let mut points: Vec<PixelCoord> = Vec::new();
        self.write_outline_points_at(&mut points, center);
        proof {
            assert(view_points(points@)
                =~= self.outline_spec(center.0 as int, center.1 as int));
        }
        points
    }

    fn write_outline_points(&self, buf: &mut Vec<PixelCoord>) {
        self.write_outline_points_at(buf, (0, 0));
    }

    fn style(&self) -> (r: &ShapeStyle) {
        &self.style
    }

    fn flood_fill(&self, outline_points: &[PixelCoord], buf: &mut Vec<PixelCoord>) -> (r: Result<(), ShapeError>) {
        Err(ShapeError::FillNotSupported)
    }
}

/// The shape variants a drawable object can hold. Whether a rectangle is
/// labeled a square is decided at construction time from its extents.
pub enum DrawableShape {
    Square(Square),
    Rectangle(Square),
    Circle(Circle),
    Ellipse(Ellipse),
}

impl From<Square> for DrawableShape {
    /// Classifies a rectangle: equal extents make it a square; the label
    /// is decided here, at construction time, from the sides alone.
    fn from(square: Square) -> (r: DrawableShape) {
        if square.width == square.height {
            DrawableShape::Square(square)
        } else {
            DrawableShape::Rectangle(square)
        }
    }
}

impl vstd::std_specs::convert::FromSpecImpl<Square> for DrawableShape {
    open spec fn obeys_from_spec() -> bool {
        true
    }

    open spec fn from_spec(square: Square) -> DrawableShape {
        if square.width == square.height {
            DrawableShape::Square(square)
        } else {
            DrawableShape::Rectangle(square)
        }
    }
}

impl From<Circle> for DrawableShape {
    fn from(circle: Circle) -> (r: DrawableShape) {
        DrawableShape::Circle(circle)
    }
}

impl vstd::std_specs::convert::FromSpecImpl<Circle> for DrawableShape {
    open spec fn obeys_from_spec() -> bool {
        true
    }

    open spec fn from_spec(circle: Circle) -> DrawableShape {
        DrawableShape::Circle(circle)
    }
}

impl From<Ellipse> for DrawableShape {
    fn from(ellipse: Ellipse) -> (r: DrawableShape) {
        DrawableShape::Ellipse(ellipse)
    }
}

impl vstd::std_specs::convert::FromSpecImpl<Ellipse> for DrawableShape {
    open spec fn obeys_from_spec() -> bool {
        true
    }

    open spec fn from_spec(ellipse: Ellipse) -> DrawableShape {
        DrawableShape::Ellipse(ellipse)
    }
}

impl DrawableShape {
    /// The style of whichever variant is held.
    pub open spec fn spec_style(self) -> ShapeStyle {
        match self {
            DrawableShape::Square(s) => s.style,
            DrawableShape::Rectangle(s) => s.style,
            DrawableShape::Circle(s) => s.style,
            DrawableShape::Ellipse(s) => s.style,
        }
    }

    /// The same variant with its style replaced.
    pub open spec fn spec_with_style(self, style: ShapeStyle) -> DrawableShape {
        match self {
            DrawableShape::Square(s) => DrawableShape::Square(Square { style, ..s }),
            DrawableShape::Rectangle(s) => DrawableShape::Rectangle(Square { style, ..s }),
            DrawableShape::Circle(s) => DrawableShape::Circle(Circle { style, ..s }),
            DrawableShape::Ellipse(s) => DrawableShape::Ellipse(Ellipse { style, ..s }),
        }
    }

    /// The name of the held variant.
    pub fn kind_name(&self) -> (r: &'static str)
        ensures
            self is Square ==> r@ == "Square"@,
            self is Rectangle ==> r@ == "Rectangle"@,
            self is Circle ==> r@ == "Circle"@,
            self is Ellipse ==> r@ == "Ellipse"@,
    {
        match self {
            DrawableShape::Square(_) => "Square",
            DrawableShape::Rectangle(_) => "Rectangle",
            DrawableShape::Circle(_) => "Circle",
            DrawableShape::Ellipse(_) => "Ellipse",
        }
    }
}

impl Shape for DrawableShape {
    open spec fn outline_spec(&self, cx: int, cy: int) -> Seq<(int, int)> {
        match self {
            DrawableShape::Square(s) => s.outline_spec(cx, cy),
            DrawableShape::Rectangle(s) => s.outline_spec(cx, cy),
            DrawableShape::Circle(s) => s.outline_spec(cx, cy),
            DrawableShape::Ellipse(s) => s.outline_spec(cx, cy),
        }
    }

    open spec fn origin_spec(&self) -> (int, int) {
        (0, 0)
    }

    open spec fn raster_ok(&self, cx: int, cy: int) -> bool {
        match self {
            DrawableShape::Square(s) => s.raster_ok(cx, cy),
            DrawableShape::Rectangle(s) => s.raster_ok(cx, cy),
            DrawableShape::Circle(s) => s.raster_ok(cx, cy),
            DrawableShape::Ellipse(s) => s.raster_ok(cx, cy),
        }
    }

    open spec fn style_spec(&self) -> ShapeStyle {
        self.spec_style()
    }

    fn write_outline_points_at(&self, buf: &mut Vec<PixelCoord>, center: PixelCoord) {
        match self {
            DrawableShape::Square(s) => s.write_outline_points_at(buf, center),
            DrawableShape::Rectangle(s) => s.write_outline_points_at(buf, center),
            DrawableShape::Circle(s) => s.write_outline_points_at(buf, center),
            DrawableShape::Ellipse(s) => s.write_outline_points_at(buf, center),
        }
    }

    fn to_outline_points(&self, center: PixelCoord) -> (r: Vec<PixelCoord>) {
        let mut points: Vec<PixelCoord> = Vec::new();
        self.write_outline_points_at(&mut points, center);
        proof {
            assert(view_points(points@)
                =~= self.outline_spec(center.0 as int, center.1 as int));
        }
        points
    }

    fn write_outline_points(&self, buf: &mut Vec<PixelCoord>) {
        self.write_outline_points_at(buf, (0, 0));
    }

    fn style(&self) -> (r: &ShapeStyle) {
        match self {
            DrawableShape::Square(s) => s.style(),
            DrawableShape::Rectangle(s) => s.style(),
            DrawableShape::Circle(s) => s.style(),
            DrawableShape::Ellipse(s) => s.style(),
        }
    }

    fn flood_fill(&self, outline_points: &[PixelCoord], buf: &mut Vec<PixelCoord>) -> (r: Result<(), ShapeError>) {
        Err(ShapeError::FillNotSupported)
    }
}

/// A drawable 2D object: a shape variant placed at a center.
pub struct ShapeObject {
    pub shape: DrawableShape,
    pub center: PixelCoord,
}

impl ShapeObject {
    fn new(shape: DrawableShape, center: PixelCoord) -> (r: Self)
        requires
            coord_ok(center.0 as int),
            coord_ok(center.1 as int),
        ensures
            r.shape == shape,
            r.center == center,
    {
        Self { shape, center }
    }

    /// Builds a square object.
    pub fn new_square(side: u32, center: PixelCoord) -> (r: Self)
        requires
            side <= COORD_LIMIT as u32,
            coord_ok(center.0 as int),
            coord_ok(center.1 as int),
        ensures
            r.center == center,
            r.shape matches DrawableShape::Square(s) && s.width == side && s.height == side
                && s.style.is_default_spec(),
    {
        let square = Square::new(side, side);
        Self::new(DrawableShape::from(square), center)
    }

    /// Builds a circular object.
    pub fn new_circle(radius: u32, center: PixelCoord) -> (r: Self)
        requires
            radius <= COORD_LIMIT as u32,
            coord_ok(center.0 as int),
            coord_ok(center.1 as int),
        ensures
            r.center == center,
            r.shape matches DrawableShape::Circle(c) && c.radius == radius
                && c.style.is_default_spec(),
    {
        let circle = Circle::new(radius);
        Self::new(DrawableShape::from(circle), center)
    }

    /// Builds an elliptic object; equal radii degenerate to a circle.
    pub fn new_ellipse(radius_x: u32, radius_y: u32, center: PixelCoord) -> (r: Self)
        requires
            radius_x <= ELLIPSE_RADIUS_LIMIT as u32,
            radius_y <= ELLIPSE_RADIUS_LIMIT as u32,
            coord_ok(center.0 as int),
            coord_ok(center.1 as int),
        ensures
            r.center == center,
            radius_x != radius_y ==> (r.shape matches DrawableShape::Ellipse(e)
                && e.radius_x == radius_x && e.radius_y == radius_y
                && e.style.is_default_spec()),
            radius_x == radius_y ==> (r.shape matches DrawableShape::Circle(c)
                && c.radius == radius_x && c.style.is_default_spec()),
    {
        match Ellipse::new(radius_x, radius_y) {
            Ok(ellipse) => Self::new(DrawableShape::from(ellipse), center),
            Err(circle) => Self::new(DrawableShape::from(circle), center),
        }
    }

    /// Builds a rectangular object; equal extents classify it as a square.
    pub fn new_rectangle(width: u32, height: u32, center: PixelCoord) -> (r: Self)
        requires
            width <= COORD_LIMIT as u32,
            height <= COORD_LIMIT as u32,
            coord_ok(center.0 as int),
            coord_ok(center.1 as int),
        ensures
            r.center == center,
            width == height ==> (r.shape matches DrawableShape::Square(s)
                && s.width == width && s.height == height && s.style.is_default_spec()),
            width != height ==> (r.shape matches DrawableShape::Rectangle(s)
                && s.width == width && s.height == height && s.style.is_default_spec()),
    {
        let rectangle = Square::new(width, height);
        Self::new(DrawableShape::from(rectangle), center)
    }

    /// Editable access to the style of the held shape.
    pub fn style_mut(&mut self) -> (r: &mut ShapeStyle)
        ensures
            *r == old(self).shape.spec_style(),
            final(self).center == old(self).center,
            final(self).shape == old(self).shape.spec_with_style(*final(r)),
    {
        match &mut self.shape {
            DrawableShape::Square(s) => &mut s.style,
            DrawableShape::Rectangle(s) => &mut s.style,
            DrawableShape::Circle(s) => &mut s.style,
            DrawableShape::Ellipse(s) => &mut s.style,
        }
    }

    /// The name of the shape variant this object holds.
    pub fn kind_name(&self) -> (r: &'static str)
        ensures
            self.shape is Square ==> r@ == "Square"@,
            self.shape is Rectangle ==> r@ == "Rectangle"@,
            self.shape is Circle ==> r@ == "Circle"@,
            self.shape is Ellipse ==> r@ == "Ellipse"@,
    {
        self.shape.kind_name()
    }
}

impl Shape for ShapeObject {
    open spec fn outline_spec(&self, cx: int, cy: int) -> Seq<(int, int)> {
        self.shape.outline_spec(cx, cy)
    }

    /// A placed object rasterizes around its own center by default.
    open spec fn origin_spec(&self) -> (int, int) {
        (self.center.0 as int, self.center.1 as int)
    }

    open spec fn raster_ok(&self, cx: int, cy: int) -> bool {
        self.shape.raster_ok(cx, cy)
    }

    open spec fn style_spec(&self) -> ShapeStyle {
        self.shape.spec_style()
    }

    fn write_outline_points_at(&self, buf: &mut Vec<PixelCoord>, center: PixelCoord) {
        self.shape.write_outline_points_at(buf, center);
    }

    fn to_outline_points(&self, center: PixelCoord) -> (r: Vec<PixelCoord>) {
        self.shape.to_outline_points(center)
    }

    fn write_outline_points(&self, buf: &mut Vec<PixelCoord>) {
        self.write_outline_points_at(buf, self.center);
    }

    fn style(&self) -> (r: &ShapeStyle) {
        self.shape.style()
    }

    fn flood_fill(&self, outline_points: &[PixelCoord], buf: &mut Vec<PixelCoord>) -> (r: Result<(), ShapeError>) {
        self.shape.flood_fill(outline_points, buf)
    }
}

} // verus!
