//! Stroke and fill styling of a shape.
use vstd::prelude::*;

use crate::color::Color;

verus! {

/// The visual style of a geometric shape: optional stroke and fill colors,
/// and a non-negative stroke width in pixels.
#[derive(Clone, Copy)]
pub struct ShapeStyle {
    /// Color of the shape outline; `None` means an invisible outline.
    pub stroke_color: Option<Color>,
    /// Color of the shape interior; `None` means an unfilled interior.
    pub fill_color: Option<Color>,
    /// Thickness of the outline, in pixels.
    pub stroke_width: u32,
}

impl ShapeStyle {
    /// Whether this style draws nothing at all: no colors, or a stroke of
    /// width zero with no fill behind it.
    pub open spec fn spec_is_transparent(self) -> bool {
        (self.stroke_color is None && self.fill_color is None)
            || (self.stroke_color is Some && self.fill_color is None && self.stroke_width == 0)
    }

    /// The style every shape starts with: a thin dark-gray stroke and no
    /// fill.
    pub open spec fn is_default_spec(self) -> bool {
        &&& self.stroke_color matches Some(c) && c.0[0] == 0x33 && c.0[1] == 0x33 && c.0[2] == 0x33
        &&& self.fill_color is None
        &&& self.stroke_width == 1
    }

    pub fn new() -> (s: Self)
        ensures
            s.is_default_spec(),
    {
        Self { stroke_color: Some(Color::black()), fill_color: None, stroke_width: 1 }
    }

    /// Replaces the stroke width, leaving the colors as they are.
    pub fn stroke_width(self, width: u32) -> (s: Self)
        ensures
            s.stroke_width == width,
            s.stroke_color == self.stroke_color,
            s.fill_color == self.fill_color,
    {
        Self { stroke_width: width, ..self }
    }

    /// Replaces the stroke color, leaving the rest as it is.
    pub fn stroke_color(self, color: Color) -> (s: Self)
        ensures
            s.stroke_color == Some(color),
            s.fill_color == self.fill_color,
            s.stroke_width == self.stroke_width,
    {
        Self { stroke_color: Some(color), ..self }
    }

    /// Replaces the fill color, leaving the rest as it is.
    pub fn fill_color(self, color: Color) -> (s: Self)
        ensures
            s.fill_color == Some(color),
            s.stroke_color == self.stroke_color,
            s.stroke_width == self.stroke_width,
    {
        Self { fill_color: Some(color), ..self }
    }

    /// Whether the style can only produce an invisible shape.
    pub fn is_transparent(&self) -> (r: bool)
        ensures
            r == self.spec_is_transparent(),
    {
        match self {
            Self { stroke_color: None, fill_color: None, .. } => true,
            Self { stroke_color: Some(_), fill_color: None, stroke_width: 0 } => true,
            _ => false,
        }
    }
}

impl Default for ShapeStyle {
    fn default() -> (s: Self)
        ensures
            s.is_default_spec(),
    {
        Self::new()
    }
}

} // verus!
