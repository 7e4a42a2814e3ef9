//! Small state machines of the editor user interface.
use vstd::prelude::*;

use crate::color::Color;

verus! {

/// Which drawable object of the interface is selected.
pub enum SelectedItem {
    /// No shape is selected.
    NoneSelected,
    /// Index of the selected shape.
    ShapeId(usize),
}

impl SelectedItem {
    pub fn as_mut_usize(&mut self) -> (r: Option<&mut usize>)
        ensures
            *old(self) is NoneSelected ==> r is None && *final(self) is NoneSelected,
            *old(self) matches SelectedItem::ShapeId(id) ==> r matches Some(inner)
                && *inner == id && *final(self) == SelectedItem::ShapeId(*final(inner)),
    {
        match self {
            SelectedItem::NoneSelected => None,
            SelectedItem::ShapeId(id) => Some(id),
        }
    }
}

/// What the color sliders are currently editing.
pub enum SliderEditor {
    /// Editing the window background color.
    Background,
    /// Editing the stroke color of a shape.
    Stroke,
    /// Editing the fill color of a shape.
    Fill,
    /// Nothing is selected for color editing.
    NoneSelected,
}

/// A color together with the choice between transparent and opaque.
#[derive(Clone, Copy)]
pub enum AlphaColoring {
    /// Invisible.
    Transparent(Color),
    /// Opaque color.
    Opaque(Color),
}

impl AlphaColoring {
    pub fn is_transparent(&self) -> (r: bool)
        ensures
            r == (self is Transparent),
    {
        match self {
            AlphaColoring::Transparent(_) => true,
            AlphaColoring::Opaque(_) => false,
        }
    }

    pub fn is_opaque(&self) -> (r: bool)
        ensures
            r == (self is Opaque),
    {
        match self {
            AlphaColoring::Transparent(_) => false,
            AlphaColoring::Opaque(_) => true,
        }
    }

    /// The color carried, whichever variant holds it.
    pub open spec fn spec_inner(self) -> Color {
        match self {
            AlphaColoring::Transparent(color) => color,
            AlphaColoring::Opaque(color) => color,
        }
    }

    pub fn as_inner(self) -> (r: Color)
        ensures
            r == self.spec_inner(),
    {
        match self {
            AlphaColoring::Transparent(color) => color,
            AlphaColoring::Opaque(color) => color,
        }
    }

    pub fn as_inner_ref(&self) -> (r: &Color)
        ensures
            *r == self.spec_inner(),
    {
        match self {
            AlphaColoring::Transparent(color) => color,
            AlphaColoring::Opaque(color) => color,
        }
    }

    pub fn as_inner_ref_mut(&mut self) -> (r: &mut Color)
        ensures
            *r == old(self).spec_inner(),
            *old(self) is Transparent ==> *final(self) == AlphaColoring::Transparent(*final(r)),
            *old(self) is Opaque ==> *final(self) == AlphaColoring::Opaque(*final(r)),
    {
        match self {
            AlphaColoring::Transparent(color) => color,
            AlphaColoring::Opaque(color) => color,
        }
    }

    pub fn as_slice(&self) -> (r: &[u8; 3])
        ensures
            *r == self.spec_inner().0,
    {
        self.as_inner_ref().as_slice()
    }
}

impl From<Color> for AlphaColoring {
    /// A bare color is taken as opaque.
    fn from(value: Color) -> (r: AlphaColoring) {
        AlphaColoring::Opaque(value)
    }
}

impl vstd::std_specs::convert::FromSpecImpl<Color> for AlphaColoring {
    open spec fn obeys_from_spec() -> bool {
        true
    }

    open spec fn from_spec(value: Color) -> AlphaColoring {
        AlphaColoring::Opaque(value)
    }
}

/// Bookkeeping of the window event loop: what the handler owes the
/// windowing system before the next wait.
pub struct AppHandler {
    pub request_redraw: bool,
    pub wait_cancelled: bool,
    pub close_requested: bool,
}

impl AppHandler {
    pub fn new(request_redraw: bool, wait_cancelled: bool, close_requested: bool) -> (r: Self)
        ensures
            r.request_redraw == request_redraw,
            r.wait_cancelled == wait_cancelled,
            r.close_requested == close_requested,
    {
        Self { request_redraw, wait_cancelled, close_requested }
    }

    /// Whether the event loop owes the window a redraw before it waits:
    /// one was requested, the wait was not cancelled, and the window is
    /// not closing.
    pub fn should_request_redraw(&self) -> (r: bool)
        ensures
            r == (self.request_redraw && !self.wait_cancelled && !self.close_requested),
    {
        self.request_redraw && !self.wait_cancelled && !self.close_requested
    }
}

} // verus!
