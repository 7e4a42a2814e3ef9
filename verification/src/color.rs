//! 8-bit RGB color values.
use vstd::prelude::*;

verus! {

/// An RGB color with three 8-bit channels and no alpha.
#[derive(Debug, Clone, Copy)]
pub struct Color(pub [u8; 3]);

impl PartialEq for Color {
    fn eq(&self, other: &Color) -> (r: bool) {
        self.0[0] == other.0[0] && self.0[1] == other.0[1] && self.0[2] == other.0[2]
    }
}

impl Eq for Color {}

impl vstd::std_specs::cmp::PartialEqSpecImpl for Color {
    open spec fn obeys_eq_spec() -> bool {
        true
    }

    open spec fn eq_spec(&self, other: &Color) -> bool {
        self.0[0] == other.0[0] && self.0[1] == other.0[1] && self.0[2] == other.0[2]
    }
}

impl Color {
    /// Builds a color from a packed `0RGB` 32-bit integer.
    ///
    /// The top byte must be zero: a value carrying alpha bits is rejected by
    /// the precondition, mirroring the format check callers rely on.
    pub fn from_u32_rgb(value: u32) -> (r: Color)
        requires
            value >> 24 == 0,
        ensures
            r.0[0] == ((value >> 16) & 0xFF) as u8,
            r.0[1] == ((value >> 8) & 0xFF) as u8,
            r.0[2] == (value & 0xFF) as u8,
    {
        let red = ((value >> 16) & 0xFF) as u8;
        let green = ((value >> 8) & 0xFF) as u8;
        let blue = (value & 0xFF) as u8;
        Color([red, green, blue])
    }

    /// Builds a color from its three channels.
    pub fn from_rgb(r: u8, g: u8, b: u8) -> (c: Color)
        ensures
            c.0[0] == r,
            c.0[1] == g,
            c.0[2] == b,
    {
        Color([r, g, b])
    }

    /// The default stroke color of a freshly built style.
    pub fn black() -> (c: Color)
        ensures
            c.0[0] == 0x33,
            c.0[1] == 0x33,
            c.0[2] == 0x33,
    {
        Color([0x33, 0x33, 0x33])
    }

    pub fn update_red(&mut self, value: u8)
        ensures
            final(self).0[0] == value,
            final(self).0[1] == old(self).0[1],
            final(self).0[2] == old(self).0[2],
    {
        self.0[0] = value;
    }

    pub fn update_green(&mut self, value: u8)
        ensures
            final(self).0[0] == old(self).0[0],
            final(self).0[1] == value,
            final(self).0[2] == old(self).0[2],
    {
        self.0[1] = value;
    }

    pub fn update_blue(&mut self, value: u8)
        ensures
            final(self).0[0] == old(self).0[0],
            final(self).0[1] == old(self).0[1],
            final(self).0[2] == value,
    {
        self.0[2] = value;
    }

    pub fn as_mut_slice(&mut self) -> (r: &mut [u8; 3])
        ensures
            *r == old(self).0,
            final(self).0 == *final(r),
    {
        &mut self.0
    }

    pub fn as_slice(&self) -> (r: &[u8; 3])
        ensures
            *r == self.0,
    {
        &self.0
    }
}

impl From<[u8; 3]> for Color {
    fn from(value: [u8; 3]) -> (c: Color) {
        Color(value)
    }
}

impl vstd::std_specs::convert::FromSpecImpl<[u8; 3]> for Color {
    open spec fn obeys_from_spec() -> bool {
        true
    }

    open spec fn from_spec(value: [u8; 3]) -> Color {
        Color(value)
    }
}

impl From<(u8, u8, u8)> for Color {
    fn from(value: (u8, u8, u8)) -> (c: Color) {
        Color([value.0, value.1, value.2])
    }
}

impl vstd::std_specs::convert::FromSpecImpl<(u8, u8, u8)> for Color {
    open spec fn obeys_from_spec() -> bool {
        true
    }

    open spec fn from_spec(value: (u8, u8, u8)) -> Color {
        Color([value.0, value.1, value.2])
    }
}

} // verus!
