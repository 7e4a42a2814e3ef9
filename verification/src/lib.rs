//! A small 2D drawing core: integer rasterization of lines, circles,
//! ellipses and rectangles, plus a scanline fill, with the shape and
//! style types that a rendering front end consumes.
pub mod circle;
pub mod color;
pub mod coord;
pub mod ellipse;
pub mod fill;
pub mod line;
pub mod shapes;
pub mod states;
pub mod style;

pub use circle::{circulo_punto_medio, write_circle_middle_point, Circulo};
pub use color::Color;
pub use coord::PixelCoord;
pub use ellipse::write_ellipse_middle_point;
pub use fill::flood_fill;
pub use line::{bresenham, dda, h_bressenham, v_bressenham, write_dda};
pub use shapes::{Circle, DrawableShape, Ellipse, Figura, Shape, ShapeError, ShapeObject, Square};
pub use states::{AlphaColoring, AppHandler, SelectedItem, SliderEditor};
pub use style::ShapeStyle;
