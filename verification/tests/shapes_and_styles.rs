use vaint::{Color, PixelCoord, Shape, ShapeError, ShapeObject, ShapeStyle, Square};

#[test]
fn converts_u32_to_rgb() {
    let color = Color::from_u32_rgb(0xFF007F);
    assert_eq!(color, Color([255, 0, 127]));
}

#[test]
fn color_channel_updates() {
    let mut color = Color::from_rgb(1, 2, 3);
    color.update_red(10);
    color.update_green(20);
    color.update_blue(30);
    assert_eq!(color, Color([10, 20, 30]));
    assert_eq!(*color.as_slice(), [10, 20, 30]);
    color.as_mut_slice()[1] = 99;
    assert_eq!(color, Color([10, 99, 30]));
}

#[test]
fn default_style_is_a_thin_dark_stroke() {
    let style = ShapeStyle::default();
    assert_eq!(style.stroke_color, Some(Color([0x33, 0x33, 0x33])));
    assert_eq!(style.fill_color, None);
    assert_eq!(style.stroke_width, 1);
}

#[test]
fn style_builders_replace_one_field_each() {
    let style = ShapeStyle::new()
        .stroke_color(Color::from_rgb(1, 2, 3))
        .fill_color(Color::from_rgb(4, 5, 6))
        .stroke_width(7);
    assert_eq!(style.stroke_color, Some(Color([1, 2, 3])));
    assert_eq!(style.fill_color, Some(Color([4, 5, 6])));
    assert_eq!(style.stroke_width, 7);
}

#[test]
fn transparency_cases() {
    let bare = ShapeStyle { stroke_color: None, fill_color: None, stroke_width: 5 };
    assert!(bare.is_transparent());
    let zero_width = ShapeStyle {
        stroke_color: Some(Color([1, 2, 3])),
        fill_color: None,
        stroke_width: 0,
    };
    assert!(zero_width.is_transparent());
    let filled = ShapeStyle {
        stroke_color: None,
        fill_color: Some(Color([1, 2, 3])),
        stroke_width: 0,
    };
    assert!(!filled.is_transparent());
    assert!(!ShapeStyle::new().is_transparent());
}

#[test]
fn shape_style_builders_replace_the_style() {
    let st = ShapeStyle::new().stroke_width(9);
    let sq = Square::new(3, 4).style(st);
    assert_eq!(sq.width, 3);
    assert_eq!(sq.height, 4);
    assert_eq!(sq.style.stroke_width, 9);
    let c = vaint::Circle::new(5).style(st);
    assert_eq!(c.radius, 5);
    assert_eq!(c.style.stroke_width, 9);
    let e = match vaint::Ellipse::new(2, 3) {
        Ok(e) => e.style(st),
        Err(_) => panic!("distinct radii must build an ellipse"),
    };
    assert_eq!((e.radius_x, e.radius_y), (2, 3));
    assert_eq!(e.style.stroke_width, 9);
}

#[test]
fn square_reports_itself_by_extent() {
    let square = ShapeObject::new_square(10, (0, 0));
    assert_eq!(square.kind_name(), "Square");
    let rectangle = ShapeObject::new_rectangle(10, 20, (0, 0));
    assert_eq!(rectangle.kind_name(), "Rectangle");
    let square_again = ShapeObject::new_rectangle(10, 10, (0, 0));
    assert_eq!(square_again.kind_name(), "Square");
    let circle = ShapeObject::new_circle(4, (0, 0));
    assert_eq!(circle.kind_name(), "Circle");
    let ellipse = ShapeObject::new_ellipse(4, 2, (0, 0));
    assert_eq!(ellipse.kind_name(), "Ellipse");
}

#[test]
fn square_and_rectangle_share_outline_generation() {
    // The square/rectangle label is only a classification: the outline of
    // a 10 by 20 rectangle equals the outline of the plain shape with the
    // same extents, and a 10 by 10 rectangle draws like a square.
    let rectangle = ShapeObject::new_rectangle(10, 20, (5, 5));
    let direct = Square::new(10, 20);
    let mut from_object: Vec<PixelCoord> = Vec::new();
    rectangle.write_outline_points(&mut from_object);
    let from_shape = direct.to_outline_points((5, 5));
    assert_eq!(from_object, from_shape);

    let square_object = ShapeObject::new_square(10, (5, 5));
    let square_as_rect = ShapeObject::new_rectangle(10, 10, (5, 5));
    let mut a: Vec<PixelCoord> = Vec::new();
    let mut b: Vec<PixelCoord> = Vec::new();
    square_object.write_outline_points(&mut a);
    square_as_rect.write_outline_points(&mut b);
    assert_eq!(a, b);
}

#[test]
fn square_outline_walks_all_four_edges() {
    let square = Square::new(4, 4);
    let points = square.to_outline_points((5, 5));
    // Corner at (3, 3); every outline pixel sits on the boundary of the
    // 4-pixel-wide box.
    assert_eq!(points.len(), 2 * 5 + 2 * 5);
    for (x, y) in points {
        assert!((3..=7).contains(&x) && (3..=7).contains(&y));
        assert!(x == 3 || x == 7 || y == 3 || y == 7);
    }
}

#[test]
fn zero_size_square_emits_its_corner() {
    let square = Square::new(0, 0);
    let points = square.to_outline_points((5, 5));
    assert_eq!(points, vec![(5, 5), (5, 5), (5, 5), (5, 5)]);
}

#[test]
fn object_outline_uses_its_own_center() {
    let at_origin = ShapeObject::new_circle(3, (0, 0));
    let moved = ShapeObject::new_circle(3, (10, 10));
    let mut a: Vec<PixelCoord> = Vec::new();
    let mut b: Vec<PixelCoord> = Vec::new();
    at_origin.write_outline_points(&mut a);
    moved.write_outline_points(&mut b);
    assert_eq!(a.len(), b.len());
    for i in 0..a.len() {
        assert_eq!((a[i].0 + 10, a[i].1 + 10), b[i]);
    }
}

#[test]
fn style_mut_edits_the_held_shape() {
    let mut object = ShapeObject::new_square(10, (0, 0));
    let updated = (*object.style_mut())
        .stroke_color(Color::from_rgb(9, 9, 9))
        .stroke_width(3)
        .fill_color(Color::from_rgb(1, 1, 1));
    *object.style_mut() = updated;
    let style = Shape::style(&object);
    assert_eq!(style.stroke_color, Some(Color([9, 9, 9])));
    assert_eq!(style.fill_color, Some(Color([1, 1, 1])));
    assert_eq!(style.stroke_width, 3);
}

#[test]
fn shape_fill_capability_is_not_supported() {
    let object = ShapeObject::new_circle(3, (0, 0));
    let outline = object.to_outline_points((0, 0));
    let mut buf: Vec<PixelCoord> = Vec::new();
    let r = object.flood_fill(&outline, &mut buf);
    assert_eq!(r, Err(ShapeError::FillNotSupported));
    assert!(buf.is_empty());
}
