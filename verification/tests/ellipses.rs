use vaint::{write_ellipse_middle_point, Circle, DrawableShape, Ellipse, PixelCoord, ShapeObject};

#[test]
fn ellipse_four_by_two_exact_points() {
    let mut points: Vec<PixelCoord> = Vec::new();
    write_ellipse_middle_point((0, 0), 4, 2, &mut points);
    let expected: Vec<PixelCoord> = vec![
        (0, 2), (0, 2), (0, -2), (0, -2),
        (1, 2), (-1, 2), (1, -2), (-1, -2),
        (2, 2), (-2, 2), (2, -2), (-2, -2),
        (3, 1), (-3, 1), (3, -1), (-3, -1),
        (4, 0), (-4, 0), (4, 0), (-4, 0),
    ];
    assert_eq!(points, expected);
}

#[test]
fn ellipse_is_symmetric_about_both_axes() {
    let ratios: Vec<(i32, i32)> = vec![(4, 2), (2, 4), (7, 3), (3, 7), (5, 1), (1, 5), (9, 8)];
    let (cx, cy) = (13, -6);
    for (rx, ry) in ratios {
        let mut points: Vec<PixelCoord> = Vec::new();
        write_ellipse_middle_point((cx, cy), rx, ry, &mut points);
        for (x, y) in points.iter() {
            let mirror_x = (2 * cx - x, *y);
            let mirror_y = (*x, 2 * cy - y);
            assert!(points.contains(&mirror_x), "({}, {}) lacks its x mirror for {}:{}", x, y, rx, ry);
            assert!(points.contains(&mirror_y), "({}, {}) lacks its y mirror for {}:{}", x, y, rx, ry);
        }
    }
}

#[test]
fn ellipse_covers_both_semi_axes() {
    // Boundary crossing between the two regions must reach both extremes.
    let ratios: Vec<(i32, i32)> = vec![(4, 2), (7, 3), (8, 5), (6, 5), (5, 6)];
    for (rx, ry) in ratios {
        let mut points: Vec<PixelCoord> = Vec::new();
        write_ellipse_middle_point((0, 0), rx, ry, &mut points);
        assert!(points.contains(&(0, ry)), "missing top for {}:{}", rx, ry);
        assert!(points.contains(&(0, -ry)), "missing bottom for {}:{}", rx, ry);
        assert!(points.contains(&(rx, 0)), "missing right for {}:{}", rx, ry);
        assert!(points.contains(&(-rx, 0)), "missing left for {}:{}", rx, ry);
    }
}

#[test]
fn ellipse_twice_gives_identical_output() {
    let mut first: Vec<PixelCoord> = Vec::new();
    let mut second: Vec<PixelCoord> = Vec::new();
    write_ellipse_middle_point((-2, 5), 9, 4, &mut first);
    write_ellipse_middle_point((-2, 5), 9, 4, &mut second);
    assert_eq!(first, second);
}

#[test]
fn equal_radii_degrade_to_a_circle() {
    let r = Ellipse::new(5, 5);
    match r {
        Err(circle) => assert_eq!(circle.radius, 5),
        Ok(_) => panic!("equal radii must not build an ellipse"),
    }
    let r = Ellipse::new(5, 6);
    assert!(matches!(r, Ok(_)));
    let e = r.unwrap_or(Ellipse { radius_x: 0, radius_y: 0, style: vaint::ShapeStyle::new() });
    assert_eq!(e.radius_x, 5);
    assert_eq!(e.radius_y, 6);
}

#[test]
fn ellipse_object_with_equal_radii_holds_a_circle() {
    let obj = ShapeObject::new_ellipse(7, 7, (0, 0));
    match obj.shape {
        DrawableShape::Circle(Circle { radius, .. }) => assert_eq!(radius, 7),
        _ => panic!("equal radii must place a circle in the object"),
    }
    let obj = ShapeObject::new_ellipse(7, 9, (0, 0));
    assert!(matches!(obj.shape, DrawableShape::Ellipse(_)));
}

#[test]
fn degenerate_flat_ellipses() {
    let mut points: Vec<PixelCoord> = Vec::new();
    write_ellipse_middle_point((0, 0), 3, 0, &mut points);
    assert!(points.len() >= 4);
    for (_, y) in points.iter() {
        assert_eq!(*y, 0);
    }
    let mut points: Vec<PixelCoord> = Vec::new();
    write_ellipse_middle_point((0, 0), 0, 3, &mut points);
    for (x, _) in points.iter() {
        assert_eq!(*x, 0);
    }
}
