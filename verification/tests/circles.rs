use vaint::{circulo_punto_medio, write_circle_middle_point, Circulo, PixelCoord};

#[test]
fn unit_circle_has_four_distinct_points() {
    let mut points: Vec<PixelCoord> = Vec::new();
    write_circle_middle_point((0, 0), 1, &mut points);
    let mut distinct = points.clone();
    distinct.sort();
    distinct.dedup();
    assert_eq!(distinct, vec![(-1, 0), (0, -1), (0, 1), (1, 0)]);
}

#[test]
fn circle_point_count_is_a_multiple_of_eight() {
    for r in 1..30 {
        let mut points: Vec<PixelCoord> = Vec::new();
        write_circle_middle_point((0, 0), r, &mut points);
        assert!(points.len() > 0);
        assert_eq!(points.len() % 8, 0, "radius {}", r);
    }
}

#[test]
fn circle_points_stay_near_the_radius() {
    let (cx, cy, r): (i32, i32, i32) = (7, -4, 20);
    let mut points: Vec<PixelCoord> = Vec::new();
    write_circle_middle_point((cx, cy), r, &mut points);
    for (x, y) in points {
        let d2 = (x - cx) * (x - cx) + (y - cy) * (y - cy);
        assert!((r - 1) * (r - 1) <= d2, "({}, {}) fell inside the ring", x, y);
        assert!(d2 <= (r + 1) * (r + 1), "({}, {}) fell outside the ring", x, y);
    }
}

#[test]
fn circle_radius_five_exact_points() {
    let mut points: Vec<PixelCoord> = Vec::new();
    write_circle_middle_point((0, 0), 5, &mut points);
    let mut distinct = points;
    distinct.sort();
    distinct.dedup();
    let expected: Vec<PixelCoord> = vec![
        (-5, -2), (-5, -1), (-5, 0), (-5, 1), (-5, 2),
        (-4, -3), (-4, 3), (-3, -4), (-3, 4),
        (-2, -5), (-2, 5), (-1, -5), (-1, 5), (0, -5), (0, 5),
        (1, -5), (1, 5), (2, -5), (2, 5),
        (3, -4), (3, 4), (4, -3), (4, 3),
        (5, -2), (5, -1), (5, 0), (5, 1), (5, 2),
    ];
    assert_eq!(distinct, expected);
}

#[test]
fn circle_appends_after_existing_points() {
    let mut buf: Vec<PixelCoord> = vec![(1, 2)];
    write_circle_middle_point((0, 0), 1, &mut buf);
    assert_eq!(buf[0], (1, 2));
    assert_eq!(buf.len(), 17);
}

#[test]
fn circle_twice_gives_identical_output() {
    let mut first: Vec<PixelCoord> = Vec::new();
    let mut second: Vec<PixelCoord> = Vec::new();
    write_circle_middle_point((3, 9), 12, &mut first);
    write_circle_middle_point((3, 9), 12, &mut second);
    assert_eq!(first, second);
}

#[test]
fn circulo_punto_medio_returns_the_same_walk() {
    let r = 10;
    let points = circulo_punto_medio((0, 0), r);
    let mut written: Vec<PixelCoord> = Vec::new();
    write_circle_middle_point((0, 0), r, &mut written);
    assert_eq!(points, written);
    assert_eq!(points.len() % 8, 0);
    assert_eq!(points[0], (0, r));
    // All eight symmetric images stay about the single center.
    for (x, y) in points.iter() {
        assert!(points.contains(&(-x, *y)));
        assert!(points.contains(&(*x, -y)));
        assert!(points.contains(&(*y, *x)));
    }
    let points_again = circulo_punto_medio((0, 0), r);
    assert_eq!(points, points_again);
}

#[test]
fn zero_radius_circle_collapses_to_its_center() {
    let mut points: Vec<PixelCoord> = Vec::new();
    write_circle_middle_point((4, -7), 0, &mut points);
    assert_eq!(points.len(), 8);
    for p in points {
        assert_eq!(p, (4, -7));
    }
}

#[test]
fn large_radius_circle_stays_on_the_ring() {
    let r: i32 = 30000;
    let mut points: Vec<PixelCoord> = Vec::new();
    write_circle_middle_point((0, 0), r, &mut points);
    assert_eq!(points.len() % 8, 0);
    for (x, y) in points {
        let d2 = (x as i64) * (x as i64) + (y as i64) * (y as i64);
        let rl = (r - 1) as i64;
        let rh = (r + 1) as i64;
        assert!(rl * rl <= d2 && d2 <= rh * rh);
    }
}

#[test]
fn circulo_state_accessors() {
    let mut c = Circulo::new();
    assert_eq!(c.x(), 0);
    assert_eq!(c.y(), 0);
    c.set_coords((4, 9));
    assert_eq!(c.x(), 4);
    assert_eq!(c.y(), 9);
    *c.x_mut() += 1;
    *c.y_mut() -= 2;
    assert_eq!(c.x(), 5);
    assert_eq!(c.y(), 7);
}
