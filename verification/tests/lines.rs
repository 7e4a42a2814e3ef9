use vaint::{bresenham, dda, h_bressenham, v_bressenham, write_dda, PixelCoord};

fn compare(mut a_points: Vec<PixelCoord>, mut b_points: Vec<PixelCoord>) {
    a_points.sort();
    b_points.sort();
    assert_eq!(a_points.len(), b_points.len(), "the two point lists differ in length");
    let longest = a_points.len().max(b_points.len());
    let mut errors = 0;
    for idx in 0..longest {
        let i = a_points.get(idx);
        let j = b_points.get(idx);
        if i != j {
            errors += 1;
        }
    }
    if errors > longest * 5 / 100 {
        panic!("the point lists disagree in {} of {} places", errors, longest);
    }
}

#[test]
fn bress_360deg() {
    let p0 = (10, 0);
    let p1 = (219, 0);
    let b_points = bresenham(p0, p1);
    let d_points = dda(p0, p1);
    compare(b_points, d_points);
}

#[test]
fn bress_15deg() {
    let p0 = (10, 3);
    let p1 = (208, 56);
    let b_points = bresenham(p0, p1);
    let d_points = dda(p0, p1);
    compare(b_points, d_points);
}

#[test]
fn bress_45deg() {
    let p0 = (10, 0);
    let p1 = (210, 200);
    let b_points = bresenham(p0, p1);
    let d_points = dda(p0, p1);
    compare(b_points, d_points);
}

#[test]
fn bress_60deg() {
    let p0 = (0, -173);
    let p1 = (100, 0);
    let b_points = bresenham(p0, p1);
    let d_points = dda(p0, p1);
    compare(b_points, d_points);
}

#[test]
fn bress_90deg() {
    let p0 = (0, 0);
    let p1 = (0, -200);
    let b_points = bresenham(p0, p1);
    let d_points = dda(p0, p1);
    compare(b_points, d_points);
}

#[test]
fn bress_120deg() {
    let p0 = (100, 0);
    let p1 = (0, -173);
    let b_points = bresenham(p0, p1);
    let d_points = dda(p0, p1);
    compare(b_points, d_points);
}

#[test]
fn bress_165deg() {
    let p0 = (208, 3);
    let p1 = (10, 56);
    let b_points = bresenham(p0, p1);
    let d_points = dda(p0, p1);
    compare(b_points, d_points);
}

#[test]
fn bress_180deg() {
    let p0 = (219, 555);
    let p1 = (10, 555);
    let b_points = bresenham(p0, p1);
    let d_points = dda(p0, p1);
    compare(b_points, d_points);
}

#[test]
fn bress_195deg() {
    let p0 = (208, 3);
    let p1 = (10, 56);
    let b_points = bresenham(p0, p1);
    let d_points = dda(p0, p1);
    compare(b_points, d_points);
}

#[test]
fn bress_225deg() {
    let p0 = (210, 200);
    let p1 = (10, 0);
    let b_points = bresenham(p0, p1);
    let d_points = dda(p0, p1);
    compare(b_points, d_points);
}

#[test]
fn bress_240deg() {
    let p0 = (100, 173);
    let p1 = (0, 0);
    let b_points = bresenham(p0, p1);
    let d_points = dda(p0, p1);
    compare(b_points, d_points);
}

#[test]
fn bress_270deg() {
    let p0 = (0, 200);
    let p1 = (0, 0);
    let b_points = bresenham(p0, p1);
    let d_points = dda(p0, p1);
    compare(b_points, d_points);
}

#[test]
fn bress_300deg() {
    let p0 = (0, 173);
    let p1 = (100, 0);
    let b_points = bresenham(p0, p1);
    let d_points = dda(p0, p1);
    compare(b_points, d_points);
}

#[test]
fn bress_315deg() {
    let p0 = (10, 200);
    let p1 = (210, 0);
    let b_points = bresenham(p0, p1);
    let d_points = dda(p0, p1);
    compare(b_points, d_points);
}

#[test]
fn bress_345deg() {
    let p0 = (10, 56);
    let p1 = (208, 3);
    let b_points = bresenham(p0, p1);
    let d_points = dda(p0, p1);
    compare(b_points, d_points);
}

#[test]
fn dda_horizontal_five_points() {
    let points = dda((0, 0), (4, 0));
    assert_eq!(points, vec![(0, 0), (1, 0), (2, 0), (3, 0), (4, 0)]);
}

#[test]
fn dda_single_point_for_zero_length() {
    let points = dda((7, -3), (7, -3));
    assert_eq!(points, vec![(7, -3)]);
}

#[test]
fn dda_endpoints_and_steps() {
    let cases: Vec<(PixelCoord, PixelCoord)> = vec![
        ((0, 0), (10, 3)),
        ((-5, 7), (12, -9)),
        ((3, 3), (-8, 20)),
        ((100, -50), (-100, 50)),
    ];
    for (p0, p1) in cases {
        let points = dda(p0, p1);
        assert_eq!(*points.first().unwrap(), p0);
        assert_eq!(*points.last().unwrap(), p1);
        for w in points.windows(2) {
            assert!((w[1].0 - w[0].0).abs() <= 1, "gap on the x axis");
            assert!((w[1].1 - w[0].1).abs() <= 1, "gap on the y axis");
        }
    }
}

#[test]
fn write_dda_appends_after_existing_points() {
    let mut buf: Vec<PixelCoord> = vec![(99, 99)];
    write_dda((0, 0), (2, 2), &mut buf);
    assert_eq!(buf, vec![(99, 99), (0, 0), (1, 1), (2, 2)]);
}

#[test]
fn h_bressenham_shallow_slope_exact_points() {
    let points = h_bressenham((0, 0), (4, 2));
    assert_eq!(points, vec![(0, 0), (1, 1), (2, 1), (3, 2), (4, 2)]);
}

#[test]
fn v_bressenham_steep_slope_exact_points() {
    let points = v_bressenham((0, 0), (2, 4));
    assert_eq!(points, vec![(0, 0), (1, 1), (1, 2), (2, 3), (2, 4)]);
}

#[test]
fn bresenham_picks_the_dominant_axis() {
    // Shallow segments walk x, steep ones walk y with the ends exchanged.
    assert_eq!(bresenham((0, 0), (4, 2)), h_bressenham((0, 0), (4, 2)));
    assert_eq!(bresenham((0, 0), (2, 4)), v_bressenham((2, 4), (0, 0)));
}

#[test]
fn dda_twice_gives_identical_output() {
    let first = dda((3, -2), (40, 17));
    let second = dda((3, -2), (40, 17));
    assert_eq!(first, second);
}
