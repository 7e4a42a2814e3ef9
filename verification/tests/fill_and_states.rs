use vaint::{
    flood_fill, write_circle_middle_point, AlphaColoring, AppHandler, Color, PixelCoord,
    SelectedItem, Shape, ShapeObject, Square,
};

#[test]
fn redraw_is_owed_only_when_requested_and_still_wanted() {
    assert!(AppHandler::new(true, false, false).should_request_redraw());
    assert!(!AppHandler::new(false, false, false).should_request_redraw());
    assert!(!AppHandler::new(true, true, false).should_request_redraw());
    assert!(!AppHandler::new(true, false, true).should_request_redraw());
}

#[test]
fn empty_outline_fills_nothing() {
    let outline: Vec<PixelCoord> = Vec::new();
    let mut interior: Vec<PixelCoord> = Vec::new();
    flood_fill(&outline, (100, 100), &mut interior);
    assert!(interior.is_empty());
}

#[test]
fn square_outline_fills_its_interior_exactly() {
    let square = Square::new(4, 4);
    let outline = square.to_outline_points((5, 5));
    let mut interior: Vec<PixelCoord> = Vec::new();
    flood_fill(&outline, (11, 11), &mut interior);
    let expected: Vec<PixelCoord> = vec![
        (4, 4), (5, 4), (6, 4),
        (4, 5), (5, 5), (6, 5),
        (4, 6), (5, 6), (6, 6),
    ];
    assert_eq!(interior, expected);
}

#[test]
fn circle_outline_fills_its_interior_exactly() {
    let mut outline: Vec<PixelCoord> = Vec::new();
    write_circle_middle_point((5, 5), 3, &mut outline);
    let mut interior: Vec<PixelCoord> = Vec::new();
    flood_fill(&outline, (11, 11), &mut interior);
    let mut got = interior;
    got.sort();
    let expected: Vec<PixelCoord> = vec![
        (3, 4), (3, 5), (3, 6),
        (4, 3), (4, 4), (4, 5), (4, 6), (4, 7),
        (5, 3), (5, 4), (5, 5), (5, 6), (5, 7),
        (6, 3), (6, 4), (6, 5), (6, 6), (6, 7),
        (7, 4), (7, 5), (7, 6),
    ];
    assert_eq!(got, expected);
}

#[test]
fn fill_never_writes_outline_or_out_of_bounds_pixels() {
    let mut outline: Vec<PixelCoord> = Vec::new();
    write_circle_middle_point((2, 2), 4, &mut outline);
    let mut interior: Vec<PixelCoord> = Vec::new();
    flood_fill(&outline, (6, 6), &mut interior);
    for p in interior.iter() {
        assert!((0..6).contains(&p.0) && (0..6).contains(&p.1));
        assert!(!outline.contains(p));
    }
}

#[test]
fn fill_twice_gives_identical_output() {
    let mut outline: Vec<PixelCoord> = Vec::new();
    write_circle_middle_point((8, 8), 5, &mut outline);
    let mut first: Vec<PixelCoord> = Vec::new();
    let mut second: Vec<PixelCoord> = Vec::new();
    flood_fill(&outline, (20, 20), &mut first);
    flood_fill(&outline, (20, 20), &mut second);
    assert_eq!(first, second);
    assert!(!first.is_empty());
}

#[test]
fn fill_does_not_mutate_the_outline() {
    let square = Square::new(4, 4);
    let outline = square.to_outline_points((5, 5));
    let copy = outline.clone();
    let mut interior: Vec<PixelCoord> = Vec::new();
    flood_fill(&outline, (11, 11), &mut interior);
    assert_eq!(outline, copy);
}

#[test]
fn rasterization_appends_to_a_caller_owned_buffer() {
    let object = ShapeObject::new_circle(2, (4, 4));
    let mut buf: Vec<PixelCoord> = vec![(0, 0)];
    object.write_outline_points(&mut buf);
    assert_eq!(buf[0], (0, 0));
    assert!(buf.len() > 1);
}

#[test]
fn selected_item_exposes_its_index_mutably() {
    let mut selected = SelectedItem::ShapeId(4);
    match selected.as_mut_usize() {
        Some(id) => *id = 9,
        None => panic!("a selected shape must expose its index"),
    }
    assert!(matches!(selected, SelectedItem::ShapeId(9)));
    let mut empty = SelectedItem::NoneSelected;
    assert!(matches!(empty.as_mut_usize(), None));
}

#[test]
fn alpha_coloring_distinguishes_transparency() {
    let t = AlphaColoring::Transparent(Color::from_rgb(1, 2, 3));
    let o = AlphaColoring::Opaque(Color::from_rgb(4, 5, 6));
    assert!(t.is_transparent() && !t.is_opaque());
    assert!(o.is_opaque() && !o.is_transparent());
    assert_eq!(t.as_inner(), Color([1, 2, 3]));
    assert_eq!(*o.as_inner_ref(), Color([4, 5, 6]));
    assert_eq!(*o.as_slice(), [4, 5, 6]);
    let mut m = AlphaColoring::Opaque(Color::from_rgb(7, 7, 7));
    m.as_inner_ref_mut().update_red(0);
    assert_eq!(m.as_inner(), Color([0, 7, 7]));
}
