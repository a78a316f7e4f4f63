use graphed::coordinate::PixelCoordinate2D;
use graphed::raster::{circle_points, dashed_line, MAX_RADIUS};

fn point(x: i32, y: i32) -> PixelCoordinate2D {
    PixelCoordinate2D::new(x, y)
}

fn pairs(points: &[PixelCoordinate2D]) -> Vec<(i32, i32)> {
    points.iter().map(|p| (p.x, p.y)).collect()
}

fn segments(
    from: (i32, i32),
    to: (i32, i32),
    blank_step: u32,
    dash_step: u32,
) -> Vec<((i32, i32), (i32, i32))> {
    dashed_line(point(from.0, from.1), point(to.0, to.1), blank_step, dash_step)
        .iter()
        .map(|(a, b)| ((a.x, a.y), (b.x, b.y)))
        .collect()
}

#[test]
fn a_circle_of_radius_zero_is_its_centre() {
    assert_eq!(pairs(&circle_points(point(10, 20), 0)), vec![(10, 20); 8]);
}

#[test]
fn a_circle_of_radius_one() {
    assert_eq!(
        pairs(&circle_points(point(10, 20), 1)),
        vec![(10, 21), (10, 19), (10, 21), (10, 19), (11, 20), (11, 20), (9, 20), (9, 20)]
    );
}

#[test]
fn a_circle_of_radius_two() {
    assert_eq!(
        pairs(&circle_points(point(10, 20), 2)),
        vec![
            (10, 22),
            (10, 18),
            (10, 22),
            (10, 18),
            (12, 20),
            (12, 20),
            (8, 20),
            (8, 20),
            (11, 22),
            (11, 18),
            (9, 22),
            (9, 18),
            (12, 21),
            (12, 19),
            (8, 21),
            (8, 19),
        ]
    );
}

#[test]
fn a_circle_of_radius_three_steps_down_at_the_diagonal() {
    let points = pairs(&circle_points(point(10, 20), 3));
    assert_eq!(points.len(), 24);
    assert_eq!(&points[8..12], &[(11, 23), (11, 17), (9, 23), (9, 17)]);
    assert_eq!(&points[16..20], &[(12, 22), (12, 18), (8, 22), (8, 18)]);
    assert_eq!(&points[20..24], &[(12, 22), (12, 18), (8, 22), (8, 18)]);
}

#[test]
fn a_vertex_circle_stays_close_to_its_radius() {
    let points = circle_points(point(350, 350), 20);
    assert_eq!(points.len(), 120);
    assert_eq!(pairs(&points[112..116]), vec![(364, 364), (364, 336), (336, 364), (336, 336)]);
    for p in &points {
        let dx = (p.x - 350) as i64;
        let dy = (p.y - 350) as i64;
        let off = dx * dx + dy * dy - 400;
        assert!((-40..=40).contains(&off), "{:?}", p);
    }
}

#[test]
fn circles_at_the_rim_of_the_grid() {
    let points = circle_points(point(i32::MAX - 2, i32::MIN + 2), 2);
    assert_eq!(points.len(), 16);
    assert!(points.iter().any(|p| p.x == i32::MAX));
    assert!(points.iter().any(|p| p.y == i32::MIN));
    assert_eq!(MAX_RADIUS, 500_000_000);
}

#[test]
fn dashes_follow_blanks_along_a_line_across() {
    assert_eq!(
        segments((0, 5), (100, 5), 15, 20),
        vec![((15, 5), (35, 5)), ((50, 5), (70, 5))]
    );
}

#[test]
fn dashes_follow_blanks_along_a_line_down() {
    assert_eq!(
        segments((7, 0), (7, 100), 15, 20),
        vec![((7, 15), (7, 35)), ((7, 50), (7, 70))]
    );
}

#[test]
fn dashes_run_to_the_right_whatever_the_side_of_the_target() {
    assert_eq!(
        segments((100, 5), (0, 5), 15, 20),
        vec![((115, 5), (135, 5)), ((150, 5), (170, 5))]
    );
}

#[test]
fn a_diagonal_is_dashed_downwards() {
    assert_eq!(
        segments((0, 0), (30, 30), 5, 5),
        vec![((0, 5), (0, 10)), ((0, 15), (0, 20)), ((0, 25), (0, 30))]
    );
}

#[test]
fn only_whole_periods_are_dashed() {
    assert_eq!(segments((0, 0), (34, 0), 15, 20), vec![]);
    assert_eq!(segments((0, 0), (35, 0), 15, 20), vec![((15, 0), (35, 0))]);
    assert_eq!(segments((3, 4), (3, 4), 1, 1), vec![]);
}

#[test]
fn a_dash_or_a_blank_may_have_no_length() {
    assert_eq!(segments((0, 0), (10, 0), 0, 5), vec![((0, 0), (5, 0)), ((5, 0), (10, 0))]);
    assert_eq!(segments((0, 0), (10, 0), 5, 0), vec![((5, 0), (5, 0)), ((10, 0), (10, 0))]);
}

#[test]
fn dashes_across_the_whole_grid() {
    let dashes = segments((i32::MIN, 0), (-1, 0), u32::MAX, u32::MAX);
    assert_eq!(dashes, vec![]);
    let dashes = segments((i32::MIN, 0), (i32::MAX, 0), 1 << 30, 1 << 30);
    assert_eq!(dashes, vec![((-(1 << 30), 0), (0, 0))]);
}

#[test]
fn a_circle_off_the_grid_is_refused() {
    assert!(graphed::raster::try_circle_points(point(i32::MAX - 1, 0), 2).is_none());
    assert!(graphed::raster::try_circle_points(point(0, i32::MIN + 1), 2).is_none());
    assert!(graphed::raster::try_circle_points(point(0, 0), MAX_RADIUS + 1).is_none());
    assert_eq!(
        graphed::raster::try_circle_points(point(10, 20), 1).map(|points| pairs(&points)),
        Some(vec![(10, 21), (10, 19), (10, 21), (10, 19), (11, 20), (11, 20), (9, 20), (9, 20)])
    );
    assert_eq!(
        graphed::raster::try_circle_points(point(i32::MAX - 2, 0), 2).map(|points| points.len()),
        Some(16)
    );
}

#[test]
fn dashes_without_length_or_off_the_grid_are_refused() {
    let from = point(0, 5);
    let to = point(100, 5);
    assert!(graphed::raster::try_dashed_line(from, to, 0, 0).is_none());
    assert!(graphed::raster::try_dashed_line(point(i32::MAX - 50, 0), point(0, 0), 15, 20).is_none());
    assert!(graphed::raster::try_dashed_line(point(0, 1), point(0, i32::MIN), 15, 20).is_none());
    assert_eq!(
        graphed::raster::try_dashed_line(from, to, 15, 20),
        Some(vec![(point(15, 5), point(35, 5)), (point(50, 5), point(70, 5))])
    );
    assert_eq!(graphed::raster::try_dashed_line(from, to, 0, 200), Some(vec![]));
}
