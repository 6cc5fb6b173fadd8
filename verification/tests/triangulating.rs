use slicer_rs::calculate::triangulation::{
    check_polygon, triangulate, EarClipper, Phase, Triangle,
};
use slicer_rs::error::MeshError;

type Point = (f32, f32);

fn signed_area(points: &[Point]) -> f32 {
    let mut doubled = 0.0;
    for i in 0..points.len() {
        let a = points[i];
        let b = points[(i + 1) % points.len()];
        doubled += a.0 * b.1 - b.0 * a.1;
    }
    doubled / 2.0
}

fn is_convex(prev: Point, curr: Point, next: Point, winding_positive: bool) -> bool {
    let cross = (curr.0 - prev.0) * (next.1 - curr.1) - (curr.1 - prev.1) * (next.0 - curr.0);
    if winding_positive {
        cross > 0.0
    } else {
        cross < 0.0
    }
}

fn point_in_triangle(point: Point, a: Point, b: Point, c: Point) -> bool {
    let v0 = (b.0 - a.0, b.1 - a.1);
    let v1 = (c.0 - a.0, c.1 - a.1);
    let v2 = (point.0 - a.0, point.1 - a.1);
    let dot = |u: Point, v: Point| u.0 * v.0 + u.1 * v.1;
    let denom = dot(v0, v0) * dot(v1, v1) - dot(v0, v1) * dot(v0, v1);
    if denom.abs() < f32::EPSILON {
        return false;
    }
    let u = (dot(v1, v1) * dot(v0, v2) - dot(v0, v1) * dot(v1, v2)) / denom;
    let v = (dot(v0, v0) * dot(v1, v2) - dot(v0, v1) * dot(v0, v2)) / denom;
    u >= 0.0 && v >= 0.0 && u + v <= 1.0
}

// Triangulates the polygon whose corners are all of `points`, in order.
fn clip(points: &[Point]) -> Result<Vec<Triangle>, MeshError> {
    let indices: Vec<usize> = (0..points.len()).collect();
    let winding_positive = signed_area(points) > 0.0;
    triangulate(
        points.len(),
        &indices,
        |cut| is_convex(points[cut[0]], points[cut[1]], points[cut[2]], winding_positive),
        |cut, other| point_in_triangle(points[other], points[cut[0]], points[cut[1]], points[cut[2]]),
    )
}

fn total_area(points: &[Point], triangles: &[Triangle]) -> f32 {
    triangles
        .iter()
        .map(|t| signed_area(&[points[t.vertices[0]], points[t.vertices[1]], points[t.vertices[2]]]).abs())
        .sum()
}

fn regular(corners: usize, radius: f32) -> Vec<Point> {
    (0..corners)
        .map(|k| {
            let angle = (k as f32) * std::f32::consts::TAU / (corners as f32);
            (radius * angle.cos(), radius * angle.sin())
        })
        .collect()
}

fn always(_: [usize; 3]) -> bool {
    true
}

fn never(_: [usize; 3]) -> bool {
    false
}

fn nowhere(_: [usize; 3], _: usize) -> bool {
    false
}

fn everywhere(_: [usize; 3], _: usize) -> bool {
    true
}

#[test]
fn polygon_needs_three_corners() {
    assert_eq!(check_polygon(10, &[]), Err(MeshError::TooFewVertices));
    assert_eq!(check_polygon(10, &[0, 1]), Err(MeshError::TooFewVertices));
    assert_eq!(check_polygon(10, &[0, 1, 2]), Ok(()));
    assert_eq!(triangulate(10, &[4, 5], always, nowhere), Err(MeshError::TooFewVertices));
    assert!(matches!(EarClipper::new(10, &[1]), Err(MeshError::TooFewVertices)));
}

#[test]
fn polygon_corners_must_be_in_the_pool() {
    assert_eq!(check_polygon(3, &[0, 1, 3]), Err(MeshError::VertexOutOfRange));
    assert_eq!(check_polygon(0, &[0, 0, 0]), Err(MeshError::VertexOutOfRange));
    assert_eq!(check_polygon(4, &[0, 1, 3]), Ok(()));
    assert_eq!(triangulate(3, &[0, 1, 2, 3], always, nowhere), Err(MeshError::VertexOutOfRange));
    assert!(matches!(EarClipper::new(2, &[0, 1, 2]), Err(MeshError::VertexOutOfRange)));
    // Too few corners is reported first.
    assert_eq!(check_polygon(3, &[7, 8]), Err(MeshError::TooFewVertices));
}

#[test]
fn triangle_is_its_own_triangulation() {
    let clipper = EarClipper::new(10, &[7, 3, 9]).unwrap();
    assert_eq!(clipper.phase(), Phase::Complete);
    assert_eq!(clipper.candidate(), None);
    assert_eq!(clipper.others(), Vec::<usize>::new());
    assert_eq!(clipper.outcome(), Some(Ok(vec![Triangle { vertices: [7, 3, 9] }])));
    assert_eq!(
        triangulate(10, &[7, 3, 9], never, everywhere),
        Ok(vec![Triangle { vertices: [7, 3, 9] }])
    );
}

#[test]
fn run_asks_about_the_first_corner_first() {
    let clipper = EarClipper::new(6, &[0, 1, 2, 3, 4, 5]).unwrap();
    assert_eq!(clipper.phase(), Phase::Probing);
    assert_eq!(clipper.candidate(), Some([5, 0, 1]));
    assert_eq!(clipper.others(), vec![2, 3, 4]);
    assert_eq!(clipper.outcome(), None);
}

#[test]
fn corner_that_is_no_ear_is_passed_over() {
    let mut clipper = EarClipper::new(5, &[0, 1, 2, 3, 4]).unwrap();
    clipper = clipper.step(false);
    assert_eq!(clipper.candidate(), Some([0, 1, 2]));
    assert_eq!(clipper.others(), vec![3, 4]);
    clipper = clipper.step(false);
    assert_eq!(clipper.candidate(), Some([1, 2, 3]));
    assert_eq!(clipper.others(), vec![0, 4]);
    clipper = clipper.step(false);
    clipper = clipper.step(false);
    assert_eq!(clipper.candidate(), Some([3, 4, 0]));
    assert_eq!(clipper.others(), vec![1, 2]);
    clipper = clipper.step(false);
    assert_eq!(clipper.candidate(), Some([4, 0, 1]));
}

#[test]
fn ear_is_cut_off_and_the_cursor_stays() {
    let mut clipper = EarClipper::new(9, &[8, 7, 6, 5, 4, 3]).unwrap();
    clipper = clipper.step(false);
    clipper = clipper.step(true);
    // Corner 1 is gone; the cursor now points at what was corner 2.
    assert_eq!(clipper.candidate(), Some([0, 2, 3]));
    assert_eq!(clipper.others(), vec![4, 5]);
    clipper = clipper.step(false);
    clipper = clipper.step(false);
    clipper = clipper.step(false);
    assert_eq!(clipper.candidate(), Some([4, 5, 0]));
    clipper = clipper.step(true);
    // The last corner is gone; the cursor wraps to the first.
    assert_eq!(clipper.candidate(), Some([4, 0, 2]));
    clipper = clipper.step(true);
    assert_eq!(clipper.phase(), Phase::Complete);
    assert_eq!(
        clipper.outcome(),
        Some(Ok(vec![
            Triangle { vertices: [8, 7, 6] },
            Triangle { vertices: [4, 3, 8] },
            Triangle { vertices: [4, 8, 6] },
            Triangle { vertices: [6, 5, 4] },
        ]))
    );
}

#[test]
fn finished_run_takes_no_more_verdicts() {
    let mut clipper = EarClipper::new(4, &[0, 1, 2, 3]).unwrap();
    clipper = clipper.step(true);
    assert_eq!(clipper.phase(), Phase::Complete);
    let before = clipper.outcome();
    clipper = clipper.step(true);
    clipper = clipper.step(false);
    assert_eq!(clipper.phase(), Phase::Complete);
    assert_eq!(clipper.outcome(), before);
}

#[test]
fn search_is_given_up_after_twice_the_square_of_the_corners() {
    for corners in [4usize, 5, 7, 10] {
        let indices: Vec<usize> = (0..corners).collect();
        let mut clipper = EarClipper::new(corners, &indices).unwrap();
        let mut verdicts = 0usize;
        while clipper.phase() == Phase::Probing {
            clipper = clipper.step(false);
            verdicts += 1;
        }
        assert_eq!(verdicts, 2 * corners * corners);
        assert_eq!(clipper.phase(), Phase::Stuck);
        assert_eq!(clipper.candidate(), None);
        assert_eq!(clipper.outcome(), Some(Err(MeshError::NonSimplePolygon)));
    }
}

#[test]
fn budget_starts_over_after_a_cut() {
    let mut clipper = EarClipper::new(5, &[0, 1, 2, 3, 4]).unwrap();
    for _ in 0..49 {
        clipper = clipper.step(false);
    }
    assert_eq!(clipper.phase(), Phase::Probing);
    clipper = clipper.step(true);
    let mut verdicts = 0usize;
    while clipper.phase() == Phase::Probing {
        clipper = clipper.step(false);
        verdicts += 1;
    }
    assert_eq!(verdicts, 2 * 4 * 4);
    assert_eq!(clipper.phase(), Phase::Stuck);
}

#[test]
fn polygon_of_ears_only_becomes_a_fan_around_its_last_corner() {
    assert_eq!(
        triangulate(6, &[0, 1, 2, 3, 4, 5], always, nowhere),
        Ok(vec![
            Triangle { vertices: [5, 0, 1] },
            Triangle { vertices: [5, 1, 2] },
            Triangle { vertices: [5, 2, 3] },
            Triangle { vertices: [3, 4, 5] },
        ])
    );
}

#[test]
fn corner_with_another_inside_its_triangle_is_no_ear() {
    assert_eq!(
        triangulate(5, &[0, 1, 2, 3, 4], always, everywhere),
        Err(MeshError::NonSimplePolygon)
    );
    assert_eq!(
        triangulate(5, &[0, 1, 2, 3, 4], never, nowhere),
        Err(MeshError::NonSimplePolygon)
    );
    // Only corner 3 blocks, and only the ear at corner 0.
    assert_eq!(
        triangulate(5, &[0, 1, 2, 3, 4], always, |cut, other| cut[1] == 0 && other == 3),
        Ok(vec![
            Triangle { vertices: [0, 1, 2] },
            Triangle { vertices: [0, 2, 3] },
            Triangle { vertices: [0, 3, 4] },
        ])
    );
}

#[test]
fn triangles_are_given_as_pool_indices() {
    assert_eq!(
        triangulate(100, &[40, 30, 20, 10], always, nowhere),
        Ok(vec![Triangle { vertices: [10, 40, 30] }, Triangle { vertices: [30, 20, 10] }])
    );
}

#[test]
fn predicates_are_asked_about_positions_in_the_polygon() {
    let result = triangulate(
        100,
        &[40, 30, 20, 10, 50],
        |cut| cut.iter().all(|&corner| corner < 5),
        |cut, other| !(other < 5 && !cut.contains(&other)),
    );
    assert_eq!(result.map(|t| t.len()), Ok(3));
}

#[test]
fn convex_polygon_becomes_two_fewer_triangles_of_the_same_area() {
    for corners in 3..40usize {
        let points = regular(corners, 2.0);
        let triangles = clip(&points).unwrap();
        assert_eq!(triangles.len(), corners - 2);
        assert!((total_area(&points, &triangles) - signed_area(&points).abs()).abs() < 1e-5);
    }
}

#[test]
fn clockwise_polygon_is_triangulated_like_its_mirror() {
    let mut points = regular(9, 1.5);
    points.reverse();
    assert!(signed_area(&points) < 0.0);
    let triangles = clip(&points).unwrap();
    assert_eq!(triangles.len(), 7);
    assert!((total_area(&points, &triangles) - signed_area(&points).abs()).abs() < 1e-5);
}

#[test]
fn concave_polygon_keeps_its_area() {
    let ell = [(0.0, 0.0), (2.0, 0.0), (2.0, 1.0), (1.0, 1.0), (1.0, 2.0), (0.0, 2.0)];
    let triangles = clip(&ell).unwrap();
    assert_eq!(triangles.len(), 4);
    assert_eq!(total_area(&ell, &triangles), 3.0);

    let arrow = [(0.0, 0.0), (4.0, 0.0), (4.0, 4.0), (2.0, 1.0), (0.0, 4.0)];
    assert_eq!(
        clip(&arrow),
        Ok(vec![
            Triangle { vertices: [1, 2, 3] },
            Triangle { vertices: [3, 4, 0] },
            Triangle { vertices: [0, 1, 3] },
        ])
    );
    assert_eq!(total_area(&arrow, &clip(&arrow).unwrap()), 10.0);
}

#[test]
fn self_intersecting_polygon_is_given_up() {
    // A square whose boundary goes on into a bow tie inside it.
    let knot = [
        (0.0, 0.0),
        (4.0, 0.0),
        (4.0, 4.0),
        (0.0, 4.0),
        (1.0, 1.0),
        (3.0, 3.0),
        (3.0, 1.0),
        (1.0, 3.0),
    ];
    assert_eq!(clip(&knot), Err(MeshError::NonSimplePolygon));

    let zigzag = [(0.0, 0.0), (3.0, 3.0), (0.0, 3.0), (3.0, 0.0), (1.5, 4.0), (1.5, -1.0)];
    assert_eq!(clip(&zigzag), Err(MeshError::NonSimplePolygon));
}

#[test]
fn flat_polygon_is_given_up() {
    let line = [(0.0, 0.0), (1.0, 0.0), (2.0, 0.0), (3.0, 0.0)];
    assert_eq!(clip(&line), Err(MeshError::NonSimplePolygon));
}

fn doubled_area(points: &[(i64, i64)], along: &[usize]) -> i64 {
    let mut doubled = 0;
    for k in 0..along.len() {
        let a = points[along[k]];
        let b = points[along[(k + 1) % along.len()]];
        doubled += a.0 * b.1 - b.0 * a.1;
    }
    doubled
}

#[test]
fn triangles_add_up_to_the_signed_area_whatever_the_verdicts() {
    let points: [(i64, i64); 9] =
        [(0, 0), (7, -2), (5, 3), (9, 9), (4, 6), (1, 11), (-3, 5), (2, 4), (-6, 1)];
    let indices: Vec<usize> = (0..points.len()).collect();
    let whole = doubled_area(&points, &indices);
    // Verdicts by a fixed pattern that has nothing to do with where the points lie.
    for seed in 0..50u32 {
        let mut clipper = EarClipper::new(points.len(), &indices).unwrap();
        let mut turn = seed;
        while clipper.phase() == Phase::Probing {
            turn = turn.wrapping_mul(1_103_515_245).wrapping_add(12_345);
            clipper = clipper.step((turn >> 16) % 3 == 0);
        }
        let triangles = clipper.outcome().unwrap().unwrap();
        assert_eq!(triangles.len(), 7);
        let sum: i64 = triangles.iter().map(|t| doubled_area(&points, &t.vertices)).sum();
        assert_eq!(sum, whole);
    }
}

#[test]
fn bow_tie_still_has_an_ear() {
    // The two lobes cancel, the winding counts as negative, and corner 1 passes for an ear.
    let bow_tie = [(0.0, 0.0), (2.0, 2.0), (2.0, 0.0), (0.0, 2.0)];
    assert_eq!(signed_area(&bow_tie), 0.0);
    assert_eq!(
        clip(&bow_tie),
        Ok(vec![Triangle { vertices: [0, 1, 2] }, Triangle { vertices: [0, 2, 3] }])
    );
}
