use feldspar_editor::geometry::{closest_points_on_two_lines, drag_point_along_normal, RationalPoint, Ray3i, Vec3i};
use feldspar_editor::voxel::{Axis3, Point3i, SignedAxis3};

fn v(x: i64, y: i64, z: i64) -> Vec3i {
    Vec3i { x, y, z }
}

fn ray(o: Vec3i, d: Vec3i) -> Ray3i {
    Ray3i { origin: o, direction: d }
}

fn at(p: &RationalPoint) -> (f64, f64, f64) {
    let d = p.den as f64;
    (p.x as f64 / d, p.y as f64 / d, p.z as f64 / d)
}

#[test]
fn sanity_test_closest_points_on_two_lines() {
    let l1 = ray(v(0, 0, 0), v(1, 0, 0));
    let l2 = ray(v(0, 1, 0), v(0, 0, 1));

    let (p1, p2) = closest_points_on_two_lines(&l1, &l2).unwrap();

    assert_eq!(at(&p1), (0.0, 0.0, 0.0));
    assert_eq!(at(&p2), (0.0, 1.0, 0.0));
}

#[test]
fn parallel_lines_have_no_closest_pair() {
    let l1 = ray(v(0, 0, 0), v(1, 0, 0));
    assert!(closest_points_on_two_lines(&l1, &ray(v(0, 1, 0), v(1, 0, 0))).is_none());
    assert!(closest_points_on_two_lines(&l1, &ray(v(0, 1, 0), v(-2, 0, 0))).is_none());
    assert!(closest_points_on_two_lines(&l1, &ray(v(0, 1, 0), v(0, 0, 0))).is_none());
}

#[test]
fn skew_lines_meet_their_common_perpendicular() {
    let l1 = ray(v(0, 0, 0), v(1, 0, 0));
    let l2 = ray(v(3, 2, 5), v(0, 1, 0));
    let (p1, p2) = closest_points_on_two_lines(&l1, &l2).unwrap();
    assert_eq!(at(&p1), (3.0, 0.0, 0.0));
    assert_eq!(at(&p2), (3.0, 0.0, 5.0));
    let l3 = ray(v(1, 1, 0), v(1, 1, 1));
    let (q1, q2) = closest_points_on_two_lines(&l1, &l3).unwrap();
    // The gap is perpendicular to both directions.
    let gap = (q2.x - q1.x, q2.y - q1.y, q2.z - q1.z);
    assert_eq!(gap.0, 0);
    assert_eq!(gap.0 + gap.1 + gap.2, 0);
}

#[test]
fn pointer_projects_onto_the_drag_axis() {
    let up = SignedAxis3 { sign: 1, axis: Axis3::Y };
    // A ray at x = 1.5, y = 5, looking along -z, in fixed point (256 per voxel).
    let pointer = ray(v(384, 1280, 2560), v(0, 0, -256));
    assert_eq!(drag_point_along_normal(Point3i::new(1, 0, 1), up, &pointer), Some(Point3i::new(1, 5, 1)));
    // Below the start the coordinate rounds down.
    let pointer = ray(v(384, -300, 2560), v(0, 0, -256));
    assert_eq!(drag_point_along_normal(Point3i::new(1, 0, 1), up, &pointer), Some(Point3i::new(1, -2, 1)));
    // A ray along the axis gives no point.
    let along = ray(v(384, 0, 2560), v(0, 5, 0));
    assert_eq!(drag_point_along_normal(Point3i::new(1, 0, 1), up, &along), None);
}
