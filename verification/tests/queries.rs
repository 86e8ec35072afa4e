use shape2d::algebra::{Point2, Vec2};
use shape2d::cuboid::{Cuboid, FeatureId};
use shape2d::query::{Ray, Toi};

fn unit_cuboid(hx: i64, hy: i64) -> Cuboid {
    Cuboid::new(Vec2::new(hx, hy)).expect("half-extents must be positive")
}

#[test]
fn contains_local_point_checks_bounds() {
    let c = unit_cuboid(2, 1);
    assert!(c.contains_local_point(Point2::new(0, 0)));
    assert!(c.contains_local_point(Point2::new(2, -1)));
    assert!(!c.contains_local_point(Point2::new(3, 0)));
    assert!(!c.contains_local_point(Point2::new(0, 2)));
}

#[test]
fn project_outside_clamps() {
    let c = unit_cuboid(2, 1);
    let p = c.project_local_point(Point2::new(5, -9), true);
    assert!(!p.is_inside);
    assert_eq!(p.point, Point2 { x: 2, y: -1 });
}

#[test]
fn project_inside_solid_stays_put() {
    let c = unit_cuboid(2, 1);
    let p = c.project_local_point(Point2::new(1, 0), true);
    assert!(p.is_inside);
    assert_eq!(p.point, Point2 { x: 1, y: 0 });
}

#[test]
fn project_inside_hollow_snaps_to_nearest_face() {
    let c = unit_cuboid(2, 1);
    let p = c.project_local_point(Point2::new(1, 0), false);
    assert!(p.is_inside);
    assert_eq!(p.point, Point2 { x: 2, y: 0 });
    let q = c.project_local_point(Point2::new(0, 0), false);
    assert!(q.is_inside);
    assert_eq!(q.point, Point2 { x: 0, y: -1 });
}

#[test]
fn distance_is_squared_and_exact() {
    let c = unit_cuboid(2, 1);
    assert_eq!(c.distance_to_local_point(Point2::new(5, 5), true), 9 + 16);
    assert_eq!(c.distance_to_local_point(Point2::new(1, 0), true), 0);
    assert_eq!(c.distance_to_local_point(Point2::new(1, 0), false), 1);
}

#[test]
fn ray_hits_left_face() {
    let c = unit_cuboid(2, 1);
    let ray = Ray::new(Point2::new(-5, 0), Vec2::new(1, 0));
    let t = c.cast_local_ray(&ray, 100, true).expect("the ray points at the box");
    assert_eq!(t, Toi { num: 3, den: 1 });
}

#[test]
fn ray_respects_max_toi() {
    let c = unit_cuboid(2, 1);
    let ray = Ray::new(Point2::new(-5, 0), Vec2::new(1, 0));
    assert_eq!(c.cast_local_ray(&ray, 2, true), None);
    assert!(c.cast_local_ray(&ray, 3, true).is_some());
}

#[test]
fn ray_misses_sideways() {
    let c = unit_cuboid(2, 1);
    let ray = Ray::new(Point2::new(-5, 0), Vec2::new(0, 1));
    assert_eq!(c.cast_local_ray(&ray, 100, true), None);
}

#[test]
fn ray_from_inside_solid_hits_at_once() {
    let c = unit_cuboid(2, 1);
    let ray = Ray::new(Point2::new(0, 0), Vec2::new(1, 0));
    assert_eq!(c.cast_local_ray(&ray, 100, true), Some(Toi { num: 0, den: 1 }));
}

#[test]
fn ray_from_inside_hollow_reports_exit() {
    let c = unit_cuboid(2, 1);
    let ray = Ray::new(Point2::new(0, 0), Vec2::new(1, 0));
    assert_eq!(c.cast_local_ray(&ray, 100, false), Some(Toi { num: 2, den: 1 }));
    assert_eq!(c.cast_local_ray(&ray, 1, false), None);
}

#[test]
fn ray_with_fractional_time_of_impact() {
    let c = unit_cuboid(2, 1);
    let ray = Ray::new(Point2::new(-5, 0), Vec2::new(2, 0));
    let t = c.cast_local_ray(&ray, 100, true).expect("the ray points at the box");
    // The hit happens at time 3/2.
    assert_eq!(t.num * 2, 3 * t.den);
}

#[test]
fn ray_normal_names_the_face_hit() {
    let c = unit_cuboid(2, 1);
    let ray = Ray::new(Point2::new(-5, 0), Vec2::new(1, 0));
    let hit = c
        .cast_local_ray_and_get_normal(&ray, 100, true)
        .expect("the ray points at the box");
    assert_eq!(hit.toi, Toi { num: 3, den: 1 });
    assert_eq!(hit.feature, FeatureId::Face(2));
    assert_eq!(hit.normal, Vec2 { x: -1, y: 0 });
}

#[test]
fn ray_normal_from_above() {
    let c = unit_cuboid(2, 1);
    let ray = Ray::new(Point2::new(0, 5), Vec2::new(0, -1));
    let hit = c
        .cast_local_ray_and_get_normal(&ray, 100, true)
        .expect("the ray points at the box");
    assert_eq!(hit.toi, Toi { num: 4, den: 1 });
    assert_eq!(hit.feature, FeatureId::Face(1));
    assert_eq!(hit.normal, Vec2 { x: 0, y: 1 });
}

#[test]
fn ray_from_interior_has_no_feature() {
    let c = unit_cuboid(2, 1);
    let ray = Ray::new(Point2::new(1, 0), Vec2::new(1, 0));
    let hit = c
        .cast_local_ray_and_get_normal(&ray, 100, true)
        .expect("a solid box contains its interior");
    assert_eq!(hit.toi, Toi { num: 0, den: 1 });
    assert_eq!(hit.feature, FeatureId::Unknown);
    assert_eq!(hit.normal, Vec2 { x: 0, y: 0 });
}

#[test]
fn ray_exit_from_hollow_box_names_the_face() {
    let c = unit_cuboid(2, 1);
    let ray = Ray::new(Point2::new(0, 0), Vec2::new(1, 0));
    let hit = c
        .cast_local_ray_and_get_normal(&ray, 100, false)
        .expect("the ray leaves the hollow box");
    assert_eq!(hit.toi, Toi { num: 2, den: 1 });
    assert_eq!(hit.feature, FeatureId::Face(0));
    assert_eq!(hit.normal, Vec2 { x: 1, y: 0 });
}

#[test]
fn entering_ray_with_slope_names_the_face() {
    let c = unit_cuboid(2, 1);
    let ray = Ray::new(Point2::new(-6, -1), Vec2::new(4, 1));
    let hit = c
        .cast_local_ray_and_get_normal(&ray, 100, true)
        .expect("the ray points at the box");
    // Entry through the low-x face at time 1, i.e. 4/4.
    assert_eq!(hit.toi.num * 1, hit.toi.den);
    assert_eq!(hit.feature, FeatureId::Face(2));
    assert_eq!(hit.normal, Vec2 { x: -1, y: 0 });
}
