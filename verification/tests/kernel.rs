use shape2d::aabb::Aabb;
use shape2d::algebra::{Isometry2, Mat2, Point2, Vec2};
use shape2d::cuboid::{Cuboid, FeatureId, ShapeError};
use shape2d::shape::{Compound, Shape, ShapeType, TypedShape};
use shape2d::Align4;

fn unit_cuboid(hx: i64, hy: i64) -> Cuboid {
    Cuboid::new(Vec2::new(hx, hy)).expect("half-extents must be positive")
}

fn rot90() -> Isometry2 {
    Isometry2::new(
        Mat2 {
            m11: 0,
            m12: -1,
            m21: 1,
            m22: 0,
        },
        Vec2::new(0, 0),
    )
}

#[test]
fn local_aabb_of_two_by_one() {
    let c = unit_cuboid(2, 1);
    let bb = c.local_aabb();
    assert_eq!(bb.mins, Point2 { x: -2, y: -1 });
    assert_eq!(bb.maxs, Point2 { x: 2, y: 1 });
}

#[test]
fn local_bounding_sphere_radius_squared() {
    let c = unit_cuboid(2, 1);
    let s = c.local_bounding_sphere();
    assert_eq!(s.center, Point2 { x: 0, y: 0 });
    assert_eq!(s.radius_sq, 5);
}

#[test]
fn mass_properties_of_two_by_one() {
    let c = unit_cuboid(2, 1);
    let mp = c.mass_properties(1);
    assert_eq!(mp.mass, 8);
    assert_eq!(mp.local_com, Point2 { x: 0, y: 0 });
    assert_eq!(mp.inertia, 8 * 5 / 3);
}

#[test]
fn mass_scales_with_density() {
    let c = unit_cuboid(3, 5);
    let mp = c.mass_properties(7);
    assert_eq!(mp.mass, 7 * 4 * 3 * 5);
}

#[test]
fn merged_is_commutative_and_idempotent() {
    let a = Aabb::new(Point2::new(0, 0), Point2::new(2, 1));
    let b = Aabb::new(Point2::new(-1, -3), Point2::new(1, 0));
    assert_eq!(a.merged(&b), b.merged(&a));
    assert_eq!(a.merged(&a), a);
}

#[test]
fn merged_is_associative() {
    let a = Aabb::new(Point2::new(0, 0), Point2::new(2, 1));
    let b = Aabb::new(Point2::new(-1, -3), Point2::new(1, 0));
    let c = Aabb::new(Point2::new(5, -8), Point2::new(9, 4));
    assert_eq!(a.merged(&b).merged(&c), a.merged(&b.merged(&c)));
}

#[test]
fn merged_takes_extremes() {
    let a = Aabb::new(Point2::new(0, 0), Point2::new(2, 1));
    let b = Aabb::new(Point2::new(-1, -3), Point2::new(1, 0));
    let m = a.merged(&b);
    assert_eq!(m.mins, Point2 { x: -1, y: -3 });
    assert_eq!(m.maxs, Point2 { x: 2, y: 1 });
}

#[test]
fn aabb_under_identity_is_local_aabb() {
    let c = unit_cuboid(2, 1);
    assert_eq!(c.aabb(&Isometry2::identity()), c.local_aabb());
}

#[test]
fn aabb_under_quarter_turn_swaps_extents() {
    let c = unit_cuboid(2, 1);
    let bb = c.aabb(&rot90());
    assert_eq!(bb.mins, Point2 { x: -1, y: -2 });
    assert_eq!(bb.maxs, Point2 { x: 1, y: 2 });
}

#[test]
fn aabb_contains_transformed_corner() {
    let c = unit_cuboid(2, 1);
    let pose = Isometry2::new(
        Mat2 {
            m11: 0,
            m12: -1,
            m21: 1,
            m22: 0,
        },
        Vec2::new(10, -4),
    );
    let bb = c.aabb(&pose);
    // The image of the corner (2, 1): (0*2 - 1*1 + 10, 1*2 + 0*1 - 4).
    let img = pose.transform_point(Point2::new(2, 1));
    assert_eq!(img, Point2 { x: 9, y: -2 });
    assert!(bb.contains_local_point(img));
}

#[test]
fn transforming_twice_bounds_the_composition() {
    let c = unit_cuboid(2, 1);
    let t1 = rot90();
    let t2 = Isometry2::new(
        Mat2 {
            m11: 0,
            m12: -1,
            m21: 1,
            m22: 0,
        },
        Vec2::new(3, 3),
    );
    let twice = c.local_aabb().transform_by(&t1).transform_by(&t2);
    let once = c.local_aabb().transform_by(&t2.compose(&t1));
    assert!(twice.mins.x <= once.mins.x && twice.mins.y <= once.mins.y);
    assert!(once.maxs.x <= twice.maxs.x && once.maxs.y <= twice.maxs.y);
}

#[test]
fn vertex_feature_ids_are_distinct() {
    let ids = [
        Cuboid::vertex_feature_id(Point2::new(2, 1)),
        Cuboid::vertex_feature_id(Point2::new(-2, 1)),
        Cuboid::vertex_feature_id(Point2::new(2, -1)),
        Cuboid::vertex_feature_id(Point2::new(-2, -1)),
    ];
    assert_eq!(ids, [0, 1, 2, 3]);
}

#[test]
fn vertex_feature_id_of_zero_is_positive() {
    assert_eq!(Cuboid::vertex_feature_id(Point2::new(0, 0)), 0);
    assert_eq!(Cuboid::vertex_feature_id(Point2::new(0, -1)), 2);
}

#[test]
fn support_face_up_picks_top_edge() {
    let c = unit_cuboid(2, 1);
    let f = c.support_face(Vec2::new(0, 1));
    assert_eq!(f.num_vertices, 2);
    assert_eq!(f.vertices[0], Point2 { x: 2, y: 1 });
    assert_eq!(f.vertices[1], Point2 { x: -2, y: 1 });
    assert_eq!(f.vids, [0, 1]);
    assert_eq!(f.fid, 0b11_0000 | (1 << 2));
}

#[test]
fn support_feature_is_support_face() {
    let c = unit_cuboid(2, 1);
    assert_eq!(c.support_feature(Vec2::new(7, -2)), c.support_face(Vec2::new(7, -2)));
}

#[test]
fn support_face_sideways_picks_right_edge() {
    let c = unit_cuboid(2, 1);
    let f = c.support_face(Vec2::new(5, -1));
    assert_eq!(f.vertices[0], Point2 { x: 2, y: 1 });
    assert_eq!(f.vertices[1], Point2 { x: 2, y: -1 });
}

#[test]
fn local_support_point_follows_signs() {
    let c = unit_cuboid(2, 1);
    assert_eq!(c.local_support_point(Vec2::new(-3, 4)), Point2 { x: -2, y: 1 });
    assert_eq!(c.local_support_point(Vec2::new(0, -4)), Point2 { x: 2, y: -1 });
}

#[test]
fn feature_normal_faces_round_trip() {
    let c = unit_cuboid(2, 1);
    let outward = [
        Vec2::new(1, 0),
        Vec2::new(0, 1),
        Vec2::new(-1, 0),
        Vec2::new(0, -1),
    ];
    for id in 0..4u32 {
        let n = c.feature_normal(FeatureId::Face(id)).expect("face id below 4");
        let o = outward[id as usize];
        assert_eq!(n, o);
        assert_eq!(n.x * o.x + n.y * o.y, 1);
    }
}

#[test]
fn feature_normal_vertices_are_diagonals() {
    let c = unit_cuboid(2, 1);
    assert_eq!(c.feature_normal(FeatureId::Vertex(0)), Some(Vec2 { x: 1, y: 1 }));
    assert_eq!(c.feature_normal(FeatureId::Vertex(1)), Some(Vec2 { x: -1, y: 1 }));
    assert_eq!(c.feature_normal(FeatureId::Vertex(3)), Some(Vec2 { x: -1, y: -1 }));
    assert_eq!(c.feature_normal(FeatureId::Vertex(2)), Some(Vec2 { x: 1, y: -1 }));
}

#[test]
fn feature_normal_unrecognized_ids() {
    let c = unit_cuboid(2, 1);
    assert_eq!(c.feature_normal(FeatureId::Face(4)), None);
    assert_eq!(c.feature_normal(FeatureId::Vertex(9)), None);
    assert_eq!(c.feature_normal(FeatureId::Unknown), None);
}

#[test]
fn new_rejects_degenerate_half_extents() {
    assert_eq!(Cuboid::new(Vec2::new(0, 1)), Err(ShapeError::DegenerateShape));
    assert_eq!(Cuboid::new(Vec2::new(2, -3)), Err(ShapeError::DegenerateShape));
    assert!(Cuboid::new(Vec2::new(2, 1)).is_ok());
}

#[test]
fn scaled_multiplies_component_wise() {
    let c = unit_cuboid(2, 1);
    assert_eq!(c.scaled(Vec2::new(3, 4)).half_extents, Vec2 { x: 6, y: 4 });
}

#[test]
fn ccd_bounds() {
    let c = unit_cuboid(2, 1);
    assert_eq!(c.ccd_thickness(), 1);
    assert_eq!(c.ccd_angular_thickness(), 90);
}

#[test]
fn downcasts_by_type_tag() {
    let c = unit_cuboid(2, 1);
    assert_eq!(c.shape_type(), ShapeType::Cuboid);
    assert!(c.as_cuboid().is_some());
    assert_eq!(c.as_cuboid().unwrap().half_extents, Vec2 { x: 2, y: 1 });
    assert!(c.as_compound().is_none());
    assert!(c.is_convex());
    match c.as_typed_shape() {
        TypedShape::Cuboid(inner) => assert_eq!(inner.half_extents, Vec2 { x: 2, y: 1 }),
        TypedShape::Compound(_) => panic!("a cuboid is not a compound"),
    }
}

#[test]
fn capability_probes_answer_for_cuboid() {
    let c = unit_cuboid(2, 1);
    assert!(c.as_support_map().is_some());
    let (_map, border) = c.as_polygonal_feature_map().expect("a cuboid is a feature map");
    assert_eq!(border, 0);
    assert_eq!(
        c.feature_normal_at_point(FeatureId::Face(0), &Point2::new(2, 0)),
        Some(Vec2 { x: 1, y: 0 })
    );
}

#[test]
fn shape_interface_bounding_volumes() {
    let c = unit_cuboid(2, 1);
    assert_eq!(c.compute_local_aabb(), c.local_aabb());
    assert_eq!(c.compute_local_bounding_sphere(), c.local_bounding_sphere());
    let pose = Isometry2::new(
        Mat2 {
            m11: 1,
            m12: 0,
            m21: 0,
            m22: 1,
        },
        Vec2::new(5, 7),
    );
    let s = c.compute_bounding_sphere(&pose);
    assert_eq!(s.center, Point2 { x: 5, y: 7 });
    assert_eq!(s.radius_sq, 5);
}

#[test]
fn compound_groups_its_parts() {
    let part = unit_cuboid(2, 1);
    let comp = Compound::new(vec![(Isometry2::identity(), part)]);
    assert_eq!(comp.parts.len(), 1);
    assert_eq!(comp.parts[0].1.half_extents, Vec2 { x: 2, y: 1 });
}

#[test]
fn compound_local_aabb_merges_parts() {
    let left = (
        Isometry2::new(
            Mat2 {
                m11: 1,
                m12: 0,
                m21: 0,
                m22: 1,
            },
            Vec2::new(-5, 0),
        ),
        unit_cuboid(2, 1),
    );
    let right = (
        Isometry2::new(
            Mat2 {
                m11: 1,
                m12: 0,
                m21: 0,
                m22: 1,
            },
            Vec2::new(5, 2),
        ),
        unit_cuboid(1, 1),
    );
    let comp = Compound::new(vec![left, right]);
    let bb = comp.local_aabb();
    assert_eq!(bb.mins, Point2 { x: -7, y: -1 });
    assert_eq!(bb.maxs, Point2 { x: 6, y: 3 });
}

#[test]
fn align4_keeps_its_bytes() {
    let block = Align4([0, 1, 2]);
    assert_eq!(block.0, [0, 1, 2]);
}

#[test]
fn swept_aabb_merges_both_poses() {
    let c = unit_cuboid(2, 1);
    let start = Isometry2::identity();
    let end = Isometry2::new(
        Mat2 {
            m11: 1,
            m12: 0,
            m21: 0,
            m22: 1,
        },
        Vec2::new(10, 0),
    );
    let swept = c.compute_swept_aabb(&start, &end);
    assert_eq!(swept.mins, Point2 { x: -2, y: -1 });
    assert_eq!(swept.maxs, Point2 { x: 12, y: 1 });
}

#[test]
fn local_support_feature_fills_the_face() {
    let c = unit_cuboid(2, 1);
    let mut out = c.support_face(Vec2::new(1, 0));
    c.local_support_feature(&Vec2::new(0, 1), &mut out);
    assert_eq!(out, c.support_face(Vec2::new(0, 1)));
}

#[test]
fn from_half_extents_and_accessors_round_trip() {
    let bb = Aabb::from_half_extents(Point2::new(1, 2), Vec2::new(3, 4));
    assert_eq!(bb.mins, Point2 { x: -2, y: -2 });
    assert_eq!(bb.maxs, Point2 { x: 4, y: 6 });
    assert_eq!(bb.center(), Point2 { x: 1, y: 2 });
    assert_eq!(bb.half_extents(), Vec2 { x: 3, y: 4 });
}

#[test]
fn odd_side_lengths_round_toward_mins() {
    let bb = Aabb::new(Point2::new(0, 0), Point2::new(3, 1));
    assert_eq!(bb.center(), Point2 { x: 1, y: 0 });
    assert_eq!(bb.half_extents(), Vec2 { x: 1, y: 0 });
}

#[test]
fn negative_half_extents_invert_the_box() {
    let bb = Aabb::from_half_extents(Point2::new(0, 0), Vec2::new(-1, 2));
    assert!(bb.mins.x > bb.maxs.x);
    assert!(!bb.contains_local_point(Point2::new(0, 0)));
}
