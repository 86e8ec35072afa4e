//! The polymorphic shape interface.
//!
//! `Shape` is the capability surface a collision pipeline works against:
//! bounding volumes, mass properties, a type tag, a closed sum type for
//! exhaustive dispatch, capability probes, and safe downcasting by runtime
//! type check. Inside the kernel dispatch is closed: `TypedShape`
//! enumerates the supported variants. `Compound`, a grouped set of posed
//! cuboids, exists as a further variant for downcast targets; the query
//! surface is implemented for `Cuboid`.

use vstd::prelude::*;

use crate::aabb::merged_box;
use crate::aabb::transformed_box;
use crate::aabb::Aabb;
use crate::aabb::BoxModel;
use crate::algebra::apply_x;
use crate::algebra::apply_y;
use crate::algebra::Isometry2;
use crate::algebra::Point2;
use crate::algebra::Vec2;
use crate::bounding_sphere::BoundingSphere;
use crate::cuboid::feature_normal_spec;
use crate::cuboid::local_box;
use crate::cuboid::Cuboid;
use crate::cuboid::FeatureId;
use crate::mass::MassProperties;
use crate::mass::mass_inputs_fit;

verus! {

/// The type tag of a shape variant.
#[derive(Clone, Copy, PartialEq, Eq, Structural, Debug)]
pub enum ShapeType {
    Cuboid,
    Compound,
}

/// A grouped set of posed cuboids. The kernel implements its query
/// surface for `Cuboid`; a compound takes part only as a distinct
/// downcast target, as a collision pipeline's composite container.
#[derive(Clone, Debug)]
pub struct Compound {
    pub parts: Vec<(Isometry2, Cuboid)>,
}

/// The box bounding one posed part: the part's local box under its pose.
pub open spec fn part_box(p: (Isometry2, Cuboid)) -> BoxModel {
    transformed_box(local_box(p.1), p.0.model())
}

/// The merge of the boxes of the first `i` parts.
pub open spec fn parts_box(parts: Seq<(Isometry2, Cuboid)>, i: int) -> BoxModel
    recommends
        0 < i <= parts.len(),
    decreases i,
{
    if i <= 1 {
        part_box(parts[0])
    } else {
        merged_box(parts_box(parts, i - 1), part_box(parts[i - 1]))
    }
}

impl Compound {
    /// Whether the compound has at least one part, every part is a valid
    /// shape, and every pose is within the kernel's coordinate bound.
    pub open spec fn is_valid(self) -> bool {
        &&& self.parts@.len() > 0
        &&& forall|i: int|
            0 <= i < self.parts@.len() ==> (#[trigger] self.parts@[i]).1.is_valid()
                && self.parts@[i].0.bounded()
    }

    /// Groups the given posed parts.
    pub fn new(parts: Vec<(Isometry2, Cuboid)>) -> (r: Compound)
        ensures
            r.parts == parts,
    {
        Compound { parts }
    }

    /// The box bounding every part under its pose: the merge of the posed
    /// boxes of all parts.
    pub fn local_aabb(&self) -> (r: Aabb)
        requires
            self.is_valid(),
        ensures
            r.model() == parts_box(self.parts@, self.parts@.len() as int),
    {
        let first = &self.parts[0];
        let mut acc = first.1.aabb(&first.0);
        let mut i: usize = 1;
        while i < self.parts.len()
            invariant
                self.is_valid(),
                1 <= i <= self.parts@.len(),
                acc.model() == parts_box(self.parts@, i as int),
            decreases self.parts@.len() - i,
        {
            let part = &self.parts[i];
            let bb = part.1.aabb(&part.0);
            acc = acc.merged(&bb);
            i += 1;
        }
        acc
    }
}

/// The closed sum of the shape variants this kernel supports, for
/// exhaustive dispatch without dynamic typing.
pub enum TypedShape<'a> {
    Cuboid(&'a Cuboid),
    Compound(&'a Compound),
}

/// A reference to a shape through its support mapping.
pub enum SupportMapRef<'a> {
    Cuboid(&'a Cuboid),
}

/// A reference to a shape through its polygonal feature map.
pub enum PolygonalFeatureMapRef<'a> {
    Cuboid(&'a Cuboid),
}

/// The query surface every shape variant offers a collision pipeline.
///
/// Each spec member pins the corresponding query down; every method's
/// contract is stated once here and proved by each implementation.
pub trait Shape: Sized {
    /// The implementation's validity invariant.
    spec fn shape_wf(&self) -> bool;

    /// The shape's local-frame box, as a model over unbounded integers.
    spec fn local_box_spec(&self) -> BoxModel;

    /// The shape's local bounding sphere.
    spec fn local_sphere_spec(&self) -> BoundingSphere;

    /// The mass properties at a given density.
    spec fn mass_properties_spec(&self, density: i64) -> MassProperties;

    /// On which densities and sizes the mass computation is exact in
    /// machine integers.
    spec fn mass_input_ok(&self, density: i64) -> bool;

    /// The shape's type tag.
    spec fn shape_type_spec(&self) -> ShapeType;

    /// The cuboid this shape is, if it is one.
    spec fn as_cuboid_spec(&self) -> Option<Cuboid>;

    /// The compound this shape is, if it is one.
    spec fn as_compound_spec(&self) -> Option<Compound>;

    /// The thinnest half-width, for continuous-collision heuristics.
    spec fn ccd_thickness_spec(&self) -> int;

    /// The fixed angular-thickness answer of this shape, in degrees.
    spec fn ccd_angular_thickness_spec(&self) -> int;

    /// Whether this shape is known to be convex.
    spec fn is_convex_spec(&self) -> bool;

    /// The carrier of this shape's support mapping, if it has one.
    spec fn as_support_map_spec(&self) -> Option<Cuboid>;

    /// The carrier of this shape's polygonal feature map, if it is one.
    spec fn as_polygonal_feature_map_spec(&self) -> Option<Cuboid>;

    /// The normal this shape reports for a feature; no point argument
    /// appears here, so the answer cannot depend on one.
    spec fn feature_normal_at_spec(&self, feature: FeatureId) -> Option<Vec2>;

    /// Computes the box of this shape in its local frame.
    fn compute_local_aabb(&self) -> (r: Aabb)
        requires
            self.shape_wf(),
        ensures
            r.model() == self.local_box_spec(),
    ;

    /// Computes the bounding sphere of this shape in its local frame.
    fn compute_local_bounding_sphere(&self) -> (r: BoundingSphere)
        requires
            self.shape_wf(),
        ensures
            r == self.local_sphere_spec(),
    ;

    /// Computes the box of this shape under the given pose.
    fn compute_aabb(&self, position: &Isometry2) -> (r: Aabb)
        requires
            self.shape_wf(),
            position.bounded(),
        ensures
            r.model() == transformed_box(self.local_box_spec(), position.model()),
    ;

    /// Computes the bounding sphere of this shape under the given pose:
    /// the pose moves the local center, and rotation leaves the radius
    /// unchanged.
    fn compute_bounding_sphere(&self, position: &Isometry2) -> (r: BoundingSphere)
        requires
            self.shape_wf(),
            position.bounded(),
        ensures
            r.center.x == apply_x(
                position.model(),
                self.local_sphere_spec().center.x as int,
                self.local_sphere_spec().center.y as int,
            ),
            r.center.y == apply_y(
                position.model(),
                self.local_sphere_spec().center.x as int,
                self.local_sphere_spec().center.y as int,
            ),
            r.radius_sq == self.local_sphere_spec().radius_sq,
    ;

    /// Computes the box this shape sweeps moving from one pose to
    /// another: the merge of its boxes at both poses, a simple
    /// conservative bound rather than the true swept hull.
    fn compute_swept_aabb(&self, start_pos: &Isometry2, end_pos: &Isometry2) -> (r: Aabb)
        requires
            self.shape_wf(),
            start_pos.bounded(),
            end_pos.bounded(),
        ensures
            r.model() == merged_box(
                transformed_box(self.local_box_spec(), start_pos.model()),
                transformed_box(self.local_box_spec(), end_pos.model()),
            ),
    ;

    /// Computes the mass properties of this shape at a uniform density.
    fn mass_properties(&self, density: i64) -> (r: MassProperties)
        requires
            self.shape_wf(),
            self.mass_input_ok(density),
        ensures
            r == self.mass_properties_spec(density),
    ;

    /// The type tag of this shape.
    fn shape_type(&self) -> (r: ShapeType)
        ensures
            r == self.shape_type_spec(),
    ;

    /// This shape as the closed sum type, for exhaustive matching.
    fn as_typed_shape(&self) -> (r: TypedShape<'_>)
        ensures
            (r matches TypedShape::Cuboid(c) ==> self.shape_type_spec() == ShapeType::Cuboid
                && self.as_cuboid_spec() == Some(*c)),
            (r matches TypedShape::Compound(c) ==> self.shape_type_spec() == ShapeType::Compound),
    ;

    /// The thinnest dimension of the shape, a conservative bound used to
    /// decide whether fast motion could tunnel through it.
    fn ccd_thickness(&self) -> (r: i64)
        requires
            self.shape_wf(),
        ensures
            r == self.ccd_thickness_spec(),
    ;

    /// The smallest rotation, in degrees, that can change the shape's
    /// contact features.
    fn ccd_angular_thickness(&self) -> (r: i64)
        ensures
            r == self.ccd_angular_thickness_spec(),
            r > 0,
    ;

    /// Whether this shape is known to be convex: a true answer is a
    /// guarantee, a false one only an absence of knowledge.
    fn is_convex(&self) -> (r: bool)
        ensures
            r == self.is_convex_spec(),
    ;

    /// This shape seen through its support mapping, when it has one: the
    /// carrier of the returned mapping is the shape itself, never a copy.
    fn as_support_map(&self) -> (r: Option<SupportMapRef<'_>>)
        ensures
            (r is Some) == (self.as_support_map_spec() is Some),
            (r matches Some(m) ==> (m matches SupportMapRef::Cuboid(c) && Some(*c)
                == self.as_support_map_spec())),
    ;

    /// This shape seen as a polygonal feature map, when it is one,
    /// together with its border radius; the polyhedral shapes of this
    /// kernel carry a border radius of exactly zero.
    fn as_polygonal_feature_map(&self) -> (r: Option<(PolygonalFeatureMapRef<'_>, i64)>)
        ensures
            (r is Some) == (self.as_polygonal_feature_map_spec() is Some),
            (r matches Some(p) ==> p.1 == 0 && (p.0 matches PolygonalFeatureMapRef::Cuboid(c)
                && Some(*c) == self.as_polygonal_feature_map_spec())),
    ;

    /// The shape's normal at the given feature; the probed point does not
    /// influence the answer.
    fn feature_normal_at_point(&self, feature: FeatureId, point: &Point2) -> (r: Option<Vec2>)
        ensures
            r == self.feature_normal_at_spec(feature),
    ;

    /// Downcasts to a cuboid by runtime type check.
    fn as_cuboid(&self) -> (r: Option<&Cuboid>)
        ensures
            (r is Some) == (self.shape_type_spec() == ShapeType::Cuboid),
            (r matches Some(c) ==> self.as_cuboid_spec() == Some(*c)),
    ;

    /// Downcasts to a compound by runtime type check.
    fn as_compound(&self) -> (r: Option<&Compound>)
        ensures
            (r is Some) == (self.shape_type_spec() == ShapeType::Compound),
    ;
}

impl Shape for Cuboid {
    open spec fn shape_wf(&self) -> bool {
        self.is_valid()
    }

    open spec fn local_box_spec(&self) -> BoxModel {
        local_box(*self)
    }

    open spec fn local_sphere_spec(&self) -> BoundingSphere {
        BoundingSphere {
            center: Point2 { x: 0i64, y: 0i64 },
            radius_sq: (self.half_extents.x * self.half_extents.x + self.half_extents.y
                * self.half_extents.y) as i64,
        }
    }

    open spec fn mass_properties_spec(&self, density: i64) -> MassProperties {
        MassProperties {
            mass: (4 * density * self.half_extents.x * self.half_extents.y) as u128,
            local_com: Point2 { x: 0i64, y: 0i64 },
            inertia: ((4 * density * self.half_extents.x * self.half_extents.y) * (
            self.half_extents.x * self.half_extents.x + self.half_extents.y * self.half_extents.y)
                / 3) as u128,
        }
    }

    open spec fn mass_input_ok(&self, density: i64) -> bool {
        mass_inputs_fit(density, self.half_extents)
    }

    open spec fn shape_type_spec(&self) -> ShapeType {
        ShapeType::Cuboid
    }

    open spec fn as_cuboid_spec(&self) -> Option<Cuboid> {
        Some(*self)
    }

    open spec fn as_compound_spec(&self) -> Option<Compound> {
        None
    }

    open spec fn ccd_thickness_spec(&self) -> int {
        crate::algebra::imin(self.half_extents.x as int, self.half_extents.y as int)
    }

    open spec fn ccd_angular_thickness_spec(&self) -> int {
        90
    }

    open spec fn is_convex_spec(&self) -> bool {
        true
    }

    open spec fn as_support_map_spec(&self) -> Option<Cuboid> {
        Some(*self)
    }

    open spec fn as_polygonal_feature_map_spec(&self) -> Option<Cuboid> {
        Some(*self)
    }

    open spec fn feature_normal_at_spec(&self, feature: FeatureId) -> Option<Vec2> {
        feature_normal_spec(feature)
    }

    fn compute_local_aabb(&self) -> (r: Aabb) {
        self.local_aabb()
    }

    fn compute_local_bounding_sphere(&self) -> (r: BoundingSphere) {
        self.local_bounding_sphere()
    }

    fn compute_aabb(&self, position: &Isometry2) -> (r: Aabb) {
        self.aabb(position)
    }

    fn compute_bounding_sphere(&self, position: &Isometry2) -> (r: BoundingSphere) {
        self.bounding_sphere(position)
    }

    fn compute_swept_aabb(&self, start_pos: &Isometry2, end_pos: &Isometry2) -> (r: Aabb) {
        let a = self.aabb(start_pos);
        let b = self.aabb(end_pos);
        a.merged(&b)
    }

    fn mass_properties(&self, density: i64) -> (r: MassProperties) {
        MassProperties::from_cuboid(density, self.half_extents)
    }

    fn shape_type(&self) -> (r: ShapeType) {
        ShapeType::Cuboid
    }

    fn as_typed_shape(&self) -> (r: TypedShape<'_>) {
        TypedShape::Cuboid(self)
    }

    fn ccd_thickness(&self) -> (r: i64) {
        crate::algebra::min_i64(self.half_extents.x, self.half_extents.y)
    }

    fn ccd_angular_thickness(&self) -> (r: i64) {
        90
    }

    fn is_convex(&self) -> bool {
        true
    }

    fn as_support_map(&self) -> Option<SupportMapRef<'_>> {
        Some(SupportMapRef::Cuboid(self))
    }

    fn as_polygonal_feature_map(&self) -> Option<(PolygonalFeatureMapRef<'_>, i64)> {
        Some((PolygonalFeatureMapRef::Cuboid(self), 0))
    }

    fn feature_normal_at_point(&self, feature: FeatureId, _point: &Point2) -> Option<Vec2> {
        self.feature_normal(feature)
    }

    fn as_cuboid(&self) -> (r: Option<&Cuboid>) {
        Some(self)
    }

    fn as_compound(&self) -> (r: Option<&Compound>) {
        None
    }
}

} // verus!
