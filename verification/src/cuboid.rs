//! The rectangular convex shape and its feature queries.
//!
//! A cuboid is described by its half-extents and lives in its local frame,
//! centered at the origin and axis-aligned. Besides its bounding volumes and
//! mass properties it offers the narrow-phase queries a contact generator
//! needs: the support point along a direction, the supporting face as a
//! two-vertex polygonal feature, stable feature identifiers derived from
//! coordinate sign bits, and the outward normal of each feature.

use vstd::prelude::*;

use crate::aabb::box_contains_point;
use crate::aabb::lemma_transformed_box_contains_point;
use crate::aabb::transformed_box;
use crate::aabb::Aabb;
use crate::aabb::BoxModel;
use crate::algebra::absi;
use crate::algebra::abs_i64;
use crate::algebra::apply_x;
use crate::algebra::apply_y;
use crate::algebra::copysigni;
use crate::algebra::copy_sign_to;
use crate::algebra::imax;
use crate::algebra::imin;
use crate::algebra::lemma_bounded_product;
use crate::algebra::min_i64;
use crate::algebra::IsoModel;
use crate::algebra::Isometry2;
use crate::algebra::Point2;
use crate::algebra::Vec2;
use crate::algebra::COORD_LIMIT;
use crate::bounding_sphere::BoundingSphere;
use crate::mass::MassProperties;
use crate::mass::mass_inputs_fit;

verus! {

/// Why a shape could not be built: a half-extent was zero or negative.
#[derive(Clone, Copy, PartialEq, Eq, Structural, Debug)]
pub enum ShapeError {
    DegenerateShape,
}

/// Identifies a feature of a shape's boundary: a face, a vertex (as a
/// two-bit corner sign code), or an unrecognized feature.
#[derive(Clone, Copy, PartialEq, Eq, Structural, Debug)]
pub enum FeatureId {
    Vertex(u32),
    Face(u32),
    Unknown,
}

/// A face or vertex of a shape used to build contact manifolds: up to two
/// vertices, their vertex ids, and a combined feature id.
#[derive(Clone, Copy, PartialEq, Eq, Debug)]
pub struct PolygonalFeature {
    pub vertices: [Point2; 2],
    pub vids: [u32; 2],
    pub fid: u32,
    pub num_vertices: u32,
}

/// The two-bit corner code of a vertex: bit 0 is the sign of x, bit 1 the
/// sign of y, with zero counting as positive.
pub open spec fn vertex_feature_id_spec(px: int, py: int) -> int {
    (if px < 0 {
        1int
    } else {
        0int
    }) + (if py < 0 {
        2int
    } else {
        0int
    })
}

/// Combining the top bits of the coordinate words equals adding the two
/// sign codes.
proof fn lemma_sign_code(vx: i64, vy: i64, xb: u64, yb: u64)
    by (bit_vector)
    requires
        xb == vx as u64,
        yb == vy as u64,
    ensures
        (((xb >> 63) & 1) | ((yb >> 62) & 2)) == (if vx < 0 {
            1u64
        } else {
            0u64
        }) + (if vy < 0 {
            2u64
        } else {
            0u64
        }),
{
}

/// The first vertex of the supporting face along `dir`: the axis of
/// smallest absolute direction component spans the face, the other axis
/// copies the direction's sign.
pub open spec fn support_face_first(he: Vec2, dir: Vec2) -> (int, int) {
    if absi(dir.x as int) <= absi(dir.y as int) {
        (he.x as int, copysigni(dir.y as int, he.y as int))
    } else {
        (copysigni(dir.x as int, he.x as int), he.y as int)
    }
}

/// The second vertex of the supporting face along `dir`: as the first, with
/// the spanning axis at its opposite extent.
pub open spec fn support_face_second(he: Vec2, dir: Vec2) -> (int, int) {
    if absi(dir.x as int) <= absi(dir.y as int) {
        (-(he.x as int), copysigni(dir.y as int, he.y as int))
    } else {
        (copysigni(dir.x as int, he.x as int), -(he.y as int))
    }
}

/// The outward direction a feature id names: faces 0 and 1 are the positive
/// x and y faces, faces 2 and 3 the negative ones; vertex codes give the
/// four diagonal lattice directions. Face normals are exact unit vectors;
/// diagonal directions are left unnormalized, their real-valued unit
/// counterpart being irrational.
pub open spec fn feature_normal_spec(f: FeatureId) -> Option<Vec2> {
    match f {
        FeatureId::Face(id) => if id == 0 {
            Some(Vec2 { x: 1i64, y: 0i64 })
        } else if id == 1 {
            Some(Vec2 { x: 0i64, y: 1i64 })
        } else if id == 2 {
            Some(Vec2 { x: -1i64, y: 0i64 })
        } else if id == 3 {
            Some(Vec2 { x: 0i64, y: -1i64 })
        } else {
            None
        },
        FeatureId::Vertex(id) => if id == 0 {
            Some(Vec2 { x: 1i64, y: 1i64 })
        } else if id == 1 {
            Some(Vec2 { x: -1i64, y: 1i64 })
        } else if id == 3 {
            Some(Vec2 { x: -1i64, y: -1i64 })
        } else if id == 2 {
            Some(Vec2 { x: 1i64, y: -1i64 })
        } else {
            None
        },
        FeatureId::Unknown => None,
    }
}

/// The outward unit direction of a face id below 4.
pub open spec fn face_outward_dir(id: u32) -> Vec2 {
    if id == 0 {
        Vec2 { x: 1i64, y: 0i64 }
    } else if id == 1 {
        Vec2 { x: 0i64, y: 1i64 }
    } else if id == 2 {
        Vec2 { x: -1i64, y: 0i64 }
    } else {
        Vec2 { x: 0i64, y: -1i64 }
    }
}

/// The integer dot product of two vectors.
pub open spec fn dot2(a: Vec2, b: Vec2) -> int {
    a.x * b.x + a.y * b.y
}

/// A rectangle centered at the origin, described by its two half-extents,
/// both strictly positive.
#[derive(Clone, Copy, PartialEq, Eq, Structural, Debug)]
pub struct Cuboid {
    pub half_extents: Vec2,
}

/// The local-frame box of a cuboid over unbounded integers.
pub open spec fn local_box(c: Cuboid) -> BoxModel {
    BoxModel {
        minx: -(c.half_extents.x as int),
        miny: -(c.half_extents.y as int),
        maxx: c.half_extents.x as int,
        maxy: c.half_extents.y as int,
    }
}

/// Whether the point `(px, py)` lies in the cuboid's local geometry.
pub open spec fn in_cuboid(c: Cuboid, px: int, py: int) -> bool {
    box_contains_point(local_box(c), px, py)
}

impl Cuboid {
    /// Whether both half-extents are strictly positive and within the
    /// kernel's coordinate bound.
    pub open spec fn is_valid(self) -> bool {
        &&& 0 < self.half_extents.x <= COORD_LIMIT
        &&& 0 < self.half_extents.y <= COORD_LIMIT
    }

    /// Builds a box from its half-extents, the half-width along each axis.
    /// A zero or negative component is a degenerate shape and is rejected.
    pub fn new(half_extents: Vec2) -> (r: Result<Cuboid, ShapeError>)
        requires
            half_extents.x <= COORD_LIMIT,
            half_extents.y <= COORD_LIMIT,
        ensures
            r is Ok <==> (half_extents.x > 0 && half_extents.y > 0),
            (r matches Ok(c) ==> c.half_extents == half_extents && c.is_valid()),
            (r matches Err(e) ==> e == ShapeError::DegenerateShape),
    {
        if half_extents.x > 0 && half_extents.y > 0 {
            Ok(Cuboid { half_extents })
        } else {
            Err(ShapeError::DegenerateShape)
        }
    }

    /// A version of this cuboid scaled component-wise by `scale`.
    pub fn scaled(self, scale: Vec2) -> (r: Cuboid)
        requires
            self.is_valid(),
            0 < scale.x,
            0 < scale.y,
            self.half_extents.x * scale.x <= COORD_LIMIT,
            self.half_extents.y * scale.y <= COORD_LIMIT,
        ensures
            r.half_extents.x == self.half_extents.x * scale.x,
            r.half_extents.y == self.half_extents.y * scale.y,
            r.is_valid(),
    {
        proof {
            assert(self.half_extents.x * scale.x >= 1) by (nonlinear_arith)
                requires
                    self.half_extents.x >= 1,
                    scale.x >= 1,
            ;
            assert(self.half_extents.y * scale.y >= 1) by (nonlinear_arith)
                requires
                    self.half_extents.y >= 1,
                    scale.y >= 1,
            ;
        }
        Cuboid {
            half_extents: Vec2 {
                x: self.half_extents.x * scale.x,
                y: self.half_extents.y * scale.y,
            },
        }
    }

    /// The two-bit corner code of a vertex, taken branch-free from the sign
    /// bits of the coordinate words, so that every vertex resolves to a
    /// definite corner.
    pub fn vertex_feature_id(vertex: Point2) -> (r: u32)
        ensures
            r == vertex_feature_id_spec(vertex.x as int, vertex.y as int),
            r <= 3,
    {
        let xb: u64 = #[verifier::truncate] (vertex.x as u64);
        let yb: u64 = #[verifier::truncate] (vertex.y as u64);
        proof {
            lemma_sign_code(vertex.x, vertex.y, xb, yb);
        }
        (((xb >> 63) & 1) | ((yb >> 62) & 2)) as u32
    }

    /// The feature of this cuboid whose normal best aligns with `dir`.
    /// In 2D this is always the supporting face: a two-point face keeps
    /// contact generation stable even where a single vertex would be
    /// geometrically exact.
    pub fn support_feature(&self, local_dir: Vec2) -> (r: PolygonalFeature)
        requires
            self.is_valid(),
            local_dir.x != i64::MIN,
            local_dir.y != i64::MIN,
        ensures
            r == self.support_face_spec(local_dir),
    {
        self.support_face(local_dir)
    }

    /// The supporting face as a value: both vertices, their corner codes,
    /// and the packed face id.
    pub open spec fn support_face_spec(self, dir: Vec2) -> PolygonalFeature {
        let a = support_face_first(self.half_extents, dir);
        let b = support_face_second(self.half_extents, dir);
        let va = vertex_feature_id_spec(a.0, a.1);
        let vb = vertex_feature_id_spec(b.0, b.1);
        PolygonalFeature {
            vertices: [
                Point2 { x: a.0 as i64, y: a.1 as i64 },
                Point2 { x: b.0 as i64, y: b.1 as i64 },
            ],
            vids: [va as u32, vb as u32],
            fid: (48 + 4 * imax(va, vb) + imin(va, vb)) as u32,
            num_vertices: 2u32,
        }
    }

    /// The face of this cuboid whose outward normal best aligns with
    /// `local_dir`: the axis with the smaller absolute direction component
    /// spans the face, the other axis copies the direction's sign. The
    /// combined id packs the two corner codes above a face marker.
    pub fn support_face(&self, local_dir: Vec2) -> (r: PolygonalFeature)
        requires
            self.is_valid(),
            local_dir.x != i64::MIN,
            local_dir.y != i64::MIN,
        ensures
            r == self.support_face_spec(local_dir),
    {
        let he = self.half_extents;
        let (a, b): (Point2, Point2) = if abs_i64(local_dir.x) <= abs_i64(local_dir.y) {
            let ay = copy_sign_to(local_dir.y, he.y);
            (Point2 { x: he.x, y: ay }, Point2 { x: -he.x, y: ay })
        } else {
            let ax = copy_sign_to(local_dir.x, he.x);
            (Point2 { x: ax, y: he.y }, Point2 { x: ax, y: -he.y })
        };
        let vid1 = Self::vertex_feature_id(a);
        let vid2 = Self::vertex_feature_id(b);
        let mx = if vid1 >= vid2 {
            vid1
        } else {
            vid2
        };
        let mn = if vid1 <= vid2 {
            vid1
        } else {
            vid2
        };
        proof {
            lemma_pack_fid(mx, mn);
        }
        let fid = (mx << 2) | mn | 0b11_0000;
        PolygonalFeature { vertices: [a, b], vids: [vid1, vid2], fid, num_vertices: 2 }
    }

    /// Writes the supporting face along `dir` into a caller-provided
    /// feature, the polygonal-feature-map entry point of this shape.
    pub fn local_support_feature(&self, dir: &Vec2, out_feature: &mut PolygonalFeature)
        requires
            self.is_valid(),
            dir.x != i64::MIN,
            dir.y != i64::MIN,
        ensures
            *final (out_feature) == self.support_face_spec(*dir),
    {
        *out_feature = self.support_face(*dir);
    }

    /// The support point of the cuboid along `dir`: the corner whose
    /// coordinate signs follow the direction's, with zero counting as
    /// positive.
    pub fn local_support_point(&self, dir: Vec2) -> (r: Point2)
        requires
            self.is_valid(),
            dir.x != i64::MIN,
            dir.y != i64::MIN,
        ensures
            r.x == copysigni(dir.x as int, self.half_extents.x as int),
            r.y == copysigni(dir.y as int, self.half_extents.y as int),
    {
        Point2 {
            x: copy_sign_to(dir.x, self.half_extents.x),
            y: copy_sign_to(dir.y, self.half_extents.y),
        }
    }

    /// The outward direction of the given feature, or nothing for an id
    /// outside the cuboid's feature set. Face normals are exact unit axis
    /// vectors; corner directions are the diagonal lattice vectors.
    pub fn feature_normal(&self, feature: FeatureId) -> (r: Option<Vec2>)
        ensures
            r == feature_normal_spec(feature),
    {
        match feature {
            FeatureId::Face(id) => {
                if id == 0 {
                    Some(Vec2 { x: 1, y: 0 })
                } else if id == 1 {
                    Some(Vec2 { x: 0, y: 1 })
                } else if id == 2 {
                    Some(Vec2 { x: -1, y: 0 })
                } else if id == 3 {
                    Some(Vec2 { x: 0, y: -1 })
                } else {
                    None
                }
            },
            FeatureId::Vertex(id) => {
                if id == 0 {
                    Some(Vec2 { x: 1, y: 1 })
                } else if id == 1 {
                    Some(Vec2 { x: -1, y: 1 })
                } else if id == 3 {
                    Some(Vec2 { x: -1, y: -1 })
                } else if id == 2 {
                    Some(Vec2 { x: 1, y: -1 })
                } else {
                    None
                }
            },
            FeatureId::Unknown => None,
        }
    }

    /// The cuboid's box in its local frame: from minus to plus the
    /// half-extents.
    pub fn local_aabb(&self) -> (r: Aabb)
        requires
            self.is_valid(),
        ensures
            r.model() == local_box(*self),
            r.is_valid(),
    {
        Aabb {
            mins: Point2 { x: -self.half_extents.x, y: -self.half_extents.y },
            maxs: Point2 { x: self.half_extents.x, y: self.half_extents.y },
        }
    }

    /// The world-frame box of this cuboid under the pose `pos`, computed
    /// directly: center at the pose's translation, world half-extents the
    /// absolute rotation matrix applied to the half-extents. It equals the
    /// local box transformed by the pose.
    pub fn aabb(&self, pos: &Isometry2) -> (r: Aabb)
        requires
            self.is_valid(),
            pos.bounded(),
        ensures
            r.model() == transformed_box(local_box(*self), pos.model()),
    {
        let m = pos.rotation;
        let a11 = abs_i64(m.m11);
        let a12 = abs_i64(m.m12);
        let a21 = abs_i64(m.m21);
        let a22 = abs_i64(m.m22);
        proof {
            lemma_bounded_product(a11 as int, self.half_extents.x as int, COORD_LIMIT as int);
            lemma_bounded_product(a12 as int, self.half_extents.y as int, COORD_LIMIT as int);
            lemma_bounded_product(a21 as int, self.half_extents.x as int, COORD_LIMIT as int);
            lemma_bounded_product(a22 as int, self.half_extents.y as int, COORD_LIMIT as int);
            lemma_sym_interval(m.m11 as int, self.half_extents.x as int);
            lemma_sym_interval(m.m12 as int, self.half_extents.y as int);
            lemma_sym_interval(m.m21 as int, self.half_extents.x as int);
            lemma_sym_interval(m.m22 as int, self.half_extents.y as int);
        }
        let wx = a11 * self.half_extents.x + a12 * self.half_extents.y;
        let wy = a21 * self.half_extents.x + a22 * self.half_extents.y;
        Aabb {
            mins: Point2 { x: pos.translation.x - wx, y: pos.translation.y - wy },
            maxs: Point2 { x: pos.translation.x + wx, y: pos.translation.y + wy },
        }
    }

    /// The smallest sphere around the origin holding the cuboid: its
    /// squared radius is the squared length of the half-extents.
    pub fn local_bounding_sphere(&self) -> (r: BoundingSphere)
        requires
            self.is_valid(),
        ensures
            r.center.x == 0,
            r.center.y == 0,
            r.radius_sq == self.half_extents.x * self.half_extents.x + self.half_extents.y
                * self.half_extents.y,
    {
        proof {
            lemma_bounded_product(
                self.half_extents.x as int,
                self.half_extents.x as int,
                COORD_LIMIT as int,
            );
            lemma_bounded_product(
                self.half_extents.y as int,
                self.half_extents.y as int,
                COORD_LIMIT as int,
            );
        }
        BoundingSphere {
            center: Point2 { x: 0, y: 0 },
            radius_sq: self.half_extents.x * self.half_extents.x + self.half_extents.y
                * self.half_extents.y,
        }
    }

    /// The cuboid's bounding sphere under the pose `pos`: centered at the
    /// pose's translation, with the local squared radius, which rotation
    /// leaves unchanged.
    pub fn bounding_sphere(&self, pos: &Isometry2) -> (r: BoundingSphere)
        requires
            self.is_valid(),
            pos.bounded(),
        ensures
            r.center.x == pos.translation.x,
            r.center.y == pos.translation.y,
            r.radius_sq == self.half_extents.x * self.half_extents.x + self.half_extents.y
                * self.half_extents.y,
    {
        let bv = self.local_bounding_sphere();
        bv.transform_by(pos)
    }

    /// The mass properties of the cuboid at the given uniform density.
    pub fn mass_properties(&self, density: i64) -> (r: MassProperties)
        requires
            self.is_valid(),
            mass_inputs_fit(density, self.half_extents),
        ensures
            r.mass == 4 * density * self.half_extents.x * self.half_extents.y,
            r.local_com.x == 0,
            r.local_com.y == 0,
            r.inertia == r.mass * (self.half_extents.x * self.half_extents.x
                + self.half_extents.y * self.half_extents.y) / 3,
    {
        MassProperties::from_cuboid(density, self.half_extents)
    }

    /// The thinnest half-width of the cuboid, a conservative bound used by
    /// continuous-collision heuristics.
    pub fn ccd_thickness(&self) -> (r: i64)
        ensures
            r == imin(self.half_extents.x as int, self.half_extents.y as int),
    {
        min_i64(self.half_extents.x, self.half_extents.y)
    }

    /// The smallest rotation, in degrees, that can change the cuboid's
    /// contact features: a right angle.
    pub fn ccd_angular_thickness(&self) -> (r: i64)
        ensures
            r == 90,
    {
        90
    }
}

/// Packing two corner codes into a face id equals the arithmetic form
/// `48 + 4 * high + low`.
proof fn lemma_pack_fid(mx: u32, mn: u32)
    by (bit_vector)
    requires
        mx <= 3,
        mn <= 3,
    ensures
        ((mx << 2) | mn | 0b11_0000) == 48 + 4 * mx + mn,
{
}

/// A multiplier applied to a symmetric interval spans plus and minus its
/// absolute value times the half-width.
proof fn lemma_sym_interval(m: int, h: int)
    requires
        h >= 0,
    ensures
        imin(m * (-h), m * h) == -(absi(m) * h),
        imax(m * (-h), m * h) == absi(m) * h,
{
    assert(m * (-h) == -(m * h)) by (nonlinear_arith);
    if m >= 0 {
        assert(m * h >= 0) by (nonlinear_arith)
            requires
                m >= 0,
                h >= 0,
        ;
    } else {
        assert(m * h <= 0 && (-m) * h == -(m * h)) by (nonlinear_arith)
            requires
                m < 0,
                h >= 0,
        ;
    }
}

/// The four corners of a rectangle with strictly positive half-extents map
/// to four distinct corner codes.
pub proof fn lemma_vertex_feature_id_injective(hx: int, hy: int)
    requires
        hx > 0,
        hy > 0,
    ensures
        vertex_feature_id_spec(hx, hy) == 0,
        vertex_feature_id_spec(-hx, hy) == 1,
        vertex_feature_id_spec(hx, -hy) == 2,
        vertex_feature_id_spec(-hx, -hy) == 3,
{
}

/// Round trip of face normals: for each of the four face ids the normal is
/// exactly the face's outward direction, and their dot product is one.
pub proof fn lemma_feature_normal_face_round_trip(id: u32)
    requires
        id < 4,
    ensures
        feature_normal_spec(FeatureId::Face(id)) == Some(face_outward_dir(id)),
        dot2(face_outward_dir(id), face_outward_dir(id)) == 1,
{
}

/// One coordinate of a box point, weighted by a direction component, is
/// bounded by the matching support-point term.
proof fn lemma_support_term(p: int, d: int, h: int)
    requires
        -h <= p <= h,
    ensures
        p * d <= copysigni(d, h) * d,
{
    if d >= 0 {
        assert(p * d <= h * d) by (nonlinear_arith)
            requires
                d >= 0,
                p <= h,
        ;
        assert(absi(h) == h);
    } else {
        assert(p * d <= (-h) * d) by (nonlinear_arith)
            requires
                d < 0,
                -h <= p,
        ;
        assert(copysigni(d, h) == -absi(h));
        assert(absi(h) == h);
    }
}

/// The support mapping is correct: no point of the cuboid goes further
/// along `dir` than the support point.
pub proof fn lemma_support_point_maximal(c: Cuboid, dir: Vec2, px: int, py: int)
    requires
        c.is_valid(),
        in_cuboid(c, px, py),
    ensures
        px * dir.x + py * dir.y <= copysigni(dir.x as int, c.half_extents.x as int) * dir.x
            + copysigni(dir.y as int, c.half_extents.y as int) * dir.y,
{
    lemma_support_term(px, dir.x as int, c.half_extents.x as int);
    lemma_support_term(py, dir.y as int, c.half_extents.y as int);
}

/// The supporting face holds the support point: one of its two vertices is
/// the corner the support mapping returns.
pub proof fn lemma_support_face_holds_support_point(c: Cuboid, dir: Vec2)
    requires
        c.is_valid(),
    ensures
        support_face_first(c.half_extents, dir) == (
            copysigni(dir.x as int, c.half_extents.x as int),
            copysigni(dir.y as int, c.half_extents.y as int),
        ) || support_face_second(c.half_extents, dir) == (
            copysigni(dir.x as int, c.half_extents.x as int),
            copysigni(dir.y as int, c.half_extents.y as int),
        ),
{
    assert(absi(c.half_extents.x as int) == c.half_extents.x as int);
    assert(absi(c.half_extents.y as int) == c.half_extents.y as int);
}

/// Conservativeness of the posed bounding box: the image under any
/// transform of any point of the cuboid lies in the box that `aabb`
/// returns for that pose.
pub proof fn lemma_cuboid_aabb_conservative(c: Cuboid, t: IsoModel, px: int, py: int)
    requires
        in_cuboid(c, px, py),
    ensures
        box_contains_point(
            transformed_box(local_box(c), t),
            apply_x(t, px, py),
            apply_y(t, px, py),
        ),
{
    lemma_transformed_box_contains_point(local_box(c), t, px, py);
}

} // verus!
