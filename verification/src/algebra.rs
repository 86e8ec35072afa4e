//! Exact 2D vector and rigid-transform algebra.
//!
//! Vectors and points hold signed 64-bit coordinates, read as fixed-point
//! values. A transform is a 2-by-2 matrix together with a translation; a
//! rigid pose supplies an orthonormal matrix, but nothing here depends on
//! orthonormality, so every contract holds of any affine map. Ghost models
//! over unbounded integers (`IsoModel`) carry the mathematics, while the
//! executable types stay within machine bounds.

use vstd::prelude::*;

verus! {

/// Largest coordinate or matrix-entry magnitude the transforming queries
/// accept: with entries and coordinates bounded by it, a transformed
/// coordinate is at most `2 * COORD_LIMIT * COORD_LIMIT + COORD_LIMIT`,
/// which fits in an `i64` with room to spare.
pub const COORD_LIMIT: i64 = 0x4000_0000;

/// Absolute value over unbounded integers.
pub open spec fn absi(x: int) -> int {
    if x < 0 {
        -x
    } else {
        x
    }
}

/// Minimum of two unbounded integers.
pub open spec fn imin(a: int, b: int) -> int {
    if a <= b {
        a
    } else {
        b
    }
}

/// Maximum of two unbounded integers.
pub open spec fn imax(a: int, b: int) -> int {
    if a >= b {
        a
    } else {
        b
    }
}

/// `x` clamped into `[lo, hi]`.
pub open spec fn clampi(x: int, lo: int, hi: int) -> int {
    if x < lo {
        lo
    } else if x > hi {
        hi
    } else {
        x
    }
}

/// The magnitude of `to` carrying the sign of `from`; zero counts as
/// positive, so the result is definite for every input.
pub open spec fn copysigni(from: int, to: int) -> int {
    if from < 0 {
        -absi(to)
    } else {
        absi(to)
    }
}

/// A 2D vector with exact integer coordinates.
#[derive(Clone, Copy, PartialEq, Eq, Structural, Debug)]
pub struct Vec2 {
    pub x: i64,
    pub y: i64,
}

/// A 2D point with exact integer coordinates.
#[derive(Clone, Copy, PartialEq, Eq, Structural, Debug)]
pub struct Point2 {
    pub x: i64,
    pub y: i64,
}

impl Vec2 {
    /// Whether both coordinates are within the kernel's coordinate bound.
    pub open spec fn bounded(self) -> bool {
        &&& -COORD_LIMIT <= self.x <= COORD_LIMIT
        &&& -COORD_LIMIT <= self.y <= COORD_LIMIT
    }

    pub fn new(x: i64, y: i64) -> (r: Vec2)
        ensures
            r.x == x,
            r.y == y,
    {
        Vec2 { x, y }
    }
}

impl Point2 {
    /// Whether both coordinates are within the kernel's coordinate bound.
    pub open spec fn bounded(self) -> bool {
        &&& -COORD_LIMIT <= self.x <= COORD_LIMIT
        &&& -COORD_LIMIT <= self.y <= COORD_LIMIT
    }

    pub fn new(x: i64, y: i64) -> (r: Point2)
        ensures
            r.x == x,
            r.y == y,
    {
        Point2 { x, y }
    }

    /// The origin.
    pub fn origin() -> (r: Point2)
        ensures
            r.x == 0,
            r.y == 0,
    {
        Point2 { x: 0, y: 0 }
    }
}

/// A 2-by-2 matrix with exact integer entries; a rigid pose stores its
/// rotation here, row-major.
#[derive(Clone, Copy, PartialEq, Eq, Structural, Debug)]
pub struct Mat2 {
    pub m11: i64,
    pub m12: i64,
    pub m21: i64,
    pub m22: i64,
}

/// A transform: rotation matrix plus translation vector, applied as
/// `p -> rotation * p + translation`.
#[derive(Clone, Copy, PartialEq, Eq, Structural, Debug)]
pub struct Isometry2 {
    pub rotation: Mat2,
    pub translation: Vec2,
}

/// The ghost model of a transform: the same six numbers over unbounded
/// integers, so that laws about composed transforms need no overflow side
/// conditions.
pub ghost struct IsoModel {
    pub m11: int,
    pub m12: int,
    pub m21: int,
    pub m22: int,
    pub tx: int,
    pub ty: int,
}

/// The x-coordinate of a model transform applied to the point `(px, py)`.
pub open spec fn apply_x(i: IsoModel, px: int, py: int) -> int {
    i.m11 * px + i.m12 * py + i.tx
}

/// The y-coordinate of a model transform applied to the point `(px, py)`.
pub open spec fn apply_y(i: IsoModel, px: int, py: int) -> int {
    i.m21 * px + i.m22 * py + i.ty
}

/// The composition `a` after `b`: applying it equals applying `b`, then `a`.
pub open spec fn compose_model(a: IsoModel, b: IsoModel) -> IsoModel {
    IsoModel {
        m11: a.m11 * b.m11 + a.m12 * b.m21,
        m12: a.m11 * b.m12 + a.m12 * b.m22,
        m21: a.m21 * b.m11 + a.m22 * b.m21,
        m22: a.m21 * b.m12 + a.m22 * b.m22,
        tx: a.m11 * b.tx + a.m12 * b.ty + a.tx,
        ty: a.m21 * b.tx + a.m22 * b.ty + a.ty,
    }
}

/// The model of the identity transform.
pub open spec fn identity_model() -> IsoModel {
    IsoModel { m11: 1, m12: 0, m21: 0, m22: 1, tx: 0, ty: 0 }
}

/// A product of two integers bounded by `l` in magnitude is bounded by
/// `l * l`.
pub proof fn lemma_bounded_product(a: int, b: int, l: int)
    by (nonlinear_arith)
    requires
        -l <= a <= l,
        -l <= b <= l,
        0 <= l,
    ensures
        -(l * l) <= a * b <= l * l,
{
}

/// Multiplying a bracketed three-term sum distributes.
proof fn lemma_distribute3(k: int, u: int, v: int, w: int)
    by (nonlinear_arith)
    ensures
        k * (u + v + w) == k * u + k * v + k * w,
{
}

/// Multiplying a bracketed two-term sum distributes.
proof fn lemma_distribute2(u: int, v: int, k: int)
    by (nonlinear_arith)
    ensures
        (u + v) * k == u * k + v * k,
{
}

/// Products of three factors associate.
proof fn lemma_associate3(a: int, b: int, c: int)
    by (nonlinear_arith)
    ensures
        (a * b) * c == a * (b * c),
{
}

/// Composing transforms composes their x-action on every point.
pub proof fn lemma_compose_model_applies_x(a: IsoModel, b: IsoModel, px: int, py: int)
    ensures
        apply_x(compose_model(a, b), px, py) == apply_x(a, apply_x(b, px, py), apply_y(b, px, py)),
{
    lemma_distribute3(a.m11, b.m11 * px, b.m12 * py, b.tx);
    lemma_distribute3(a.m12, b.m21 * px, b.m22 * py, b.ty);
    lemma_distribute2(a.m11 * b.m11, a.m12 * b.m21, px);
    lemma_distribute2(a.m11 * b.m12, a.m12 * b.m22, py);
    lemma_associate3(a.m11, b.m11, px);
    lemma_associate3(a.m12, b.m21, px);
    lemma_associate3(a.m11, b.m12, py);
    lemma_associate3(a.m12, b.m22, py);
}

/// Composing transforms composes their y-action on every point.
pub proof fn lemma_compose_model_applies_y(a: IsoModel, b: IsoModel, px: int, py: int)
    ensures
        apply_y(compose_model(a, b), px, py) == apply_y(a, apply_x(b, px, py), apply_y(b, px, py)),
{
    lemma_distribute3(a.m21, b.m11 * px, b.m12 * py, b.tx);
    lemma_distribute3(a.m22, b.m21 * px, b.m22 * py, b.ty);
    lemma_distribute2(a.m21 * b.m11, a.m22 * b.m21, px);
    lemma_distribute2(a.m21 * b.m12, a.m22 * b.m22, py);
    lemma_associate3(a.m21, b.m11, px);
    lemma_associate3(a.m22, b.m21, px);
    lemma_associate3(a.m21, b.m12, py);
    lemma_associate3(a.m22, b.m22, py);
}

impl Isometry2 {
    /// The unbounded-integer model of this transform.
    pub open spec fn model(self) -> IsoModel {
        IsoModel {
            m11: self.rotation.m11 as int,
            m12: self.rotation.m12 as int,
            m21: self.rotation.m21 as int,
            m22: self.rotation.m22 as int,
            tx: self.translation.x as int,
            ty: self.translation.y as int,
        }
    }

    /// Whether all entries and the translation are within the coordinate
    /// bound, so that applying the transform cannot overflow.
    pub open spec fn bounded(self) -> bool {
        &&& -COORD_LIMIT <= self.rotation.m11 <= COORD_LIMIT
        &&& -COORD_LIMIT <= self.rotation.m12 <= COORD_LIMIT
        &&& -COORD_LIMIT <= self.rotation.m21 <= COORD_LIMIT
        &&& -COORD_LIMIT <= self.rotation.m22 <= COORD_LIMIT
        &&& -COORD_LIMIT <= self.translation.x <= COORD_LIMIT
        &&& -COORD_LIMIT <= self.translation.y <= COORD_LIMIT
    }

    pub fn new(rotation: Mat2, translation: Vec2) -> (r: Isometry2)
        ensures
            r.rotation == rotation,
            r.translation == translation,
    {
        Isometry2 { rotation, translation }
    }

    /// The identity pose.
    pub fn identity() -> (r: Isometry2)
        ensures
            r.model() == identity_model(),
            r.bounded(),
    {
        Isometry2 {
            rotation: Mat2 { m11: 1, m12: 0, m21: 0, m22: 1 },
            translation: Vec2 { x: 0, y: 0 },
        }
    }

    /// Applies the transform to a point.
    pub fn transform_point(&self, p: Point2) -> (r: Point2)
        requires
            self.bounded(),
            p.bounded(),
        ensures
            r.x == apply_x(self.model(), p.x as int, p.y as int),
            r.y == apply_y(self.model(), p.x as int, p.y as int),
    {
        proof {
            lemma_bounded_product(self.rotation.m11 as int, p.x as int, COORD_LIMIT as int);
            lemma_bounded_product(self.rotation.m12 as int, p.y as int, COORD_LIMIT as int);
            lemma_bounded_product(self.rotation.m21 as int, p.x as int, COORD_LIMIT as int);
            lemma_bounded_product(self.rotation.m22 as int, p.y as int, COORD_LIMIT as int);
        }
        let x = self.rotation.m11 * p.x + self.rotation.m12 * p.y + self.translation.x;
        let y = self.rotation.m21 * p.x + self.rotation.m22 * p.y + self.translation.y;
        Point2 { x, y }
    }

    /// The composition `self` after `other`.
    pub fn compose(&self, other: &Isometry2) -> (r: Isometry2)
        requires
            self.bounded(),
            other.bounded(),
        ensures
            r.model() == compose_model(self.model(), other.model()),
    {
        proof {
            lemma_bounded_product(self.rotation.m11 as int, other.rotation.m11 as int, COORD_LIMIT as int);
            lemma_bounded_product(self.rotation.m11 as int, other.rotation.m12 as int, COORD_LIMIT as int);
            lemma_bounded_product(self.rotation.m12 as int, other.rotation.m21 as int, COORD_LIMIT as int);
            lemma_bounded_product(self.rotation.m12 as int, other.rotation.m22 as int, COORD_LIMIT as int);
            lemma_bounded_product(self.rotation.m21 as int, other.rotation.m11 as int, COORD_LIMIT as int);
            lemma_bounded_product(self.rotation.m21 as int, other.rotation.m12 as int, COORD_LIMIT as int);
            lemma_bounded_product(self.rotation.m22 as int, other.rotation.m21 as int, COORD_LIMIT as int);
            lemma_bounded_product(self.rotation.m22 as int, other.rotation.m22 as int, COORD_LIMIT as int);
            lemma_bounded_product(self.rotation.m11 as int, other.translation.x as int, COORD_LIMIT as int);
            lemma_bounded_product(self.rotation.m12 as int, other.translation.y as int, COORD_LIMIT as int);
            lemma_bounded_product(self.rotation.m21 as int, other.translation.x as int, COORD_LIMIT as int);
            lemma_bounded_product(self.rotation.m22 as int, other.translation.y as int, COORD_LIMIT as int);
        }
        Isometry2 {
            rotation: Mat2 {
                m11: self.rotation.m11 * other.rotation.m11 + self.rotation.m12 * other.rotation.m21,
                m12: self.rotation.m11 * other.rotation.m12 + self.rotation.m12 * other.rotation.m22,
                m21: self.rotation.m21 * other.rotation.m11 + self.rotation.m22 * other.rotation.m21,
                m22: self.rotation.m21 * other.rotation.m12 + self.rotation.m22 * other.rotation.m22,
            },
            translation: Vec2 {
                x: self.rotation.m11 * other.translation.x + self.rotation.m12 * other.translation.y
                    + self.translation.x,
                y: self.rotation.m21 * other.translation.x + self.rotation.m22 * other.translation.y
                    + self.translation.y,
            },
        }
    }
}

/// The smaller of two machine integers.
pub fn min_i64(a: i64, b: i64) -> (r: i64)
    ensures
        r == imin(a as int, b as int),
{
    if a <= b {
        a
    } else {
        b
    }
}

/// The larger of two machine integers.
pub fn max_i64(a: i64, b: i64) -> (r: i64)
    ensures
        r == imax(a as int, b as int),
{
    if a >= b {
        a
    } else {
        b
    }
}

/// Absolute value of a machine integer.
pub fn abs_i64(x: i64) -> (r: i64)
    requires
        x != i64::MIN,
    ensures
        r == absi(x as int),
{
    if x < 0 {
        -x
    } else {
        x
    }
}

/// `x` clamped into `[lo, hi]`.
pub fn clamp_i64(x: i64, lo: i64, hi: i64) -> (r: i64)
    requires
        lo <= hi,
    ensures
        r == clampi(x as int, lo as int, hi as int),
{
    if x < lo {
        lo
    } else if x > hi {
        hi
    } else {
        x
    }
}

/// The magnitude of `to` carrying the sign of `from`; zero counts as
/// positive.
pub fn copy_sign_to(from: i64, to: i64) -> (r: i64)
    requires
        to != i64::MIN,
    ensures
        r == copysigni(from as int, to as int),
{
    let m = abs_i64(to);
    if from < 0 {
        -m
    } else {
        m
    }
}

} // verus!
