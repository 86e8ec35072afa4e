//! Axis-aligned bounding boxes.
//!
//! A box stores its two extreme corners. Merging is component-wise min and
//! max; posing a box uses the rotation trick that bounds a rotated box by
//! taking, per output axis, the extreme of each matrix column over the input
//! interval. The laws at the end of this module prove the trick conservative
//! (every transformed point of the box stays inside the posed box), exact
//! under the identity, and conservative under composition: posing twice
//! bounds, but need not equal, posing by the composed transform.

use vstd::prelude::*;

use crate::algebra::apply_x;
use crate::algebra::apply_y;
use crate::algebra::compose_model;
use crate::algebra::identity_model;
use crate::algebra::imax;
use crate::algebra::imin;
use crate::algebra::lemma_bounded_product;
use crate::algebra::lemma_compose_model_applies_x;
use crate::algebra::lemma_compose_model_applies_y;
use crate::algebra::min_i64;
use crate::algebra::max_i64;
use crate::algebra::IsoModel;
use crate::algebra::Isometry2;
use crate::algebra::Point2;
use crate::algebra::Vec2;
use crate::algebra::COORD_LIMIT;

verus! {

/// The ghost model of a box: its four bounds over unbounded integers.
pub ghost struct BoxModel {
    pub minx: int,
    pub miny: int,
    pub maxx: int,
    pub maxy: int,
}

/// Whether the model describes a non-inverted box.
pub open spec fn box_valid(b: BoxModel) -> bool {
    b.minx <= b.maxx && b.miny <= b.maxy
}

/// Whether the point `(px, py)` lies in the closed box.
pub open spec fn box_contains_point(b: BoxModel, px: int, py: int) -> bool {
    b.minx <= px <= b.maxx && b.miny <= py <= b.maxy
}

/// Whether every point of `inner` lies in `outer`.
pub open spec fn box_contains_box(outer: BoxModel, inner: BoxModel) -> bool {
    &&& outer.minx <= inner.minx
    &&& outer.miny <= inner.miny
    &&& inner.maxx <= outer.maxx
    &&& inner.maxy <= outer.maxy
}

/// The smallest box holding both arguments.
pub open spec fn merged_box(a: BoxModel, b: BoxModel) -> BoxModel {
    BoxModel {
        minx: imin(a.minx, b.minx),
        miny: imin(a.miny, b.miny),
        maxx: imax(a.maxx, b.maxx),
        maxy: imax(a.maxy, b.maxy),
    }
}

/// The box bounding the image of `b` under the transform `t`: per output
/// axis, each matrix column contributes its extreme over the input interval,
/// and the translation shifts the result.
pub open spec fn transformed_box(b: BoxModel, t: IsoModel) -> BoxModel {
    BoxModel {
        minx: imin(t.m11 * b.minx, t.m11 * b.maxx) + imin(t.m12 * b.miny, t.m12 * b.maxy) + t.tx,
        miny: imin(t.m21 * b.minx, t.m21 * b.maxx) + imin(t.m22 * b.miny, t.m22 * b.maxy) + t.ty,
        maxx: imax(t.m11 * b.minx, t.m11 * b.maxx) + imax(t.m12 * b.miny, t.m12 * b.maxy) + t.tx,
        maxy: imax(t.m21 * b.minx, t.m21 * b.maxx) + imax(t.m22 * b.miny, t.m22 * b.maxy) + t.ty,
    }
}

/// An axis-aligned bounding box, stored as its two extreme corners.
///
/// Constructors and the merge and transform operations keep `mins` at or
/// below `maxs` whenever their inputs do; a caller that supplies a negative
/// half-extent obtains an inverted (empty) box, which downstream consumers
/// must treat as overlapping nothing.
#[derive(Clone, Copy, PartialEq, Eq, Structural, Debug)]
pub struct Aabb {
    pub mins: Point2,
    pub maxs: Point2,
}

impl Aabb {
    /// The unbounded-integer model of this box.
    pub open spec fn model(self) -> BoxModel {
        BoxModel {
            minx: self.mins.x as int,
            miny: self.mins.y as int,
            maxx: self.maxs.x as int,
            maxy: self.maxs.y as int,
        }
    }

    /// Whether the box is non-inverted.
    pub open spec fn is_valid(self) -> bool {
        box_valid(self.model())
    }

    /// Whether all four bounds are within the kernel's coordinate bound.
    pub open spec fn bounded(self) -> bool {
        self.mins.bounded() && self.maxs.bounded()
    }

    /// Builds a box from its two extreme corners, as given.
    pub fn new(mins: Point2, maxs: Point2) -> (r: Aabb)
        ensures
            r.mins == mins,
            r.maxs == maxs,
    {
        Aabb { mins, maxs }
    }

    /// Builds the box `[center - half_extents, center + half_extents]`.
    /// A negative half-extent component yields an inverted box.
    pub fn from_half_extents(center: Point2, half_extents: Vec2) -> (r: Aabb)
        requires
            center.bounded(),
            half_extents.bounded(),
        ensures
            r.mins.x == center.x - half_extents.x,
            r.mins.y == center.y - half_extents.y,
            r.maxs.x == center.x + half_extents.x,
            r.maxs.y == center.y + half_extents.y,
    {
        Aabb {
            mins: Point2 { x: center.x - half_extents.x, y: center.y - half_extents.y },
            maxs: Point2 { x: center.x + half_extents.x, y: center.y + half_extents.y },
        }
    }

    /// The smallest box holding both `self` and `other`.
    pub fn merged(&self, other: &Aabb) -> (r: Aabb)
        ensures
            r.model() == merged_box(self.model(), other.model()),
    {
        Aabb {
            mins: Point2 {
                x: min_i64(self.mins.x, other.mins.x),
                y: min_i64(self.mins.y, other.mins.y),
            },
            maxs: Point2 {
                x: max_i64(self.maxs.x, other.maxs.x),
                y: max_i64(self.maxs.y, other.maxs.y),
            },
        }
    }

    /// The box bounding the image of `self` under the pose `iso`.
    pub fn transform_by(&self, iso: &Isometry2) -> (r: Aabb)
        requires
            self.bounded(),
            iso.bounded(),
        ensures
            r.model() == transformed_box(self.model(), iso.model()),
    {
        let m = iso.rotation;
        proof {
            lemma_bounded_product(m.m11 as int, self.mins.x as int, COORD_LIMIT as int);
            lemma_bounded_product(m.m11 as int, self.maxs.x as int, COORD_LIMIT as int);
            lemma_bounded_product(m.m12 as int, self.mins.y as int, COORD_LIMIT as int);
            lemma_bounded_product(m.m12 as int, self.maxs.y as int, COORD_LIMIT as int);
            lemma_bounded_product(m.m21 as int, self.mins.x as int, COORD_LIMIT as int);
            lemma_bounded_product(m.m21 as int, self.maxs.x as int, COORD_LIMIT as int);
            lemma_bounded_product(m.m22 as int, self.mins.y as int, COORD_LIMIT as int);
            lemma_bounded_product(m.m22 as int, self.maxs.y as int, COORD_LIMIT as int);
        }
        let xa = m.m11 * self.mins.x;
        let xb = m.m11 * self.maxs.x;
        let xc = m.m12 * self.mins.y;
        let xd = m.m12 * self.maxs.y;
        let ya = m.m21 * self.mins.x;
        let yb = m.m21 * self.maxs.x;
        let yc = m.m22 * self.mins.y;
        let yd = m.m22 * self.maxs.y;
        Aabb {
            mins: Point2 {
                x: min_i64(xa, xb) + min_i64(xc, xd) + iso.translation.x,
                y: min_i64(ya, yb) + min_i64(yc, yd) + iso.translation.y,
            },
            maxs: Point2 {
                x: max_i64(xa, xb) + max_i64(xc, xd) + iso.translation.x,
                y: max_i64(ya, yb) + max_i64(yc, yd) + iso.translation.y,
            },
        }
    }

    /// Whether each side length fits in a machine integer, so that the
    /// derived accessors can subtract the corners.
    pub open spec fn widths_fit(self) -> bool {
        &&& self.maxs.x - self.mins.x <= i64::MAX
        &&& self.maxs.y - self.mins.y <= i64::MAX
    }

    /// The center of the box; an odd side length rounds toward `mins`.
    pub fn center(&self) -> (r: Point2)
        requires
            self.is_valid(),
            self.widths_fit(),
        ensures
            r.x == self.mins.x + (self.maxs.x - self.mins.x) / 2,
            r.y == self.mins.y + (self.maxs.y - self.mins.y) / 2,
    {
        Point2 {
            x: self.mins.x + (self.maxs.x - self.mins.x) / 2,
            y: self.mins.y + (self.maxs.y - self.mins.y) / 2,
        }
    }

    /// The half-widths of the box; an odd side length rounds down.
    pub fn half_extents(&self) -> (r: Vec2)
        requires
            self.is_valid(),
            self.widths_fit(),
        ensures
            r.x == (self.maxs.x - self.mins.x) / 2,
            r.y == (self.maxs.y - self.mins.y) / 2,
    {
        Vec2 { x: (self.maxs.x - self.mins.x) / 2, y: (self.maxs.y - self.mins.y) / 2 }
    }
}

/// Merging is commutative.
pub proof fn lemma_merged_commutative(a: BoxModel, b: BoxModel)
    ensures
        merged_box(a, b) == merged_box(b, a),
{
}

/// Merging is associative.
pub proof fn lemma_merged_associative(a: BoxModel, b: BoxModel, c: BoxModel)
    ensures
        merged_box(merged_box(a, b), c) == merged_box(a, merged_box(b, c)),
{
}

/// Merging a box with itself gives the box back.
pub proof fn lemma_merged_self(a: BoxModel)
    ensures
        merged_box(a, a) == a,
{
}

/// The merge holds both of its arguments.
pub proof fn lemma_merged_contains_both(a: BoxModel, b: BoxModel)
    ensures
        box_contains_box(merged_box(a, b), a),
        box_contains_box(merged_box(a, b), b),
{
}

/// A multiplier maps an interval into the span of the interval's endpoint
/// images.
pub proof fn lemma_mul_range(m: int, lo: int, x: int, hi: int)
    requires
        lo <= x,
        x <= hi,
    ensures
        imin(m * lo, m * hi) <= m * x,
        m * x <= imax(m * lo, m * hi),
{
    if m >= 0 {
        assert(m * lo <= m * x && m * x <= m * hi) by (nonlinear_arith)
            requires
                m >= 0,
                lo <= x,
                x <= hi,
        ;
    } else {
        assert(m * hi <= m * x && m * x <= m * lo) by (nonlinear_arith)
            requires
                m < 0,
                lo <= x,
                x <= hi,
        ;
    }
}

/// Conservativeness of the posed box: the image of any point of a box lies
/// in the transformed box.
pub proof fn lemma_transformed_box_contains_point(b: BoxModel, t: IsoModel, px: int, py: int)
    requires
        box_contains_point(b, px, py),
    ensures
        box_contains_point(transformed_box(b, t), apply_x(t, px, py), apply_y(t, px, py)),
{
    lemma_mul_range(t.m11, b.minx, px, b.maxx);
    lemma_mul_range(t.m12, b.miny, py, b.maxy);
    lemma_mul_range(t.m21, b.minx, px, b.maxx);
    lemma_mul_range(t.m22, b.miny, py, b.maxy);
}

/// The identity pose leaves a non-inverted box unchanged.
pub proof fn lemma_transformed_box_identity(b: BoxModel)
    requires
        box_valid(b),
    ensures
        transformed_box(b, identity_model()) == b,
{
    let t = identity_model();
    assert(t.m11 * b.minx == b.minx) by (nonlinear_arith)
        requires
            t.m11 == 1,
    ;
    assert(t.m11 * b.maxx == b.maxx) by (nonlinear_arith)
        requires
            t.m11 == 1,
    ;
    assert(t.m22 * b.miny == b.miny) by (nonlinear_arith)
        requires
            t.m22 == 1,
    ;
    assert(t.m22 * b.maxy == b.maxy) by (nonlinear_arith)
        requires
            t.m22 == 1,
    ;
    assert(t.m12 * b.miny == 0 && t.m12 * b.maxy == 0) by (nonlinear_arith)
        requires
            t.m12 == 0,
    ;
    assert(t.m21 * b.minx == 0 && t.m21 * b.maxx == 0) by (nonlinear_arith)
        requires
            t.m21 == 0,
    ;
}

/// Posing twice bounds posing by the composition: the box obtained by
/// transforming with `t1` and then `t2` holds the box obtained by
/// transforming once with `t2` after `t1`. The two need not be equal; the
/// nested form is conservative.
pub proof fn lemma_transformed_box_compose(b: BoxModel, t1: IsoModel, t2: IsoModel)
    requires
        box_valid(b),
    ensures
        box_contains_box(
            transformed_box(transformed_box(b, t1), t2),
            transformed_box(b, compose_model(t2, t1)),
        ),
{
    let c = compose_model(t2, t1);
    let inner = transformed_box(b, c);
    let mid = transformed_box(b, t1);

    let pnx = if c.m11 * b.minx <= c.m11 * b.maxx { b.minx } else { b.maxx };
    let pny = if c.m12 * b.miny <= c.m12 * b.maxy { b.miny } else { b.maxy };
    assert(apply_x(c, pnx, pny) == inner.minx);
    lemma_transformed_box_contains_point(b, t1, pnx, pny);
    lemma_transformed_box_contains_point(mid, t2, apply_x(t1, pnx, pny), apply_y(t1, pnx, pny));
    lemma_compose_model_applies_x(t2, t1, pnx, pny);

    let qnx = if c.m11 * b.minx <= c.m11 * b.maxx { b.maxx } else { b.minx };
    let qny = if c.m12 * b.miny <= c.m12 * b.maxy { b.maxy } else { b.miny };
    assert(apply_x(c, qnx, qny) == inner.maxx);
    lemma_transformed_box_contains_point(b, t1, qnx, qny);
    lemma_transformed_box_contains_point(mid, t2, apply_x(t1, qnx, qny), apply_y(t1, qnx, qny));
    lemma_compose_model_applies_x(t2, t1, qnx, qny);

    let rnx = if c.m21 * b.minx <= c.m21 * b.maxx { b.minx } else { b.maxx };
    let rny = if c.m22 * b.miny <= c.m22 * b.maxy { b.miny } else { b.maxy };
    assert(apply_y(c, rnx, rny) == inner.miny);
    lemma_transformed_box_contains_point(b, t1, rnx, rny);
    lemma_transformed_box_contains_point(mid, t2, apply_x(t1, rnx, rny), apply_y(t1, rnx, rny));
    lemma_compose_model_applies_y(t2, t1, rnx, rny);

    let snx = if c.m21 * b.minx <= c.m21 * b.maxx { b.maxx } else { b.minx };
    let sny = if c.m22 * b.miny <= c.m22 * b.maxy { b.maxy } else { b.miny };
    assert(apply_y(c, snx, sny) == inner.maxy);
    lemma_transformed_box_contains_point(b, t1, snx, sny);
    lemma_transformed_box_contains_point(mid, t2, apply_x(t1, snx, sny), apply_y(t1, snx, sny));
    lemma_compose_model_applies_y(t2, t1, snx, sny);
}

} // verus!
