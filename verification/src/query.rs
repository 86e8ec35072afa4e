//! Ray and point queries against boxes and cuboids.
//!
//! Times of impact along a ray are exact rationals `num / den` with a
//! positive denominator; distances are reported squared. Every comparison
//! between times multiplies through by the positive denominators, so the
//! whole slab computation stays in integers. A cuboid's local geometry is
//! exactly its local box, so its queries delegate to the box queries.

use vstd::prelude::*;

use crate::aabb::box_contains_point;
use crate::aabb::box_valid;
use crate::aabb::Aabb;
use crate::aabb::BoxModel;
use crate::algebra::absi;
use crate::algebra::abs_i64;
use crate::algebra::clampi;
use crate::algebra::clamp_i64;
use crate::algebra::Point2;
use crate::algebra::Vec2;
use crate::algebra::COORD_LIMIT;
use crate::cuboid::feature_normal_spec;
use crate::cuboid::in_cuboid;
use crate::cuboid::local_box;
use crate::cuboid::Cuboid;
use crate::cuboid::FeatureId;

verus! {

/// A ray: an origin and a direction, both exact.
#[derive(Clone, Copy, PartialEq, Eq, Structural, Debug)]
pub struct Ray {
    pub origin: Point2,
    pub dir: Vec2,
}

impl Ray {
    pub fn new(origin: Point2, dir: Vec2) -> (r: Ray)
        ensures
            r.origin == origin,
            r.dir == dir,
    {
        Ray { origin, dir }
    }
}

/// An exact time of impact along a ray: the rational `num / den`,
/// with `den` positive.
#[derive(Clone, Copy, PartialEq, Eq, Structural, Debug)]
pub struct Toi {
    pub num: i64,
    pub den: i64,
}

/// The machine bounds every time of impact in this module obeys: a positive
/// denominator within the coordinate bound and a numerator within twice of
/// it, so that cross products of two times fit a machine word.
pub open spec fn toi_wf(t: Toi) -> bool {
    &&& 1 <= t.den <= COORD_LIMIT
    &&& -0x8000_0000 <= t.num <= 0x8000_0000
}

/// The ordering `n1 / d1 <= n2 / d2` of two rationals with positive
/// denominators, multiplied through.
pub open spec fn frac_le_s(n1: int, d1: int, n2: int, d2: int) -> bool {
    n1 * d2 <= n2 * d1
}

/// One slab constraint: at time `n / dd` the ray coordinate driven by
/// direction component `d` from origin coordinate `o` lies in
/// `[minv, maxv]`, multiplied through by `dd`.
pub open spec fn axis_ok(minv: int, maxv: int, o: int, d: int, n: int, dd: int) -> bool {
    dd * minv <= dd * o + n * d <= dd * maxv
}

/// Whether the ray's point at time `n / dd` lies in the closed box.
pub open spec fn ray_hits_at(b: BoxModel, r: Ray, n: int, dd: int) -> bool {
    &&& axis_ok(b.minx, b.maxx, r.origin.x as int, r.dir.x as int, n, dd)
    &&& axis_ok(b.miny, b.maxy, r.origin.y as int, r.dir.y as int, n, dd)
}

/// Whether the ray's point at time `t` lies on the box's boundary: some
/// coordinate, multiplied through by the time's denominator, attains a
/// bound.
pub open spec fn on_boundary(b: BoxModel, r: Ray, t: Toi) -> bool {
    ||| (t.den as int) * (r.origin.x as int) + (t.num as int) * (r.dir.x as int) == (
    t.den as int) * b.minx
    ||| (t.den as int) * (r.origin.x as int) + (t.num as int) * (r.dir.x as int) == (
    t.den as int) * b.maxx
    ||| (t.den as int) * (r.origin.y as int) + (t.num as int) * (r.dir.y as int) == (
    t.den as int) * b.miny
    ||| (t.den as int) * (r.origin.y as int) + (t.num as int) * (r.dir.y as int) == (
    t.den as int) * b.maxy
}

/// No time in `[0, max_toi]` puts the ray inside the box.
pub open spec fn no_hit_within(b: BoxModel, r: Ray, max_toi: int) -> bool {
    forall|n: int, dd: int|
        dd > 0 && 0 <= n && n <= max_toi * dd ==> !#[trigger] ray_hits_at(b, r, n, dd)
}

/// Every time in `[0, max_toi]` keeps the ray inside the box.
pub open spec fn all_hit_within(b: BoxModel, r: Ray, max_toi: int) -> bool {
    forall|n: int, dd: int|
        dd > 0 && 0 <= n && n <= max_toi * dd ==> #[trigger] ray_hits_at(b, r, n, dd)
}

/// No non-negative hit time comes before `t`.
pub open spec fn earliest_hit(b: BoxModel, r: Ray, t: Toi) -> bool {
    forall|n: int, dd: int|
        dd > 0 && 0 <= n && #[trigger] ray_hits_at(b, r, n, dd) ==> t.num * dd <= n * t.den
}

/// Every time strictly after `t` is outside the box.
pub open spec fn none_beyond(b: BoxModel, r: Ray, t: Toi) -> bool {
    forall|n: int, dd: int|
        dd > 0 && t.num * dd < n * t.den ==> !#[trigger] ray_hits_at(b, r, n, dd)
}

/// Multiplying both sides of an inequality by a positive factor keeps it.
proof fn lemma_mul_mono(k: int, a: int, b: int)
    by (nonlinear_arith)
    requires
        k > 0,
        a <= b,
    ensures
        k * a <= k * b,
{
}

/// A common positive factor can be cancelled from an inequality.
proof fn lemma_mul_cancel(x: int, y: int, k: int)
    by (nonlinear_arith)
    requires
        k > 0,
        x * k <= y * k,
    ensures
        x <= y,
{
}

/// A product with a zero factor vanishes.
proof fn lemma_mul_zero(n: int, d: int)
    by (nonlinear_arith)
    requires
        d == 0,
    ensures
        n * d == 0,
{
}

/// Multiplying both sides of a strict inequality by a positive factor
/// keeps it.
proof fn lemma_mul_mono_strict(k: int, a: int, b: int)
    by (nonlinear_arith)
    requires
        k > 0,
        a < b,
    ensures
        k * a < k * b,
{
}

/// Multiplying a difference distributes.
proof fn lemma_distrib(a: int, b: int, k: int)
    by (nonlinear_arith)
    ensures
        (a - b) * k == a * k - b * k,
{
}

/// Multiplication commutes.
proof fn lemma_mul_comm(a: int, b: int)
    by (nonlinear_arith)
    ensures
        a * b == b * a,
{
}

/// A negated factor negates the product.
proof fn lemma_mul_neg(a: int, b: int)
    by (nonlinear_arith)
    ensures
        a * (-b) == -(a * b),
{
}

/// The rational order with positive denominators is transitive.
proof fn lemma_frac_le_trans(n1: int, d1: int, n2: int, d2: int, n3: int, d3: int)
    requires
        d1 > 0,
        d2 > 0,
        d3 > 0,
        frac_le_s(n1, d1, n2, d2),
        frac_le_s(n2, d2, n3, d3),
    ensures
        frac_le_s(n1, d1, n3, d3),
{
    lemma_mul_mono(d3, n1 * d2, n2 * d1);
    lemma_mul_mono(d1, n2 * d3, n3 * d2);
    assert(d3 * (n1 * d2) == (n1 * d3) * d2) by (nonlinear_arith);
    assert(d3 * (n2 * d1) == (n2 * d3) * d1) by (nonlinear_arith);
    assert(d1 * (n2 * d3) == (n2 * d3) * d1) by (nonlinear_arith);
    assert(d1 * (n3 * d2) == (n3 * d1) * d2) by (nonlinear_arith);
    lemma_mul_cancel(n1 * d3, n3 * d1, d2);
}

/// A magnitude-bounded pair multiplies into a bounded product.
proof fn lemma_prod_bound2(a: int, b: int, ca: int, cb: int)
    by (nonlinear_arith)
    requires
        -ca <= a <= ca,
        -cb <= b <= cb,
        0 <= ca,
        0 <= cb,
    ensures
        -(ca * cb) <= a * b <= ca * cb,
{
}

/// The contract of one slab-folding step: a time lies between the
/// tightened bounds `pmin, pmax` exactly when it lies between the old
/// bounds `tmin, tmax` and satisfies the slab `[minv, maxv]` driven by
/// direction component `d` from origin coordinate `o`.
pub open spec fn tightened(
    pmin: Toi,
    pmax: Toi,
    tmin: Toi,
    tmax: Toi,
    minv: int,
    maxv: int,
    o: int,
    d: int,
) -> bool {
    forall|n: int, dd: int|
        dd > 0 ==> ((#[trigger] frac_le_s(pmin.num as int, pmin.den as int, n, dd) && frac_le_s(
            n,
            dd,
            pmax.num as int,
            pmax.den as int,
        )) <==> (frac_le_s(tmin.num as int, tmin.den as int, n, dd) && frac_le_s(
            n,
            dd,
            tmax.num as int,
            tmax.den as int,
        ) && axis_ok(minv, maxv, o, d, n, dd)))
}

/// Instantiates a tightening at one time: between the old bounds and
/// inside the slab means between the new bounds.
proof fn lemma_tightened_fwd(
    pmin: Toi,
    pmax: Toi,
    tmin: Toi,
    tmax: Toi,
    minv: int,
    maxv: int,
    o: int,
    d: int,
    n: int,
    dd: int,
)
    requires
        tightened(pmin, pmax, tmin, tmax, minv, maxv, o, d),
        dd > 0,
        frac_le_s(tmin.num as int, tmin.den as int, n, dd),
        frac_le_s(n, dd, tmax.num as int, tmax.den as int),
        axis_ok(minv, maxv, o, d, n, dd),
    ensures
        frac_le_s(pmin.num as int, pmin.den as int, n, dd),
        frac_le_s(n, dd, pmax.num as int, pmax.den as int),
{
    assert(frac_le_s(pmin.num as int, pmin.den as int, n, dd) && frac_le_s(
        n,
        dd,
        pmax.num as int,
        pmax.den as int,
    ));
}

/// Compares two times of impact exactly: whether `n1 / d1 <= n2 / d2`.
fn frac_le(n1: i64, d1: i64, n2: i64, d2: i64) -> (r: bool)
    requires
        1 <= d1 <= COORD_LIMIT,
        1 <= d2 <= COORD_LIMIT,
        -0x8000_0000 <= n1 <= 0x8000_0000,
        -0x8000_0000 <= n2 <= 0x8000_0000,
    ensures
        r == frac_le_s(n1 as int, d1 as int, n2 as int, d2 as int),
{
    proof {
        lemma_prod_bound2(n1 as int, d2 as int, 0x8000_0000, COORD_LIMIT as int);
        lemma_prod_bound2(n2 as int, d1 as int, 0x8000_0000, COORD_LIMIT as int);
    }
    n1 * d2 <= n2 * d1
}

/// Folds one slab into the running entry and exit times: afterwards, a time
/// lies between the new bounds exactly when it lay between the old ones and
/// keeps this axis's coordinate inside `[minv, maxv]`. Returns nothing when
/// the slab can never be satisfied.
fn fold_axis(minv: i64, maxv: i64, o: i64, d: i64, tmin: Toi, tmax: Toi) -> (r: Option<
    (Toi, Toi),
>)
    requires
        -COORD_LIMIT <= minv <= COORD_LIMIT,
        -COORD_LIMIT <= maxv <= COORD_LIMIT,
        -COORD_LIMIT <= o <= COORD_LIMIT,
        -COORD_LIMIT <= d <= COORD_LIMIT,
        toi_wf(tmin),
        toi_wf(tmax),
    ensures
        (r is Some) == (d != 0 || (minv <= o && o <= maxv)),
        (r matches Some(p) ==> toi_wf(p.0) && toi_wf(p.1) && tightened(
            p.0,
            p.1,
            tmin,
            tmax,
            minv as int,
            maxv as int,
            o as int,
            d as int,
        )),
        (r matches Some(p) ==> (p.0 == tmin || (p.0.den as int) * (o as int) + (p.0.num as int)
            * (d as int) == (p.0.den as int) * (if d > 0 {
            minv as int
        } else {
            maxv as int
        }))),
        (r is None ==> (forall|n: int, dd: int|
            dd > 0 ==> !#[trigger] axis_ok(minv as int, maxv as int, o as int, d as int, n, dd))),
{
    if d == 0 {
        if o < minv || o > maxv {
            proof {
                assert forall|n: int, dd: int| dd > 0 implies !#[trigger] axis_ok(
                    minv as int,
                    maxv as int,
                    o as int,
                    d as int,
                    n,
                    dd,
                ) by {
                    lemma_mul_zero(n, d as int);
                    if o < minv {
                        lemma_mul_mono_strict(dd, o as int, minv as int);
                    } else {
                        lemma_mul_mono_strict(dd, maxv as int, o as int);
                    }
                }
            }
            None
        } else {
            proof {
                assert forall|n: int, dd: int| dd > 0 implies #[trigger] axis_ok(
                    minv as int,
                    maxv as int,
                    o as int,
                    d as int,
                    n,
                    dd,
                ) by {
                    lemma_mul_zero(n, d as int);
                    lemma_mul_mono(dd, minv as int, o as int);
                    lemma_mul_mono(dd, o as int, maxv as int);
                }
                assert(tightened(
                    tmin,
                    tmax,
                    tmin,
                    tmax,
                    minv as int,
                    maxv as int,
                    o as int,
                    d as int,
                ));
            }
            Some((tmin, tmax))
        }
    } else {
        let (en, ex): (Toi, Toi) = if d > 0 {
            (Toi { num: minv - o, den: d }, Toi { num: maxv - o, den: d })
        } else {
            (Toi { num: o - maxv, den: -d }, Toi { num: o - minv, den: -d })
        };
        let nmin = if frac_le(tmin.num, tmin.den, en.num, en.den) {
            en
        } else {
            tmin
        };
        let nmax = if frac_le(ex.num, ex.den, tmax.num, tmax.den) {
            ex
        } else {
            tmax
        };
        proof {
            assert forall|n: int, dd: int| dd > 0 implies ((#[trigger] frac_le_s(
                nmin.num as int,
                nmin.den as int,
                n,
                dd,
            ) && frac_le_s(n, dd, nmax.num as int, nmax.den as int)) <==> (frac_le_s(
                tmin.num as int,
                tmin.den as int,
                n,
                dd,
            ) && frac_le_s(n, dd, tmax.num as int, tmax.den as int) && axis_ok(
                minv as int,
                maxv as int,
                o as int,
                d as int,
                n,
                dd,
            ))) by {
                lemma_fold_axis_equiv(
                    minv as int,
                    maxv as int,
                    o as int,
                    d as int,
                    tmin,
                    tmax,
                    en,
                    ex,
                    nmin,
                    nmax,
                    n,
                    dd,
                );
            }
            assert(tightened(
                nmin,
                nmax,
                tmin,
                tmax,
                minv as int,
                maxv as int,
                o as int,
                d as int,
            ));
            if d > 0 {
                lemma_distrib(minv as int, o as int, d as int);
                lemma_mul_comm(minv as int, d as int);
                lemma_mul_comm(o as int, d as int);
            } else {
                lemma_distrib(o as int, maxv as int, d as int);
                lemma_mul_comm(o as int, d as int);
                lemma_mul_comm(-(d as int), o as int);
                lemma_mul_neg(o as int, d as int);
                lemma_mul_comm(-(d as int), maxv as int);
                lemma_mul_neg(maxv as int, d as int);
            }
            assert((en.den as int) * (o as int) + (en.num as int) * (d as int) == (
            en.den as int) * (if d > 0 {
                minv as int
            } else {
                maxv as int
            }));
        }
        Some((nmin, nmax))
    }
}

/// The pointwise step of `fold_axis`: for one time `n / dd`, lying between
/// the tightened bounds is lying between the old bounds and inside the
/// slab.
proof fn lemma_fold_axis_equiv(
    minv: int,
    maxv: int,
    o: int,
    d: int,
    tmin: Toi,
    tmax: Toi,
    en: Toi,
    ex: Toi,
    nmin: Toi,
    nmax: Toi,
    n: int,
    dd: int,
)
    requires
        d != 0,
        dd > 0,
        toi_wf(tmin),
        toi_wf(tmax),
        en.den > 0,
        ex.den > 0,
        d > 0 ==> en == (Toi { num: (minv - o) as i64, den: d as i64 }) && ex == (Toi {
            num: (maxv - o) as i64,
            den: d as i64,
        }),
        d < 0 ==> en == (Toi { num: (o - maxv) as i64, den: (-d) as i64 }) && ex == (Toi {
            num: (o - minv) as i64,
            den: (-d) as i64,
        }),
        -COORD_LIMIT <= minv <= COORD_LIMIT,
        -COORD_LIMIT <= maxv <= COORD_LIMIT,
        -COORD_LIMIT <= o <= COORD_LIMIT,
        -COORD_LIMIT <= d <= COORD_LIMIT,
        nmin == (if frac_le_s(tmin.num as int, tmin.den as int, en.num as int, en.den as int) {
            en
        } else {
            tmin
        }),
        nmax == (if frac_le_s(ex.num as int, ex.den as int, tmax.num as int, tmax.den as int) {
            ex
        } else {
            tmax
        }),
    ensures
        (frac_le_s(nmin.num as int, nmin.den as int, n, dd) && frac_le_s(
            n,
            dd,
            nmax.num as int,
            nmax.den as int,
        )) <==> (frac_le_s(tmin.num as int, tmin.den as int, n, dd) && frac_le_s(
            n,
            dd,
            tmax.num as int,
            tmax.den as int,
        ) && axis_ok(minv, maxv, o, d, n, dd)),
{
    // The slab inequalities are the entry and exit bounds, multiplied out.
    lemma_mul_comm(minv, dd);
    lemma_mul_comm(maxv, dd);
    lemma_mul_comm(o, dd);
    if d > 0 {
        lemma_distrib(minv, o, dd);
        lemma_distrib(maxv, o, dd);
        assert(frac_le_s(en.num as int, en.den as int, n, dd) == (dd * minv <= dd * o + n * d));
        assert(frac_le_s(n, dd, ex.num as int, ex.den as int) == (dd * o + n * d <= dd * maxv));
    } else {
        lemma_distrib(o, maxv, dd);
        lemma_distrib(o, minv, dd);
        lemma_mul_neg(n, d);
        assert(frac_le_s(en.num as int, en.den as int, n, dd) == ((o - maxv) * dd <= n * (-d)));
        assert(frac_le_s(en.num as int, en.den as int, n, dd) == (dd * o + n * d <= dd * maxv));
        assert(frac_le_s(n, dd, ex.num as int, ex.den as int) == (n * (-d) <= (o - minv) * dd));
        assert(frac_le_s(n, dd, ex.num as int, ex.den as int) == (dd * minv <= dd * o + n * d));
    }
    // Lying above the larger of two bounds is lying above both.
    if frac_le_s(tmin.num as int, tmin.den as int, en.num as int, en.den as int) {
        if frac_le_s(nmin.num as int, nmin.den as int, n, dd) {
            lemma_frac_le_trans(
                tmin.num as int,
                tmin.den as int,
                en.num as int,
                en.den as int,
                n,
                dd,
            );
        }
    } else {
        if frac_le_s(nmin.num as int, nmin.den as int, n, dd) {
            lemma_frac_le_trans(
                en.num as int,
                en.den as int,
                tmin.num as int,
                tmin.den as int,
                n,
                dd,
            );
        }
    }
    // Lying below the smaller of two bounds is lying below both.
    if frac_le_s(ex.num as int, ex.den as int, tmax.num as int, tmax.den as int) {
        if frac_le_s(n, dd, nmax.num as int, nmax.den as int) {
            lemma_frac_le_trans(
                n,
                dd,
                ex.num as int,
                ex.den as int,
                tmax.num as int,
                tmax.den as int,
            );
        }
    } else {
        if frac_le_s(n, dd, nmax.num as int, nmax.den as int) {
            lemma_frac_le_trans(
                n,
                dd,
                tmax.num as int,
                tmax.den as int,
                ex.num as int,
                ex.den as int,
            );
        }
    }
}

/// The slab constraint that a time must keep to stay before the exit of
/// this axis; an axis the ray does not move along constrains nothing.
pub open spec fn exit_ok(minv: int, maxv: int, o: int, d: int, n: int, dd: int) -> bool {
    if d > 0 {
        dd * o + n * d <= dd * maxv
    } else if d < 0 {
        dd * minv <= dd * o + n * d
    } else {
        true
    }
}

/// For a ray starting inside a slab and a non-negative time, the slab
/// constraint reduces to its exit side.
proof fn lemma_axis_inside(minv: int, maxv: int, o: int, d: int, n: int, dd: int)
    requires
        dd > 0,
        n >= 0,
        minv <= o <= maxv,
    ensures
        axis_ok(minv, maxv, o, d, n, dd) == exit_ok(minv, maxv, o, d, n, dd),
{
    lemma_mul_mono(dd, minv, o);
    lemma_mul_mono(dd, o, maxv);
    if d > 0 {
        assert(n * d >= 0) by (nonlinear_arith)
            requires
                n >= 0,
                d > 0,
        ;
    } else if d < 0 {
        assert(n * d <= 0) by (nonlinear_arith)
            requires
                n >= 0,
                d < 0,
        ;
    } else {
        lemma_mul_zero(n, d);
    }
}

/// Staying at or before this axis's exit time is exactly the exit-side
/// slab constraint.
proof fn lemma_exit_frac(minv: int, maxv: int, o: int, d: int, e: Toi, n: int, dd: int)
    requires
        d != 0,
        dd > 0,
        d > 0 ==> e == (Toi { num: (maxv - o) as i64, den: d as i64 }),
        d < 0 ==> e == (Toi { num: (o - minv) as i64, den: (-d) as i64 }),
        -COORD_LIMIT <= minv <= COORD_LIMIT,
        -COORD_LIMIT <= maxv <= COORD_LIMIT,
        -COORD_LIMIT <= o <= COORD_LIMIT,
        -COORD_LIMIT <= d <= COORD_LIMIT,
    ensures
        frac_le_s(n, dd, e.num as int, e.den as int) == exit_ok(minv, maxv, o, d, n, dd),
{
    lemma_mul_comm(minv, dd);
    lemma_mul_comm(maxv, dd);
    lemma_mul_comm(o, dd);
    if d > 0 {
        lemma_distrib(maxv, o, dd);
    } else {
        lemma_distrib(o, minv, dd);
        lemma_mul_neg(n, d);
    }
}

/// A positive product with a positive factor has a positive other factor.
proof fn lemma_pos_factor(n: int, k: int)
    by (nonlinear_arith)
    requires
        k > 0,
        n * k > 0,
    ensures
        n > 0,
{
}

/// A time below a cap that itself lies below another time stays below it.
proof fn lemma_frac_le_through_cap(num: int, den: int, cap: int, n: int, dd: int)
    requires
        den > 0,
        dd > 0,
        num <= cap * den,
        cap * dd <= n,
    ensures
        num * dd <= n * den,
{
    lemma_mul_mono(dd, num, cap * den);
    assert(dd * (cap * den) == (cap * dd) * den) by (nonlinear_arith);
    lemma_mul_mono(den, cap * dd, n);
    assert(dd * num == num * dd) by (nonlinear_arith);
    assert(den * n == n * den) by (nonlinear_arith);
}

/// The exit time of one slab for a ray that starts inside it and moves
/// along it: staying at or before this time is exactly the exit-side
/// constraint of the slab.
fn exit_toi(minv: i64, maxv: i64, o: i64, d: i64) -> (e: Toi)
    requires
        d != 0,
        -COORD_LIMIT <= minv <= COORD_LIMIT,
        -COORD_LIMIT <= maxv <= COORD_LIMIT,
        -COORD_LIMIT <= o <= COORD_LIMIT,
        -COORD_LIMIT <= d <= COORD_LIMIT,
        minv <= o <= maxv,
    ensures
        toi_wf(e),
        e.num >= 0,
        forall|n: int, dd: int|
            dd > 0 ==> (#[trigger] frac_le_s(n, dd, e.num as int, e.den as int) == exit_ok(
                minv as int,
                maxv as int,
                o as int,
                d as int,
                n,
                dd,
            )),
        (e.den as int) * (o as int) + (e.num as int) * (d as int) == (e.den as int) * (if d > 0 {
            maxv as int
        } else {
            minv as int
        }),
{
    let e = if d > 0 {
        Toi { num: maxv - o, den: d }
    } else {
        Toi { num: o - minv, den: -d }
    };
    proof {
        if d > 0 {
            lemma_distrib(maxv as int, o as int, d as int);
            lemma_mul_comm(maxv as int, d as int);
            lemma_mul_comm(o as int, d as int);
        } else {
            lemma_distrib(o as int, minv as int, d as int);
            lemma_mul_comm(o as int, d as int);
            lemma_mul_comm(-(d as int), o as int);
            lemma_mul_neg(o as int, d as int);
            lemma_mul_comm(-(d as int), minv as int);
            lemma_mul_neg(minv as int, d as int);
        }
        assert forall|n: int, dd: int| dd > 0 implies (#[trigger] frac_le_s(
            n,
            dd,
            e.num as int,
            e.den as int,
        ) == exit_ok(minv as int, maxv as int, o as int, d as int, n, dd)) by {
            lemma_exit_frac(minv as int, maxv as int, o as int, d as int, e, n, dd);
        }
    }
    e
}

impl Aabb {
    /// Whether the point lies in the closed box.
    pub fn contains_local_point(&self, pt: Point2) -> (r: bool)
        ensures
            r == box_contains_point(self.model(), pt.x as int, pt.y as int),
    {
        self.mins.x <= pt.x && pt.x <= self.maxs.x && self.mins.y <= pt.y && pt.y <= self.maxs.y
    }

    /// Casts a ray against the box, reporting the exact time of impact.
    ///
    /// For a solid box, or an origin outside the box, the result is the
    /// earliest time in `[0, max_toi]` at which the ray's point lies in the
    /// closed box, and nothing when no such time exists. For a hollow box
    /// (`solid` false) and an origin inside, the result is the time at
    /// which the ray leaves the closed box, nothing when that happens
    /// after `max_toi` or never.
    pub fn cast_local_ray(&self, ray: &Ray, max_toi: i64, solid: bool) -> (r: Option<Toi>)
        requires
            self.is_valid(),
            self.bounded(),
            ray.origin.bounded(),
            ray.dir.bounded(),
            0 <= max_toi <= COORD_LIMIT,
        ensures
            (r matches Some(t) ==> toi_wf(t) && 0 <= t.num && t.num <= max_toi * t.den
                && ray_hits_at(self.model(), *ray, t.num as int, t.den as int)),
            ((solid || !box_contains_point(
                self.model(),
                ray.origin.x as int,
                ray.origin.y as int,
            )) && r is None ==> no_hit_within(self.model(), *ray, max_toi as int)),
            ((solid || !box_contains_point(
                self.model(),
                ray.origin.x as int,
                ray.origin.y as int,
            )) ==> (r matches Some(t) ==> earliest_hit(self.model(), *ray, t))),
            (!solid && box_contains_point(self.model(), ray.origin.x as int, ray.origin.y as int)
                && r is None ==> all_hit_within(self.model(), *ray, max_toi as int)),
            (!solid && box_contains_point(self.model(), ray.origin.x as int, ray.origin.y as int)
                ==> (r matches Some(t) ==> none_beyond(self.model(), *ray, t))),
            (solid && box_contains_point(self.model(), ray.origin.x as int, ray.origin.y as int)
                ==> (r matches Some(t) ==> t.num == 0 && t.den == 1)),
            (!solid && box_contains_point(self.model(), ray.origin.x as int, ray.origin.y as int)
                ==> (r matches Some(t) ==> on_boundary(self.model(), *ray, t))),
            (!box_contains_point(self.model(), ray.origin.x as int, ray.origin.y as int) ==> (
            r matches Some(t) ==> on_boundary(self.model(), *ray, t))),
    {
        let ghost bm = self.model();
        let inside = self.contains_local_point(ray.origin);
        if inside && solid {
            let t = Toi { num: 0, den: 1 };
            proof {
                assert(ray_hits_at(bm, *ray, 0, 1)) by {
                    lemma_mul_zero(ray.dir.x as int, 0);
                    lemma_mul_comm(0, ray.dir.x as int);
                    lemma_mul_zero(ray.dir.y as int, 0);
                    lemma_mul_comm(0, ray.dir.y as int);
                }
                assert forall|n: int, dd: int|
                    dd > 0 && 0 <= n && #[trigger] ray_hits_at(bm, *ray, n, dd) implies t.num * dd
                    <= n * t.den by {
                    lemma_mul_zero(dd, 0);
                    lemma_mul_comm(0, dd);
                }
            }
            return Some(t);
        }
        if inside {
            // Hollow box, origin inside: find the exit time.
            if ray.dir.x == 0 && ray.dir.y == 0 {
                proof {
                    assert forall|n: int, dd: int|
                        dd > 0 && 0 <= n && n <= max_toi * dd implies #[trigger] ray_hits_at(
                        bm,
                        *ray,
                        n,
                        dd,
                    ) by {
                        lemma_axis_inside(
                            bm.minx,
                            bm.maxx,
                            ray.origin.x as int,
                            ray.dir.x as int,
                            n,
                            dd,
                        );
                        lemma_axis_inside(
                            bm.miny,
                            bm.maxy,
                            ray.origin.y as int,
                            ray.dir.y as int,
                            n,
                            dd,
                        );
                    }
                }
                return None;
            }
            let best: Toi;
            if ray.dir.x != 0 {
                let a = exit_toi(self.mins.x, self.maxs.x, ray.origin.x, ray.dir.x);
                if ray.dir.y != 0 {
                    let b = exit_toi(self.mins.y, self.maxs.y, ray.origin.y, ray.dir.y);
                    best = if frac_le(a.num, a.den, b.num, b.den) {
                        a
                    } else {
                        b
                    };
                    proof {
                        assert forall|n: int, dd: int| dd > 0 && 0 <= n implies (
                        #[trigger] frac_le_s(n, dd, best.num as int, best.den as int)
                            == ray_hits_at(bm, *ray, n, dd)) by {
                            lemma_axis_inside(
                                bm.minx,
                                bm.maxx,
                                ray.origin.x as int,
                                ray.dir.x as int,
                                n,
                                dd,
                            );
                            lemma_axis_inside(
                                bm.miny,
                                bm.maxy,
                                ray.origin.y as int,
                                ray.dir.y as int,
                                n,
                                dd,
                            );
                            if frac_le_s(n, dd, best.num as int, best.den as int) {
                                if frac_le_s(a.num as int, a.den as int, b.num as int, b.den as int) {
                                    lemma_frac_le_trans(
                                        n,
                                        dd,
                                        a.num as int,
                                        a.den as int,
                                        b.num as int,
                                        b.den as int,
                                    );
                                } else {
                                    lemma_frac_le_trans(
                                        n,
                                        dd,
                                        b.num as int,
                                        b.den as int,
                                        a.num as int,
                                        a.den as int,
                                    );
                                }
                            }
                            assert(frac_le_s(n, dd, a.num as int, a.den as int) == exit_ok(
                                bm.minx,
                                bm.maxx,
                                ray.origin.x as int,
                                ray.dir.x as int,
                                n,
                                dd,
                            ));
                            assert(frac_le_s(n, dd, b.num as int, b.den as int) == exit_ok(
                                bm.miny,
                                bm.maxy,
                                ray.origin.y as int,
                                ray.dir.y as int,
                                n,
                                dd,
                            ));
                        }
                        assert(on_boundary(bm, *ray, best));
                    }
                } else {
                    best = a;
                    proof {
                        assert forall|n: int, dd: int| dd > 0 && 0 <= n implies (
                        #[trigger] frac_le_s(n, dd, best.num as int, best.den as int)
                            == ray_hits_at(bm, *ray, n, dd)) by {
                            lemma_axis_inside(
                                bm.minx,
                                bm.maxx,
                                ray.origin.x as int,
                                ray.dir.x as int,
                                n,
                                dd,
                            );
                            lemma_axis_inside(
                                bm.miny,
                                bm.maxy,
                                ray.origin.y as int,
                                ray.dir.y as int,
                                n,
                                dd,
                            );
                        }
                        assert(on_boundary(bm, *ray, best));
                    }
                }
            } else {
                let b = exit_toi(self.mins.y, self.maxs.y, ray.origin.y, ray.dir.y);
                best = b;
                proof {
                    assert forall|n: int, dd: int| dd > 0 && 0 <= n implies (#[trigger] frac_le_s(
                        n,
                        dd,
                        best.num as int,
                        best.den as int,
                    ) == ray_hits_at(bm, *ray, n, dd)) by {
                        lemma_axis_inside(
                            bm.minx,
                            bm.maxx,
                            ray.origin.x as int,
                            ray.dir.x as int,
                            n,
                            dd,
                        );
                        lemma_axis_inside(
                            bm.miny,
                            bm.maxy,
                            ray.origin.y as int,
                            ray.dir.y as int,
                            n,
                            dd,
                        );
                    }
                    assert(on_boundary(bm, *ray, best));
                }
            }
            if frac_le(best.num, best.den, max_toi, 1) {
                proof {
                    assert(frac_le_s(
                        best.num as int,
                        best.den as int,
                        best.num as int,
                        best.den as int,
                    ));
                    assert(ray_hits_at(bm, *ray, best.num as int, best.den as int));
                    assert forall|n: int, dd: int|
                        dd > 0 && best.num * dd < n * best.den implies !#[trigger] ray_hits_at(
                        bm,
                        *ray,
                        n,
                        dd,
                    ) by {
                        assert(best.num * dd >= 0) by (nonlinear_arith)
                            requires
                                best.num >= 0,
                                dd > 0,
                        ;
                        lemma_pos_factor(n, best.den as int);
                        assert(frac_le_s(n, dd, best.num as int, best.den as int)
                            == ray_hits_at(bm, *ray, n, dd));
                    }
                }
                Some(best)
            } else {
                proof {
                    assert forall|n: int, dd: int|
                        dd > 0 && 0 <= n && n <= max_toi * dd implies #[trigger] ray_hits_at(
                        bm,
                        *ray,
                        n,
                        dd,
                    ) by {
                        lemma_frac_le_trans(
                            n,
                            dd,
                            max_toi as int,
                            1,
                            best.num as int,
                            best.den as int,
                        );
                        assert(frac_le_s(n, dd, best.num as int, best.den as int)
                            == ray_hits_at(bm, *ray, n, dd));
                    }
                }
                None
            }
        } else {
            // Origin outside: tighten the entry and exit bounds per slab.
            let t0min = Toi { num: 0, den: 1 };
            let t0max = Toi { num: max_toi, den: 1 };
            let s1 = self.fold_x(ray, t0min, t0max);
            match s1 {
                None => {
                    proof {
                        assert forall|n: int, dd: int|
                            dd > 0 && 0 <= n && n <= max_toi * dd implies !#[trigger] ray_hits_at(
                            bm,
                            *ray,
                            n,
                            dd,
                        ) by {}
                    }
                    None
                },
                Some((t1min, t1max)) => {
                    let s2 = self.fold_y(ray, t1min, t1max);
                    match s2 {
                        None => {
                            proof {
                                assert forall|n: int, dd: int|
                                    dd > 0 && 0 <= n && n <= max_toi * dd implies !#[trigger]
                                ray_hits_at(bm, *ray, n, dd) by {}
                            }
                            None
                        },
                        Some((t2min, t2max)) => {
                            proof {
                                assert(tightened(
                                    t1min,
                                    t1max,
                                    t0min,
                                    t0max,
                                    bm.minx,
                                    bm.maxx,
                                    ray.origin.x as int,
                                    ray.dir.x as int,
                                ));
                                assert(tightened(
                                    t2min,
                                    t2max,
                                    t1min,
                                    t1max,
                                    bm.miny,
                                    bm.maxy,
                                    ray.origin.y as int,
                                    ray.dir.y as int,
                                ));
                            }
                            if frac_le(t2min.num, t2min.den, t2max.num, t2max.den) {
                                proof {
                                    assert(frac_le_s(
                                        t2min.num as int,
                                        t2min.den as int,
                                        t2min.num as int,
                                        t2min.den as int,
                                    ));
                                    assert(frac_le_s(
                                        t1min.num as int,
                                        t1min.den as int,
                                        t2min.num as int,
                                        t2min.den as int,
                                    ) && frac_le_s(
                                        t2min.num as int,
                                        t2min.den as int,
                                        t1max.num as int,
                                        t1max.den as int,
                                    ));
                                    assert(frac_le_s(0, 1, t2min.num as int, t2min.den as int)
                                        && frac_le_s(
                                        t2min.num as int,
                                        t2min.den as int,
                                        max_toi as int,
                                        1,
                                    ));
                                    assert(ray_hits_at(
                                        bm,
                                        *ray,
                                        t2min.num as int,
                                        t2min.den as int,
                                    ));
                                    if t2min == t1min && t1min == t0min {
                                        // a hit at time zero would put the origin in the box
                                        assert(t2min.num * (ray.dir.x as int) == 0)
                                            by (nonlinear_arith)
                                            requires
                                                t2min.num == 0,
                                        ;
                                        assert(t2min.num * (ray.dir.y as int) == 0)
                                            by (nonlinear_arith)
                                            requires
                                                t2min.num == 0,
                                        ;
                                        assert((t2min.den as int) * bm.minx == bm.minx)
                                            by (nonlinear_arith)
                                            requires
                                                t2min.den == 1,
                                        ;
                                        assert((t2min.den as int) * bm.maxx == bm.maxx)
                                            by (nonlinear_arith)
                                            requires
                                                t2min.den == 1,
                                        ;
                                        assert((t2min.den as int) * bm.miny == bm.miny)
                                            by (nonlinear_arith)
                                            requires
                                                t2min.den == 1,
                                        ;
                                        assert((t2min.den as int) * bm.maxy == bm.maxy)
                                            by (nonlinear_arith)
                                            requires
                                                t2min.den == 1,
                                        ;
                                        assert((t2min.den as int) * (ray.origin.x as int)
                                            == ray.origin.x as int) by (nonlinear_arith)
                                            requires
                                                t2min.den == 1,
                                        ;
                                        assert((t2min.den as int) * (ray.origin.y as int)
                                            == ray.origin.y as int) by (nonlinear_arith)
                                            requires
                                                t2min.den == 1,
                                        ;
                                        assert(false);
                                    }
                                    assert(on_boundary(bm, *ray, t2min));
                                    assert forall|n: int, dd: int|
                                        dd > 0 && 0 <= n && #[trigger] ray_hits_at(bm, *ray, n, dd)
                                        implies t2min.num * dd <= n * t2min.den by {
                                        assert(tightened(
                                            t1min,
                                            t1max,
                                            t0min,
                                            t0max,
                                            bm.minx,
                                            bm.maxx,
                                            ray.origin.x as int,
                                            ray.dir.x as int,
                                        ));
                                        assert(tightened(
                                            t2min,
                                            t2max,
                                            t1min,
                                            t1max,
                                            bm.miny,
                                            bm.maxy,
                                            ray.origin.y as int,
                                            ray.dir.y as int,
                                        ));
                                        assert(t0min.num * dd == 0) by (nonlinear_arith)
                                            requires
                                                t0min.num == 0,
                                        ;
                                        assert(n * t0min.den == n) by (nonlinear_arith)
                                            requires
                                                t0min.den == 1,
                                        ;
                                        assert(t0max.num * dd == max_toi * dd) by (nonlinear_arith)
                                            requires
                                                t0max.num == max_toi,
                                        ;
                                        assert(n * t0max.den == n) by (nonlinear_arith)
                                            requires
                                                t0max.den == 1,
                                        ;
                                        if n <= max_toi * dd {
                                            assert(frac_le_s(
                                                t0min.num as int,
                                                t0min.den as int,
                                                n,
                                                dd,
                                            ));
                                            assert(frac_le_s(
                                                n,
                                                dd,
                                                t0max.num as int,
                                                t0max.den as int,
                                            ));
                                            assert(axis_ok(
                                                bm.minx,
                                                bm.maxx,
                                                ray.origin.x as int,
                                                ray.dir.x as int,
                                                n,
                                                dd,
                                            ));
                                            lemma_tightened_fwd(
                                                t1min,
                                                t1max,
                                                t0min,
                                                t0max,
                                                bm.minx,
                                                bm.maxx,
                                                ray.origin.x as int,
                                                ray.dir.x as int,
                                                n,
                                                dd,
                                            );
                                            lemma_tightened_fwd(
                                                t2min,
                                                t2max,
                                                t1min,
                                                t1max,
                                                bm.miny,
                                                bm.maxy,
                                                ray.origin.y as int,
                                                ray.dir.y as int,
                                                n,
                                                dd,
                                            );
                                        } else {
                                            lemma_frac_le_through_cap(
                                                t2min.num as int,
                                                t2min.den as int,
                                                max_toi as int,
                                                n,
                                                dd,
                                            );
                                        }
                                    }
                                }
                                Some(t2min)
                            } else {
                                proof {
                                    assert forall|n: int, dd: int|
                                        dd > 0 && 0 <= n && n <= max_toi * dd implies !#[trigger]
                                    ray_hits_at(bm, *ray, n, dd) by {
                                        assert(tightened(
                                            t1min,
                                            t1max,
                                            t0min,
                                            t0max,
                                            bm.minx,
                                            bm.maxx,
                                            ray.origin.x as int,
                                            ray.dir.x as int,
                                        ));
                                        assert(tightened(
                                            t2min,
                                            t2max,
                                            t1min,
                                            t1max,
                                            bm.miny,
                                            bm.maxy,
                                            ray.origin.y as int,
                                            ray.dir.y as int,
                                        ));
                                        assert(t0min.num * dd == 0) by (nonlinear_arith)
                                            requires
                                                t0min.num == 0,
                                        ;
                                        assert(n * t0min.den == n) by (nonlinear_arith)
                                            requires
                                                t0min.den == 1,
                                        ;
                                        assert(t0max.num * dd == max_toi * dd) by (nonlinear_arith)
                                            requires
                                                t0max.num == max_toi,
                                        ;
                                        assert(n * t0max.den == n) by (nonlinear_arith)
                                            requires
                                                t0max.den == 1,
                                        ;
                                        if ray_hits_at(bm, *ray, n, dd) {
                                            lemma_tightened_fwd(
                                                t1min,
                                                t1max,
                                                t0min,
                                                t0max,
                                                bm.minx,
                                                bm.maxx,
                                                ray.origin.x as int,
                                                ray.dir.x as int,
                                                n,
                                                dd,
                                            );
                                            lemma_tightened_fwd(
                                                t2min,
                                                t2max,
                                                t1min,
                                                t1max,
                                                bm.miny,
                                                bm.maxy,
                                                ray.origin.y as int,
                                                ray.dir.y as int,
                                                n,
                                                dd,
                                            );
                                            lemma_frac_le_trans(
                                                t2min.num as int,
                                                t2min.den as int,
                                                n,
                                                dd,
                                                t2max.num as int,
                                                t2max.den as int,
                                            );
                                            assert(false);
                                        }
                                    }
                                }
                                None
                            }
                        },
                    }
                },
            }
        }
    }

    /// Folds the x slab of this box into the running time bounds.
    fn fold_x(&self, ray: &Ray, tmin: Toi, tmax: Toi) -> (r: Option<(Toi, Toi)>)
        requires
            self.bounded(),
            ray.origin.bounded(),
            ray.dir.bounded(),
            toi_wf(tmin),
            toi_wf(tmax),
        ensures
            (r is Some) == (ray.dir.x != 0 || (self.mins.x <= ray.origin.x <= self.maxs.x)),
            (r matches Some(p) ==> toi_wf(p.0) && toi_wf(p.1) && tightened(
                p.0,
                p.1,
                tmin,
                tmax,
                self.model().minx,
                self.model().maxx,
                ray.origin.x as int,
                ray.dir.x as int,
            )),
            (r matches Some(p) ==> (p.0 == tmin || (p.0.den as int) * (ray.origin.x as int) + (
            p.0.num as int) * (ray.dir.x as int) == (p.0.den as int) * (if ray.dir.x > 0 {
                self.model().minx
            } else {
                self.model().maxx
            }))),
            (r is None ==> (forall|n: int, dd: int|
                dd > 0 ==> !#[trigger] axis_ok(
                    self.model().minx,
                    self.model().maxx,
                    ray.origin.x as int,
                    ray.dir.x as int,
                    n,
                    dd,
                ))),
    {
        fold_axis(self.mins.x, self.maxs.x, ray.origin.x, ray.dir.x, tmin, tmax)
    }

    /// Folds the y slab of this box into the running time bounds.
    fn fold_y(&self, ray: &Ray, tmin: Toi, tmax: Toi) -> (r: Option<(Toi, Toi)>)
        requires
            self.bounded(),
            ray.origin.bounded(),
            ray.dir.bounded(),
            toi_wf(tmin),
            toi_wf(tmax),
        ensures
            (r is Some) == (ray.dir.y != 0 || (self.mins.y <= ray.origin.y <= self.maxs.y)),
            (r matches Some(p) ==> toi_wf(p.0) && toi_wf(p.1) && tightened(
                p.0,
                p.1,
                tmin,
                tmax,
                self.model().miny,
                self.model().maxy,
                ray.origin.y as int,
                ray.dir.y as int,
            )),
            (r matches Some(p) ==> (p.0 == tmin || (p.0.den as int) * (ray.origin.y as int) + (
            p.0.num as int) * (ray.dir.y as int) == (p.0.den as int) * (if ray.dir.y > 0 {
                self.model().miny
            } else {
                self.model().maxy
            }))),
            (r is None ==> (forall|n: int, dd: int|
                dd > 0 ==> !#[trigger] axis_ok(
                    self.model().miny,
                    self.model().maxy,
                    ray.origin.y as int,
                    ray.dir.y as int,
                    n,
                    dd,
                ))),
    {
        fold_axis(self.mins.y, self.maxs.y, ray.origin.y, ray.dir.y, tmin, tmax)
    }
}

} // verus!

verus! {

/// Where a point projects onto a box.
#[derive(Clone, Copy, PartialEq, Eq, Structural, Debug)]
pub struct PointProjection {
    pub is_inside: bool,
    pub point: Point2,
}

/// A ray hit: its exact time of impact, the outward normal of the face
/// hit, and that face's feature id.
#[derive(Clone, Copy, PartialEq, Eq, Structural, Debug)]
pub struct RayIntersection {
    pub toi: Toi,
    pub normal: Vec2,
    pub feature: FeatureId,
}

/// The nearest boundary point of a box to a point inside it: the axis
/// with the smallest distance to its nearer face snaps there, preferring
/// the low x, high x, low y and high y faces in that order on ties.
pub open spec fn boundary_project(b: BoxModel, px: int, py: int) -> (int, int) {
    let dxm = px - b.minx;
    let dxq = b.maxx - px;
    let dym = py - b.miny;
    let dyq = b.maxy - py;
    if dxm <= dxq && dxm <= dym && dxm <= dyq {
        (b.minx, py)
    } else if dxq <= dym && dxq <= dyq {
        (b.maxx, py)
    } else if dym <= dyq {
        (px, b.miny)
    } else {
        (px, b.maxy)
    }
}

/// The projection of a point onto a box: a point outside clamps onto the
/// boundary; a point inside stays put when the box is solid and snaps to
/// the nearest face when it is hollow.
pub open spec fn project_spec(b: BoxModel, px: int, py: int, solid: bool) -> (int, int) {
    if !box_contains_point(b, px, py) {
        (clampi(px, b.minx, b.maxx), clampi(py, b.miny, b.maxy))
    } else if solid {
        (px, py)
    } else {
        boundary_project(b, px, py)
    }
}

/// The squared Euclidean distance between two points.
pub open spec fn dist_sq(ax: int, ay: int, bx: int, by: int) -> int {
    (ax - bx) * (ax - bx) + (ay - by) * (ay - by)
}

/// Opposite differences square to the same value.
proof fn lemma_sq_neg(a: int, c: int)
    by (nonlinear_arith)
    requires
        c == -a,
    ensures
        a * a == c * c,
{
}

/// A non-negative number below another, or below its negation, has the
/// smaller square.
proof fn lemma_sq_le(c: int, d: int)
    by (nonlinear_arith)
    requires
        0 <= c,
        c <= d || c <= -d,
    ensures
        c * c <= d * d,
{
}

/// The hollow projection of an inside point is at least as near as the
/// snap onto any of the four faces.
pub proof fn lemma_boundary_project_nearest(b: BoxModel, px: int, py: int)
    requires
        box_valid(b),
        box_contains_point(b, px, py),
    ensures
        dist_sq(px, py, boundary_project(b, px, py).0, boundary_project(b, px, py).1) <= dist_sq(
            px,
            py,
            b.minx,
            py,
        ),
        dist_sq(px, py, boundary_project(b, px, py).0, boundary_project(b, px, py).1) <= dist_sq(
            px,
            py,
            b.maxx,
            py,
        ),
        dist_sq(px, py, boundary_project(b, px, py).0, boundary_project(b, px, py).1) <= dist_sq(
            px,
            py,
            px,
            b.miny,
        ),
        dist_sq(px, py, boundary_project(b, px, py).0, boundary_project(b, px, py).1) <= dist_sq(
            px,
            py,
            px,
            b.maxy,
        ),
{
    lemma_sq_neg(px - b.maxx, b.maxx - px);
    lemma_sq_neg(py - b.maxy, b.maxy - py);
    if px - b.minx <= b.maxx - px && px - b.minx <= py - b.miny && px - b.minx <= b.maxy - py {
        assert(boundary_project(b, px, py) == (b.minx, py));
        lemma_sq_le(px - b.minx, px - b.maxx);
        lemma_sq_le(px - b.minx, py - b.miny);
        lemma_sq_le(px - b.minx, py - b.maxy);
    } else if b.maxx - px <= py - b.miny && b.maxx - px <= b.maxy - py {
        assert(boundary_project(b, px, py) == (b.maxx, py));
        lemma_sq_le(b.maxx - px, px - b.minx);
        lemma_sq_le(b.maxx - px, py - b.miny);
        lemma_sq_le(b.maxx - px, py - b.maxy);
    } else if py - b.miny <= b.maxy - py {
        assert(boundary_project(b, px, py) == (px, b.miny));
        lemma_sq_le(py - b.miny, px - b.minx);
        lemma_sq_le(py - b.miny, px - b.maxx);
        lemma_sq_le(py - b.miny, py - b.maxy);
    } else {
        assert(boundary_project(b, px, py) == (px, b.maxy));
        lemma_sq_le(b.maxy - py, px - b.minx);
        lemma_sq_le(b.maxy - py, px - b.maxx);
        lemma_sq_le(b.maxy - py, py - b.miny);
    }
}

/// Whether the ray's point at time `t` lies on the given face of the box,
/// multiplied through by the time's denominator.
pub open spec fn hits_face(b: BoxModel, r: Ray, t: Toi, f: u32) -> bool {
    let sx = (t.den as int) * (r.origin.x as int) + (t.num as int) * (r.dir.x as int);
    let sy = (t.den as int) * (r.origin.y as int) + (t.num as int) * (r.dir.y as int);
    if f == 0 {
        sx == (t.den as int) * b.maxx
    } else if f == 2 {
        sx == (t.den as int) * b.minx
    } else if f == 1 {
        sy == (t.den as int) * b.maxy
    } else if f == 3 {
        sy == (t.den as int) * b.miny
    } else {
        false
    }
}

impl Aabb {
    /// Projects a point onto the box.
    pub fn project_local_point(&self, pt: Point2, solid: bool) -> (r: PointProjection)
        requires
            self.is_valid(),
            self.bounded(),
            pt.bounded(),
        ensures
            r.is_inside == box_contains_point(self.model(), pt.x as int, pt.y as int),
            (r.point.x as int, r.point.y as int) == project_spec(
                self.model(),
                pt.x as int,
                pt.y as int,
                solid,
            ),
            -COORD_LIMIT <= r.point.x <= COORD_LIMIT,
            -COORD_LIMIT <= r.point.y <= COORD_LIMIT,
    {
        let inside = self.contains_local_point(pt);
        if !inside {
            PointProjection {
                is_inside: false,
                point: Point2 {
                    x: clamp_i64(pt.x, self.mins.x, self.maxs.x),
                    y: clamp_i64(pt.y, self.mins.y, self.maxs.y),
                },
            }
        } else if solid {
            PointProjection { is_inside: true, point: pt }
        } else {
            let dxm = pt.x - self.mins.x;
            let dxq = self.maxs.x - pt.x;
            let dym = pt.y - self.mins.y;
            let dyq = self.maxs.y - pt.y;
            let point = if dxm <= dxq && dxm <= dym && dxm <= dyq {
                Point2 { x: self.mins.x, y: pt.y }
            } else if dxq <= dym && dxq <= dyq {
                Point2 { x: self.maxs.x, y: pt.y }
            } else if dym <= dyq {
                Point2 { x: pt.x, y: self.mins.y }
            } else {
                Point2 { x: pt.x, y: self.maxs.y }
            };
            PointProjection { is_inside: true, point }
        }
    }

    /// The squared distance from a point to its projection on the box:
    /// zero inside a solid box, the squared gap to the nearest face
    /// inside a hollow one.
    pub fn distance_to_local_point(&self, pt: Point2, solid: bool) -> (r: u64)
        requires
            self.is_valid(),
            self.bounded(),
            pt.bounded(),
        ensures
            r == dist_sq(
                pt.x as int,
                pt.y as int,
                project_spec(self.model(), pt.x as int, pt.y as int, solid).0,
                project_spec(self.model(), pt.x as int, pt.y as int, solid).1,
            ),
    {
        let proj = self.project_local_point(pt, solid);
        let dx = pt.x - proj.point.x;
        let dy = pt.y - proj.point.y;
        let adx = abs_i64(dx);
        let ady = abs_i64(dy);
        proof {
            lemma_prod_bound2(adx as int, adx as int, 0x8000_0000, 0x8000_0000);
            lemma_prod_bound2(ady as int, ady as int, 0x8000_0000, 0x8000_0000);
            assert(absi(dx as int) * absi(dx as int) == (dx as int) * (dx as int))
                by (nonlinear_arith);
            assert(absi(dy as int) * absi(dy as int) == (dy as int) * (dy as int))
                by (nonlinear_arith);
        }
        (adx as u64) * (adx as u64) + (ady as u64) * (ady as u64)
    }

    /// Casts a ray against the box and reports, besides the exact time of
    /// impact, the face hit and its outward normal. The faces are probed
    /// in the order low x, high x, low y, high y, so a corner hit names
    /// the x face; a hit with no boundary contact (a solid box entered at
    /// its interior) has no recognized feature and a zero normal.
    pub fn cast_local_ray_and_get_normal(&self, ray: &Ray, max_toi: i64, solid: bool) -> (r:
        Option<RayIntersection>)
        requires
            self.is_valid(),
            self.bounded(),
            ray.origin.bounded(),
            ray.dir.bounded(),
            0 <= max_toi <= COORD_LIMIT,
        ensures
            (r matches Some(ri) ==> 1 <= ri.toi.den && 0 <= ri.toi.num && ri.toi.num <= max_toi
                * ri.toi.den && ray_hits_at(self.model(), *ray, ri.toi.num as int, ri.toi.den as int)),
            ((solid || !box_contains_point(
                self.model(),
                ray.origin.x as int,
                ray.origin.y as int,
            )) && r is None ==> no_hit_within(self.model(), *ray, max_toi as int)),
            ((solid || !box_contains_point(
                self.model(),
                ray.origin.x as int,
                ray.origin.y as int,
            )) ==> (r matches Some(ri) ==> earliest_hit(self.model(), *ray, ri.toi))),
            (!solid && box_contains_point(self.model(), ray.origin.x as int, ray.origin.y as int)
                && r is None ==> all_hit_within(self.model(), *ray, max_toi as int)),
            (!solid && box_contains_point(self.model(), ray.origin.x as int, ray.origin.y as int)
                ==> (r matches Some(ri) ==> none_beyond(self.model(), *ray, ri.toi))),
            (r matches Some(ri) ==> (match ri.feature {
                FeatureId::Face(f) => hits_face(self.model(), *ray, ri.toi, f)
                    && feature_normal_spec(FeatureId::Face(f)) == Some(ri.normal),
                FeatureId::Unknown => ri.normal == (Vec2 { x: 0i64, y: 0i64 }),
                FeatureId::Vertex(_) => false,
            })),
            (r matches Some(ri) ==> (ri.feature is Unknown ==> solid && ri.toi.num == 0
                && ri.toi.den == 1 && box_contains_point(
                self.model(),
                ray.origin.x as int,
                ray.origin.y as int,
            ))),
    {
        match self.cast_local_ray(ray, max_toi, solid) {
            None => None,
            Some(t) => {
                proof {
                    lemma_prod_bound2(t.den as int, ray.origin.x as int, COORD_LIMIT as int, COORD_LIMIT as int);
                    lemma_prod_bound2(t.num as int, ray.dir.x as int, 0x8000_0000, COORD_LIMIT as int);
                    lemma_prod_bound2(t.den as int, ray.origin.y as int, COORD_LIMIT as int, COORD_LIMIT as int);
                    lemma_prod_bound2(t.num as int, ray.dir.y as int, 0x8000_0000, COORD_LIMIT as int);
                    lemma_prod_bound2(t.den as int, self.mins.x as int, COORD_LIMIT as int, COORD_LIMIT as int);
                    lemma_prod_bound2(t.den as int, self.maxs.x as int, COORD_LIMIT as int, COORD_LIMIT as int);
                    lemma_prod_bound2(t.den as int, self.mins.y as int, COORD_LIMIT as int, COORD_LIMIT as int);
                    lemma_prod_bound2(t.den as int, self.maxs.y as int, COORD_LIMIT as int, COORD_LIMIT as int);
                }
                let sx = t.den * ray.origin.x + t.num * ray.dir.x;
                let sy = t.den * ray.origin.y + t.num * ray.dir.y;
                let (normal, feature): (Vec2, FeatureId) = if sx == t.den * self.mins.x {
                    (Vec2 { x: -1, y: 0 }, FeatureId::Face(2))
                } else if sx == t.den * self.maxs.x {
                    (Vec2 { x: 1, y: 0 }, FeatureId::Face(0))
                } else if sy == t.den * self.mins.y {
                    (Vec2 { x: 0, y: -1 }, FeatureId::Face(3))
                } else if sy == t.den * self.maxs.y {
                    (Vec2 { x: 0, y: 1 }, FeatureId::Face(1))
                } else {
                    proof {
                        assert(!on_boundary(self.model(), *ray, t));
                    }
                    (Vec2 { x: 0, y: 0 }, FeatureId::Unknown)
                };
                Some(RayIntersection { toi: t, normal, feature })
            },
        }
    }
}

impl Cuboid {
    /// Whether the point lies in the cuboid.
    pub fn contains_local_point(&self, pt: Point2) -> (r: bool)
        requires
            self.is_valid(),
        ensures
            r == in_cuboid(*self, pt.x as int, pt.y as int),
    {
        self.local_aabb().contains_local_point(pt)
    }

    /// Projects a point onto the cuboid, by the equivalent query on its
    /// local box.
    pub fn project_local_point(&self, pt: Point2, solid: bool) -> (r: PointProjection)
        requires
            self.is_valid(),
            pt.bounded(),
        ensures
            r.is_inside == in_cuboid(*self, pt.x as int, pt.y as int),
            (r.point.x as int, r.point.y as int) == project_spec(
                local_box(*self),
                pt.x as int,
                pt.y as int,
                solid,
            ),
    {
        self.local_aabb().project_local_point(pt, solid)
    }

    /// The squared distance from a point to the cuboid, by the equivalent
    /// query on its local box.
    pub fn distance_to_local_point(&self, pt: Point2, solid: bool) -> (r: u64)
        requires
            self.is_valid(),
            pt.bounded(),
        ensures
            r == dist_sq(
                pt.x as int,
                pt.y as int,
                project_spec(local_box(*self), pt.x as int, pt.y as int, solid).0,
                project_spec(local_box(*self), pt.x as int, pt.y as int, solid).1,
            ),
    {
        self.local_aabb().distance_to_local_point(pt, solid)
    }

    /// Casts a ray against the cuboid, by the equivalent query on its
    /// local box.
    pub fn cast_local_ray(&self, ray: &Ray, max_toi: i64, solid: bool) -> (r: Option<Toi>)
        requires
            self.is_valid(),
            ray.origin.bounded(),
            ray.dir.bounded(),
            0 <= max_toi <= COORD_LIMIT,
        ensures
            (r matches Some(t) ==> 1 <= t.den && 0 <= t.num && t.num <= max_toi * t.den
                && ray_hits_at(local_box(*self), *ray, t.num as int, t.den as int)),
            ((solid || !in_cuboid(*self, ray.origin.x as int, ray.origin.y as int)) && r is None
                ==> no_hit_within(local_box(*self), *ray, max_toi as int)),
            ((solid || !in_cuboid(*self, ray.origin.x as int, ray.origin.y as int)) ==> (
            r matches Some(t) ==> earliest_hit(local_box(*self), *ray, t))),
            (!solid && in_cuboid(*self, ray.origin.x as int, ray.origin.y as int) && r is None
                ==> all_hit_within(local_box(*self), *ray, max_toi as int)),
            (!solid && in_cuboid(*self, ray.origin.x as int, ray.origin.y as int) ==> (
            r matches Some(t) ==> none_beyond(local_box(*self), *ray, t))),
    {
        self.local_aabb().cast_local_ray(ray, max_toi, solid)
    }

    /// Casts a ray against the cuboid and reports the face hit and its
    /// outward normal, by the equivalent query on its local box.
    pub fn cast_local_ray_and_get_normal(&self, ray: &Ray, max_toi: i64, solid: bool) -> (r:
        Option<RayIntersection>)
        requires
            self.is_valid(),
            ray.origin.bounded(),
            ray.dir.bounded(),
            0 <= max_toi <= COORD_LIMIT,
        ensures
            (r matches Some(ri) ==> 1 <= ri.toi.den && 0 <= ri.toi.num && ri.toi.num <= max_toi
                * ri.toi.den && ray_hits_at(local_box(*self), *ray, ri.toi.num as int, ri.toi.den as int)),
            ((solid || !in_cuboid(*self, ray.origin.x as int, ray.origin.y as int)) && r is None
                ==> no_hit_within(local_box(*self), *ray, max_toi as int)),
            ((solid || !in_cuboid(*self, ray.origin.x as int, ray.origin.y as int)) ==> (
            r matches Some(ri) ==> earliest_hit(local_box(*self), *ray, ri.toi))),
            (!solid && in_cuboid(*self, ray.origin.x as int, ray.origin.y as int) && r is None
                ==> all_hit_within(local_box(*self), *ray, max_toi as int)),
            (!solid && in_cuboid(*self, ray.origin.x as int, ray.origin.y as int) ==> (
            r matches Some(ri) ==> none_beyond(local_box(*self), *ray, ri.toi))),
            (r matches Some(ri) ==> (match ri.feature {
                FeatureId::Face(f) => hits_face(local_box(*self), *ray, ri.toi, f)
                    && feature_normal_spec(FeatureId::Face(f)) == Some(ri.normal),
                FeatureId::Unknown => ri.normal == (Vec2 { x: 0i64, y: 0i64 }),
                FeatureId::Vertex(_) => false,
            })),
            (r matches Some(ri) ==> (ri.feature is Unknown ==> solid && ri.toi.num == 0
                && ri.toi.den == 1 && in_cuboid(
                *self,
                ray.origin.x as int,
                ray.origin.y as int,
            ))),
    {
        self.local_aabb().cast_local_ray_and_get_normal(ray, max_toi, solid)
    }
}

} // verus!
