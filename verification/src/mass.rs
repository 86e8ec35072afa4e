//! Mass properties: mass, center of mass and angular inertia.
//!
//! Mass and inertia are exact products of the inputs, so they are carried in
//! 128-bit integers; the one division, by 3 in the rectangular-plate inertia
//! formula, truncates and is stated as such.

use vstd::prelude::*;

use crate::algebra::Point2;
use crate::algebra::Vec2;
use crate::algebra::COORD_LIMIT;

verus! {

/// When the mass computation is exact in machine integers: the density is
/// within the coordinate bound and the inertia of the plate, a degree-five
/// product of the inputs, fits a `u128`. Every input whose results are
/// representable at all is admitted.
pub open spec fn mass_inputs_fit(density: i64, half_extents: Vec2) -> bool {
    &&& 0 <= density <= COORD_LIMIT
    &&& 4 * density * half_extents.x * half_extents.y * (half_extents.x * half_extents.x
        + half_extents.y * half_extents.y) <= u128::MAX
}

/// Mass, center of mass in the shape's local frame, and scalar angular
/// inertia about that center.
#[derive(Clone, Copy, PartialEq, Eq, Structural, Debug)]
pub struct MassProperties {
    pub mass: u128,
    pub local_com: Point2,
    pub inertia: u128,
}

/// A product of two non-negative bounded integers is bounded by the product
/// of the bounds.
pub proof fn lemma_product_bound(a: int, b: int, ca: int, cb: int)
    by (nonlinear_arith)
    requires
        0 <= a <= ca,
        0 <= b <= cb,
    ensures
        0 <= a * b <= ca * cb,
{
}

impl MassProperties {
    /// The mass properties of a solid rectangular plate of the given uniform
    /// density and half-extents: mass is density times the full area
    /// `(2 * hx) * (2 * hy)`, the center of mass sits at the origin, and the
    /// angular inertia about it is `mass * (hx^2 + hy^2) / 3`, truncated.
    pub fn from_cuboid(density: i64, half_extents: Vec2) -> (r: MassProperties)
        requires
            0 < half_extents.x <= COORD_LIMIT,
            0 < half_extents.y <= COORD_LIMIT,
            mass_inputs_fit(density, half_extents),
        ensures
            r.mass == 4 * density * half_extents.x * half_extents.y,
            r.local_com.x == 0,
            r.local_com.y == 0,
            r.inertia == r.mass * (half_extents.x * half_extents.x + half_extents.y
                * half_extents.y) / 3,
    {
        let d = density as u128;
        let ex = half_extents.x as u128;
        let ey = half_extents.y as u128;
        proof {
            lemma_product_bound(4 * (density as int), ex as int, 0x100000000, 0x40000000);
            lemma_product_bound(
                4 * (density as int) * (ex as int),
                ey as int,
                0x4000000000000000,
                0x40000000,
            );
            lemma_product_bound(ex as int, ex as int, 0x40000000, 0x40000000);
            lemma_product_bound(ey as int, ey as int, 0x40000000, 0x40000000);
        }
        let mass = 4 * d * ex * ey;
        let sq = ex * ex + ey * ey;
        proof {
            assert((mass as int) * (sq as int) == 4 * (density as int) * (half_extents.x as int)
                * (half_extents.y as int) * ((half_extents.x as int) * (half_extents.x as int) + (
            half_extents.y as int) * (half_extents.y as int))) by (nonlinear_arith)
                requires
                    mass as int == 4 * (density as int) * (half_extents.x as int) * (
                    half_extents.y as int),
                    sq as int == (half_extents.x as int) * (half_extents.x as int) + (
                    half_extents.y as int) * (half_extents.y as int),
            ;
        }
        let inertia = mass * sq / 3;
        MassProperties { mass, local_com: Point2 { x: 0, y: 0 }, inertia }
    }
}

} // verus!
