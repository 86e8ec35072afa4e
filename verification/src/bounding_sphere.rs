//! Bounding spheres.
//!
//! A sphere stores its center and its squared radius: the radius of a
//! circumscribed sphere is irrational in general, while its square is an
//! exact integer. A rigid pose moves the center and leaves the radius
//! unchanged, since rotation preserves distances.

use vstd::prelude::*;

use crate::algebra::apply_x;
use crate::algebra::apply_y;
use crate::algebra::Isometry2;
use crate::algebra::Point2;

verus! {

/// A center-and-radius bounding volume; the radius is stored squared so
/// that it stays exact.
#[derive(Clone, Copy, PartialEq, Eq, Structural, Debug)]
pub struct BoundingSphere {
    pub center: Point2,
    pub radius_sq: i64,
}

impl BoundingSphere {
    /// Builds a sphere from its center and squared radius.
    pub fn new(center: Point2, radius_sq: i64) -> (r: BoundingSphere)
        requires
            radius_sq >= 0,
        ensures
            r.center == center,
            r.radius_sq == radius_sq,
    {
        BoundingSphere { center, radius_sq }
    }

    /// The sphere under a rigid pose: the center moves with the pose and
    /// the radius is rotation-invariant.
    pub fn transform_by(&self, iso: &Isometry2) -> (r: BoundingSphere)
        requires
            self.center.bounded(),
            iso.bounded(),
        ensures
            r.center.x == apply_x(iso.model(), self.center.x as int, self.center.y as int),
            r.center.y == apply_y(iso.model(), self.center.x as int, self.center.y as int),
            r.radius_sq == self.radius_sq,
    {
        BoundingSphere { center: iso.transform_point(self.center), radius_sq: self.radius_sq }
    }
}

} // verus!
