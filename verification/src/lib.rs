//! An exact-arithmetic 2D convex-shape query kernel.
//!
//! The crate provides the narrow-phase geometry layer of a rigid-body physics
//! engine: axis-aligned bounding boxes, bounding spheres, mass properties,
//! support mapping and polygonal feature extraction for a rectangular shape,
//! ray and point queries, and a polymorphic shape interface with safe,
//! tag-checked downcasting.
//!
//! All coordinates are exact signed integers, read as fixed-point values at a
//! scale of the caller's choosing. Every query is a pure function of its
//! inputs, proved free of overflow, and its result is pinned down exactly by
//! its contract; quantities whose real-valued counterpart would be irrational
//! (a circumscribed radius, a squared distance) are reported squared, so that
//! they stay exact.

use vstd::prelude::*;

pub mod aabb;
pub mod algebra;
pub mod bounding_sphere;
pub mod cuboid;
pub mod mass;
pub mod query;
pub mod shape;

verus! {

/// Three bytes stored in a four-byte slot: the padded record layout an
/// embedder uses when it interleaves small tags with kernel data.
pub struct Align4(pub [u8; 3]);

} // verus!
