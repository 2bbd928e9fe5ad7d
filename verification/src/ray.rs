//! Rays: half-lines given by an origin and a direction.
use crate::fixed::Fixed;
use crate::vec3::Vec3;
use vstd::prelude::*;

verus! {

/// The points `origin + t * direction`.
#[derive(Clone, Copy, Debug)]
pub struct Ray {
    pub origin: Vec3,
    pub direction: Vec3,
}

impl Ray {
    pub open spec fn spec_at(self, t: Fixed) -> Vec3 {
        self.origin.spec_add(self.direction.spec_scale(t))
    }

    /// The point of the ray at parameter `t`.
    pub fn at(&self, t: Fixed) -> (p: Vec3)
        ensures
            p == self.spec_at(t),
    {
        self.origin.add(self.direction.scale(t))
    }
}

} // verus!
