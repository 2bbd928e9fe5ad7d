//! What a ray can hit, and the record of a hit.
use crate::fixed::Fixed;
use crate::interval::Interval;
use crate::material::Surface;
use crate::ray::Ray;
use crate::vec3::{lemma_dot_commutes, lemma_dot_neg, Vec3};
use vstd::prelude::*;

pub mod hittable_list;
pub mod sphere;

verus! {

/// Where and how a ray met a surface.
#[derive(Clone, Copy, Debug)]
pub struct HitRecord {
    /// The point of the hit.
    pub p: Vec3,
    /// The surface normal at that point, turned against the ray.
    pub normal: Vec3,
    /// The material of the surface.
    pub mat: Surface,
    /// The ray's parameter at the hit.
    pub t: Fixed,
    /// Whether the ray came from outside the surface.
    pub front_face: bool,
}

impl HitRecord {
    /// Whether a ray along `direction` meets a surface with the given
    /// outward normal from outside.
    pub open spec fn spec_faces(direction: Vec3, outward_normal: Vec3) -> bool {
        direction.spec_dot(outward_normal)@ < 0
    }

    /// The record with its normal and its side set for the ray `r`.
    pub open spec fn spec_with_face_normal(self, r: Ray, outward_normal: Vec3) -> HitRecord {
        let front_face = HitRecord::spec_faces(r.direction, outward_normal);
        HitRecord {
            front_face,
            normal: if front_face {
                outward_normal
            } else {
                outward_normal.spec_neg()
            },
            ..self
        }
    }

    /// Records from which side `r` met the surface, and stores the normal so
    /// that it points against the ray.
    pub fn set_face_normal(&mut self, r: &Ray, outward_normal: Vec3)
        ensures
            *final(self) == old(self).spec_with_face_normal(*r, outward_normal),
            final(self).front_face == (r.direction.spec_dot(outward_normal)@ < 0),
            final(self).normal.spec_dot(r.direction)@ <= 0,
    {
        proof {
            lemma_face_normal_opposes_ray(*self, *r, outward_normal);
        }
        self.front_face = r.direction.dot(outward_normal).lt(Fixed::zero());
        self.normal = if self.front_face {
            outward_normal
        } else {
            outward_normal.neg()
        };
    }
}

/// `hit`, unless it lies at or beyond `end`.
pub open spec fn spec_before(hit: Option<HitRecord>, end: Fixed) -> Option<HitRecord> {
    match hit {
        Some(rec) => if rec.t@ < end@ {
            hit
        } else {
            None
        },
        None => None,
    }
}

/// A shape that a ray can hit.
pub trait Hittable {
    /// The nearest hit of `r` with the shape whose parameter lies strictly
    /// inside `ray_t`, if there is one.
    spec fn spec_hit(&self, r: Ray, ray_t: Interval) -> Option<HitRecord>;

    /// Tests the ray `r` against the shape. The parameter of a hit lies
    /// strictly inside `ray_t`, and its normal points against the ray.
    fn hit(&self, r: &Ray, ray_t: Interval) -> (out: Option<HitRecord>)
        ensures
            out == self.spec_hit(*r, ray_t),
            out matches Some(rec) ==> ray_t.spec_surrounds(rec.t) && rec.normal.spec_dot(
                r.direction,
            )@ <= 0,
    ;

    /// To search a shorter interval is to search the longer one and to drop
    /// a hit that lies at or beyond the new end.
    proof fn lemma_hit_in_shorter_interval(&self, r: Ray, ray_t: Interval, end: Fixed)
        requires
            end@ <= ray_t.max@,
        ensures
            self.spec_hit(r, Interval { min: ray_t.min, max: end }) == spec_before(
                self.spec_hit(r, ray_t),
                end,
            ),
    ;
}

/// The stored normal never points along the ray: whatever the ray and the
/// outward normal, their dot product is at most zero.
pub proof fn lemma_face_normal_opposes_ray(rec: HitRecord, r: Ray, outward_normal: Vec3)
    ensures
        rec.spec_with_face_normal(r, outward_normal).normal.spec_dot(r.direction)@ <= 0,
{
    lemma_dot_commutes(r.direction, outward_normal);
    lemma_dot_neg(outward_normal, r.direction);
}

} // verus!
