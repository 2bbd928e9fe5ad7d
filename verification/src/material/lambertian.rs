//! Diffuse surfaces.
use crate::color::Color;
use crate::hittable::HitRecord;
use crate::material::Material;
use crate::math::{near_zero, spec_near_zero};
use crate::random::{is_first_in_ball, is_unit_sample, random_unit_vector, Sampler};
use crate::ray::Ray;
use crate::vec3::Vec3;
use vstd::prelude::*;

verus! {

/// A matte surface that scatters light to all sides.
#[derive(Clone, Copy, Debug)]
pub struct Lambertian {
    /// The share of the light that the surface gives back, by channel.
    pub albedo: Color,
}

impl Lambertian {
    /// What becomes of a ray that hit at `rec`, where `unit` is the random
    /// direction that was drawn: the ray leaves along the normal plus
    /// `unit`, or along the normal where that sum vanishes.
    pub open spec fn spec_scatter_with(self, rec: HitRecord, unit: Vec3) -> (Color, Ray) {
        let sum = rec.normal.spec_add(unit);
        let direction = if spec_near_zero(sum) {
            rec.normal
        } else {
            sum
        };
        (self.albedo, Ray { origin: rec.p, direction })
    }

    pub fn new(albedo: Color) -> (m: Lambertian)
        ensures
            m == (Lambertian { albedo }),
    {
        Lambertian { albedo }
    }

    /// Scatters with `unit` as the random direction.
    pub fn scatter_with(&self, rec: &HitRecord, unit: Vec3) -> (out: (Color, Ray))
        ensures
            out == self.spec_scatter_with(*rec, unit),
    {
        let mut scatter_direction = rec.normal.add(unit);
        if near_zero(&scatter_direction) {
            scatter_direction = rec.normal;
        }
        (self.albedo, Ray { origin: rec.p, direction: scatter_direction })
    }
}

impl Material for Lambertian {
    open spec fn may_scatter(&self, r_in: Ray, rec: HitRecord, out: Option<(Color, Ray)>) -> bool {
        exists|unit: Vec3|
            is_unit_sample(unit) && out == Some(#[trigger] self.spec_scatter_with(rec, unit))
    }

    /// Never absorbs the ray. Draws one random direction, the first point
    /// of the cube that lies in the unit ball, normalized, and scatters
    /// with it.
    fn scatter(&self, r_in: Ray, rec: &HitRecord, rng: &mut Sampler) -> (out: Option<(Color, Ray)>)
        ensures
            out.is_some(),
            old(rng)@.after_tries(3, final(rng)@),
            final(rng).words().take(old(rng).words().len() as int) == old(rng).words(),
            exists|tries: int, p: Vec3| #[trigger]
                is_first_in_ball(final(rng).words(), old(rng).words().len() as int, tries, p)
                    && out == Some(self.spec_scatter_with(*rec, p.spec_normalize())),
    {
        let unit = random_unit_vector(rng);
        let out = Some(self.scatter_with(rec, unit));
        proof {
            assert(out == Some(self.spec_scatter_with(*rec, unit)));
            let (tries, p) = choose|tries: int, p: Vec3| #[trigger]
                is_first_in_ball(rng.words(), old(rng).words().len() as int, tries, p) && unit
                    == p.spec_normalize();
            assert(is_first_in_ball(rng.words(), old(rng).words().len() as int, tries, p));
        }
        out
    }
}

} // verus!
