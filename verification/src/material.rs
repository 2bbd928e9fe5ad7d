//! How surfaces scatter light.
use crate::color::Color;
use crate::hittable::HitRecord;
use crate::material::dielectric::Dielectric;
use crate::material::lambertian::Lambertian;
use crate::material::metal::Metal;
use crate::random::{drew_words, is_first_in_ball, spec_unit, Sampler};
use crate::vec3::Vec3;
use crate::ray::Ray;
use vstd::prelude::*;

pub mod dielectric;
pub mod lambertian;
pub mod metal;

verus! {

/// A material decides what becomes of a ray that hits a surface: it is
/// absorbed, or it goes on as another ray, with its light filtered by a
/// color.
pub trait Material {
    /// Whether `out` is one of the ways in which the material may treat the
    /// ray `r_in` that hit at `rec`. `None` stands for absorption.
    spec fn may_scatter(&self, r_in: Ray, rec: HitRecord, out: Option<(Color, Ray)>) -> bool;

    /// Scatters the ray with numbers drawn from `rng`.
    fn scatter(&self, r_in: Ray, rec: &HitRecord, rng: &mut Sampler) -> (out: Option<(Color, Ray)>)
        ensures
            self.may_scatter(r_in, *rec, out),
            old(rng)@.precedes(final(rng)@),
    ;
}

/// One of the materials of this library.
#[derive(Clone, Copy, Debug)]
pub enum Surface {
    Lambertian(Lambertian),
    Metal(Metal),
    Dielectric(Dielectric),
}

impl Surface {
    /// Whether `out` is one of the ways in which the material of this
    /// surface may treat the ray `r_in` that hit at `rec`.
    #[verifier::opaque]
    pub open spec fn may_scatter_as(self, r_in: Ray, rec: HitRecord, out: Option<(Color, Ray)>) -> bool {
        match self {
            Surface::Lambertian(m) => m.may_scatter(r_in, rec, out),
            Surface::Metal(m) => m.may_scatter(r_in, rec, out),
            Surface::Dielectric(m) => m.may_scatter(r_in, rec, out),
        }
    }
}

impl Material for Surface {
    open spec fn may_scatter(&self, r_in: Ray, rec: HitRecord, out: Option<(Color, Ray)>) -> bool {
        self.may_scatter_as(r_in, rec, out)
    }

    /// Scatters as the material of the surface does, with the words that
    /// this material draws.
    fn scatter(&self, r_in: Ray, rec: &HitRecord, rng: &mut Sampler) -> (out: Option<(Color, Ray)>)
        ensures
            final(rng).words().take(old(rng).words().len() as int) == old(rng).words(),
            match *self {
                Surface::Lambertian(m) => exists|tries: int, p: Vec3| #[trigger]
                    is_first_in_ball(final(rng).words(), old(rng).words().len() as int, tries, p)
                        && out == Some(m.spec_scatter_with(*rec, p.spec_normalize())),
                Surface::Metal(m) => exists|tries: int, p: Vec3| #[trigger]
                    is_first_in_ball(final(rng).words(), old(rng).words().len() as int, tries, p)
                        && out == m.spec_scatter_with(r_in, *rec, p),
                Surface::Dielectric(m) => drew_words(old(rng).words(), final(rng).words(), 1)
                    && out == Some(
                    m.spec_scatter_with(r_in, *rec, spec_unit(final(rng).words().last())),
                ),
            },
    {
        reveal(Surface::may_scatter_as);
        match self {
            Surface::Lambertian(m) => m.scatter(r_in, rec, rng),
            Surface::Metal(m) => m.scatter(r_in, rec, rng),
            Surface::Dielectric(m) => m.scatter(r_in, rec, rng),
        }
    }
}

} // verus!
