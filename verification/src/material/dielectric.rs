//! Clear surfaces that refract light.
use crate::color::{spec_white, white, Color};
use crate::fixed::{lemma_mul_zero, Fixed};
use crate::hittable::HitRecord;
use crate::material::Material;
use crate::math::{reflect, refract, spec_reflect, spec_refract};
use crate::random::{drew_words, is_unit_draw, random_f64, spec_unit, Sampler};
use crate::ray::Ray;
use crate::vec3::Vec3;
use vstd::prelude::*;

verus! {

/// A clear material such as glass or water.
#[derive(Clone, Copy, Debug)]
pub struct Dielectric {
    /// The index of refraction.
    pub ior: Fixed,
}

/// The share of light that a clear surface mirrors when light meets it
/// head-on: `((1 - ref_idx) / (1 + ref_idx))^2`.
pub open spec fn spec_base_reflectance(ref_idx: Fixed) -> Fixed {
    let r0 = Fixed::spec_one().spec_sub(ref_idx).spec_div(Fixed::spec_one().spec_add(ref_idx));
    r0.spec_mul(r0)
}

/// Schlick's approximation of the share of light that a clear surface
/// mirrors: `r0 + (1 - r0) (1 - cos)^5`.
pub open spec fn spec_reflectance(cos: Fixed, ref_idx: Fixed) -> Fixed {
    let r0 = spec_base_reflectance(ref_idx);
    r0.spec_add(
        Fixed::spec_one().spec_sub(r0).spec_mul(Fixed::spec_one().spec_sub(cos).spec_powi(5)),
    )
}

pub fn reflectance(cos: Fixed, ref_idx: Fixed) -> (r: Fixed)
    ensures
        r == spec_reflectance(cos, ref_idx),
{
    let r0 = Fixed::one().sub(ref_idx).div(Fixed::one().add(ref_idx));
    let r0 = r0.mul(r0);
    r0.add(Fixed::one().sub(r0).mul(Fixed::one().sub(cos).powi(5)))
}

impl Dielectric {
    /// The ratio of the refractive indices that the ray passes between: it
    /// enters the material at a front face and leaves it otherwise.
    pub open spec fn spec_refraction_ratio(self, front_face: bool) -> Fixed {
        if front_face {
            Fixed::spec_one().spec_div(self.ior)
        } else {
            self.ior
        }
    }

    /// The cosine of the angle between the ray and the normal, at most one.
    pub open spec fn spec_cos_theta(unit_direction: Vec3, normal: Vec3) -> Fixed {
        unit_direction.spec_neg().spec_dot(normal).spec_min(Fixed::spec_one())
    }

    /// Whether the ray is mirrored: always where Snell's law has no
    /// solution, and otherwise where the reflectance exceeds `draw`.
    pub open spec fn spec_reflects(self, r_in: Ray, rec: HitRecord, draw: Fixed) -> bool {
        let ratio = self.spec_refraction_ratio(rec.front_face);
        let cos_theta = Dielectric::spec_cos_theta(r_in.direction.spec_normalize(), rec.normal);
        let sin_theta = Fixed::spec_one().spec_sub(cos_theta.spec_mul(cos_theta)).spec_sqrt();
        ratio.spec_mul(sin_theta)@ > 0x1_0000_0000 || spec_reflectance(cos_theta, ratio)@ > draw@
    }

    /// What becomes of the ray `r_in` that hit at `rec`, where `draw` is
    /// the random number that was drawn: it is mirrored or refracted, and
    /// keeps all of its light.
    pub open spec fn spec_scatter_with(self, r_in: Ray, rec: HitRecord, draw: Fixed) -> (Color, Ray) {
        let unit_direction = r_in.direction.spec_normalize();
        let direction = if self.spec_reflects(r_in, rec, draw) {
            spec_reflect(unit_direction, rec.normal)
        } else {
            spec_refract(unit_direction, rec.normal, self.spec_refraction_ratio(rec.front_face))
        };
        (spec_white(), Ray { origin: rec.p, direction })
    }

    pub fn new(ior: Fixed) -> (m: Dielectric)
        ensures
            m == (Dielectric { ior }),
    {
        Dielectric { ior }
    }

    /// Scatters with `draw` as the random number.
    pub fn scatter_with(&self, r_in: Ray, rec: &HitRecord, draw: Fixed) -> (out: (Color, Ray))
        ensures
            out == self.spec_scatter_with(r_in, *rec, draw),
    {
        let attenuation = white();
        let refraction_ratio = if rec.front_face {
            Fixed::one().div(self.ior)
        } else {
            self.ior
        };
        let unit_direction = r_in.direction.normalize();
        let cos_theta = unit_direction.neg().dot(rec.normal).min(Fixed::one());
        let sin_theta = Fixed::one().sub(cos_theta.mul(cos_theta)).sqrt();
        let cannot_refract = refraction_ratio.mul(sin_theta).gt(Fixed::one());
        let direction = if cannot_refract || reflectance(cos_theta, refraction_ratio).gt(draw) {
            reflect(unit_direction, rec.normal)
        } else {
            refract(unit_direction, rec.normal, refraction_ratio)
        };
        (attenuation, Ray { origin: rec.p, direction })
    }
}

impl Material for Dielectric {
    open spec fn may_scatter(&self, r_in: Ray, rec: HitRecord, out: Option<(Color, Ray)>) -> bool {
        exists|draw: Fixed|
            is_unit_draw(draw) && out == Some(#[trigger] self.spec_scatter_with(r_in, rec, draw))
    }

    /// Never absorbs the ray. Draws one number, and scatters with it.
    fn scatter(&self, r_in: Ray, rec: &HitRecord, rng: &mut Sampler) -> (out: Option<(Color, Ray)>)
        ensures
            out.is_some(),
            final(rng)@ == old(rng)@.after(1),
            drew_words(old(rng).words(), final(rng).words(), 1),
            out == Some(self.spec_scatter_with(r_in, *rec, spec_unit(final(rng).words().last()))),
    {
        let draw = random_f64(rng);
        let out = Some(self.scatter_with(r_in, rec, draw));
        assert(out == Some(self.spec_scatter_with(r_in, *rec, draw)));
        out
    }
}

/// Where light meets the surface head-on, so that the cosine is one, the
/// reflectance is the base reflectance.
pub proof fn lemma_reflectance_head_on(ref_idx: Fixed)
    ensures
        spec_reflectance(Fixed::spec_one(), ref_idx) == spec_base_reflectance(ref_idx),
{
    let one = Fixed::spec_one();
    let zero = Fixed::spec_zero();
    let r0 = spec_base_reflectance(ref_idx);
    assert(one.spec_sub(one) == zero);
    lemma_mul_zero(zero.spec_powi(4));
    assert(zero.spec_powi(5) == zero);
    lemma_mul_zero(one.spec_sub(r0));
    assert(r0.spec_add(zero) == r0);
}

} // verus!
