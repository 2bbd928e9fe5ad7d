//! Mirroring surfaces.
use crate::color::Color;
use crate::fixed::Fixed;
use crate::hittable::HitRecord;
use crate::material::Material;
use crate::math::{reflect, spec_reflect};
use crate::random::{in_unit_sphere, is_first_in_ball, random_in_unit_sphere, Sampler};
use crate::ray::Ray;
use crate::vec3::Vec3;
use vstd::prelude::*;

verus! {

/// A surface that mirrors light, more or less sharply.
#[derive(Clone, Copy, Debug)]
pub struct Metal {
    /// The share of the light that the surface gives back, by channel.
    pub albedo: Color,
    /// How far a mirrored ray may stray, from 0 (a perfect mirror) to 1.
    pub fuzz: Fixed,
}

impl Metal {
    /// `fuzz` held between zero and one.
    pub open spec fn spec_fuzz(fuzz: Fixed) -> Fixed {
        fuzz.spec_min(Fixed::spec_one()).spec_max(Fixed::spec_zero())
    }

    /// The direction in which a ray leaves that came along `incoming`,
    /// where `sample` is the point of the unit ball that was drawn.
    pub open spec fn spec_direction(self, incoming: Vec3, normal: Vec3, sample: Vec3) -> Vec3 {
        spec_reflect(incoming.spec_normalize(), normal).spec_add(sample.spec_scale(self.fuzz))
    }

    /// What becomes of the ray `r_in` that hit at `rec`: it is mirrored and
    /// strays by `fuzz` times `sample`, and is absorbed where it would then
    /// enter the surface.
    pub open spec fn spec_scatter_with(self, r_in: Ray, rec: HitRecord, sample: Vec3) -> Option<
        (Color, Ray),
    > {
        let direction = self.spec_direction(r_in.direction, rec.normal, sample);
        if direction.spec_dot(rec.normal)@ > 0 {
            Some((self.albedo, Ray { origin: rec.p, direction }))
        } else {
            None
        }
    }

    pub fn new(albedo: Color, fuzz: Fixed) -> (m: Metal)
        ensures
            m == (Metal { albedo, fuzz: Metal::spec_fuzz(fuzz) }),
            0 <= m.fuzz@ <= 0x1_0000_0000,
    {
        Metal { albedo, fuzz: fuzz.min(Fixed::one()).max(Fixed::zero()) }
    }

    /// Scatters with `sample` as the random point of the unit ball.
    pub fn scatter_with(&self, r_in: Ray, rec: &HitRecord, sample: Vec3) -> (out: Option<
        (Color, Ray),
    >)
        ensures
            out == self.spec_scatter_with(r_in, *rec, sample),
            out.is_none() <==> self.spec_direction(r_in.direction, rec.normal, sample).spec_dot(
                rec.normal,
            )@ <= 0,
    {
        let reflected = reflect(r_in.direction.normalize(), rec.normal);
        let scattered = Ray { origin: rec.p, direction: reflected.add(sample.scale(self.fuzz)) };
        if scattered.direction.dot(rec.normal).gt(Fixed::zero()) {
            Some((self.albedo, scattered))
        } else {
            None
        }
    }
}

impl Material for Metal {
    open spec fn may_scatter(&self, r_in: Ray, rec: HitRecord, out: Option<(Color, Ray)>) -> bool {
        exists|sample: Vec3|
            in_unit_sphere(sample) && out == #[trigger] self.spec_scatter_with(r_in, rec, sample)
    }

    /// Draws one point of the unit ball, the first of the cube that lies
    /// in it, and scatters with it.
    fn scatter(&self, r_in: Ray, rec: &HitRecord, rng: &mut Sampler) -> (out: Option<(Color, Ray)>)
        ensures
            old(rng)@.after_tries(3, final(rng)@),
            final(rng).words().take(old(rng).words().len() as int) == old(rng).words(),
            exists|tries: int, p: Vec3| #[trigger]
                is_first_in_ball(final(rng).words(), old(rng).words().len() as int, tries, p)
                    && out == self.spec_scatter_with(r_in, *rec, p),
    {
        let sample = random_in_unit_sphere(rng);
        let out = self.scatter_with(r_in, rec, sample);
        proof {
            assert(out == self.spec_scatter_with(r_in, *rec, sample));
            let tries = choose|tries: int| #[trigger]
                is_first_in_ball(rng.words(), old(rng).words().len() as int, tries, sample);
            assert(is_first_in_ball(rng.words(), old(rng).words().len() as int, tries, sample));
        }
        out
    }
}

/// A metal without fuzz is a mirror: whatever point of the ball is drawn,
/// the ray leaves along the mirrored direction.
pub proof fn lemma_polished_metal_mirrors(m: Metal, incoming: Vec3, normal: Vec3, sample: Vec3)
    requires
        m.fuzz@ == 0,
    ensures
        m.spec_direction(incoming, normal, sample) == spec_reflect(
            incoming.spec_normalize(),
            normal,
        ),
{
    let zero = Fixed::spec_zero();
    assert(m.fuzz.spec_mul(sample.x) == zero) by {
        assert(m.fuzz@ * sample.x@ == 0) by (nonlinear_arith)
            requires
                m.fuzz@ == 0,
        ;
    }
    assert(m.fuzz.spec_mul(sample.y) == zero) by {
        assert(m.fuzz@ * sample.y@ == 0) by (nonlinear_arith)
            requires
                m.fuzz@ == 0,
        ;
    }
    assert(m.fuzz.spec_mul(sample.z) == zero) by {
        assert(m.fuzz@ * sample.z@ == 0) by (nonlinear_arith)
            requires
                m.fuzz@ == 0,
        ;
    }
}

} // verus!
