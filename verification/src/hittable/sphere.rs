//! Spheres.
use crate::fixed::{
    lemma_div_by_self, lemma_div_monotone, lemma_mul_zero, lemma_one_is_neutral,
    lemma_sqrt_not_negative, lemma_sqrt_of_exact_square, lemma_square_is_exact, Fixed, MAX_RAW,
};
use crate::hittable::{HitRecord, Hittable};
use crate::interval::Interval;
use crate::material::Surface;
use crate::ray::Ray;
use crate::vec3::{lemma_dot_self_not_negative, Vec3};
use vstd::prelude::*;

verus! {

/// A sphere. A negative radius leaves the surface where it is and turns
/// the outward normal around, which makes a hollow sphere.
#[derive(Clone, Copy, Debug)]
pub struct Sphere {
    pub center: Vec3,
    pub radius: Fixed,
    pub material: Surface,
}

impl Sphere {
    /// A quarter of the discriminant of the equation
    /// `|origin + t direction - center|^2 = radius^2` in `t`.
    pub open spec fn spec_discriminant(self, r: Ray) -> Fixed {
        let oc = r.origin.spec_sub(self.center);
        let a = r.direction.spec_dot(r.direction);
        let half_b = oc.spec_dot(r.direction);
        let c = oc.spec_dot(oc).spec_sub(self.radius.spec_mul(self.radius));
        half_b.spec_mul(half_b).spec_sub(a.spec_mul(c))
    }

    /// The smaller solution of that equation: `(-half_b - sqrt(disc)) / a`.
    pub open spec fn spec_near_root(self, r: Ray) -> Fixed {
        let oc = r.origin.spec_sub(self.center);
        let a = r.direction.spec_dot(r.direction);
        let half_b = oc.spec_dot(r.direction);
        half_b.spec_neg().spec_sub(self.spec_discriminant(r).spec_sqrt()).spec_div(a)
    }

    /// The larger solution of that equation: `(-half_b + sqrt(disc)) / a`.
    pub open spec fn spec_far_root(self, r: Ray) -> Fixed {
        let oc = r.origin.spec_sub(self.center);
        let a = r.direction.spec_dot(r.direction);
        let half_b = oc.spec_dot(r.direction);
        half_b.spec_neg().spec_add(self.spec_discriminant(r).spec_sqrt()).spec_div(a)
    }

    /// The normal that points away from the center at the point `p` of the
    /// surface, turned around where the radius is negative.
    pub open spec fn spec_outward_normal(self, p: Vec3) -> Vec3 {
        p.spec_sub(self.center).spec_div(self.radius)
    }

    /// The record of the hit of `r` at parameter `t`.
    pub open spec fn spec_record(self, r: Ray, t: Fixed) -> HitRecord {
        let p = r.spec_at(t);
        (HitRecord { t, p, mat: self.material, front_face: false, normal: Vec3::spec_zero() })
            .spec_with_face_normal(r, self.spec_outward_normal(p))
    }
}

impl Hittable for Sphere {
    /// The hit at the smaller solution where `ray_t` surrounds it, else at
    /// the larger one where `ray_t` surrounds that, else none; none where
    /// the equation has no solution.
    open spec fn spec_hit(&self, r: Ray, ray_t: Interval) -> Option<HitRecord> {
        if self.spec_discriminant(r)@ < 0 {
            None
        } else if ray_t.spec_surrounds(self.spec_near_root(r)) {
            Some(self.spec_record(r, self.spec_near_root(r)))
        } else if ray_t.spec_surrounds(self.spec_far_root(r)) {
            Some(self.spec_record(r, self.spec_far_root(r)))
        } else {
            None
        }
    }

    fn hit(&self, r: &Ray, ray_t: Interval) -> (out: Option<HitRecord>)
        ensures
            out matches Some(rec) ==> rec.p == r.spec_at(rec.t),
    {
        let oc = r.origin.sub(self.center);
        let a = r.direction.dot(r.direction);
        let half_b = oc.dot(r.direction);
        let c = oc.dot(oc).sub(self.radius.mul(self.radius));

        let discriminant = half_b.mul(half_b).sub(a.mul(c));
        if discriminant.lt(Fixed::zero()) {
            return None;
        }
        let sqrtd = discriminant.sqrt();

        let mut root = half_b.neg().sub(sqrtd).div(a);
        if !ray_t.surrounds(root) {
            root = half_b.neg().add(sqrtd).div(a);
            if !ray_t.surrounds(root) {
                return None;
            }
        }
        let mut rec = HitRecord {
            t: root,
            p: r.at(root),
            mat: self.material,
            front_face: false,
            normal: Vec3::zero(),
        };
        let outward_normal = rec.p.sub(self.center).div(self.radius);
        rec.set_face_normal(r, outward_normal);
        Some(rec)
    }

    proof fn lemma_hit_in_shorter_interval(&self, r: Ray, ray_t: Interval, end: Fixed) {
        lemma_roots_ordered(*self, r);
    }
}

/// The smaller solution is at most the larger one.
pub proof fn lemma_roots_ordered(s: Sphere, r: Ray)
    ensures
        s.spec_near_root(r)@ <= s.spec_far_root(r)@,
{
    let oc = r.origin.spec_sub(s.center);
    let a = r.direction.spec_dot(r.direction);
    let half_b = oc.spec_dot(r.direction);
    let sqrtd = s.spec_discriminant(r).spec_sqrt();
    lemma_dot_self_not_negative(r.direction);
    lemma_sqrt_not_negative(s.spec_discriminant(r));
    lemma_div_monotone(half_b.spec_neg().spec_sub(sqrtd), half_b.spec_neg().spec_add(sqrtd), a);
}

/// The parameter of a hit lies strictly inside the interval that was
/// searched.
pub proof fn lemma_hit_is_surrounded(s: Sphere, r: Ray, ray_t: Interval)
    ensures
        s.spec_hit(r, ray_t) matches Some(rec) ==> ray_t.spec_surrounds(rec.t),
{
}

/// A ray along the z axis that starts two radii before the center of a
/// sphere meets the sphere one radius on, from outside, with the normal
/// straight against it. This holds where the radius is a whole multiple
/// `m` of `2^-16` whose square can be held, so that the square of the radius
/// is exact; for other radii the hit lies a little further on.
pub proof fn lemma_ray_through_center_hits_at_radius(s: Sphere, r: Ray, ray_t: Interval, m: int)
    requires
        m > 0,
        s.radius@ == m * 0x1_0000,
        m * m <= MAX_RAW,
        s.center == Vec3::spec_zero(),
        r.origin == (Vec3 {
            x: Fixed::spec_zero(),
            y: Fixed::spec_zero(),
            z: Fixed::from_value(-2 * s.radius@),
        }),
        r.direction == (Vec3 { x: Fixed::spec_zero(), y: Fixed::spec_zero(), z: Fixed::spec_one() }),
        ray_t.spec_surrounds(s.radius),
    ensures
        s.spec_hit(r, ray_t) == Some(
            HitRecord {
                t: s.radius,
                p: Vec3 { x: Fixed::spec_zero(), y: Fixed::spec_zero(), z: s.radius.spec_neg() },
                normal: Vec3 {
                    x: Fixed::spec_zero(),
                    y: Fixed::spec_zero(),
                    z: Fixed::spec_one().spec_neg(),
                },
                mat: s.material,
                front_face: true,
            },
        ),
{
    let zero = Fixed::spec_zero();
    let one = Fixed::spec_one();
    let radius = s.radius;
    assert(m <= 0x1_0000_0000) by (nonlinear_arith)
        requires
            m > 0,
            m * m <= 0x7fff_ffff_ffff_ffff,
    ;
    assert(radius == Fixed::from_value(radius@));
    let far_z = Fixed::from_value(-2 * radius@);
    assert(far_z@ == -((2 * m) * 0x1_0000));

    // The terms of the equation.
    lemma_mul_zero(zero);
    lemma_mul_zero(far_z);
    lemma_one_is_neutral(one);
    lemma_one_is_neutral(far_z);
    let oc = r.origin.spec_sub(s.center);
    assert(oc == r.origin);
    let a = r.direction.spec_dot(r.direction);
    assert(a == one);
    let half_b = oc.spec_dot(r.direction);
    assert(half_b == far_z);
    lemma_square_is_exact(far_z, 2 * m);
    lemma_square_is_exact(radius, m);
    let wide = far_z.spec_mul(far_z);
    assert((2 * m) * (2 * m) == 4 * (m * m)) by (nonlinear_arith);
    assert(wide == Fixed::from_value(4 * (m * m)));
    assert(oc.spec_dot(oc) == wide);
    let c = oc.spec_dot(oc).spec_sub(radius.spec_mul(radius));
    assert(c@ == wide@ - m * m);
    lemma_one_is_neutral(c);
    assert(a.spec_mul(c) == c);
    let disc = s.spec_discriminant(r);
    assert(disc@ == m * m);
    lemma_sqrt_of_exact_square(disc, m);
    assert(disc.spec_sqrt() == radius);
    let near_top = half_b.spec_neg().spec_sub(radius);
    assert(near_top == radius);
    lemma_one_is_neutral(near_top);
    assert(s.spec_near_root(r) == radius);

    // The record of the hit.
    lemma_mul_zero(radius);
    lemma_one_is_neutral(radius);
    let p = r.spec_at(radius);
    assert(p == (Vec3 { x: zero, y: zero, z: radius.spec_neg() }));
    lemma_div_by_self(radius);
    let outward = s.spec_outward_normal(p);
    assert(p.spec_sub(s.center) == p);
    assert(outward == (Vec3 { x: zero, y: zero, z: one.spec_neg() }));
    lemma_one_is_neutral(one.spec_neg());
    assert(r.direction.spec_dot(outward) == one.spec_neg());
}

} // verus!
