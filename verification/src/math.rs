//! Reflection, refraction and a test for vanishing vectors.
use crate::fixed::Fixed;
use crate::vec3::Vec3;
use vstd::prelude::*;

verus! {

/// The largest size of a component that counts as zero: `10^-8`.
pub open spec fn spec_tolerance() -> Fixed {
    Fixed::spec_from_ratio(1, 100_000_000)
}

/// Whether every component of `v` is within the tolerance of zero.
pub open spec fn spec_near_zero(v: Vec3) -> bool {
    let s = spec_tolerance();
    v.x.spec_abs()@ <= s@ && v.y.spec_abs()@ <= s@ && v.z.spec_abs()@ <= s@
}

/// `v` mirrored at the plane with normal `n`: `v - 2 (v . n) n`.
pub open spec fn spec_reflect(v: Vec3, n: Vec3) -> Vec3 {
    v.spec_sub(n.spec_scale(Fixed::spec_from_int(2).spec_mul(v.spec_dot(n))))
}

/// The part of the refracted direction that lies in the surface.
pub open spec fn spec_refract_tangent(uv: Vec3, n: Vec3, etai_over_etat: Fixed) -> Vec3 {
    let cos_theta = uv.spec_neg().spec_dot(n).spec_min(Fixed::spec_one());
    uv.spec_add(n.spec_scale(cos_theta)).spec_scale(etai_over_etat)
}

/// The direction of `uv` after it crosses a surface with normal `n`, by
/// Snell's law, where `etai_over_etat` is the ratio of the refractive
/// indices.
pub open spec fn spec_refract(uv: Vec3, n: Vec3, etai_over_etat: Fixed) -> Vec3 {
    let tangent = spec_refract_tangent(uv, n, etai_over_etat);
    let depth = Fixed::spec_one().spec_sub(tangent.spec_dot(tangent)).spec_abs().spec_sqrt();
    tangent.spec_add(n.spec_scale(depth.spec_neg()))
}

pub fn near_zero(v: &Vec3) -> (b: bool)
    ensures
        b == spec_near_zero(*v),
{
    let s = Fixed::from_ratio(1, 100_000_000);
    v.x.abs().le(s) && v.y.abs().le(s) && v.z.abs().le(s)
}

pub fn reflect(v: Vec3, n: Vec3) -> (r: Vec3)
    ensures
        r == spec_reflect(v, n),
{
    v.sub(n.scale(Fixed::from_int(2).mul(v.dot(n))))
}

pub fn refract(uv: Vec3, n: Vec3, etai_over_etat: Fixed) -> (r: Vec3)
    ensures
        r == spec_refract(uv, n, etai_over_etat),
{
    let cos_theta = uv.neg().dot(n).min(Fixed::one());
    let r_out_perp = uv.add(n.scale(cos_theta)).scale(etai_over_etat);
    let r_out_parallel = n.scale(Fixed::one().sub(r_out_perp.dot(r_out_perp)).abs().sqrt().neg());
    r_out_perp.add(r_out_parallel)
}

} // verus!
