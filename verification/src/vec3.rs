//! Three-component vectors, used as positions, directions and linear colors.
use crate::fixed::{lemma_add_neg, lemma_mul_commutes, lemma_mul_neg, lemma_square_not_negative, Fixed};
use vstd::prelude::*;

verus! {

/// A vector of three fixed-point components.
#[derive(Clone, Copy, Debug)]
pub struct Vec3 {
    pub x: Fixed,
    pub y: Fixed,
    pub z: Fixed,
}

impl Vec3 {
    pub open spec fn spec_zero() -> Vec3 {
        Vec3 { x: Fixed::spec_zero(), y: Fixed::spec_zero(), z: Fixed::spec_zero() }
    }

    pub open spec fn spec_add(self, rhs: Vec3) -> Vec3 {
        Vec3 { x: self.x.spec_add(rhs.x), y: self.y.spec_add(rhs.y), z: self.z.spec_add(rhs.z) }
    }

    pub open spec fn spec_sub(self, rhs: Vec3) -> Vec3 {
        Vec3 { x: self.x.spec_sub(rhs.x), y: self.y.spec_sub(rhs.y), z: self.z.spec_sub(rhs.z) }
    }

    pub open spec fn spec_neg(self) -> Vec3 {
        Vec3 { x: self.x.spec_neg(), y: self.y.spec_neg(), z: self.z.spec_neg() }
    }

    /// Every component times `k`.
    pub open spec fn spec_scale(self, k: Fixed) -> Vec3 {
        Vec3 { x: k.spec_mul(self.x), y: k.spec_mul(self.y), z: k.spec_mul(self.z) }
    }

    /// Every component divided by `k`.
    pub open spec fn spec_div(self, k: Fixed) -> Vec3 {
        Vec3 { x: self.x.spec_div(k), y: self.y.spec_div(k), z: self.z.spec_div(k) }
    }

    pub open spec fn spec_mul_element_wise(self, rhs: Vec3) -> Vec3 {
        Vec3 { x: self.x.spec_mul(rhs.x), y: self.y.spec_mul(rhs.y), z: self.z.spec_mul(rhs.z) }
    }

    pub open spec fn spec_dot(self, rhs: Vec3) -> Fixed {
        self.x.spec_mul(rhs.x).spec_add(self.y.spec_mul(rhs.y)).spec_add(self.z.spec_mul(rhs.z))
    }

    pub open spec fn spec_cross(self, rhs: Vec3) -> Vec3 {
        Vec3 {
            x: self.y.spec_mul(rhs.z).spec_sub(self.z.spec_mul(rhs.y)),
            y: self.z.spec_mul(rhs.x).spec_sub(self.x.spec_mul(rhs.z)),
            z: self.x.spec_mul(rhs.y).spec_sub(self.y.spec_mul(rhs.x)),
        }
    }

    pub open spec fn spec_magnitude(self) -> Fixed {
        self.spec_dot(self).spec_sqrt()
    }

    /// The vector divided by its magnitude. Where the magnitude is zero, as
    /// it is for the zero vector and for every vector so short that its
    /// squared length rounds to zero, the result is the zero vector.
    pub open spec fn spec_normalize(self) -> Vec3 {
        if self.spec_magnitude()@ == 0 {
            Vec3::spec_zero()
        } else {
            self.spec_div(self.spec_magnitude())
        }
    }

    pub fn new(x: Fixed, y: Fixed, z: Fixed) -> (r: Vec3)
        ensures
            r == (Vec3 { x, y, z }),
    {
        Vec3 { x, y, z }
    }

    pub fn zero() -> (r: Vec3)
        ensures
            r == Vec3::spec_zero(),
    {
        Vec3 { x: Fixed::zero(), y: Fixed::zero(), z: Fixed::zero() }
    }

    pub fn add(self, rhs: Vec3) -> (r: Vec3)
        ensures
            r == self.spec_add(rhs),
    {
        Vec3 { x: self.x.add(rhs.x), y: self.y.add(rhs.y), z: self.z.add(rhs.z) }
    }

    pub fn sub(self, rhs: Vec3) -> (r: Vec3)
        ensures
            r == self.spec_sub(rhs),
    {
        Vec3 { x: self.x.sub(rhs.x), y: self.y.sub(rhs.y), z: self.z.sub(rhs.z) }
    }

    pub fn neg(self) -> (r: Vec3)
        ensures
            r == self.spec_neg(),
    {
        Vec3 { x: self.x.neg(), y: self.y.neg(), z: self.z.neg() }
    }

    pub fn scale(self, k: Fixed) -> (r: Vec3)
        ensures
            r == self.spec_scale(k),
    {
        Vec3 { x: k.mul(self.x), y: k.mul(self.y), z: k.mul(self.z) }
    }

    pub fn div(self, k: Fixed) -> (r: Vec3)
        ensures
            r == self.spec_div(k),
    {
        Vec3 { x: self.x.div(k), y: self.y.div(k), z: self.z.div(k) }
    }

    pub fn mul_element_wise(self, rhs: Vec3) -> (r: Vec3)
        ensures
            r == self.spec_mul_element_wise(rhs),
    {
        Vec3 { x: self.x.mul(rhs.x), y: self.y.mul(rhs.y), z: self.z.mul(rhs.z) }
    }

    pub fn dot(self, rhs: Vec3) -> (r: Fixed)
        ensures
            r == self.spec_dot(rhs),
    {
        self.x.mul(rhs.x).add(self.y.mul(rhs.y)).add(self.z.mul(rhs.z))
    }

    pub fn cross(self, rhs: Vec3) -> (r: Vec3)
        ensures
            r == self.spec_cross(rhs),
    {
        Vec3 {
            x: self.y.mul(rhs.z).sub(self.z.mul(rhs.y)),
            y: self.z.mul(rhs.x).sub(self.x.mul(rhs.z)),
            z: self.x.mul(rhs.y).sub(self.y.mul(rhs.x)),
        }
    }

    pub fn magnitude(self) -> (r: Fixed)
        ensures
            r == self.spec_magnitude(),
    {
        self.dot(self).sqrt()
    }

    /// Brings the vector to length one. A vector whose magnitude is zero
    /// has no direction, and becomes the zero vector.
    pub fn normalize(self) -> (r: Vec3)
        ensures
            r == self.spec_normalize(),
            self.spec_magnitude()@ == 0 ==> r == Vec3::spec_zero(),
    {
        let magnitude = self.magnitude();
        if magnitude.same(Fixed::zero()) {
            Vec3::zero()
        } else {
            self.div(magnitude)
        }
    }
}

/// The dot product does not depend on the order of its arguments.
pub proof fn lemma_dot_commutes(a: Vec3, b: Vec3)
    ensures
        a.spec_dot(b) == b.spec_dot(a),
{
    lemma_mul_commutes(a.x, b.x);
    lemma_mul_commutes(a.y, b.y);
    lemma_mul_commutes(a.z, b.z);
}

/// Negating one argument negates the dot product.
pub proof fn lemma_dot_neg(a: Vec3, b: Vec3)
    ensures
        a.spec_neg().spec_dot(b) == a.spec_dot(b).spec_neg(),
{
    lemma_mul_neg(a.x, b.x);
    lemma_mul_neg(a.y, b.y);
    lemma_mul_neg(a.z, b.z);
    let px = a.x.spec_mul(b.x);
    let py = a.y.spec_mul(b.y);
    let pz = a.z.spec_mul(b.z);
    lemma_add_neg(px, py);
    lemma_add_neg(px.spec_add(py), pz);
}

/// The dot product of a vector with itself is never negative.
pub proof fn lemma_dot_self_not_negative(a: Vec3)
    ensures
        a.spec_dot(a)@ >= 0,
{
    lemma_square_not_negative(a.x);
    lemma_square_not_negative(a.y);
    lemma_square_not_negative(a.z);
}

} // verus!
