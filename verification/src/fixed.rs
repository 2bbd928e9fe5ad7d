//! Saturating fixed-point scalars.
//!
//! A [`Fixed`] stands for the real number `raw / 2^32`. Every operation is
//! total: a result that leaves the representable range is held at the nearest
//! bound, and a quotient or product that is not representable exactly is
//! rounded toward zero. The range is symmetric, so negation is exact.
use vstd::prelude::*;

verus! {

/// The raw value of the number one.
pub const ONE_RAW: i64 = 0x1_0000_0000;

/// The largest raw value. The smallest is its negation.
pub const MAX_RAW: i64 = 0x7fff_ffff_ffff_ffff;

/// `v` held inside the symmetric raw range.
pub open spec fn saturate(v: int) -> int {
    if v > MAX_RAW {
        MAX_RAW as int
    } else if v < -MAX_RAW {
        -(MAX_RAW as int)
    } else {
        v
    }
}

/// The quotient of `a` by `b`, rounded toward zero. Meant for `b != 0`.
pub open spec fn trunc_div(a: int, b: int) -> int {
    if a >= 0 {
        if b > 0 {
            a / b
        } else {
            -(a / (-b))
        }
    } else {
        if b > 0 {
            -((-a) / b)
        } else {
            (-a) / (-b)
        }
    }
}

/// `v` times `2^32`: the raw value of the whole number `v`.
pub open spec fn scale_up(v: int) -> int {
    v * 0x1_0000_0000
}

/// Whether `r` is the integer square root of `n`, rounded down.
pub open spec fn is_floor_sqrt(n: int, r: int) -> bool {
    r >= 0 && r * r <= n && n < (r + 1) * (r + 1)
}

/// The integer square root of `n`, rounded down. Meant for `n >= 0`.
pub open spec fn floor_sqrt(n: int) -> int {
    choose|r: int| is_floor_sqrt(n, r)
}

/// A non-negative integer has exactly one rounded-down square root.
pub proof fn lemma_floor_sqrt_unique(n: int, r: int)
    requires
        is_floor_sqrt(n, r),
    ensures
        floor_sqrt(n) == r,
{
    let s = floor_sqrt(n);
    assert(is_floor_sqrt(n, s));
    if s < r {
        assert((s + 1) * (s + 1) <= r * r) by (nonlinear_arith)
            requires
                0 <= s + 1 <= r,
        ;
    }
    if r < s {
        assert((r + 1) * (r + 1) <= s * s) by (nonlinear_arith)
            requires
                0 <= r + 1 <= s,
        ;
    }
}

/// A fixed-point number with 32 fractional bits.
#[derive(Clone, Copy, Debug)]
pub struct Fixed {
    /// The number times `2^32`. The one bit pattern below the symmetric
    /// range reads as the lowest value of the range.
    pub raw: i64,
}

impl View for Fixed {
    type V = int;

    /// The number times `2^32`, as a mathematical integer.
    open spec fn view(&self) -> int {
        saturate(self.raw as int)
    }
}

proof fn lemma_mul_bounded(a: int, b: int, x: int, y: int)
    by (nonlinear_arith)
    requires
        0 <= a <= x,
        0 <= b <= y,
    ensures
        0 <= a * b <= x * y,
{
}

proof fn lemma_mul_signs(a: int, b: int)
    by (nonlinear_arith)
    ensures
        (-a) * b == -(a * b),
        a * (-b) == -(a * b),
        (-a) * (-b) == a * b,
{
}

proof fn lemma_div_bounded(a: int, b: int)
    by (nonlinear_arith)
    requires
        0 <= a,
        0 < b,
    ensures
        0 <= a / b <= a,
{
}

impl Fixed {
    /// The number whose raw value is `v`, held inside the range.
    pub open spec fn from_value(v: int) -> Fixed {
        Fixed { raw: saturate(v) as i64 }
    }

    pub open spec fn spec_zero() -> Fixed {
        Fixed { raw: 0 }
    }

    pub open spec fn spec_one() -> Fixed {
        Fixed { raw: ONE_RAW }
    }

    pub open spec fn spec_highest() -> Fixed {
        Fixed { raw: MAX_RAW }
    }

    pub open spec fn spec_lowest() -> Fixed {
        Fixed { raw: (-MAX_RAW) as i64 }
    }

    pub open spec fn spec_from_int(n: int) -> Fixed {
        Fixed::from_value(scale_up(n))
    }

    /// `num / den`, rounded toward zero; an unbounded value of the sign of
    /// `num` where `den` is zero.
    pub open spec fn spec_from_ratio(num: int, den: int) -> Fixed {
        if den == 0 {
            Fixed::from_value(num * MAX_RAW)
        } else {
            Fixed::from_value(trunc_div(scale_up(num), den))
        }
    }

    pub open spec fn spec_add(self, rhs: Fixed) -> Fixed {
        Fixed::from_value(self@ + rhs@)
    }

    pub open spec fn spec_sub(self, rhs: Fixed) -> Fixed {
        Fixed::from_value(self@ - rhs@)
    }

    pub open spec fn spec_neg(self) -> Fixed {
        Fixed::from_value(-self@)
    }

    pub open spec fn spec_abs(self) -> Fixed {
        Fixed::from_value(if self@ < 0 { -self@ } else { self@ })
    }

    pub open spec fn spec_mul(self, rhs: Fixed) -> Fixed {
        Fixed::from_value(trunc_div(self@ * rhs@, 0x1_0000_0000))
    }

    pub open spec fn spec_div(self, rhs: Fixed) -> Fixed {
        Fixed::spec_from_ratio(self@, rhs@)
    }

    pub open spec fn spec_min(self, rhs: Fixed) -> Fixed {
        Fixed::from_value(if self@ <= rhs@ { self@ } else { rhs@ })
    }

    pub open spec fn spec_max(self, rhs: Fixed) -> Fixed {
        Fixed::from_value(if self@ >= rhs@ { self@ } else { rhs@ })
    }

    /// The square root, rounded down; zero for a number that is not positive.
    pub open spec fn spec_sqrt(self) -> Fixed {
        if self@ <= 0 {
            Fixed::spec_zero()
        } else {
            Fixed::from_value(floor_sqrt(scale_up(self@)))
        }
    }

    /// The product of `n` factors `self`, multiplied from the left.
    pub open spec fn spec_powi(self, n: nat) -> Fixed
        decreases n,
    {
        if n == 0 {
            Fixed::spec_one()
        } else {
            self.spec_powi((n - 1) as nat).spec_mul(self)
        }
    }

    /// The whole part of the number, rounded toward zero.
    pub open spec fn spec_to_int(self) -> int {
        trunc_div(self@, 0x1_0000_0000)
    }

    /// The number with the given raw value.
    pub fn from_raw(raw: i64) -> (r: Fixed)
        ensures
            r == Fixed::from_value(raw as int),
    {
        if raw < -MAX_RAW {
            Fixed { raw: -MAX_RAW }
        } else {
            Fixed { raw }
        }
    }

    /// The raw value, inside the symmetric range.
    pub fn value(self) -> (v: i64)
        ensures
            v == self@,
    {
        if self.raw < -MAX_RAW {
            -MAX_RAW
        } else {
            self.raw
        }
    }

    pub fn zero() -> (r: Fixed)
        ensures
            r == Fixed::spec_zero(),
    {
        Fixed { raw: 0 }
    }

    pub fn one() -> (r: Fixed)
        ensures
            r == Fixed::spec_one(),
    {
        Fixed { raw: ONE_RAW }
    }

    /// The highest number, which stands in for positive infinity.
    pub fn highest() -> (r: Fixed)
        ensures
            r == Fixed::spec_highest(),
    {
        Fixed { raw: MAX_RAW }
    }

    /// The lowest number, which stands in for negative infinity.
    pub fn lowest() -> (r: Fixed)
        ensures
            r == Fixed::spec_lowest(),
    {
        Fixed { raw: -MAX_RAW }
    }

    /// The whole number `n`.
    pub fn from_int(n: i64) -> (r: Fixed)
        ensures
            r == Fixed::spec_from_int(n as int),
    {
        let wide: i128 = (n as i128) * 0x1_0000_0000;
        Fixed::hold(wide)
    }

    /// The fraction `num / den`.
    pub fn from_ratio(num: i64, den: i64) -> (r: Fixed)
        ensures
            r == Fixed::spec_from_ratio(num as int, den as int),
    {
        if den == 0 {
            let wide: i128 = if num > 0 {
                MAX_RAW as i128
            } else if num < 0 {
                -(MAX_RAW as i128)
            } else {
                0
            };
            proof {
                if num > 0 {
                    assert(num * MAX_RAW >= MAX_RAW) by (nonlinear_arith)
                        requires
                            num >= 1,
                    ;
                } else if num < 0 {
                    assert(num * MAX_RAW <= -MAX_RAW) by (nonlinear_arith)
                        requires
                            num <= -1,
                    ;
                }
            }
            Fixed::hold(wide)
        } else {
            let scaled: i128 = (num as i128) * 0x1_0000_0000;
            Fixed::hold(Fixed::quotient(scaled, den as i128))
        }
    }

    fn hold(v: i128) -> (r: Fixed)
        ensures
            r == Fixed::from_value(v as int),
    {
        if v > MAX_RAW as i128 {
            Fixed { raw: MAX_RAW }
        } else if v < -(MAX_RAW as i128) {
            Fixed { raw: -MAX_RAW }
        } else {
            Fixed { raw: v as i64 }
        }
    }

    fn quotient(a: i128, b: i128) -> (q: i128)
        requires
            b != 0,
            i128::MIN < a,
            i128::MIN < b,
        ensures
            q == trunc_div(a as int, b as int),
    {
        if a >= 0 {
            if b > 0 {
                a / b
            } else {
                proof {
                    lemma_div_bounded(a as int, -b as int);
                }
                -(a / (-b))
            }
        } else {
            if b > 0 {
                proof {
                    lemma_div_bounded(-a as int, b as int);
                }
                -((-a) / b)
            } else {
                proof {
                    lemma_div_bounded(-a as int, -b as int);
                }
                (-a) / (-b)
            }
        }
    }

    /// The whole part of the number, rounded toward zero.
    pub fn to_int(self) -> (n: i64)
        ensures
            n == self.spec_to_int(),
    {
        let q: i128 = Fixed::quotient(self.value() as i128, 0x1_0000_0000);
        q as i64
    }

    pub fn add(self, rhs: Fixed) -> (r: Fixed)
        ensures
            r == self.spec_add(rhs),
    {
        Fixed::hold(self.value() as i128 + rhs.value() as i128)
    }

    pub fn sub(self, rhs: Fixed) -> (r: Fixed)
        ensures
            r == self.spec_sub(rhs),
    {
        Fixed::hold(self.value() as i128 - rhs.value() as i128)
    }

    pub fn neg(self) -> (r: Fixed)
        ensures
            r == self.spec_neg(),
    {
        Fixed { raw: -self.value() }
    }

    pub fn abs(self) -> (r: Fixed)
        ensures
            r == self.spec_abs(),
    {
        let v: i64 = self.value();
        if v < 0 {
            Fixed { raw: -v }
        } else {
            Fixed { raw: v }
        }
    }

    pub fn mul(self, rhs: Fixed) -> (r: Fixed)
        ensures
            r == self.spec_mul(rhs),
    {
        let a: i128 = self.value() as i128;
        let b: i128 = rhs.value() as i128;
        proof {
            let m = MAX_RAW as int;
            let ma: int = if a < 0 { -a } else { a as int };
            let mb: int = if b < 0 { -b } else { b as int };
            lemma_mul_bounded(ma, mb, m, m);
            lemma_mul_signs(ma, mb);
            assert(m * m == 0x3fff_ffff_ffff_ffff_0000_0000_0000_0001) by (nonlinear_arith)
                requires
                    m == 0x7fff_ffff_ffff_ffff,
            ;
        }
        let product: i128 = a * b;
        Fixed::hold(Fixed::quotient(product, 0x1_0000_0000))
    }

    pub fn div(self, rhs: Fixed) -> (r: Fixed)
        ensures
            r == self.spec_div(rhs),
    {
        Fixed::from_ratio(self.value(), rhs.value())
    }

    pub fn min(self, rhs: Fixed) -> (r: Fixed)
        ensures
            r == self.spec_min(rhs),
    {
        let a: i64 = self.value();
        let b: i64 = rhs.value();
        if a <= b {
            Fixed { raw: a }
        } else {
            Fixed { raw: b }
        }
    }

    pub fn max(self, rhs: Fixed) -> (r: Fixed)
        ensures
            r == self.spec_max(rhs),
    {
        let a: i64 = self.value();
        let b: i64 = rhs.value();
        if a >= b {
            Fixed { raw: a }
        } else {
            Fixed { raw: b }
        }
    }

    /// Whether `self` is strictly below `rhs`.
    pub fn lt(self, rhs: Fixed) -> (b: bool)
        ensures
            b == (self@ < rhs@),
    {
        self.value() < rhs.value()
    }

    /// Whether `self` is at most `rhs`.
    pub fn le(self, rhs: Fixed) -> (b: bool)
        ensures
            b == (self@ <= rhs@),
    {
        self.value() <= rhs.value()
    }

    /// Whether `self` is strictly above `rhs`.
    pub fn gt(self, rhs: Fixed) -> (b: bool)
        ensures
            b == (self@ > rhs@),
    {
        self.value() > rhs.value()
    }

    /// Whether both stand for the same number.
    pub fn same(self, rhs: Fixed) -> (b: bool)
        ensures
            b == (self@ == rhs@),
    {
        self.value() == rhs.value()
    }

    pub fn powi(self, n: u32) -> (r: Fixed)
        ensures
            r == self.spec_powi(n as nat),
    {
        let mut r = Fixed::one();
        let mut i: u32 = 0;
        while i < n
            invariant
                i <= n,
                r == self.spec_powi(i as nat),
            decreases n - i,
        {
            r = r.mul(self);
            i = i + 1;
        }
        r
    }

    pub fn sqrt(self) -> (r: Fixed)
        ensures
            r == self.spec_sqrt(),
    {
        let v: i64 = self.value();
        if v <= 0 {
            return Fixed::zero();
        }
        let n: u128 = (v as u128) * 0x1_0000_0000;
        let mut lo: u128 = 0;
        let mut hi: u128 = 0x1_0000_0000_0000;
        assert(hi * hi == 0x1_0000_0000_0000_0000_0000_0000) by (nonlinear_arith)
            requires
                hi == 0x1_0000_0000_0000,
        ;
        while hi - lo > 1
            invariant
                lo < hi <= 0x1_0000_0000_0000,
                lo * lo <= n < hi * hi,
            decreases hi - lo,
        {
            let mid: u128 = lo + (hi - lo) / 2;
            proof {
                lemma_mul_bounded(mid as int, mid as int, 0x1_0000_0000_0000, 0x1_0000_0000_0000);
                assert(0x1_0000_0000_0000int * 0x1_0000_0000_0000int
                    == 0x1_0000_0000_0000_0000_0000_0000) by (nonlinear_arith);
            }
            if mid * mid <= n {
                lo = mid;
            } else {
                hi = mid;
            }
        }
        proof {
            assert(hi == lo + 1);
            lemma_floor_sqrt_unique(n as int, lo as int);
        }
        Fixed { raw: lo as i64 }
    }
}

/// Every integer that is not negative has a rounded-down square root.
pub proof fn lemma_floor_sqrt_exists(n: int)
    requires
        n >= 0,
    ensures
        is_floor_sqrt(n, floor_sqrt(n)),
    decreases n,
{
    if n == 0 {
        assert(is_floor_sqrt(0, 0));
    } else {
        lemma_floor_sqrt_exists(n - 1);
        let r = floor_sqrt(n - 1);
        assert((r + 2) * (r + 2) > (r + 1) * (r + 1)) by (nonlinear_arith)
            requires
                r >= 0,
        ;
        if n < (r + 1) * (r + 1) {
            assert(is_floor_sqrt(n, r));
        } else {
            assert(is_floor_sqrt(n, r + 1));
        }
    }
}

/// A square root is never negative.
pub proof fn lemma_sqrt_not_negative(a: Fixed)
    ensures
        a.spec_sqrt()@ >= 0,
{
    if a@ > 0 {
        lemma_floor_sqrt_exists(scale_up(a@));
    }
}

/// A quotient does not fall when its numerator rises, as long as the
/// denominator is not negative.
pub proof fn lemma_div_monotone(x: Fixed, y: Fixed, d: Fixed)
    requires
        x@ <= y@,
        d@ >= 0,
    ensures
        x.spec_div(d)@ <= y.spec_div(d)@,
{
    if d@ == 0 {
        assert(x@ * MAX_RAW <= y@ * MAX_RAW) by (nonlinear_arith)
            requires
                x@ <= y@,
                MAX_RAW > 0,
        ;
    } else {
        let a = scale_up(x@);
        let b = scale_up(y@);
        if a >= 0 {
            vstd::arithmetic::div_mod::lemma_div_is_ordered(a, b, d@);
        } else if b >= 0 {
            lemma_div_bounded(-a, d@);
            lemma_div_bounded(b, d@);
        } else {
            vstd::arithmetic::div_mod::lemma_div_is_ordered(-b, -a, d@);
        }
    }
}

/// Multiplication does not depend on the order of its factors.
pub proof fn lemma_mul_commutes(a: Fixed, b: Fixed)
    ensures
        a.spec_mul(b) == b.spec_mul(a),
{
    assert(a@ * b@ == b@ * a@) by (nonlinear_arith);
}

/// Negating one factor negates the product.
pub proof fn lemma_mul_neg(a: Fixed, b: Fixed)
    ensures
        a.spec_neg().spec_mul(b) == a.spec_mul(b).spec_neg(),
{
    lemma_mul_signs(a@, b@);
    let p = a@ * b@;
    assert(a.spec_neg()@ == -a@);
    assert(trunc_div(-p, 0x1_0000_0000) == -trunc_div(p, 0x1_0000_0000));
}

/// The sum of two negations is the negation of the sum.
pub proof fn lemma_add_neg(a: Fixed, b: Fixed)
    ensures
        a.spec_neg().spec_add(b.spec_neg()) == a.spec_add(b).spec_neg(),
{
}

/// To multiply by one, or to divide by it, is to change nothing.
pub proof fn lemma_one_is_neutral(a: Fixed)
    ensures
        a.spec_mul(Fixed::spec_one()) == Fixed::from_value(a@),
        Fixed::spec_one().spec_mul(a) == Fixed::from_value(a@),
        a.spec_div(Fixed::spec_one()) == Fixed::from_value(a@),
{
    let one = Fixed::spec_one();
    assert(one@ == 0x1_0000_0000);
    assert(one@ * a@ == a@ * one@) by (nonlinear_arith);
    assert(a@ * one@ == a@ * 0x1_0000_0000) by (nonlinear_arith)
        requires
            one@ == 0x1_0000_0000,
    ;
    assert(scale_up(a@) == a@ * 0x1_0000_0000);
}

/// A number that is not zero, divided by itself, is one; its negation
/// divided by it is minus one.
pub proof fn lemma_div_by_self(a: Fixed)
    requires
        a@ > 0,
    ensures
        a.spec_div(a) == Fixed::spec_one(),
        a.spec_neg().spec_div(a) == Fixed::spec_one().spec_neg(),
        Fixed::spec_zero().spec_div(a) == Fixed::spec_zero(),
{
    assert(scale_up(a@) / a@ == 0x1_0000_0000) by (nonlinear_arith)
        requires
            a@ > 0,
            scale_up(a@) == a@ * 0x1_0000_0000,
    ;
    assert(scale_up(-a@) == -scale_up(a@));
    assert(0int / a@ == 0) by (nonlinear_arith)
        requires
            a@ > 0,
    ;
}

/// The square of a whole multiple of `2^-16` is exact, as long as it can
/// be held: it is the square of the multiple, in units of `2^-32`.
pub proof fn lemma_square_is_exact(a: Fixed, m: int)
    requires
        a@ == m * 0x1_0000 || a@ == -(m * 0x1_0000),
    ensures
        a.spec_mul(a) == Fixed::from_value(m * m),
{
    assert(a@ * a@ == (m * m) * 0x1_0000_0000) by (nonlinear_arith)
        requires
            a@ == m * 0x1_0000 || a@ == -(m * 0x1_0000),
    ;
    assert(m * m >= 0) by (nonlinear_arith);
    assert(((m * m) * 0x1_0000_0000) / 0x1_0000_0000 == m * m);
}

/// The square root of such a square is the number that was squared.
pub proof fn lemma_sqrt_of_exact_square(x: Fixed, m: int)
    requires
        m >= 0,
        x@ == m * m,
        m * 0x1_0000 <= MAX_RAW,
    ensures
        x.spec_sqrt() == Fixed::from_value(m * 0x1_0000),
{
    if m == 0 {
        assert(m * m == 0) by (nonlinear_arith)
            requires
                m == 0,
        ;
    } else {
        assert(m * m > 0) by (nonlinear_arith)
            requires
                m > 0,
        ;
        let r = m * 0x1_0000;
        let n = scale_up(x@);
        assert(r * r == n && n < (r + 1) * (r + 1)) by (nonlinear_arith)
            requires
                r == m * 0x1_0000,
                n == (m * m) * 0x1_0000_0000,
                m > 0,
        ;
        lemma_floor_sqrt_unique(n, r);
    }
}

/// A product with zero is zero.
pub proof fn lemma_mul_zero(a: Fixed)
    ensures
        a.spec_mul(Fixed::spec_zero()) == Fixed::spec_zero(),
        Fixed::spec_zero().spec_mul(a) == Fixed::spec_zero(),
{
    assert(a@ * 0 == 0 && 0 * a@ == 0) by (nonlinear_arith);
}

/// A square is never negative.
pub proof fn lemma_square_not_negative(a: Fixed)
    ensures
        a.spec_mul(a)@ >= 0,
{
    assert(a@ * a@ >= 0) by (nonlinear_arith);
}

} // verus!
