//! Random samples: numbers, vectors, and points of the unit ball and disk.
//!
//! All of them are drawn from a [`Sampler`], a seeded generator, so that a
//! render can be repeated.
use crate::fixed::Fixed;
use crate::vec3::{lemma_dot_neg, Vec3};
use vstd::prelude::*;

pub mod sampler;

pub use crate::random::sampler::{
    drew_words, lemma_drew_words_twice, lemma_words_stay, Sampler, SamplerView,
};

verus! {

/// How many points outside the unit ball or disk are drawn before the
/// center is taken instead.
pub const MAX_REJECTIONS: u32 = 64;

impl SamplerView {
    /// What may be known of the sampler once points have been tried until
    /// one was taken, at `words` words a point: at least one point was
    /// tried, and at most `MAX_REJECTIONS`.
    pub open spec fn after_tries(self, words: nat, then: SamplerView) -> bool {
        exists|tries: nat|
            1 <= tries <= MAX_REJECTIONS && then == #[trigger] self.after(tries * words)
    }
}

/// Whether `u` lies in `[0, 1)`.
pub open spec fn is_unit_draw(u: Fixed) -> bool {
    0 <= u@ < 0x1_0000_0000
}

/// The point between `min` and `max` that `u` picks: `min + (max - min) u`.
pub open spec fn spec_spread(min: Fixed, max: Fixed, u: Fixed) -> Fixed {
    min.spec_add(max.spec_sub(min).spec_mul(u))
}

/// Whether `r` is a point between `min` and `max` that some number of
/// `[0, 1)` picks.
pub open spec fn is_spread_draw(r: Fixed, min: Fixed, max: Fixed) -> bool {
    exists|u: Fixed| is_unit_draw(u) && r == #[trigger] spec_spread(min, max, u)
}

/// Whether every component of `p` is a point between `min` and `max` that
/// some number of `[0, 1)` picks.
pub open spec fn is_box_draw(p: Vec3, min: Fixed, max: Fixed) -> bool {
    is_spread_draw(p.x, min, max) && is_spread_draw(p.y, min, max) && is_spread_draw(p.z, min, max)
}

/// Whether `p` lies strictly inside the unit ball.
pub open spec fn in_unit_sphere(p: Vec3) -> bool {
    p.spec_dot(p)@ < 0x1_0000_0000
}

/// Whether `u` is a point strictly inside the unit ball, normalized: it
/// is brought to length one, up to rounding, or it is the zero vector where
/// the point lies so near the center that its magnitude rounds to zero.
pub open spec fn is_unit_sample(u: Vec3) -> bool {
    exists|p: Vec3| in_unit_sphere(p) && u == #[trigger] p.spec_normalize()
}

/// `u`, turned around where it points away from `normal`.
pub open spec fn spec_toward(u: Vec3, normal: Vec3) -> Vec3 {
    if u.spec_dot(normal)@ > 0 {
        u
    } else {
        u.spec_neg()
    }
}

/// The number in `[0, 1)` whose fractional bits are `word`.
pub open spec fn spec_unit(word: u32) -> Fixed {
    Fixed { raw: word as i64 }
}

/// The vector whose components are the points between `min` and `max` that
/// the three words pick.
pub open spec fn spec_box_point(min: Fixed, max: Fixed, a: u32, b: u32, c: u32) -> Vec3 {
    Vec3 {
        x: spec_spread(min, max, spec_unit(a)),
        y: spec_spread(min, max, spec_unit(b)),
        z: spec_spread(min, max, spec_unit(c)),
    }
}

/// The point of the cube around the unit ball that the three words pick.
pub open spec fn spec_ball_point(a: u32, b: u32, c: u32) -> Vec3 {
    spec_box_point(Fixed::spec_one().spec_neg(), Fixed::spec_one(), a, b, c)
}

/// The point of the square around the unit disk that the two words pick.
pub open spec fn spec_disk_point(a: u32, b: u32) -> Vec3 {
    Vec3 {
        x: spec_spread(Fixed::spec_one().spec_neg(), Fixed::spec_one(), spec_unit(a)),
        y: spec_spread(Fixed::spec_one().spec_neg(), Fixed::spec_one(), spec_unit(b)),
        z: Fixed::spec_zero(),
    }
}

/// The point of the cube that is tried as number `k`, counted from zero,
/// where the words of the tries begin at `start` in `words`.
pub open spec fn ball_try(words: Seq<u32>, start: int, k: int) -> Vec3 {
    spec_ball_point(words[start + 3 * k], words[start + 3 * k + 1], words[start + 3 * k + 2])
}

/// The point of the square that is tried as number `k`, counted from zero,
/// where the words of the tries begin at `start` in `words`.
pub open spec fn disk_try(words: Seq<u32>, start: int, k: int) -> Vec3 {
    spec_disk_point(words[start + 2 * k], words[start + 2 * k + 1])
}

/// Whether the search of the unit ball that tries the points from `start`
/// on in `words` ends with its point number `tries`, and gives `p`: every
/// point before that one lies outside, and `p` is that point where it lies
/// inside. Where it does not, `MAX_REJECTIONS` points have been tried, and
/// `p` is the center.
pub open spec fn ball_search_gives(words: Seq<u32>, start: int, tries: int, p: Vec3) -> bool {
    &&& forall|k: int| 0 <= k < tries - 1 ==> !in_unit_sphere(#[trigger] ball_try(words, start, k))
    &&& if in_unit_sphere(ball_try(words, start, tries - 1)) {
        p == ball_try(words, start, tries - 1)
    } else {
        tries == MAX_REJECTIONS && p == Vec3::spec_zero()
    }
}

/// Whether the search of the unit disk that tries the points from `start`
/// on in `words` ends with its point number `tries`, and gives `p`: every
/// point before that one lies outside, and `p` is that point where it lies
/// inside. Where it does not, `MAX_REJECTIONS` points have been tried, and
/// `p` is the center.
pub open spec fn disk_search_gives(words: Seq<u32>, start: int, tries: int, p: Vec3) -> bool {
    &&& forall|k: int| 0 <= k < tries - 1 ==> !in_unit_sphere(#[trigger] disk_try(words, start, k))
    &&& if in_unit_sphere(disk_try(words, start, tries - 1)) {
        p == disk_try(words, start, tries - 1)
    } else {
        tries == MAX_REJECTIONS && p == Vec3::spec_zero()
    }
}

/// Whether `p` is what the search of the unit ball gives that has tried
/// `tries` points, whose words begin at `start` and end where `words` ends.
pub open spec fn is_first_in_ball(words: Seq<u32>, start: int, tries: int, p: Vec3) -> bool {
    &&& 1 <= tries <= MAX_REJECTIONS
    &&& words.len() == start + 3 * tries
    &&& ball_search_gives(words, start, tries, p)
}

/// Whether `p` is what the search of the unit disk gives that has tried
/// `tries` points, whose words begin at `start` and end where `words` ends.
pub open spec fn is_first_in_disk(words: Seq<u32>, start: int, tries: int, p: Vec3) -> bool {
    &&& 1 <= tries <= MAX_REJECTIONS
    &&& words.len() == start + 2 * tries
    &&& disk_search_gives(words, start, tries, p)
}

/// The number in `[0, 1)` whose fractional bits are `bits`.
pub fn unit_from_bits(bits: u32) -> (r: Fixed)
    ensures
        r == spec_unit(bits),
        r@ == bits,
        r.raw == bits,
        is_unit_draw(r),
{
    Fixed { raw: bits as i64 }
}

/// A uniform number in `[0, 1)`: the next word of the generator, taken as
/// 32 fractional bits.
pub fn random_f64(rng: &mut Sampler) -> (r: Fixed)
    ensures
        is_unit_draw(r),
        final(rng)@ == old(rng)@.after(1),
        drew_words(old(rng).words(), final(rng).words(), 1),
        r == spec_unit(final(rng).words().last()),
{
    let bits = rng.next_word();
    assert(rng.words().take(old(rng).words().len() as int) =~= old(rng).words());
    unit_from_bits(bits)
}

/// The point between `min` and `max` that `u` picks.
pub fn spread(min: Fixed, max: Fixed, u: Fixed) -> (r: Fixed)
    ensures
        r == spec_spread(min, max, u),
{
    min.add(max.sub(min).mul(u))
}

/// A uniform number between `min` and `max`: the point that the next word
/// of the generator picks.
pub fn random_f64_with_min_max(min: Fixed, max: Fixed, rng: &mut Sampler) -> (r: Fixed)
    ensures
        is_spread_draw(r, min, max),
        min@ <= max@ ==> min@ <= r@ <= max@,
        final(rng)@ == old(rng)@.after(1),
        drew_words(old(rng).words(), final(rng).words(), 1),
        r == spec_spread(min, max, spec_unit(final(rng).words().last())),
{
    let u = random_f64(rng);
    proof {
        if min@ <= max@ {
            lemma_spread_is_between(min, max, u);
        }
    }
    spread(min, max, u)
}

/// A vector whose components are uniform in `[0, 1)`: three numbers drawn
/// one after the other.
pub fn random_vec3(rng: &mut Sampler) -> (r: Vec3)
    ensures
        is_unit_draw(r.x),
        is_unit_draw(r.y),
        is_unit_draw(r.z),
        final(rng)@ == old(rng)@.after(3),
        drew_words(old(rng).words(), final(rng).words(), 3),
        ({
            let w = final(rng).words();
            let n = old(rng).words().len() as int;
            r == (Vec3 { x: spec_unit(w[n]), y: spec_unit(w[n + 1]), z: spec_unit(w[n + 2]) })
        }),
{
    let ghost w0 = rng.words();
    let x = random_f64(rng);
    let ghost w1 = rng.words();
    let y = random_f64(rng);
    let ghost w2 = rng.words();
    let z = random_f64(rng);
    proof {
        lemma_drew_words_twice(w0, w1, w2, 1, 1);
        lemma_drew_words_twice(w0, w2, rng.words(), 2, 1);
    }
    Vec3 { x, y, z }
}

/// A vector whose components are uniform between `min` and `max`: three
/// numbers drawn one after the other.
pub fn random_vec3_with_min_max(min: Fixed, max: Fixed, rng: &mut Sampler) -> (r: Vec3)
    ensures
        is_box_draw(r, min, max),
        final(rng)@ == old(rng)@.after(3),
        drew_words(old(rng).words(), final(rng).words(), 3),
        ({
            let w = final(rng).words();
            let n = old(rng).words().len() as int;
            r == spec_box_point(min, max, w[n], w[n + 1], w[n + 2])
        }),
{
    let ghost w0 = rng.words();
    let x = random_f64_with_min_max(min, max, rng);
    let ghost w1 = rng.words();
    let y = random_f64_with_min_max(min, max, rng);
    let ghost w2 = rng.words();
    let z = random_f64_with_min_max(min, max, rng);
    proof {
        lemma_drew_words_twice(w0, w1, w2, 1, 1);
        lemma_drew_words_twice(w0, w2, rng.words(), 2, 1);
    }
    Vec3 { x, y, z }
}

/// Whether `p` lies strictly inside the unit ball.
pub fn is_in_unit_sphere(p: Vec3) -> (b: bool)
    ensures
        b == in_unit_sphere(p),
{
    p.dot(p).lt(Fixed::one())
}

/// A uniform point strictly inside the unit ball: points of the cube around
/// it are drawn until one lies inside, and that one is returned. After
/// `MAX_REJECTIONS` points outside, the center is returned.
pub fn random_in_unit_sphere(rng: &mut Sampler) -> (p: Vec3)
    ensures
        in_unit_sphere(p),
        p == Vec3::spec_zero() || is_box_draw(p, Fixed::spec_one().spec_neg(), Fixed::spec_one()),
        old(rng)@.after_tries(3, final(rng)@),
        final(rng).words().take(old(rng).words().len() as int) == old(rng).words(),
        exists|tries: int| #[trigger]
            is_first_in_ball(final(rng).words(), old(rng).words().len() as int, tries, p),
{
    let ghost begin = rng.words();
    let ghost start = begin.len() as int;
    assert(begin.take(start) =~= begin);
    let mut tries: u32 = 0;
    while tries < MAX_REJECTIONS
        invariant
            tries <= MAX_REJECTIONS,
            begin == old(rng).words(),
            start == begin.len(),
            rng@ == old(rng)@.after((tries * 3) as nat),
            drew_words(begin, rng.words(), (tries * 3) as nat),
            forall|k: int| 0 <= k < tries ==> !in_unit_sphere(#[trigger] ball_try(rng.words(), start, k)),
        decreases MAX_REJECTIONS - tries,
    {
        let ghost before = rng.words();
        let p = random_vec3_with_min_max(Fixed::one().neg(), Fixed::one(), rng);
        proof {
            lemma_drew_words_twice(begin, before, rng.words(), (tries * 3) as nat, 3);
            assert(p == ball_try(rng.words(), start, tries as int));
            assert forall|k: int| 0 <= k < tries implies !in_unit_sphere(
                #[trigger] ball_try(rng.words(), start, k),
            ) by {
                assert(ball_try(rng.words(), start, k) == ball_try(before, start, k));
            }
        }
        tries = tries + 1;
        if is_in_unit_sphere(p) {
            assert(rng@ == old(rng)@.after(tries as nat * 3));
            assert(is_first_in_ball(rng.words(), start, tries as int, p));
            return p;
        }
    }
    proof {
        lemma_center_in_unit_sphere();
        assert(rng@ == old(rng)@.after(tries as nat * 3));
        assert(is_first_in_ball(rng.words(), start, tries as int, Vec3::spec_zero()));
    }
    Vec3::zero()
}

/// A random direction: the point that `random_in_unit_sphere` gives,
/// normalized.
pub fn random_unit_vector(rng: &mut Sampler) -> (u: Vec3)
    ensures
        is_unit_sample(u),
        old(rng)@.after_tries(3, final(rng)@),
        final(rng).words().take(old(rng).words().len() as int) == old(rng).words(),
        exists|tries: int, p: Vec3| #[trigger]
            is_first_in_ball(final(rng).words(), old(rng).words().len() as int, tries, p) && u
                == p.spec_normalize(),
{
    let p = random_in_unit_sphere(rng);
    proof {
        let tries = choose|tries: int| #[trigger]
            is_first_in_ball(rng.words(), old(rng).words().len() as int, tries, p);
        assert(is_first_in_ball(rng.words(), old(rng).words().len() as int, tries, p));
    }
    p.normalize()
}

/// `u`, turned around where it points away from `normal`.
pub fn toward(u: Vec3, normal: Vec3) -> (r: Vec3)
    ensures
        r == spec_toward(u, normal),
        r.spec_dot(normal)@ >= 0,
{
    proof {
        lemma_toward_is_in_hemisphere(u, normal);
    }
    if u.dot(normal).gt(Fixed::zero()) {
        u
    } else {
        u.neg()
    }
}

/// A random direction that does not point away from `normal`: the
/// direction that `random_unit_vector` gives, turned around where it does.
pub fn random_on_hemisphere(normal: Vec3, rng: &mut Sampler) -> (r: Vec3)
    ensures
        exists|u: Vec3| is_unit_sample(u) && r == #[trigger] spec_toward(u, normal),
        r.spec_dot(normal)@ >= 0,
        old(rng)@.after_tries(3, final(rng)@),
        final(rng).words().take(old(rng).words().len() as int) == old(rng).words(),
        exists|tries: int, p: Vec3| #[trigger]
            is_first_in_ball(final(rng).words(), old(rng).words().len() as int, tries, p) && r
                == spec_toward(p.spec_normalize(), normal),
{
    let on_unit_sphere = random_unit_vector(rng);
    proof {
        let (tries, p) = choose|tries: int, p: Vec3| #[trigger]
            is_first_in_ball(rng.words(), old(rng).words().len() as int, tries, p)
                && on_unit_sphere == p.spec_normalize();
        assert(is_first_in_ball(rng.words(), old(rng).words().len() as int, tries, p));
    }
    toward(on_unit_sphere, normal)
}

/// A uniform point strictly inside the unit disk of the plane `z = 0`:
/// points of the square around it are drawn until one lies inside, and that
/// one is returned. After `MAX_REJECTIONS` points outside, the center is
/// returned.
pub fn random_in_unit_disk(rng: &mut Sampler) -> (p: Vec3)
    ensures
        in_unit_sphere(p),
        p.z == Fixed::spec_zero(),
        p == Vec3::spec_zero() || (is_spread_draw(
            p.x,
            Fixed::spec_one().spec_neg(),
            Fixed::spec_one(),
        ) && is_spread_draw(p.y, Fixed::spec_one().spec_neg(), Fixed::spec_one())),
        old(rng)@.after_tries(2, final(rng)@),
        final(rng).words().take(old(rng).words().len() as int) == old(rng).words(),
        exists|tries: int| #[trigger]
            is_first_in_disk(final(rng).words(), old(rng).words().len() as int, tries, p),
{
    let ghost begin = rng.words();
    let ghost start = begin.len() as int;
    assert(begin.take(start) =~= begin);
    let mut tries: u32 = 0;
    while tries < MAX_REJECTIONS
        invariant
            tries <= MAX_REJECTIONS,
            begin == old(rng).words(),
            start == begin.len(),
            rng@ == old(rng)@.after((tries * 2) as nat),
            drew_words(begin, rng.words(), (tries * 2) as nat),
            forall|k: int| 0 <= k < tries ==> !in_unit_sphere(#[trigger] disk_try(rng.words(), start, k)),
        decreases MAX_REJECTIONS - tries,
    {
        let ghost before = rng.words();
        let x = random_f64_with_min_max(Fixed::one().neg(), Fixed::one(), rng);
        let ghost between = rng.words();
        let y = random_f64_with_min_max(Fixed::one().neg(), Fixed::one(), rng);
        let p = Vec3 { x, y, z: Fixed::zero() };
        proof {
            lemma_drew_words_twice(before, between, rng.words(), 1, 1);
            lemma_drew_words_twice(begin, before, rng.words(), (tries * 2) as nat, 2);
            assert(p == disk_try(rng.words(), start, tries as int));
            assert forall|k: int| 0 <= k < tries implies !in_unit_sphere(
                #[trigger] disk_try(rng.words(), start, k),
            ) by {
                assert(disk_try(rng.words(), start, k) == disk_try(before, start, k));
            }
        }
        tries = tries + 1;
        if is_in_unit_sphere(p) {
            assert(rng@ == old(rng)@.after(tries as nat * 2));
            assert(is_first_in_disk(rng.words(), start, tries as int, p));
            return p;
        }
    }
    proof {
        lemma_center_in_unit_sphere();
        assert(rng@ == old(rng)@.after(tries as nat * 2));
        assert(is_first_in_disk(rng.words(), start, tries as int, Vec3::spec_zero()));
    }
    Vec3::zero()
}

/// A number of `[0, 1)` picks a point that lies between the bounds.
pub proof fn lemma_spread_is_between(min: Fixed, max: Fixed, u: Fixed)
    requires
        min@ <= max@,
        is_unit_draw(u),
    ensures
        min@ <= spec_spread(min, max, u)@ <= max@,
{
    let d = max.spec_sub(min);
    assert(0 <= d@ <= max@ - min@);
    assert(0 <= (d@ * u@) / 0x1_0000_0000 <= d@) by (nonlinear_arith)
        requires
            0 <= d@,
            0 <= u@ < 0x1_0000_0000,
    ;
    assert(d@ * u@ >= 0) by (nonlinear_arith)
        requires
            0 <= d@,
            0 <= u@,
    ;
}

/// What the search of the unit ball gives lies strictly inside the ball.
pub proof fn lemma_ball_search_is_inside(words: Seq<u32>, start: int, tries: int, p: Vec3)
    requires
        ball_search_gives(words, start, tries, p),
    ensures
        in_unit_sphere(p),
{
    lemma_center_in_unit_sphere();
}

/// What the search of the unit disk gives lies strictly inside the disk,
/// in the plane `z = 0`.
pub proof fn lemma_disk_search_is_inside(words: Seq<u32>, start: int, tries: int, p: Vec3)
    requires
        disk_search_gives(words, start, tries, p),
    ensures
        in_unit_sphere(p),
        p.z == Fixed::spec_zero(),
{
    lemma_center_in_unit_sphere();
}

/// The center of the unit ball lies inside it.
pub proof fn lemma_center_in_unit_sphere()
    ensures
        in_unit_sphere(Vec3::spec_zero()),
{
    let z = Fixed::spec_zero();
    assert(z@ == 0);
    assert(z@ * z@ == 0) by (nonlinear_arith)
        requires
            z@ == 0,
    ;
    assert(z.spec_mul(z) == z);
    assert(z.spec_add(z) == z);
}

/// A vector that was turned toward a normal does not point away from it.
pub proof fn lemma_toward_is_in_hemisphere(u: Vec3, normal: Vec3)
    ensures
        spec_toward(u, normal).spec_dot(normal)@ >= 0,
{
    lemma_dot_neg(u, normal);
}

} // verus!
