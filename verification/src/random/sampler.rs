//! The generator of random words, and the record of what it has given.
//!
//! The record is kept here and nowhere else, so that it grows only where a
//! word is drawn.
use vstd::prelude::*;

verus! {

/// `rand::rngs::StdRng`, the generator of `rand`. Nothing is known here of
/// what it holds.
#[verifier::external_type_specification]
#[verifier::external_body]
pub struct ExStdRng(rand::rngs::StdRng);

/// A generator of uniform random numbers.
pub struct Sampler {
    rng: rand::rngs::StdRng,
    seed: u64,
    words: Ghost<Seq<u32>>,
}

/// What is known of a sampler: the seed that it was made for, and how far
/// it has been drawn from.
pub ghost struct SamplerView {
    /// The seed that the sampler was made for.
    pub seed: u64,
    /// How many words of 32 bits have been drawn from it since.
    pub drawn: nat,
}

impl SamplerView {
    /// What is known of the sampler once `words` more words have been drawn.
    pub open spec fn after(self, words: nat) -> SamplerView {
        SamplerView { seed: self.seed, drawn: self.drawn + words }
    }

    /// Whether `then` may be known of the same sampler at a later time:
    /// the seed is the same, and no fewer words have been drawn.
    pub open spec fn precedes(self, then: SamplerView) -> bool {
        then.seed == self.seed && then.drawn >= self.drawn
    }
}

/// Whether `after` is `before` with `count` more words at its end.
pub open spec fn drew_words(before: Seq<u32>, after: Seq<u32>, count: nat) -> bool {
    after.len() == before.len() + count && after.take(before.len() as int) == before
}

impl View for Sampler {
    type V = SamplerView;

    closed spec fn view(&self) -> SamplerView {
        SamplerView { seed: self.seed, drawn: self.words@.len() }
    }
}

/// Makes the generator that `rand` derives from `seed`, by
/// `SeedableRng::seed_from_u64` of `rand::rngs::StdRng`. Nothing is claimed
/// of the generator.
#[verifier::external_body]
fn seeded_rng(seed: u64) -> rand::rngs::StdRng {
    rand::SeedableRng::seed_from_u64(seed)
}

/// Draws the next 32 bits, by `RngCore::next_u32` of `rand::rngs::StdRng`.
/// Nothing is claimed of the bits, nor of the generator afterwards.
#[verifier::external_body]
fn next_bits(rng: &mut rand::rngs::StdRng) -> u32 {
    rand::RngCore::next_u32(rng)
}

impl Sampler {
    /// The words that have been drawn from the sampler so far, in the order
    /// in which they came.
    pub closed spec fn words(&self) -> Seq<u32> {
        self.words@
    }

    /// The generator for `seed`, from which nothing has been drawn yet.
    pub fn from_seed(seed: u64) -> (s: Sampler)
        ensures
            s@ == (SamplerView { seed, drawn: 0 }),
            s.words() == Seq::<u32>::empty(),
    {
        Sampler { rng: seeded_rng(seed), seed, words: Ghost(Seq::empty()) }
    }

    /// The seed that the generator was made for.
    pub fn seed(&self) -> (seed: u64)
        ensures
            seed == self@.seed,
    {
        self.seed
    }

    /// Draws the next word of the generator and adds it to the record.
    pub fn next_word(&mut self) -> (word: u32)
        ensures
            final(self)@ == old(self)@.after(1),
            final(self).words() == old(self).words().push(word),
    {
        let word = next_bits(&mut self.rng);
        self.words = Ghost(self.words@.push(word));
        word
    }

    /// As many words have been drawn as the record holds.
    pub proof fn lemma_drawn_counts_words(&self)
        ensures
            self@.drawn == self.words().len(),
    {
    }
}

/// Words that are at the end of two draws in a row are at the end of both
/// taken together.
pub proof fn lemma_drew_words_twice(a: Seq<u32>, b: Seq<u32>, c: Seq<u32>, m: nat, n: nat)
    requires
        drew_words(a, b, m),
        drew_words(b, c, n),
    ensures
        drew_words(a, c, m + n),
        forall|i: int| 0 <= i < b.len() ==> c[i] == b[i],
        forall|i: int| 0 <= i < a.len() ==> b[i] == a[i] && c[i] == a[i],
{
    assert forall|i: int| 0 <= i < b.len() implies c[i] == b[i] by {
        assert(c.take(b.len() as int)[i] == c[i]);
    }
    assert forall|i: int| 0 <= i < a.len() implies b[i] == a[i] && c[i] == a[i] by {
        assert(b.take(a.len() as int)[i] == b[i]);
    }
    assert(c.take(a.len() as int) =~= a);
}

/// What stood in a record before words were added to it twice stands in
/// it afterwards, at the same places.
pub proof fn lemma_words_stay(a: Seq<u32>, b: Seq<u32>, c: Seq<u32>)
    requires
        a.len() <= b.len() <= c.len(),
        b.take(a.len() as int) == a,
        c.take(b.len() as int) == b,
    ensures
        c.take(a.len() as int) == a,
        forall|i: int| 0 <= i < b.len() ==> c[i] == b[i],
{
    assert forall|i: int| 0 <= i < b.len() implies c[i] == b[i] by {
        assert(c.take(b.len() as int)[i] == c[i]);
    }
    assert forall|i: int| 0 <= i < a.len() implies c[i] == a[i] by {
        assert(b.take(a.len() as int)[i] == b[i]);
    }
    assert(c.take(a.len() as int) =~= a);
}

} // verus!
