//! A seeded generator of values, for building randomized cases that can be
//! regenerated byte for byte from the same seed.

use rand::distributions::{Alphanumeric, Distribution, Standard};
use rand::rngs::StdRng;
use rand::{Rng, SeedableRng};
use vstd::prelude::*;

verus! {

#[verifier::external_type_specification]
#[verifier::external_body]
pub struct ExStdRng(StdRng);

/// Whether a character is an ASCII letter or digit.
pub open spec fn is_alphanumeric(c: char) -> bool {
    ('a' as u32 <= c as u32 <= 'z' as u32) || ('A' as u32 <= c as u32 <= 'Z' as u32) || ('0' as u32
        <= c as u32 <= '9' as u32)
}

/// One request made of a generator.
pub enum Draw {
    Range(i64, i64),
    Text(usize),
}

/// What a generator seeded with `seed` returns for a value between `from`
/// and `to` after answering `draws`.
pub uninterp spec fn range_draw(seed: u64, draws: Seq<Draw>, from: i64, to: i64) -> i64;

/// What a generator seeded with `seed` returns for a string of `len`
/// letters and digits after answering `draws`.
pub uninterp spec fn text_draw(seed: u64, draws: Seq<Draw>, len: usize) -> Seq<char>;

/// Relies on StdRng::seed_from_u64: a generator whose draws follow from the seed alone.
#[verifier::external_body]
fn seeded(seed: u64) -> StdRng {
    StdRng::seed_from_u64(seed)
}

/// A seeded source of values. Its view is the seed, the requests answered
/// so far, and whether they all were of a kind that the view records.
pub struct Random {
    rnd: StdRng,
    seed: Ghost<u64>,
    draws: Ghost<Seq<Draw>>,
    exact: Ghost<bool>,
}

impl View for Random {
    type V = (u64, Seq<Draw>, bool);

    closed spec fn view(&self) -> (u64, Seq<Draw>, bool) {
        (self.seed@, self.draws@, self.exact@)
    }
}

/// The view of a generator fresh from the seed.
pub open spec fn fresh(seed: u64) -> (u64, Seq<Draw>, bool) {
    (seed, Seq::empty(), true)
}

impl Random {
    pub fn new(seed: u64) -> (r: Random)
        ensures
            r@ == fresh(seed),
    {
        Random { rnd: seeded(seed), seed: Ghost(seed), draws: Ghost(Seq::empty()), exact: Ghost(true) }
    }

    /// Relies on Rng::gen: a value of any type that the standard
    /// distribution covers. The view does not record which type was drawn.
    #[verifier::external_body]
    pub fn next<T>(&mut self) -> (r: T)
        where
            Standard: Distribution<T>,
        ensures
            final(self)@ == (old(self)@.0, old(self)@.1, false),
    {
        self.rnd.gen()
    }

    /// Relies on Rng::gen_range over an inclusive range: a value between the
    /// bounds, both included, fixed by the seed and the requests before it;
    /// it panics on an empty range, which `requires` rules out.
    #[verifier::external_body]
    fn draw_in_range(&mut self, from: i64, to: i64) -> (r: i64)
        requires
            from <= to,
        ensures
            from <= r <= to,
            final(self)@ == (old(self)@.0, old(self)@.1.push(Draw::Range(from, to)), old(self)@.2),
            old(self)@.2 ==> r == range_draw(old(self)@.0, old(self)@.1, from, to),
    {
        self.rnd.gen_range(from..=to)
    }

    /// Relies on sampling the Alphanumeric distribution `len` times: one of
    /// `A`-`Z`, `a`-`z`, `0`-`9` for each position, fixed by the seed and the
    /// requests before it.
    #[verifier::external_body]
    fn draw_alphanumeric(&mut self, len: usize) -> (r: String)
        ensures
            r@.len() == len,
            forall|i: int| 0 <= i < r@.len() ==> is_alphanumeric(#[trigger] r@[i]),
            final(self)@ == (old(self)@.0, old(self)@.1.push(Draw::Text(len)), old(self)@.2),
            old(self)@.2 ==> r@ == text_draw(old(self)@.0, old(self)@.1, len),
    {
        (&mut self.rnd).sample_iter(Alphanumeric).take(len).map(char::from).collect()
    }

    /// A value between `from` and `to`, both included.
    pub fn next_range(&mut self, from: i64, to: i64) -> (r: i64)
        requires
            from <= to,
        ensures
            from <= r <= to,
            final(self)@ == (old(self)@.0, old(self)@.1.push(Draw::Range(from, to)), old(self)@.2),
            old(self)@.2 ==> r == range_draw(old(self)@.0, old(self)@.1, from, to),
    {
        self.draw_in_range(from, to)
    }

    /// A string of `len` ASCII letters and digits.
    pub fn next_string(&mut self, len: usize) -> (r: String)
        ensures
            r@.len() == len,
            forall|i: int| 0 <= i < r@.len() ==> is_alphanumeric(#[trigger] r@[i]),
            final(self)@ == (old(self)@.0, old(self)@.1.push(Draw::Text(len)), old(self)@.2),
            old(self)@.2 ==> r@ == text_draw(old(self)@.0, old(self)@.1, len),
    {
        self.draw_alphanumeric(len)
    }
}

/// Two generators from the same seed that were asked the same requests give
/// the same answer to the next one: a range draw and a string draw alike.
pub proof fn same_seed_same_draws(a: (u64, Seq<Draw>, bool), b: (u64, Seq<Draw>, bool), from: i64, to: i64, len: usize)
    requires
        a.0 == b.0,
        a.1 == b.1,
    ensures
        range_draw(a.0, a.1, from, to) == range_draw(b.0, b.1, from, to),
        text_draw(a.0, a.1, len) == text_draw(b.0, b.1, len),
{
}

} // verus!
