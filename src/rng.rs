use rand::rngs::StdRng;
use rand::Rng;
use rand::SeedableRng;
use vstd::prelude::*;

verus! {

#[verifier::external_type_specification]
#[verifier::external_body]
pub struct ExStdRng(StdRng);

/// The `k`-th sample (counting from 0) of `gen_range(0..100)` drawn from
/// `StdRng::seed_from_u64(seed)`. The standard generator is deterministic,
/// so the samples are a function of the seed and of their position alone.
pub uninterp spec fn percent_draw(seed: u64, k: nat) -> u32;

/// The standard generator, seeded from a 64-bit seed, together with the seed
/// and the number of samples it has handed out.
pub(crate) struct PercentSource {
    pub(crate) rng: StdRng,
    pub(crate) seed: Ghost<u64>,
    pub(crate) drawn: Ghost<nat>,
}

impl PercentSource {
    /// Relies on rand's `SeedableRng::seed_from_u64`: builds the standard
    /// generator from `seed`, before any sample is drawn.
    #[verifier::external_body]
    pub(crate) fn new(seed: u64) -> (r: PercentSource)
        ensures
            r.seed@ == seed,
            r.drawn@ == 0,
    {
        PercentSource { rng: StdRng::seed_from_u64(seed), seed: Ghost(seed), drawn: Ghost(0) }
    }

    /// Relies on rand's `Rng::gen_range`: the next uniform sample of `0..100`
    /// from the generator; the range is not empty, so it does not panic.
    #[verifier::external_body]
    pub(crate) fn next_percent(&mut self) -> (r: u32)
        ensures
            r == percent_draw(old(self).seed@, old(self).drawn@),
            r < 100,
            final(self).seed@ == old(self).seed@,
            final(self).drawn@ == old(self).drawn@ + 1,
    {
        self.rng.gen_range(0..100)
    }
}

/// The `count` samples from position `start` on of the generator seeded with
/// `seed`.
pub open spec fn percent_draws(seed: u64, start: nat, count: nat) -> Seq<u32> {
    Seq::new(count, |i: int| percent_draw(seed, (start + i) as nat))
}

/// The next `count` samples of `src`, in order.
pub(crate) fn draw_percents(src: &mut PercentSource, count: usize) -> (v: Vec<u32>)
    ensures
        v@ == percent_draws(old(src).seed@, old(src).drawn@, count as nat),
        final(src).seed@ == old(src).seed@,
        final(src).drawn@ == old(src).drawn@ + count,
{
    let ghost start = src.drawn@;
    let mut v: Vec<u32> = Vec::new();
    let mut k: usize = 0;
    while k < count
        invariant
            k <= count,
            src.seed@ == old(src).seed@,
            start == old(src).drawn@,
            src.drawn@ == start + k,
            v@ =~= percent_draws(src.seed@, start, k as nat),
        decreases count - k,
    {
        let s = src.next_percent();
        v.push(s);
        k = k + 1;
    }
    v
}

} // verus!
