//! The xorshift64 pseudo-random generator used to build synthetic inputs.

use vstd::prelude::*;

verus! {

/// One xorshift64 step: `x ^= x << 13; x ^= x >> 7; x ^= x << 17`.
pub open spec fn xorshift64(x: u64) -> u64 {
    let a = x ^ (x << 13);
    let b = a ^ (a >> 7);
    b ^ (b << 17)
}

/// The state of a generator that was seeded with `seed`, after `draws`
/// draws. It is also the value that the last of these draws returned.
pub open spec fn state_after(seed: u64, draws: nat) -> u64
    decreases draws,
{
    if draws == 0 {
        seed
    } else {
        xorshift64(state_after(seed, (draws - 1) as nat))
    }
}

/// The first `n` values that a generator seeded with `seed` returns.
pub open spec fn stream(seed: u64, n: nat) -> Seq<u64> {
    Seq::new(n, |i: int| state_after(seed, (i + 1) as nat))
}

/// The first `n` values that a generator seeded with `seed` returns, each
/// taken as a signed number.
pub open spec fn keys_seq(seed: u64, n: nat) -> Seq<i64> {
    Seq::new(n, |i: int| state_after(seed, (i + 1) as nat) as i64)
}

/// The first `n` values that a generator seeded with `seed` returns, each
/// reduced modulo `bound` and taken as a signed number.
pub open spec fn keys_below_seq(seed: u64, n: nat, bound: u64) -> Seq<i64> {
    Seq::new(n, |i: int| (state_after(seed, (i + 1) as nat) % bound) as i64)
}

/// The generator: a single 64-bit word of state.
pub struct Rng {
    state: u64,
}

impl View for Rng {
    type V = u64;

    closed spec fn view(&self) -> u64 {
        self.state
    }
}

impl Rng {
    /// A generator whose state is `seed`. The seed 0 is degenerate: such a
    /// generator returns 0 forever, so callers pick another seed.
    pub fn new(seed: u64) -> (r: Rng)
        ensures
            r@ == seed,
    {
        Rng { state: seed }
    }

    /// Advances the state by one xorshift64 step and returns the new state.
    pub fn next(&mut self) -> (x: u64)
        ensures
            x == xorshift64(old(self)@),
            final(self)@ == x,
    {
        let mut x: u64 = self.state;
        x ^= x << 13;
        x ^= x >> 7;
        x ^= x << 17;
        self.state = x;
        x
    }

    /// Advances the state by one step and returns the new state modulo
    /// `bound`. The values are not spread evenly unless `bound` divides 2^64.
    pub fn next_bounded(&mut self, bound: u64) -> (x: u64)
        requires
            bound != 0,
        ensures
            x == xorshift64(old(self)@) % bound,
            final(self)@ == xorshift64(old(self)@),
    {
        self.next() % bound
    }
}

/// Draws `n` keys: each the next value of `rng`, taken as a signed number.
pub fn random_keys(rng: &mut Rng, n: usize) -> (keys: Vec<i64>)
    ensures
        keys@ == keys_seq(old(rng)@, n as nat),
        final(rng)@ == state_after(old(rng)@, n as nat),
{
    let ghost seed = rng@;
    let mut keys: Vec<i64> = Vec::new();
    let mut i: usize = 0;
    while i < n
        invariant
            i <= n,
            rng@ == state_after(seed, i as nat),
            keys@ == Seq::new(i as nat, |j: int| state_after(seed, (j + 1) as nat) as i64),
        decreases n - i,
    {
        let x: u64 = rng.next();
        keys.push(#[verifier::truncate] (x as i64));
        i = i + 1;
        assert(keys@ =~= Seq::new(i as nat, |j: int| state_after(seed, (j + 1) as nat) as i64));
    }
    keys
}

/// Draws `n` keys below `bound`: each the next value of `rng` modulo
/// `bound`, taken as a signed number. Without a draw, `bound` may be 0.
pub fn random_keys_below(rng: &mut Rng, n: usize, bound: u64) -> (keys: Vec<i64>)
    requires
        bound != 0 || n == 0,
    ensures
        keys@ == keys_below_seq(old(rng)@, n as nat, bound),
        final(rng)@ == state_after(old(rng)@, n as nat),
{
    let ghost seed = rng@;
    let mut keys: Vec<i64> = Vec::new();
    let mut i: usize = 0;
    while i < n
        invariant
            i <= n,
            bound != 0 || n == 0,
            rng@ == state_after(seed, i as nat),
            keys@ == Seq::new(
                i as nat,
                |j: int| (state_after(seed, (j + 1) as nat) % bound) as i64,
            ),
        decreases n - i,
    {
        let x: u64 = rng.next_bounded(bound);
        keys.push(#[verifier::truncate] (x as i64));
        i = i + 1;
        assert(keys@ =~= Seq::new(
            i as nat,
            |j: int| (state_after(seed, (j + 1) as nat) % bound) as i64,
        ));
    }
    keys
}

/// A step takes 0 to 0.
pub proof fn lemma_zero_is_fixed()
    ensures
        xorshift64(0) == 0,
{
    assert(xorshift64(0) == 0) by (bit_vector);
}

/// A step takes no other state to 0.
pub proof fn lemma_step_keeps_nonzero(x: u64)
    requires
        x != 0,
    ensures
        xorshift64(x) != 0,
{
    assert(x != 0 ==> xorshift64(x) != 0) by (bit_vector);
}

/// Two generators in the same state return the same values, however many
/// are drawn, and are in the same state afterwards.
pub proof fn law_same_seed_same_stream(a: Rng, b: Rng, draws: nat)
    requires
        a@ == b@,
    ensures
        stream(a@, draws) == stream(b@, draws),
        state_after(a@, draws) == state_after(b@, draws),
{
}

/// The seed 0 is degenerate: every value drawn is 0.
pub proof fn law_zero_seed_stays_zero(draws: nat)
    ensures
        state_after(0, draws) == 0,
    decreases draws,
{
    if draws > 0 {
        law_zero_seed_stays_zero((draws - 1) as nat);
        lemma_zero_is_fixed();
    }
}

/// With any other seed, no value drawn is 0.
pub proof fn law_nonzero_seed_never_zero(seed: u64, draws: nat)
    requires
        seed != 0,
    ensures
        state_after(seed, draws) != 0,
    decreases draws,
{
    if draws > 0 {
        law_nonzero_seed_never_zero(seed, (draws - 1) as nat);
        lemma_step_keeps_nonzero(state_after(seed, (draws - 1) as nat));
    }
}

} // verus!
