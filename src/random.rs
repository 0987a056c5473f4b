use vstd::prelude::*;

verus! {

/// WyRand's additive constant.
pub const WY_CONST_0: u64 = 0x2d35_8dcc_aa6c_78a5;

/// WyRand's mixing constant.
pub const WY_CONST_1: u64 = 0x8bb8_4b93_962e_acc9;

/// The counter widened and moved on by one draw.
pub open spec fn advanced(state: u32) -> u64 {
    vstd::wrapping::u64_specs::wrapping_add(state as u64, WY_CONST_0)
}

/// The state that one draw leaves behind: the advanced counter cut back to 32 bits.
pub open spec fn next_state(state: u32) -> u32 {
    advanced(state) as u32
}

/// The double-width product that one draw mixes.
pub open spec fn mixed(s: u64) -> u128 {
    (s as int * (s ^ WY_CONST_1) as int) as u128
}

/// The 64 bits that one draw from `state` yields.
pub open spec fn draw(state: u32) -> u64 {
    let t = mixed(advanced(state));
    (t as u64) ^ ((t >> 64u128) as u64)
}

/// The offsets that `n` draws in a row from `state` yield.
pub open spec fn offsets_from(state: u32, n: nat) -> Seq<u16>
    decreases n,
{
    if n == 0 {
        Seq::empty()
    } else {
        seq![draw(state) as u16] + offsets_from(next_state(state), (n - 1) as nat)
    }
}

/// A deterministic counter-based pseudorandom generator.
#[derive(Clone, Copy, Debug, PartialEq, Eq, Structural)]
pub struct RandomGenerator {
    pub state: u32,
}

impl RandomGenerator {
    /// A generator on the customary starting counter.
    pub fn new() -> (g: RandomGenerator)
        ensures
            g.state == 42,
    {
        RandomGenerator { state: 42 }
    }

    fn gen_u64(&mut self) -> (r: u64)
        ensures
            r == draw(old(self).state),
            final(self).state == next_state(old(self).state),
    {
        let rng: u64 = self.state as u64;
        let s: u64 = rng.wrapping_add(WY_CONST_0);
        self.state = s as u32;
        let x: u64 = s ^ WY_CONST_1;
        assert((s as int) * (x as int) <= 0xffff_ffff_ffff_ffff * 0xffff_ffff_ffff_ffff)
            by (nonlinear_arith)
            requires
                s <= 0xffff_ffff_ffff_ffff,
                x <= 0xffff_ffff_ffff_ffff,
        ;
        let t: u128 = (s as u128) * (x as u128);
        (t as u64) ^ ((t >> 64) as u64)
    }
}

/// Overwrites the generator's counter with `seed`.
pub fn set_random_seed(rng: &mut RandomGenerator, seed: u32)
    ensures
        final(rng).state == seed,
{
    rng.state = seed;
}

/// The low 16 bits of one draw.
pub fn get_random_offset(rng: &mut RandomGenerator) -> (r: u16)
    ensures
        r == draw(old(rng).state) as u16,
        final(rng).state == next_state(old(rng).state),
{
    rng.gen_u64() as u16
}

/// Once seeded alike, two generators, whatever their states before, yield the same offsets
/// on their first and second draws: those that the seed alone determines.
pub proof fn lemma_seeded_draws_reproducible(a: RandomGenerator, b: RandomGenerator, seed: u32)
    ensures
        ({
            let a1 = RandomGenerator { state: seed, ..a };
            let b1 = RandomGenerator { state: seed, ..b };
            &&& draw(a1.state) as u16 == draw(b1.state) as u16
            &&& draw(next_state(a1.state)) as u16 == draw(next_state(b1.state)) as u16
            &&& offsets_from(a1.state, 2) == seq![
                draw(seed) as u16,
                draw(next_state(seed)) as u16,
            ]
        }),
{
    reveal_with_fuel(offsets_from, 3);
    assert(offsets_from(seed, 2) =~= seq![draw(seed) as u16, draw(next_state(seed)) as u16]);
}

} // verus!
