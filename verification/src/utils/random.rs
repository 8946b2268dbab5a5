use vstd::prelude::*;
use vstd::arithmetic::div_mod::lemma_add_mod_noop;
use crate::utils::clock::unix_nanos;

verus! {

/// The multiplier of the generator.
pub const LCG_A: u64 = 6364136223846793005;

/// The increment of the generator.
pub const LCG_C: u64 = 1;

/// The next state of the generator: `state * A + C` modulo two to the 64.
pub open spec fn lcg_next(state: u64) -> u64 {
    ((state * LCG_A + LCG_C) % 0x1_0000_0000_0000_0000) as u64
}

/// One step of the generator multiplies the state by 6364136223846793005,
/// adds one, and keeps the low 64 bits.
pub proof fn lemma_lcg_step(state: u64)
    ensures
        lcg_next(state) as int == (state as int * 6364136223846793005 + 1) % 0x1_0000_0000_0000_0000,
{
}

/// The state after `n` steps from `seed`.
pub open spec fn lcg_iterate(seed: u64, n: nat) -> u64
    decreases n,
{
    if n == 0 {
        seed
    } else {
        lcg_next(lcg_iterate(seed, (n - 1) as nat))
    }
}

/// Whether `values` are the successive values of the generator seeded with
/// `seed`: value `i` comes from the state after `i + 1` steps.
pub open spec fn seeded_values<T: FromLowBytes>(values: Seq<T>, seed: u64) -> bool {
    forall|i: int| 0 <= i < values.len() ==> #[trigger] values[i] == T::spec_from_low(lcg_iterate(seed, (i + 1) as nat))
}

/// Integer types whose random values are the low bytes of the generator's
/// state.
pub trait FromLowBytes: Sized + Copy {
    /// The value whose bytes are the low bytes of `x`.
    spec fn spec_from_low(x: u64) -> Self;

    fn from_low(x: u64) -> (r: Self)
        ensures
            r == Self::spec_from_low(x),
    ;
}

impl FromLowBytes for u8 {
    open spec fn spec_from_low(x: u64) -> u8 {
        x as u8
    }

    fn from_low(x: u64) -> (r: u8) {
        x as u8
    }
}

impl FromLowBytes for u16 {
    open spec fn spec_from_low(x: u64) -> u16 {
        x as u16
    }

    fn from_low(x: u64) -> (r: u16) {
        x as u16
    }
}

impl FromLowBytes for u32 {
    open spec fn spec_from_low(x: u64) -> u32 {
        x as u32
    }

    fn from_low(x: u64) -> (r: u32) {
        x as u32
    }
}

impl FromLowBytes for u64 {
    open spec fn spec_from_low(x: u64) -> u64 {
        x
    }

    fn from_low(x: u64) -> (r: u64) {
        x
    }
}

impl FromLowBytes for i8 {
    open spec fn spec_from_low(x: u64) -> i8 {
        x as i8
    }

    fn from_low(x: u64) -> (r: i8) {
        x as i8
    }
}

impl FromLowBytes for i16 {
    open spec fn spec_from_low(x: u64) -> i16 {
        x as i16
    }

    fn from_low(x: u64) -> (r: i16) {
        x as i16
    }
}

impl FromLowBytes for i32 {
    open spec fn spec_from_low(x: u64) -> i32 {
        x as i32
    }

    fn from_low(x: u64) -> (r: i32) {
        x as i32
    }
}

impl FromLowBytes for i64 {
    open spec fn spec_from_low(x: u64) -> i64 {
        x as i64
    }

    fn from_low(x: u64) -> (r: i64) {
        x as i64
    }
}

impl FromLowBytes for usize {
    open spec fn spec_from_low(x: u64) -> usize {
        x as usize
    }

    fn from_low(x: u64) -> (r: usize) {
        x as usize
    }
}

impl FromLowBytes for isize {
    open spec fn spec_from_low(x: u64) -> isize {
        x as isize
    }

    fn from_low(x: u64) -> (r: isize) {
        x as isize
    }
}

/// Each unsigned integer type takes the low bytes of the state: its value
/// is the state modulo two to its width.
pub proof fn lemma_from_low_bytes(x: u64)
    ensures
        <u8 as FromLowBytes>::spec_from_low(x) as int == x % 0x100,
        <u16 as FromLowBytes>::spec_from_low(x) as int == x % 0x1_0000,
        <u32 as FromLowBytes>::spec_from_low(x) as int == x % 0x1_0000_0000,
        <u64 as FromLowBytes>::spec_from_low(x) == x,
{
    assert(x as u8 == x % 0x100) by (bit_vector);
    assert(x as u16 == x % 0x1_0000) by (bit_vector);
    assert(x as u32 == x % 0x1_0000_0000) by (bit_vector);
}

/// A random value from the generator seeded by the clock.
pub fn gen<T: FromLowBytes>() -> (r: T)
    ensures
        exists|seed: u64| r == T::spec_from_low(#[trigger] lcg_next(seed)),
{
    gen_seeded(get_seed())
}

/// The first value of the generator seeded with `seed`.
pub fn gen_seeded<T: FromLowBytes>(seed: u64) -> (r: T)
    ensures
        r == T::spec_from_low(lcg_next(seed)),
{
    let mut rng = Lcg::new(seed);
    rng.gen_num::<T>()
}

/// An array of random values from the generator seeded by the clock.
pub fn gen_array<T: FromLowBytes, const N: usize>() -> (r: [T; N])
    ensures
        r@.len() == N,
        exists|seed: u64| seeded_values(r@, seed),
{
    let seed = get_seed();
    let r = gen_array_seeded::<T, N>(seed);
    assert(seeded_values(r@, seed));
    r
}

/// The first `N` values of the generator seeded with `seed`.
pub fn gen_array_seeded<T: FromLowBytes, const N: usize>(seed: u64) -> (r: [T; N])
    ensures
        r@.len() == N,
        seeded_values(r@, seed),
{
    let mut rng = Lcg::new(seed);
    let mut array: [T; N] = [T::from_low(0); N];
    let mut i: usize = 0;
    while i < N
        invariant
            i <= N,
            array@.len() == N,
            rng.seed == lcg_iterate(seed, i as nat),
            forall|j: int| 0 <= j < i ==> #[trigger] array@[j] == T::spec_from_low(lcg_iterate(seed, (j + 1) as nat)),
        decreases N - i,
    {
        let v = rng.gen_num::<T>();
        array[i] = v;
        i = i + 1;
    }
    array
}

/// A seed from the clock: the nanoseconds since the Unix epoch, cut to 64 bits.
fn get_seed() -> u64 {
    unix_nanos() as u64
}

/// A linear congruential generator.
struct Lcg {
    seed: u64,
}

impl Lcg {
    fn new(seed: u64) -> (r: Self)
        ensures
            r.seed == seed,
    {
        Lcg { seed }
    }

    fn gen_num<T: FromLowBytes>(&mut self) -> (r: T)
        ensures
            final(self).seed == lcg_next(old(self).seed),
            r == T::spec_from_low(final(self).seed),
    {
        let product = self.seed.wrapping_mul(LCG_A);
        let next = product.wrapping_add(LCG_C);
        proof {
            let x = old(self).seed as int * LCG_A as int;
            let m = 0x1_0000_0000_0000_0000int;
            lemma_add_mod_noop(x, LCG_C as int, m);
            assert((LCG_C as int) % m == LCG_C as int);
            assert((product as int + LCG_C as int) % m == (x + LCG_C as int) % m);
        }
        self.seed = next;
        T::from_low(self.seed)
    }
}

} // verus!
