//! The shift-register number generator. Its state is one machine word; a state of zero means that
//! no seed has been chosen yet.
use vstd::prelude::*;

verus! {

/// One step of the generator.
pub open spec fn xorshift(s: usize) -> usize {
    let t = s ^ (s << 7usize);
    t ^ (t >> 9usize)
}

/// The number of equal steps into which `gen_float` divides the unit interval.
pub const MAX: usize = 1_000_000_000;

/// A word from the thread's generator (`rand::thread_rng().gen()`). Nothing is claimed of it: any
/// word may come, on every call.
#[verifier::external_body]
fn random_word() -> (r: usize) {
    rand::Rng::gen(&mut rand::thread_rng())
}

/// The state that `seed` stands for: itself, or the random word where it is zero.
pub fn seeded(seed: usize, random: usize) -> (r: usize)
    ensures
        r == (if seed == 0 {
            random
        } else {
            seed
        }),
{
    if seed == 0 {
        random
    } else {
        seed
    }
}

/// Sets the state to `seed`, or to a random word where `seed` is zero.
pub fn init(state: &mut usize, seed: usize)
    ensures
        seed != 0 ==> *final(state) == seed,
{
    if seed == 0 {
        *state = seeded(seed, random_word());
    } else {
        *state = seed;
    }
}

/// The state after `state`, where the random word is the seed of a state that has none yet.
pub fn gen_from(state: usize, random: usize) -> (r: usize)
    ensures
        r == xorshift(
            if state == 0 {
                random
            } else {
                state
            },
        ),
{
    let seed: usize = seeded(state, random);
    let t: usize = seed ^ (seed << 7);
    t ^ (t >> 9)
}

/// Moves the state on by one step and gives the new state. A state that has no seed yet is given a
/// random one first; which one is left to chance, so nothing is said of the step from there.
pub fn gen(state: &mut usize) -> (r: usize)
    ensures
        r == *final(state),
        *old(state) != 0 ==> r == xorshift(*old(state)),
{
    let random: usize = if *state == 0 {
        random_word()
    } else {
        0
    };
    *state = gen_from(*state, random);
    *state
}

/// A number from `a` up to, but not including, `b`.
pub fn gen_range(state: &mut usize, a: usize, b: usize) -> (r: usize)
    requires
        a < b,
    ensures
        r == *final(state) % (b - a) as usize + a,
        a <= r < b,
        *old(state) != 0 ==> *final(state) == xorshift(*old(state)),
{
    gen(state) % (b - a) + a
}

/// The lowest bit of the next word.
pub fn gen_bool(state: &mut usize) -> (r: bool)
    ensures
        r == (*final(state) % 2 == 1),
        *old(state) != 0 ==> *final(state) == xorshift(*old(state)),
{
    let word: usize = gen(state);
    assert((word & 1 == 1) == (word % 2 == 1)) by (bit_vector);
    word & 1 == 1
}

/// The numerator, over `MAX`, of a fraction from zero up to, but not including, one.
pub fn gen_fraction(state: &mut usize) -> (r: usize)
    ensures
        r == *final(state) % MAX,
        r < MAX,
        *old(state) != 0 ==> *final(state) == xorshift(*old(state)),
{
    gen(state) % MAX
}

/// Two states that step to the same state are equal.
pub proof fn xorshift_is_injective(a: usize, b: usize)
    requires
        xorshift(a) == xorshift(b),
    ensures
        a == b,
{
    let x = a ^ (a << 7usize);
    let y = b ^ (b << 7usize);
    assert(x ^ (x >> 9usize) == y ^ (y >> 9usize) ==> x == y) by (bit_vector);
    assert(a ^ (a << 7usize) == b ^ (b << 7usize) ==> a == b) by (bit_vector);
}

/// A generator that has a seed never loses it: no state but zero steps to zero.
pub proof fn seed_is_never_lost(s: usize)
    requires
        s != 0,
    ensures
        xorshift(s) != 0,
{
    assert(xorshift(0) == 0) by {
        assert(0usize ^ (0usize << 7usize) == 0) by (bit_vector);
        assert(0usize ^ (0usize >> 9usize) == 0) by (bit_vector);
    }
    if xorshift(s) == 0 {
        xorshift_is_injective(s, 0);
    }
}

} // verus!
