//! The ids of players, competitions and scores.
use crate::error::joined3;
use crate::rnd::{gen_range, xorshift};
use crate::text::{decimal, decimal_is_digits, decimal_is_injective, decimal_text, split_is_unique};
use vstd::prelude::*;

verus! {

/// The numbers in ids are below this.
pub const ID_NUMBERS: usize = 1_000_000;

/// The id made of a time, in nanoseconds since the first id was wanted, and a number.
pub open spec fn id_text(nanos: nat, number: nat) -> Seq<char> {
    decimal(nanos) + "-"@ + decimal(number)
}

/// The number in the id that is dispensed when the generator comes to this state.
pub open spec fn id_number(state: usize) -> nat {
    (state % 999_999 + 1) as nat
}

/// Dispenses an id at `nanos` nanoseconds since the first one was wanted. It differs from every id
/// that was dispensed at another time or with another number; whether both ever come again is left
/// to the clock and to chance.
pub fn dispense_id(state: &mut usize, nanos: u128) -> (r: String)
    ensures
        r@ == id_text(nanos as nat, id_number(*final(state))),
        *old(state) != 0 ==> *final(state) == xorshift(*old(state)),
{
    let number: usize = gen_range(state, 1, ID_NUMBERS);
    let time = decimal_text(nanos);
    let tail = decimal_text(number as u128);
    joined3(time.as_str(), "-", tail.as_str())
}

/// Ids that are dispensed at different times, or with different numbers, are different.
pub proof fn ids_are_unique(nanos1: nat, number1: nat, nanos2: nat, number2: nat)
    requires
        nanos1 != nanos2 || number1 != number2,
    ensures
        id_text(nanos1, number1) != id_text(nanos2, number2),
{
    if id_text(nanos1, number1) == id_text(nanos2, number2) {
        reveal_strlit("-");
        decimal_is_digits(nanos1);
        decimal_is_digits(nanos2);
        let t1 = decimal(nanos1);
        let t2 = decimal(nanos2);
        assert(t1 + "-"@ =~= t1.push('-'));
        assert(t2 + "-"@ =~= t2.push('-'));
        split_is_unique(t1, decimal(number1), '-', t2, decimal(number2));
        decimal_is_injective(nanos1, nanos2);
        decimal_is_injective(number1, number2);
    }
}

/// The number in every id is at least one and below the limit.
pub proof fn id_number_is_in_range(state: usize)
    ensures
        1 <= id_number(state) < ID_NUMBERS,
{
}

} // verus!
