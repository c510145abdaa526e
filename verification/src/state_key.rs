//! Numbers that stand for states in tables.

use vstd::prelude::*;

verus! {

/// A state that a number can stand for, one number for each state.
pub trait StateKey: Sized {
    /// The number that stands for the state.
    spec fn key_spec(self) -> u128;

    fn key(&self) -> (k: u128)
        ensures
            k == self.key_spec(),
    ;

    /// Two states with one number are one state.
    proof fn lemma_key_injective(self, other: Self)
        requires
            self.key_spec() == other.key_spec(),
        ensures
            self == other,
    ;
}

/// One more digit below the digits of `high`, in base `base`.
pub open spec fn with_digit(high: int, base: int, digit: int) -> int {
    high * base + digit
}

/// A number and a digit are read back from the number they make.
pub proof fn lemma_with_digit_injective(h1: int, d1: int, h2: int, d2: int, base: int)
    requires
        base > 0,
        0 <= d1 < base,
        0 <= d2 < base,
        with_digit(h1, base, d1) == with_digit(h2, base, d2),
    ensures
        h1 == h2,
        d1 == d2,
{
    assert(h1 == h2) by (nonlinear_arith)
        requires
            base > 0,
            0 <= d1 < base,
            0 <= d2 < base,
            h1 * base + d1 == h2 * base + d2,
    ;
}

/// A digit below a number that is under `bound` gives a number under
/// `bound * base`.
pub proof fn lemma_with_digit_bound(high: int, base: int, digit: int, bound: int)
    requires
        0 <= high < bound,
        0 <= digit < base,
    ensures
        0 <= with_digit(high, base, digit) < bound * base,
{
    assert(0 <= high * base + digit < bound * base) by (nonlinear_arith)
        requires
            0 <= high < bound,
            0 <= digit < base,
    ;
}

/// `base` to the power `n`.
pub open spec fn pow(n: nat, base: int) -> int
    decreases n,
{
    if n == 0 {
        1
    } else {
        pow((n - 1) as nat, base) * base
    }
}

/// The powers that bound the keys of the states.
pub proof fn lemma_pow_values()
    ensures
        pow(12, 2) == 4096,
        pow(8, 3) == 6561,
        pow(12, 12) == 8916100448256,
        pow(8, 8) == 16777216,
{
    reveal_with_fuel(pow, 13);
    assert(pow(12, 2) == 4096) by {
        assert(pow(4, 2) == 16);
        assert(pow(8, 2) == 256);
    }
    assert(pow(8, 3) == 6561) by {
        assert(pow(4, 3) == 81);
    }
    assert(pow(8, 8) == 16777216) by {
        assert(pow(4, 8) == 4096);
    }
    assert(pow(12, 12) == 8916100448256) by {
        assert(pow(4, 12) == 20736);
        assert(pow(8, 12) == 429981696);
    }
}

} // verus!
