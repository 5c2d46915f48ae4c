//! Powers of two.
use vstd::arithmetic::power2::{lemma2_to64, lemma_pow2_pos, lemma_pow2_unfold, pow2};
use vstd::prelude::*;

verus! {

/// `n` is a power of two.
pub open spec fn power_of_two(n: int) -> bool {
    exists|k: nat| #[trigger] pow2(k) == n
}

proof fn powers_are_positive(n: int)
    requires
        power_of_two(n),
    ensures
        n > 0,
{
    let k = choose|k: nat| #[trigger] pow2(k) == n;
    lemma_pow2_pos(k);
}

proof fn one_is_a_power()
    ensures
        power_of_two(1),
{
    lemma2_to64();
    assert(pow2(0) == 1);
}

/// Doubling keeps and reflects being a power of two.
proof fn doubling_is_a_power(n: int)
    requires
        n > 0,
    ensures
        power_of_two(2 * n) == power_of_two(n),
{
    if power_of_two(n) {
        let k = choose|k: nat| #[trigger] pow2(k) == n;
        lemma_pow2_unfold(k + 1);
        assert(pow2(k + 1) == 2 * n);
    }
    if power_of_two(2 * n) {
        let k = choose|k: nat| #[trigger] pow2(k) == 2 * n;
        lemma2_to64();
        assert(k > 0);
        lemma_pow2_unfold(k);
        assert(pow2((k - 1) as nat) == n);
    }
}

/// Every power of two but one is even.
proof fn odd_powers(n: int)
    requires
        n % 2 == 1,
        power_of_two(n),
    ensures
        n == 1,
{
    let k = choose|k: nat| #[trigger] pow2(k) == n;
    lemma2_to64();
    if k > 0 {
        lemma_pow2_unfold(k);
    }
}

/// Returns whether `n` is a power of two.
pub fn is_power_of_two(n: u64) -> (result: bool)
    ensures
        result == power_of_two(n as int),
{
    if n == 0 {
        proof {
            if power_of_two(0) {
                powers_are_positive(0);
            }
        }
        return false;
    }
    let mut odd: u64 = n;
    while odd % 2 == 0
        invariant
            odd > 0,
            power_of_two(odd as int) == power_of_two(n as int),
        decreases odd,
    {
        proof {
            doubling_is_a_power(odd as int / 2);
        }
        odd = odd / 2;
    }
    proof {
        one_is_a_power();
        if power_of_two(odd as int) {
            odd_powers(odd as int);
        }
    }
    odd == 1
}

} // verus!
