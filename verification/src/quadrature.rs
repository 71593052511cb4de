//! The grid on which quadrature rules are compared.

use vstd::prelude::*;

verus! {

/// The number of grid points: the exponents run from 1 to 7.
pub const GRID_POINTS: usize = 7;

/// Ten to the power `k`.
pub open spec fn power_of_ten(k: nat) -> nat
    decreases k,
{
    if k == 0 {
        1
    } else {
        10 * power_of_ten((k - 1) as nat)
    }
}

/// The powers of ten up to the seventh, the largest that the grid reaches.
pub proof fn lemma_powers_of_ten()
    ensures
        power_of_ten(0) == 1,
        power_of_ten(1) == 10,
        power_of_ten(2) == 100,
        power_of_ten(3) == 1_000,
        power_of_ten(4) == 10_000,
        power_of_ten(5) == 100_000,
        power_of_ten(6) == 1_000_000,
        power_of_ten(7) == 10_000_000,
{
    reveal_with_fuel(power_of_ten, 8);
}

/// The subdivision counts at which the quadrature rules are compared: the
/// powers of ten from `10` to `10^7`, in rising order.
pub fn task() -> (r: Vec<i32>)
    ensures
        r@.len() == GRID_POINTS,
        forall|i: int| 0 <= i < GRID_POINTS ==> r@[i] == power_of_ten((i + 1) as nat),
        r@ == seq![10i32, 100, 1_000, 10_000, 100_000, 1_000_000, 10_000_000],
{
    let mut counts: Vec<i32> = Vec::new();
    let mut power: i32 = 1;
    let mut k: usize = 0;
    proof {
        lemma_powers_of_ten();
    }
    while k < GRID_POINTS
        invariant
            k <= GRID_POINTS,
            counts@.len() == k,
            power == power_of_ten(k as nat),
            power <= 10_000_000,
            k < GRID_POINTS ==> power <= 1_000_000,
            forall|i: int| 0 <= i < k ==> counts@[i] == power_of_ten((i + 1) as nat),
        decreases GRID_POINTS - k,
    {
        proof {
            lemma_powers_of_ten();
        }
        power = power * 10;
        k = k + 1;
        counts.push(power);
    }
    proof {
        lemma_powers_of_ten();
        assert(counts@ =~= seq![10i32, 100, 1_000, 10_000, 100_000, 1_000_000, 10_000_000]);
    }
    counts
}

} // verus!
