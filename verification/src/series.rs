//! Integer helpers for truncated power series.

use vstd::prelude::*;

verus! {

/// The product `1 * 2 * ... * n`, with the empty product for `n == 0`.
pub open spec fn factorial_of(n: nat) -> nat
    decreases n,
{
    if n == 0 {
        1
    } else {
        n * factorial_of((n - 1) as nat)
    }
}

/// The largest argument whose factorial fits in 128 bits.
pub const LARGEST_FACTORIAL_ARGUMENT: u128 = 34;

/// Factorials are positive.
pub proof fn lemma_factorial_positive(n: nat)
    ensures
        factorial_of(n) >= 1,
    decreases n,
{
    if n > 0 {
        lemma_factorial_positive((n - 1) as nat);
        assert(n * factorial_of((n - 1) as nat) >= 1) by (nonlinear_arith)
            requires
                n >= 1,
                factorial_of((n - 1) as nat) >= 1,
        ;
    }
}

/// Factorials never decrease as the argument grows.
pub proof fn lemma_factorial_monotonic(i: nat, j: nat)
    requires
        i <= j,
    ensures
        factorial_of(i) <= factorial_of(j),
    decreases j,
{
    if i < j {
        lemma_factorial_monotonic(i, (j - 1) as nat);
        lemma_factorial_positive((j - 1) as nat);
        assert(j * factorial_of((j - 1) as nat) >= factorial_of((j - 1) as nat))
            by (nonlinear_arith)
            requires
                j >= 1,
                factorial_of((j - 1) as nat) >= 1,
        ;
    }
}

/// The factorial of 34 is the last one below `2^128`.
pub proof fn lemma_factorial_limit()
    ensures
        factorial_of(34) == 295232799039604140847618609643520000000,
        factorial_of(34) <= u128::MAX,
        factorial_of(35) > u128::MAX,
{
    assert(factorial_of(0) == 1);
    assert(factorial_of(1) == 1 * factorial_of(0) == 1);
    assert(factorial_of(2) == 2 * factorial_of(1) == 2);
    assert(factorial_of(3) == 3 * factorial_of(2) == 6);
    assert(factorial_of(4) == 4 * factorial_of(3) == 24);
    assert(factorial_of(5) == 5 * factorial_of(4) == 120);
    assert(factorial_of(6) == 6 * factorial_of(5) == 720);
    assert(factorial_of(7) == 7 * factorial_of(6) == 5040);
    assert(factorial_of(8) == 8 * factorial_of(7) == 40320);
    assert(factorial_of(9) == 9 * factorial_of(8) == 362880);
    assert(factorial_of(10) == 10 * factorial_of(9) == 3628800);
    assert(factorial_of(11) == 11 * factorial_of(10) == 39916800);
    assert(factorial_of(12) == 12 * factorial_of(11) == 479001600);
    assert(factorial_of(13) == 13 * factorial_of(12) == 6227020800);
    assert(factorial_of(14) == 14 * factorial_of(13) == 87178291200);
    assert(factorial_of(15) == 15 * factorial_of(14) == 1307674368000);
    assert(factorial_of(16) == 16 * factorial_of(15) == 20922789888000);
    assert(factorial_of(17) == 17 * factorial_of(16) == 355687428096000);
    assert(factorial_of(18) == 18 * factorial_of(17) == 6402373705728000);
    assert(factorial_of(19) == 19 * factorial_of(18) == 121645100408832000);
    assert(factorial_of(20) == 20 * factorial_of(19) == 2432902008176640000);
    assert(factorial_of(21) == 21 * factorial_of(20) == 51090942171709440000);
    assert(factorial_of(22) == 22 * factorial_of(21) == 1124000727777607680000);
    assert(factorial_of(23) == 23 * factorial_of(22) == 25852016738884976640000);
    assert(factorial_of(24) == 24 * factorial_of(23) == 620448401733239439360000);
    assert(factorial_of(25) == 25 * factorial_of(24) == 15511210043330985984000000);
    assert(factorial_of(26) == 26 * factorial_of(25) == 403291461126605635584000000);
    assert(factorial_of(27) == 27 * factorial_of(26) == 10888869450418352160768000000);
    assert(factorial_of(28) == 28 * factorial_of(27) == 304888344611713860501504000000);
    assert(factorial_of(29) == 29 * factorial_of(28) == 8841761993739701954543616000000);
    assert(factorial_of(30) == 30 * factorial_of(29) == 265252859812191058636308480000000);
    assert(factorial_of(31) == 31 * factorial_of(30) == 8222838654177922817725562880000000);
    assert(factorial_of(32) == 32 * factorial_of(31) == 263130836933693530167218012160000000);
    assert(factorial_of(33) == 33 * factorial_of(32) == 8683317618811886495518194401280000000);
    assert(factorial_of(34) == 34 * factorial_of(33) == 295232799039604140847618609643520000000);
    assert(factorial_of(35) == 35 * factorial_of(34) == 10333147966386144929666651337523200000000);
}

/// A factorial fits in 128 bits exactly when its argument is at most 34.
pub proof fn lemma_factorial_fits(n: nat)
    ensures
        factorial_of(n) <= u128::MAX <==> n <= LARGEST_FACTORIAL_ARGUMENT,
{
    lemma_factorial_limit();
    if n <= 34 {
        lemma_factorial_monotonic(n, 34);
    } else {
        lemma_factorial_monotonic(35, n);
    }
}

/// The factorial of `n`, or `None` when it does not fit in 128 bits.
///
/// The product is built upwards and abandoned at the first factor that
/// overflows, so the work is bounded whatever `n` is.
pub fn factorial(n: u128) -> (r: Option<u128>)
    ensures
        r == if factorial_of(n as nat) <= u128::MAX {
            Some(factorial_of(n as nat) as u128)
        } else {
            None
        },
        r is Some <==> n <= LARGEST_FACTORIAL_ARGUMENT,
{
    proof {
        lemma_factorial_fits(n as nat);
    }
    let mut product: u128 = 1;
    let mut i: u128 = 0;
    while i < n
        invariant
            i <= n,
            product == factorial_of(i as nat),
        decreases n - i,
    {
        i = i + 1;
        assert(product * i == factorial_of(i as nat)) by (nonlinear_arith)
            requires
                i >= 1,
                product == factorial_of((i - 1) as nat),
                factorial_of(i as nat) == i * factorial_of((i - 1) as nat),
        ;
        match product.checked_mul(i) {
            Some(next) => {
                product = next;
            },
            None => {
                proof {
                    lemma_factorial_monotonic(i as nat, n as nat);
                    lemma_factorial_fits(n as nat);
                }
                return None;
            },
        }
    }
    Some(product)
}

} // verus!
