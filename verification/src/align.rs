//! Alignment of heap offsets to a power-of-two boundary.

use vstd::arithmetic::div_mod::{lemma_fundamental_div_mod, lemma_fundamental_div_mod_converse};
use vstd::arithmetic::power2::pow2;
use vstd::bits::{lemma_u64_pow2_no_overflow, lemma_u64_shl_is_mul};
use vstd::prelude::*;

verus! {

/// The least multiple of `pow2(pow)` that is at least `number`.
pub open spec fn spec_align_up(number: nat, pow: nat) -> nat {
    if number % pow2(pow) == 0 {
        number
    } else {
        (number + pow2(pow) - number % pow2(pow)) as nat
    }
}

/// `spec_align_up(n, k)` is the least multiple of `pow2(k)` that is `>= n`.
pub proof fn lemma_align_up_is_least(n: nat, k: nat)
    ensures
        spec_align_up(n, k) % pow2(k) == 0,
        n <= spec_align_up(n, k) < n + pow2(k),
        forall|m: nat| (#[trigger] (m % pow2(k))) == 0 && n <= m ==> spec_align_up(n, k) <= m,
{
    vstd::arithmetic::power2::lemma_pow2_pos(k);
    let p = pow2(k) as int;
    let r = spec_align_up(n, k) as int;
    lemma_fundamental_div_mod(n as int, p);
    if n % pow2(k) == 0 {
        assert(r % p == 0);
    } else {
        assert(r == p * (n as int / p) + p);
        assert(r == p * (n as int / p + 1)) by (nonlinear_arith)
            requires r == p * (n as int / p) + p;
        assert(r % p == 0) by (nonlinear_arith)
            requires r == p * (n as int / p + 1), p > 0;
    }
    assert forall|m: nat| (#[trigger] (m % pow2(k))) == 0 && n <= m implies spec_align_up(n, k)
        <= m by {
        if m < spec_align_up(n, k) {
            lemma_fundamental_div_mod(m as int, p);
            let q = m as int / p;
            let nq = n as int / p;
            assert(m == p * q);
            assert(r == p * nq + if n % pow2(k) == 0 { 0int } else { p });
            if n % pow2(k) == 0 {
                assert(p * q < p * nq);
                assert(q < nq) by (nonlinear_arith)
                    requires p * q < p * nq, p > 0;
                assert(p * q <= p * (nq - 1)) by (nonlinear_arith)
                    requires q <= nq - 1, p > 0;
                assert(false);
            } else {
                assert(p * q < p * nq + p);
                assert(q < nq + 1) by (nonlinear_arith)
                    requires p * q < p * (nq + 1), p > 0;
                assert(p * q <= p * nq) by (nonlinear_arith)
                    requires q <= nq, p > 0;
                assert(m < n);
                assert(false);
            }
        }
    }
}

/// Round `number` up to the next multiple of `1 << pow`.
pub fn next_number_divisible_by_pow2(number: u64, pow: u64) -> (r: u64)
    requires
        pow < 64,
        number + pow2(pow as nat) <= u64::MAX,
    ensures
        r == spec_align_up(number as nat, pow as nat),
{
    proof {
        lemma_u64_pow2_no_overflow(pow as nat);
    }
    let ghost p = pow2(pow as nat) as int;
    let shifted = number >> pow;
    proof {
        vstd::bits::lemma_u64_shr_is_div(number, pow);
        lemma_fundamental_div_mod(number as int, p);
        assert(shifted == number as int / p);
        assert(p * (number as int / p) == number - number as int % p);
        vstd::arithmetic::div_mod::lemma_mod_bound(number as int, p);
        assert(shifted * p <= number) by (nonlinear_arith)
            requires
                p * (number as int / p) == number - number as int % p,
                shifted == number as int / p,
                number as int % p >= 0;
        lemma_u64_shl_is_mul(shifted, pow);
        lemma_u64_shl_is_mul(1u64, pow);
    }
    let n = shifted << pow;
    proof {
        assert(n == number - number as int % p);
        assert(number as int % p == (number as nat) % pow2(pow as nat));
    }
    if n == number {
        n
    } else {
        n + (1u64 << pow)
    }
}

} // verus!
