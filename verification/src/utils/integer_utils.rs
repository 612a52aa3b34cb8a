//! Euclidean greatest common divisor on machine integers.

use vstd::prelude::*;

verus! {

/// Mathematical greatest common divisor, by Euclid's rule.
pub open spec fn spec_gcd(a: nat, b: nat) -> nat
    decreases b,
{
    if b == 0 {
        a
    } else {
        spec_gcd(b, a % b)
    }
}

pub proof fn lemma_gcd_comm(a: nat, b: nat)
    ensures
        spec_gcd(a, b) == spec_gcd(b, a),
{
    if a == b {
    } else if b == 0 {
        vstd::arithmetic::div_mod::lemma_small_mod(0, a);
    } else if a == 0 {
        vstd::arithmetic::div_mod::lemma_small_mod(0, b);
    } else if a < b {
        vstd::arithmetic::div_mod::lemma_small_mod(a, b);
    } else {
        vstd::arithmetic::div_mod::lemma_small_mod(b, a);
    }
}

/// The gcd of a positive and a non-negative integer is positive.
pub proof fn lemma_gcd_pos(a: nat, b: nat)
    requires
        a > 0,
    ensures
        spec_gcd(a, b) > 0,
    decreases b,
{
    if b != 0 {
        vstd::arithmetic::div_mod::lemma_mod_bound(a as int, b as int);
        lemma_gcd_pos(b, a % b);
    }
}

/// The gcd divides both of its arguments.
pub proof fn lemma_gcd_divides(a: nat, b: nat)
    requires
        a > 0,
    ensures
        a % spec_gcd(a, b) == 0,
        b % spec_gcd(a, b) == 0,
    decreases b,
{
    lemma_gcd_pos(a, b);
    let g = spec_gcd(a, b);
    if b == 0 {
        assert(g == a);
        vstd::arithmetic::div_mod::lemma_mod_self_0(a as int);
        vstd::arithmetic::div_mod::lemma_small_mod(0, a);
    } else {
        vstd::arithmetic::div_mod::lemma_mod_bound(a as int, b as int);
        lemma_gcd_divides(b, a % b);
        let q = a as int / b as int;
        let r = a as int % b as int;
        vstd::arithmetic::div_mod::lemma_fundamental_div_mod(a as int, g as int);
        vstd::arithmetic::div_mod::lemma_fundamental_div_mod(a as int, b as int);
        vstd::arithmetic::div_mod::lemma_fundamental_div_mod(b as int, g as int);
        vstd::arithmetic::div_mod::lemma_fundamental_div_mod(r, g as int);
        let kb = b as int / g as int;
        let kr = r / g as int;
        assert(b as int == g as int * kb);
        assert(r == g as int * kr);
        assert(a as int == (q * kb + kr) * g as int) by (nonlinear_arith)
            requires
                a as int == b as int * q + r,
                b as int == g as int * kb,
                r == g as int * kr,
        ;
        vstd::arithmetic::div_mod::lemma_mod_multiples_basic(q * kb + kr, g as int);
    }
}

/// The gcd of two positive integers, by the swapping Euclidean loop.
pub fn gcd(n: i64, m: i64) -> (r: i64)
    requires
        n >= 1,
        m >= 0,
    ensures
        r == spec_gcd(n as nat, m as nat),
        r >= 1,
{
    let mut a: i64 = n;
    let mut b: i64 = m;
    while b != 0
        invariant
            a >= 1,
            b >= 0,
            spec_gcd(a as nat, b as nat) == spec_gcd(n as nat, m as nat),
        decreases a + b,
    {
        if b < a {
            let t = b;
            b = a;
            a = t;
            proof {
                lemma_gcd_comm(a as nat, b as nat);
            }
        }
        proof {
            lemma_gcd_comm(a as nat, b as nat);
            vstd::arithmetic::div_mod::lemma_mod_bound(b as int, a as int);
        }
        b = b % a;
    }
    proof {
        lemma_gcd_pos(n as nat, m as nat);
        lemma_gcd_comm(a as nat, 0);
    }
    a
}

} // verus!
