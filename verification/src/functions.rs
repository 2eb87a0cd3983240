//! Integer helpers of the built-in functions.
use vstd::prelude::*;
use vstd::arithmetic::div_mod::{lemma_fundamental_div_mod, lemma_mod_multiples_basic};
use crate::error::CalcError;
use crate::text::{concat_str, decimal_string, decimal_text};

verus! {

/// `d` divides `n` (only 0 is divided by 0).
pub open spec fn divides(d: nat, n: nat) -> bool {
    if d == 0 {
        n == 0
    } else {
        n % d == 0
    }
}

proof fn lemma_divides_via_remainder(a: int, b: int, d: int)
    requires
        d > 0,
        b > 0,
        a >= 0,
        b % d == 0,
        (a % b) % d == 0,
    ensures
        a % d == 0,
{
    lemma_fundamental_div_mod(a, b);
    lemma_fundamental_div_mod(b, d);
    lemma_fundamental_div_mod(a % b, d);
    let k = (b / d) * (a / b) + (a % b) / d;
    assert(a == k * d) by (nonlinear_arith)
        requires
            a == b * (a / b) + a % b,
            b == d * (b / d) + b % d,
            b % d == 0,
            a % b == d * ((a % b) / d) + (a % b) % d,
            (a % b) % d == 0,
            k == (b / d) * (a / b) + (a % b) / d,
    ;
    lemma_mod_multiples_basic(k, d);
}

proof fn lemma_remainder_divisible(a: int, b: int, d: int)
    requires
        d > 0,
        b > 0,
        a >= 0,
        a % d == 0,
        b % d == 0,
    ensures
        (a % b) % d == 0,
{
    lemma_fundamental_div_mod(a, b);
    lemma_fundamental_div_mod(a, d);
    lemma_fundamental_div_mod(b, d);
    let k = a / d - (b / d) * (a / b);
    assert(a % b == k * d) by (nonlinear_arith)
        requires
            a == b * (a / b) + a % b,
            a == d * (a / d) + a % d,
            a % d == 0,
            b == d * (b / d) + b % d,
            b % d == 0,
            k == a / d - (b / d) * (a / b),
    ;
    lemma_mod_multiples_basic(k, d);
}

/// The greatest common divisor of `a` and `b` (0 for two zeros): it divides
/// both, and every common divisor divides it.
pub fn gcd(a: u64, b: u64) -> (r: u64)
    ensures
        divides(r as nat, a as nat),
        divides(r as nat, b as nat),
        forall|d: nat| divides(d, a as nat) && divides(d, b as nat) ==> divides(d, r as nat),
    decreases b,
{
    if b == 0 {
        a
    } else {
        let r = gcd(b, a % b);
        proof {
            if r == 0 {
                assert(b == 0);
            }
            lemma_divides_via_remainder(a as int, b as int, r as int);
            assert forall|d: nat| divides(d, a as nat) && divides(d, b as nat) implies divides(
                d,
                r as nat,
            ) by {
                if d > 0 {
                    lemma_remainder_divisible(a as int, b as int, d as int);
                }
            }
        }
        r
    }
}

/// The error for a function called with the wrong number of arguments:
/// `NAME expects N argument(s), got M`.
pub open spec fn arity_message(name: Seq<char>, expected: nat, got: nat) -> Seq<char> {
    name + " expects "@ + decimal_text(expected) + (if expected == 1 {
        " argument, got "@
    } else {
        " arguments, got "@
    }) + decimal_text(got)
}

/// The evaluation error for `name` called with `got` arguments instead of `expected`.
pub fn arity_error(name: &str, expected: usize, got: usize) -> (e: CalcError)
    ensures
        e@.message == arity_message(name@, expected as nat, got as nat),
        e@.line == 0 && e@.col == 0,
{
    let mut m = concat_str(name, " expects ");
    m.append(decimal_string(expected).as_str());
    if expected == 1 {
        m.append(" argument, got ");
    } else {
        m.append(" arguments, got ");
    }
    m.append(decimal_string(got).as_str());
    CalcError::eval(m)
}

} // verus!
