//! The cubic approximation of the logistic sigmoid around zero,
//! `1/2 + x/4 - x^3/48`, evaluated on scaled values in the field.

use crate::codec::{
    encode_spec, fr_from_qi128, rescale, rescale_twice, scale_inverse, scale_squared_inverse,
};
use crate::field::{lemma_mul_mod_chain, lemma_mul_mod_shift, modulus, FieldElement};
use vstd::arithmetic::div_mod::{lemma_add_mod_noop, lemma_mul_mod_noop_right};
use vstd::prelude::*;

verus! {

/// One half at scale `2^16`.
pub const C0: i128 = 32768;

/// One quarter at scale `2^16`.
pub const C1: i128 = 16384;

/// `-1/48` at scale `2^16`, rounded to the nearest integer.
pub const C3: i128 = -1365;

/// The approximated sigmoid of the scaled value `acc`:
/// `c0 + (c1 * acc) / 2^16 + (c3 * acc^3) / 2^32`, each division being a
/// multiplication by the divisor's inverse in the field.
pub open spec fn sigmoid_spec(acc: nat) -> nat {
    ((C0 + C1 * acc * scale_inverse() + C3 * (acc * acc * acc) * scale_squared_inverse()) % (
    modulus() as int)) as nat
}

/// The linear and the cubic term of the polynomial, reduced one
/// multiplication at a time, are congruent to the unreduced terms.
proof fn lemma_sigmoid_terms(x: int, term1: int, term3: int)
    requires
        0 <= x,
        term1 == (((C1 * x) % (modulus() as int)) * scale_inverse()) % (modulus() as int),
        term3 == (((encode_spec(C3 as int) * (((x * x) % (modulus() as int)) * x % (
        modulus() as int))) % (modulus() as int)) * scale_squared_inverse()) % (modulus() as int),
    ensures
        term1 == (C1 * x * scale_inverse()) % (modulus() as int),
        term3 == (C3 * (x * x * x) * scale_squared_inverse()) % (modulus() as int),
{
    let p = modulus() as int;
    let si = scale_inverse() as int;
    let sq = scale_squared_inverse() as int;
    let c3 = encode_spec(C3 as int) as int;
    let cube = x * x * x;
    lemma_mul_mod_chain(C1 as int, x, si, p);
    lemma_mul_mod_chain(x, x, x, p);
    let cube_reduced = ((x * x) % p) * x % p;
    assert(cube_reduced == cube % p);
    // (c3 * (cube % p)) % p == (c3 * cube) % p
    lemma_mul_mod_noop_right(c3, cube, p);
    lemma_mul_mod_chain(c3, cube, sq, p);
    assert(term3 == (c3 * cube * sq) % p);
    assert(c3 == p + C3);
    lemma_mul_mod_shift(C3 as int, cube * sq, p);
    assert(c3 * cube * sq == (p + C3) * (cube * sq)) by (nonlinear_arith)
        requires
            c3 == p + C3,
    ;
    assert(C3 * cube * sq == C3 * (cube * sq)) by (nonlinear_arith);
}

/// Evaluates the approximation on a scaled accumulator.
pub fn sigmoid_poly(x: &FieldElement) -> (r: FieldElement)
    ensures
        r.value() == sigmoid_spec(x.value()),
{
    let c0 = fr_from_qi128(C0).unwrap();
    let c1 = fr_from_qi128(C1).unwrap();
    let c3 = fr_from_qi128(C3).unwrap();
    let x2 = x.times(x);
    let x3 = x2.times(x);
    let term1 = rescale(&c1.times(x));
    let term3 = rescale_twice(&c3.times(&x3));
    let r = c0.plus(&term1).plus(&term3);
    proof {
        let p = modulus() as int;
        let v = x.value() as int;
        lemma_sigmoid_terms(v, term1.value() as int, term3.value() as int);
        let t1 = C1 * v * scale_inverse();
        let t3 = C3 * (v * v * v) * scale_squared_inverse();
        // r == ((c0 + t1 % p) % p + t3 % p) % p
        lemma_add_mod_noop(C0 as int, t1, p);
        lemma_add_mod_noop(C0 + t1, t3, p);
        lemma_add_mod_noop((C0 + t1 % p) % p, t3 % p, p);
        lemma_add_mod_noop(C0 + t1 % p, t3, p);
    }
    r
}

} // verus!
