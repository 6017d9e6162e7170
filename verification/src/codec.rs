//! The fixed-point codec: signed quantized integers to field elements and
//! back. A real number `r` is held as the integer `r * 2^16`.

use crate::error::CircuitError;
use crate::field::{
    is_inverse, lemma_inverse_unique, modulus, FieldElement, MODULUS_L0, MODULUS_L1, MODULUS_L2,
    MODULUS_L3,
};
use vstd::prelude::*;

verus! {

/// Number of fractional bits of a scaled value.
pub const FRAC_BITS: u32 = 16;

/// The scale `2^16` that every quantized value carries.
pub const SCALE: u64 = 0x1_0000;

/// Largest magnitude that the codec accepts: `2^47`, which leaves room for
/// one product of two values and one rescale.
pub const MAX_SAFE: i128 = 0x8000_0000_0000;

/// Whether the codec accepts `v`.
pub open spec fn in_safe_range(v: int) -> bool {
    -MAX_SAFE <= v <= MAX_SAFE
}

/// The field element that stands for the signed integer `v`: `v` itself
/// where it is not negative, and `p - |v|` where it is.
pub open spec fn encode_spec(v: int) -> nat {
    if v >= 0 {
        v as nat
    } else {
        (modulus() - (-v)) as nat
    }
}

/// The signed integer that a field element stands for, where it stands for
/// one in the safe range.
pub open spec fn decode_spec(n: nat) -> Option<int> {
    if n <= MAX_SAFE {
        Some(n as int)
    } else if modulus() - MAX_SAFE <= n < modulus() {
        Some(n - modulus())
    } else {
        None
    }
}

/// The inverse of the scale in the field. The modulus is one more than a
/// multiple of `2^32`, so `2^16 * (p - (p - 1) / 2^16)` is one more than a
/// multiple of `p`.
pub open spec fn scale_inverse() -> nat {
    (modulus() - (modulus() - 1) / 0x1_0000) as nat
}

/// The inverse of the squared scale `2^32` in the field.
pub open spec fn scale_squared_inverse() -> nat {
    (modulus() - (modulus() - 1) / 0x1_0000_0000) as nat
}

/// The two closed forms are the inverses that they are named after.
pub proof fn lemma_scale_inverses()
    ensures
        is_inverse(SCALE as nat, scale_inverse()),
        is_inverse((SCALE * SCALE) as nat, scale_squared_inverse()),
{
    assert(0x1_0000 * scale_inverse() == 0xffff * modulus() + 1);
    assert(0x1_0000_0000 * scale_squared_inverse() == 0xffff_ffff * modulus() + 1);
}

/// The scale as a field element.
pub fn scale_element() -> (r: FieldElement)
    ensures
        r.value() == SCALE,
{
    FieldElement::from_u64(SCALE)
}

/// Division by the scale: multiplication by the scale's inverse.
pub fn rescale(a: &FieldElement) -> (r: FieldElement)
    ensures
        r.value() == (a.value() * scale_inverse()) % modulus(),
{
    let inverse = scale_element().invert().unwrap();
    proof {
        lemma_scale_inverses();
        lemma_inverse_unique(SCALE as nat, inverse.value(), scale_inverse());
    }
    a.times(&inverse)
}

/// Division by the squared scale.
pub fn rescale_twice(a: &FieldElement) -> (r: FieldElement)
    ensures
        r.value() == (a.value() * scale_squared_inverse()) % modulus(),
{
    let scale = scale_element();
    let inverse = scale.times(&scale).invert().unwrap();
    proof {
        lemma_scale_inverses();
        lemma_inverse_unique((SCALE * SCALE) as nat, inverse.value(), scale_squared_inverse());
    }
    a.times(&inverse)
}

/// Encodes a quantized value. Magnitudes above `MAX_SAFE` are refused.
pub fn fr_from_qi128(x: i128) -> (r: Result<FieldElement, CircuitError>)
    ensures
        in_safe_range(x as int) <==> r is Ok,
        r is Ok ==> r->Ok_0.value() == encode_spec(x as int),
        r is Err ==> r->Err_0 == CircuitError::Encoding,
{
    if x > MAX_SAFE || x < -MAX_SAFE {
        Err(CircuitError::Encoding)
    } else if x >= 0 {
        Ok(FieldElement::from_u64(x as u64))
    } else {
        let magnitude: u64 = (-x) as u64;
        Ok(
            FieldElement::from_reduced_limbs(
                MODULUS_L0 - magnitude,
                MODULUS_L1,
                MODULUS_L2,
                MODULUS_L3,
            ),
        )
    }
}

/// Encodes a 64-bit quantized value.
pub fn to_fr_q16(v: i64) -> (r: Result<FieldElement, CircuitError>)
    ensures
        in_safe_range(v as int) <==> r is Ok,
        r is Ok ==> r->Ok_0.value() == encode_spec(v as int),
        r is Err ==> r->Err_0 == CircuitError::Encoding,
{
    fr_from_qi128(v as i128)
}

/// Decodes a field element that stands for a value in the safe range.
pub fn decode(e: &FieldElement) -> (r: Option<i128>)
    ensures
        r is Some <==> decode_spec(e.value()) is Some,
        r is Some ==> r->0 as int == decode_spec(e.value())->0,
{
    proof {
        use_type_invariant(e);
    }
    let l = e.limbs();
    if l[1] == 0 && l[2] == 0 && l[3] == 0 && l[0] <= 0x8000_0000_0000 {
        Some(l[0] as i128)
    } else if l[3] == MODULUS_L3 && l[2] == MODULUS_L2 && l[1] == MODULUS_L1 && l[0] < MODULUS_L0
        && MODULUS_L0 - l[0] <= 0x8000_0000_0000 {
        let magnitude: u64 = MODULUS_L0 - l[0];
        Some(-(magnitude as i128))
    } else {
        None
    }
}

/// Encoding is reduction modulo `p`.
pub proof fn lemma_encode_is_reduction(v: int)
    requires
        in_safe_range(v),
    ensures
        encode_spec(v) == v % (modulus() as int),
{
}

/// A value and its negation encode to elements that sum to zero: the
/// negation's element is `p` less the value's.
pub proof fn lemma_encode_negation(v: int)
    requires
        0 < v <= MAX_SAFE,
    ensures
        encode_spec(-v) == modulus() - encode_spec(v),
        (encode_spec(v) + encode_spec(-v)) % modulus() == 0,
{
}

/// Distinct values in the safe range encode to distinct elements.
pub proof fn lemma_encode_injective(a: int, b: int)
    requires
        in_safe_range(a),
        in_safe_range(b),
        encode_spec(a) == encode_spec(b),
    ensures
        a == b,
{
}

/// Decoding undoes encoding on the safe range.
pub proof fn lemma_decode_encode(v: int)
    requires
        in_safe_range(v),
    ensures
        decode_spec(encode_spec(v)) == Some(v),
{
}

/// What decodes to a value is that value's encoding.
pub proof fn lemma_encode_decode(n: nat)
    requires
        decode_spec(n) is Some,
    ensures
        in_safe_range(decode_spec(n)->0),
        encode_spec(decode_spec(n)->0) == n,
{
}

} // verus!
