//! Elements of the Pallas base field, held as four little-endian 64-bit
//! limbs of the canonical representative.

use halo2_proofs::pasta::group::ff::{Field, PrimeField};
use halo2_proofs::pasta::Fp;
use vstd::arithmetic::div_mod::{
    lemma_mod_multiples_vanish, lemma_mul_mod_noop_left, lemma_mul_mod_noop_right,
};
use vstd::arithmetic::power::pow;
use vstd::prelude::*;

verus! {

/// Lowest limb of the field modulus.
pub const MODULUS_L0: u64 = 0x992d30ed00000001;

/// Second limb of the field modulus.
pub const MODULUS_L1: u64 = 0x224698fc094cf91b;

/// Third limb of the field modulus.
pub const MODULUS_L2: u64 = 0;

/// Highest limb of the field modulus.
pub const MODULUS_L3: u64 = 0x4000000000000000;

/// The prime `p` of the field.
pub open spec fn modulus() -> nat {
    0x40000000000000000000000000000000224698fc094cf91b992d30ed00000001nat
}

/// The number that four little-endian 64-bit limbs spell.
pub open spec fn limbs_value(l0: u64, l1: u64, l2: u64, l3: u64) -> nat {
    (l0 as nat) + (l1 as nat) * 0x1_0000_0000_0000_0000nat + (l2 as nat)
        * 0x1_0000_0000_0000_0000_0000_0000_0000_0000nat + (l3 as nat)
        * 0x1_0000_0000_0000_0000_0000_0000_0000_0000_0000_0000_0000_0000nat
}

/// Limbs spell their number in one way only.
pub proof fn lemma_limbs_value_injective(
    a0: u64,
    a1: u64,
    a2: u64,
    a3: u64,
    b0: u64,
    b1: u64,
    b2: u64,
    b3: u64,
)
    requires
        limbs_value(a0, a1, a2, a3) == limbs_value(b0, b1, b2, b3),
    ensures
        a0 == b0,
        a1 == b1,
        a2 == b2,
        a3 == b3,
{
    let w = 0x1_0000_0000_0000_0000int;
    let ra = a1 + a2 * w + a3 * (w * w);
    let rb = b1 + b2 * w + b3 * (w * w);
    assert(w * w == 0x1_0000_0000_0000_0000_0000_0000_0000_0000int);
    assert(w * (w * w) == 0x1_0000_0000_0000_0000_0000_0000_0000_0000_0000_0000_0000_0000int);
    assert(limbs_value(a0, a1, a2, a3) == a0 + w * ra) by (nonlinear_arith)
        requires
            ra == a1 + a2 * w + a3 * (w * w),
            limbs_value(a0, a1, a2, a3) == a0 + a1 * w + a2 * (w * w) + a3 * (w * (w * w)),
    ;
    assert(limbs_value(b0, b1, b2, b3) == b0 + w * rb) by (nonlinear_arith)
        requires
            rb == b1 + b2 * w + b3 * (w * w),
            limbs_value(b0, b1, b2, b3) == b0 + b1 * w + b2 * (w * w) + b3 * (w * (w * w)),
    ;
    lemma_digit_split(a0 as int, ra, b0 as int, rb);
    let sa = a2 + a3 * w;
    let sb = b2 + b3 * w;
    assert(ra == a1 + w * sa) by (nonlinear_arith)
        requires
            ra == a1 + a2 * w + a3 * (w * w),
            sa == a2 + a3 * w,
    ;
    assert(rb == b1 + w * sb) by (nonlinear_arith)
        requires
            rb == b1 + b2 * w + b3 * (w * w),
            sb == b2 + b3 * w,
    ;
    lemma_digit_split(a1 as int, sa, b1 as int, sb);
    assert(sa == a2 + w * a3) by (nonlinear_arith)
        requires
            sa == a2 + a3 * w,
    ;
    assert(sb == b2 + w * b3) by (nonlinear_arith)
        requires
            sb == b2 + b3 * w,
    ;
    lemma_digit_split(a2 as int, a3 as int, b2 as int, b3 as int);
}

/// A lowest digit in base 2^64 and what stands above it are determined by
/// the number.
proof fn lemma_digit_split(a: int, ra: int, b: int, rb: int)
    requires
        0 <= a < 0x1_0000_0000_0000_0000,
        0 <= b < 0x1_0000_0000_0000_0000,
        a + 0x1_0000_0000_0000_0000 * ra == b + 0x1_0000_0000_0000_0000 * rb,
    ensures
        a == b,
        ra == rb,
{
}

/// The number that the eight bytes of `s` from index `at` on spell, lowest
/// byte first.
pub open spec fn le_u64(s: Seq<u8>, at: int) -> nat {
    (s[at] as nat) + (s[at + 1] as nat) * 0x100nat + (s[at + 2] as nat) * 0x1_0000nat + (s[at
        + 3] as nat) * 0x100_0000nat + (s[at + 4] as nat) * 0x1_0000_0000nat + (s[at + 5] as nat)
        * 0x100_0000_0000nat + (s[at + 6] as nat) * 0x1_0000_0000_0000nat + (s[at + 7] as nat)
        * 0x100_0000_0000_0000nat
}

/// The number that 32 bytes spell, lowest byte first.
pub open spec fn repr_value(s: Seq<u8>) -> nat {
    le_u64(s, 0) + le_u64(s, 8) * 0x1_0000_0000_0000_0000nat + le_u64(s, 16)
        * 0x1_0000_0000_0000_0000_0000_0000_0000_0000nat + le_u64(s, 24)
        * 0x1_0000_0000_0000_0000_0000_0000_0000_0000_0000_0000_0000_0000nat
}

/// Whether `x` is the multiplicative inverse of `a` in the field.
pub open spec fn is_inverse(a: nat, x: nat) -> bool {
    x < modulus() && (a * x) % modulus() == 1
}

/// An element has at most one inverse.
pub proof fn lemma_inverse_unique(a: nat, x: nat, y: nat)
    requires
        is_inverse(a, x),
        is_inverse(a, y),
    ensures
        x == y,
{
    let p = modulus() as int;
    lemma_mul_mod_noop_right(x as int, (a * y) as int, p);
    lemma_mul_mod_noop_right(y as int, (a * x) as int, p);
    assert(x * (a * y) == y * (a * x)) by (nonlinear_arith);
}

/// Reducing a product before a further multiplication changes nothing
/// modulo `m`.
pub proof fn lemma_mul_mod_chain(a: int, b: int, c: int, m: int)
    requires
        0 < m,
    ensures
        (((a * b) % m) * c) % m == (a * b * c) % m,
        (c * ((a * b) % m)) % m == (c * (a * b)) % m,
{
    lemma_mul_mod_noop_left(a * b, c, m);
    lemma_mul_mod_noop_right(c, a * b, m);
}

/// A factor may be shifted by the modulus.
pub proof fn lemma_mul_mod_shift(a: int, b: int, m: int)
    requires
        0 < m,
    ensures
        ((m + a) * b) % m == (a * b) % m,
{
    assert((m + a) * b == m * b + a * b) by (nonlinear_arith);
    lemma_mod_multiples_vanish(b, a * b, m);
}

/// Field addition, by `Add` of `pasta_curves::Fp`. The operands enter
/// through `Fp::from_raw`, which reduces, and the sum leaves through
/// `PrimeField::to_repr`, the canonical little-endian bytes: they spell the
/// sum of the two numbers modulo `p`.
#[verifier::external_body]
fn fp_add_repr(a: &FieldElement, b: &FieldElement) -> (r: [u8; 32])
    ensures
        repr_value(r@) == (a.value() + b.value()) % modulus(),
{
    (Fp::from_raw([a.l0, a.l1, a.l2, a.l3]) + Fp::from_raw([b.l0, b.l1, b.l2, b.l3])).to_repr()
}

/// Field subtraction, by `Sub` of `pasta_curves::Fp`: the bytes spell the
/// difference of the two numbers modulo `p`, a number in `[0, p)`.
#[verifier::external_body]
fn fp_sub_repr(a: &FieldElement, b: &FieldElement) -> (r: [u8; 32])
    ensures
        repr_value(r@) == (a.value() - b.value()) % (modulus() as int),
{
    (Fp::from_raw([a.l0, a.l1, a.l2, a.l3]) - Fp::from_raw([b.l0, b.l1, b.l2, b.l3])).to_repr()
}

/// Field multiplication, by `Mul` of `pasta_curves::Fp`: the bytes spell the
/// product of the two numbers modulo `p`.
#[verifier::external_body]
fn fp_mul_repr(a: &FieldElement, b: &FieldElement) -> (r: [u8; 32])
    ensures
        repr_value(r@) == (a.value() * b.value()) % modulus(),
{
    (Fp::from_raw([a.l0, a.l1, a.l2, a.l3]) * Fp::from_raw([b.l0, b.l1, b.l2, b.l3])).to_repr()
}

/// Field inversion, by `Field::invert` of `pasta_curves::Fp`, which fails
/// exactly on zero. Otherwise the bytes spell the number below `p` whose
/// product with the operand is 1 modulo `p`.
#[verifier::external_body]
fn fp_invert_repr(a: &FieldElement) -> (r: Option<[u8; 32]>)
    ensures
        a.value() % modulus() == 0 ==> r is None,
        a.value() % modulus() != 0 ==> r is Some && is_inverse(a.value(), repr_value(r->0@)),
{
    Option::from(Fp::from_raw([a.l0, a.l1, a.l2, a.l3]).invert()).map(|x: Fp| x.to_repr())
}

/// The sixteen lowercase hexadecimal digits.
pub open spec fn hex_digits() -> Seq<char> {
    seq!['0', '1', '2', '3', '4', '5', '6', '7', '8', '9', 'a', 'b', 'c', 'd', 'e', 'f']
}

/// A number below `2^256` in text: `0x`, then its 64 hexadecimal digits,
/// the highest first.
pub open spec fn hex_text(value: nat) -> Seq<char> {
    seq!['0', 'x'] + Seq::new(
        64,
        |i: int| hex_digits()[(value as int / pow(16, (63 - i) as nat)) % 16],
    )
}

/// The text of an element, by `Debug` of `pasta_curves::Fp`: it writes
/// `0x` and then the bytes of `PrimeField::to_repr` from the last to the
/// first, each as two lowercase hexadecimal digits.
#[verifier::external_body]
fn fp_debug_text(a: &FieldElement) -> (r: String)
    ensures
        r@ == hex_text(a.value() % modulus()),
{
    format!("{:?}", Fp::from_raw([a.l0, a.l1, a.l2, a.l3]))
}

/// A field element. Its limbs always spell a number below the modulus.
#[derive(Clone, Copy, Debug, PartialEq, Eq, Structural)]
pub struct FieldElement {
    l0: u64,
    l1: u64,
    l2: u64,
    l3: u64,
}

impl FieldElement {
    /// The integer in `[0, p)` that this element stands for.
    pub closed spec fn value(&self) -> nat {
        limbs_value(self.l0, self.l1, self.l2, self.l3)
    }

    /// Every element that executable code holds is reduced.
    #[verifier::type_invariant]
    pub open spec fn reduced(&self) -> bool {
        self.value() < modulus()
    }

    /// The additive identity.
    pub fn zero() -> (r: FieldElement)
        ensures
            r.value() == 0,
    {
        FieldElement { l0: 0, l1: 0, l2: 0, l3: 0 }
    }

    /// The multiplicative identity.
    pub fn one() -> (r: FieldElement)
        ensures
            r.value() == 1,
    {
        FieldElement { l0: 1, l1: 0, l2: 0, l3: 0 }
    }

    /// The element that a 64-bit unsigned integer names.
    pub fn from_u64(v: u64) -> (r: FieldElement)
        ensures
            r.value() == v,
    {
        FieldElement { l0: v, l1: 0, l2: 0, l3: 0 }
    }

    /// The limb that the eight bytes from index `at` on spell.
    fn limb_at(bytes: &[u8; 32], at: usize) -> (r: u64)
        requires
            at + 8 <= 32,
        ensures
            r == le_u64(bytes@, at as int),
    {
        let b0: u64 = bytes[at] as u64;
        let b1: u64 = bytes[at + 1] as u64;
        let b2: u64 = bytes[at + 2] as u64;
        let b3: u64 = bytes[at + 3] as u64;
        let b4: u64 = bytes[at + 4] as u64;
        let b5: u64 = bytes[at + 5] as u64;
        let b6: u64 = bytes[at + 6] as u64;
        let b7: u64 = bytes[at + 7] as u64;
        b0 + b1 * 0x100 + b2 * 0x1_0000 + b3 * 0x100_0000 + b4 * 0x1_0000_0000 + b5
            * 0x100_0000_0000 + b6 * 0x1_0000_0000_0000 + b7 * 0x100_0000_0000_0000
    }

    /// The element whose canonical little-endian bytes are given.
    fn from_reduced_repr(bytes: &[u8; 32]) -> (r: FieldElement)
        requires
            repr_value(bytes@) < modulus(),
        ensures
            r.value() == repr_value(bytes@),
    {
        FieldElement {
            l0: Self::limb_at(bytes, 0),
            l1: Self::limb_at(bytes, 8),
            l2: Self::limb_at(bytes, 16),
            l3: Self::limb_at(bytes, 24),
        }
    }

    /// The sum of two elements.
    pub fn plus(&self, rhs: &FieldElement) -> (r: FieldElement)
        ensures
            r.value() == (self.value() + rhs.value()) % modulus(),
    {
        let bytes = fp_add_repr(self, rhs);
        Self::from_reduced_repr(&bytes)
    }

    /// The difference of two elements.
    pub fn minus(&self, rhs: &FieldElement) -> (r: FieldElement)
        ensures
            r.value() == (self.value() - rhs.value()) % (modulus() as int),
    {
        let bytes = fp_sub_repr(self, rhs);
        Self::from_reduced_repr(&bytes)
    }

    /// The product of two elements.
    pub fn times(&self, rhs: &FieldElement) -> (r: FieldElement)
        ensures
            r.value() == (self.value() * rhs.value()) % modulus(),
    {
        let bytes = fp_mul_repr(self, rhs);
        Self::from_reduced_repr(&bytes)
    }

    /// The multiplicative inverse, which every element but zero has.
    pub fn invert(&self) -> (r: Option<FieldElement>)
        ensures
            self.value() == 0 <==> r is None,
            r is Some ==> is_inverse(self.value(), r->0.value()),
    {
        proof {
            use_type_invariant(self);
        }
        match fp_invert_repr(self) {
            Some(bytes) => Some(Self::from_reduced_repr(&bytes)),
            None => None,
        }
    }

    /// The element that four little-endian limbs spell, if that number is
    /// below the modulus.
    pub fn from_limbs(limbs: [u64; 4]) -> (r: Option<FieldElement>)
        ensures
            r is Some <==> limbs_value(limbs[0], limbs[1], limbs[2], limbs[3]) < modulus(),
            r is Some ==> r->0.value() == limbs_value(limbs[0], limbs[1], limbs[2], limbs[3]),
    {
        let l0 = limbs[0];
        let l1 = limbs[1];
        let l2 = limbs[2];
        let l3 = limbs[3];
        let below = l3 < MODULUS_L3 || (l3 == MODULUS_L3 && l2 == 0 && (l1 < MODULUS_L1 || (l1
            == MODULUS_L1 && l0 < MODULUS_L0)));
        if below {
            Some(FieldElement { l0, l1, l2, l3 })
        } else {
            None
        }
    }

    /// The element that four limbs spell, for limbs known to be reduced.
    pub(crate) fn from_reduced_limbs(l0: u64, l1: u64, l2: u64, l3: u64) -> (r: FieldElement)
        requires
            limbs_value(l0, l1, l2, l3) < modulus(),
        ensures
            r.value() == limbs_value(l0, l1, l2, l3),
    {
        FieldElement { l0, l1, l2, l3 }
    }

    /// The four little-endian limbs of the element.
    pub fn limbs(&self) -> (r: [u64; 4])
        ensures
            limbs_value(r[0], r[1], r[2], r[3]) == self.value(),
    {
        [self.l0, self.l1, self.l2, self.l3]
    }

    /// Whether this is the additive identity.
    pub fn is_zero(&self) -> (r: bool)
        ensures
            r == (self.value() == 0),
    {
        self.l0 == 0 && self.l1 == 0 && self.l2 == 0 && self.l3 == 0
    }

    /// Two elements that stand for the same integer are the same element.
    pub proof fn lemma_value_determines_element(a: FieldElement, b: FieldElement)
        requires
            a.value() == b.value(),
        ensures
            a == b,
    {
        lemma_limbs_value_injective(a.l0, a.l1, a.l2, a.l3, b.l0, b.l1, b.l2, b.l3);
    }

    /// The element in text: `0x` and 64 hexadecimal digits.
    pub fn to_hex(&self) -> (r: String)
        ensures
            r@ == hex_text(self.value()),
    {
        proof {
            use_type_invariant(self);
        }
        fp_debug_text(self)
    }
}

} // verus!
