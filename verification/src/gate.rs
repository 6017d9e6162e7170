//! The affine accumulation and the one custom gate of the circuit:
//! `flag * (score - score_pub) = 0`.

use crate::codec::{encode_spec, in_safe_range, rescale, scale_inverse};
use crate::field::{lemma_mul_mod_chain, modulus, FieldElement};
use crate::sigmoid::{sigmoid_poly, sigmoid_spec};
use vstd::arithmetic::div_mod::{lemma_add_mod_noop, lemma_mul_mod_noop_right};
use vstd::prelude::*;

verus! {

/// The integers that a sequence of field elements stands for.
pub open spec fn values(s: Seq<FieldElement>) -> Seq<nat> {
    s.map_values(|e: FieldElement| e.value())
}

/// The sum of the first `n` products `w[i] * x[i]`.
pub open spec fn dot(w: Seq<nat>, x: Seq<nat>, n: nat) -> int
    decreases n,
{
    if n == 0 {
        0
    } else {
        dot(w, x, (n - 1) as nat) + w[n - 1] * x[n - 1]
    }
}

/// The accumulator of the neuron: the rescaled dot product of weights and
/// inputs, plus the bias, plus the rescaled product of `alpha` and `q_out`.
pub open spec fn accumulator_spec(w: Seq<nat>, x: Seq<nat>, b: nat, alpha: nat, q_out: nat) -> nat {
    ((dot(w, x, w.len()) * scale_inverse() + b + alpha * q_out * scale_inverse()) % (
    modulus() as int)) as nat
}

/// The score of the neuron: the approximated sigmoid of its accumulator.
pub open spec fn score_spec(w: Seq<nat>, x: Seq<nat>, b: nat, alpha: nat, q_out: nat) -> nat {
    sigmoid_spec(accumulator_spec(w, x, b, alpha, q_out))
}

/// The value of the constraint polynomial on one row.
pub open spec fn gate_spec(flag: nat, score: nat, score_pub: nat) -> nat {
    ((flag * (score - score_pub)) % (modulus() as int)) as nat
}

/// The first `n` products depend on the first `n` entries only.
pub proof fn lemma_dot_agrees(w: Seq<nat>, x: Seq<nat>, v: Seq<nat>, y: Seq<nat>, n: nat)
    requires
        n <= w.len(),
        n <= x.len(),
        n <= v.len(),
        n <= y.len(),
        forall|i: int| 0 <= i < n ==> w[i] == v[i] && x[i] == y[i],
    ensures
        dot(w, x, n) == dot(v, y, n),
    decreases n,
{
    if n > 0 {
        lemma_dot_agrees(w, x, v, y, (n - 1) as nat);
    }
}

/// Entries that are zero in one of the vectors add nothing to the sum.
pub proof fn lemma_dot_zero_tail(w: Seq<nat>, x: Seq<nat>, n: nat, m: nat)
    requires
        n <= m <= w.len(),
        m <= x.len(),
        forall|i: int| n <= i < m ==> w[i] == 0 || x[i] == 0,
    ensures
        dot(w, x, m) == dot(w, x, n),
    decreases m,
{
    if m > n {
        lemma_dot_zero_tail(w, x, n, (m - 1) as nat);
        assert(w[m - 1] * x[m - 1] == 0) by (nonlinear_arith)
            requires
                w[m - 1] == 0 || x[m - 1] == 0,
        ;
    }
}

/// One more rescaled product joins a rescaled partial sum.
proof fn lemma_accumulate_step(sum: int, a: int, b: int, acc: int, term: int)
    requires
        acc == (sum * scale_inverse()) % (modulus() as int),
        term == (((a * b) % (modulus() as int)) * scale_inverse()) % (modulus() as int),
    ensures
        (acc + term) % (modulus() as int) == ((sum + a * b) * scale_inverse()) % (modulus() as int),
{
    let p = modulus() as int;
    let s = scale_inverse() as int;
    lemma_mul_mod_chain(a, b, s, p);
    lemma_add_mod_noop(sum * s, a * b * s, p);
    assert((sum + a * b) * s == sum * s + a * b * s) by (nonlinear_arith);
}

/// The bias and the rescaled correction join the rescaled dot product.
proof fn lemma_accumulate_tail(sum: int, b: int, alpha: int, q: int, acc: int, term: int)
    requires
        acc == (sum * scale_inverse()) % (modulus() as int),
        term == (((alpha * q) % (modulus() as int)) * scale_inverse()) % (modulus() as int),
    ensures
        (((acc + b) % (modulus() as int)) + term) % (modulus() as int) == (sum * scale_inverse() + b
            + alpha * q * scale_inverse()) % (modulus() as int),
{
    let p = modulus() as int;
    let s = scale_inverse() as int;
    lemma_mul_mod_chain(alpha, q, s, p);
    lemma_add_mod_noop(sum * s, b, p);
    lemma_add_mod_noop(acc, b, p);
    lemma_add_mod_noop(sum * s + b, alpha * q * s, p);
    lemma_add_mod_noop((acc + b) % p, term, p);
}

/// Computes the accumulator of a neuron whose vectors have one length.
pub(crate) fn accumulate(
    w: &Vec<FieldElement>,
    x: &Vec<FieldElement>,
    b: &FieldElement,
    alpha: &FieldElement,
    q_out: &FieldElement,
) -> (r: FieldElement)
    requires
        w.len() == x.len(),
    ensures
        r.value() == accumulator_spec(
            values(w@),
            values(x@),
            b.value(),
            alpha.value(),
            q_out.value(),
        ),
{
    let mut acc = FieldElement::zero();
    let mut i: usize = 0;
    while i < w.len()
        invariant
            i <= w.len(),
            w.len() == x.len(),
            acc.value() == (dot(values(w@), values(x@), i as nat) * scale_inverse()) % (
            modulus() as int),
        decreases w.len() - i,
    {
        let term = rescale(&w[i].times(&x[i]));
        let next = acc.plus(&term);
        proof {
            lemma_accumulate_step(
                dot(values(w@), values(x@), i as nat),
                w[i as int].value() as int,
                x[i as int].value() as int,
                acc.value() as int,
                term.value() as int,
            );
        }
        acc = next;
        i += 1;
    }
    let correction = rescale(&alpha.times(q_out));
    let r = acc.plus(b).plus(&correction);
    proof {
        lemma_accumulate_tail(
            dot(values(w@), values(x@), w.len() as nat),
            b.value() as int,
            alpha.value() as int,
            q_out.value() as int,
            acc.value() as int,
            correction.value() as int,
        );
    }
    r
}

/// Computes the score of a neuron whose vectors have one length.
pub(crate) fn compute_score(
    w: &Vec<FieldElement>,
    x: &Vec<FieldElement>,
    b: &FieldElement,
    alpha: &FieldElement,
    q_out: &FieldElement,
) -> (r: FieldElement)
    requires
        w.len() == x.len(),
    ensures
        r.value() == score_spec(values(w@), values(x@), b.value(), alpha.value(), q_out.value()),
{
    let acc = accumulate(w, x, b, alpha, q_out);
    sigmoid_poly(&acc)
}

/// Evaluates the constraint polynomial `flag * (score - score_pub)`.
pub fn gate_value(flag: &FieldElement, score: &FieldElement, score_pub: &FieldElement) -> (r:
    FieldElement)
    ensures
        r.value() == gate_spec(flag.value(), score.value(), score_pub.value()),
{
    let difference = score.minus(score_pub);
    let r = flag.times(&difference);
    proof {
        lemma_mul_mod_noop_right(
            flag.value() as int,
            score.value() - score_pub.value(),
            modulus() as int,
        );
    }
    r
}

/// Whether the constraint holds on a row.
pub fn gate_satisfied(flag: &FieldElement, score: &FieldElement, score_pub: &FieldElement) -> (r:
    bool)
    ensures
        r == (gate_spec(flag.value(), score.value(), score_pub.value()) == 0),
{
    gate_value(flag, score, score_pub).is_zero()
}

/// With the flag set, the constraint holds exactly where the computed score is
/// the public score.
pub proof fn lemma_gate_active(score: nat, score_pub: nat)
    requires
        score < modulus(),
        score_pub < modulus(),
    ensures
        gate_spec(1, score, score_pub) == 0 <==> score == score_pub,
{
}

/// With the flag clear, the constraint holds whatever the scores are.
pub proof fn lemma_gate_inactive(score: nat, score_pub: nat)
    ensures
        gate_spec(0, score, score_pub) == 0,
{
}

/// An encoded value set against itself satisfies the active gate, and two
/// encoded values satisfy it only where they are one value.
pub proof fn lemma_gate_on_encodings(u: int, v: int)
    requires
        in_safe_range(u),
        in_safe_range(v),
    ensures
        gate_spec(1, encode_spec(v), encode_spec(v)) == 0,
        gate_spec(1, encode_spec(u), encode_spec(v)) == 0 <==> u == v,
{
}

} // verus!
