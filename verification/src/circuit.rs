//! The circuit: its column layout, its private witness, and the trace that
//! a witness is lowered into.

use crate::codec::{in_safe_range, encode_spec, to_fr_q16};
use crate::error::CircuitError;
use crate::field::FieldElement;
use crate::gate::{
    accumulate, accumulator_spec, compute_score, gate_satisfied, lemma_dot_agrees,
    lemma_dot_zero_tail, lemma_gate_active, score_spec, values,
};
use vstd::prelude::*;

verus! {

/// Number of advice columns of the layout.
pub const ADVICE_COLUMNS: usize = 6;

/// Number of instance columns: `commit_wb`, `commit_q`, `score_pub`.
pub const INSTANCE_COLUMNS: usize = 3;

/// Largest number of weights that one trace holds.
pub const MAX_WIDTH: usize = 256;

/// The column layout of a configured circuit. Columns are named by their
/// position among the columns of the same type.
#[derive(Clone, Copy, Debug, PartialEq, Eq)]
pub struct Config {
    /// The advice columns: inputs in the first, weights in the second, the
    /// score in the last.
    pub adv: [usize; 6],
    /// The selector that switches the score gate on.
    pub sel: usize,
    /// The instance columns, in the order `commit_wb`, `commit_q`,
    /// `score_pub`.
    pub instance: [usize; 3],
}

impl Config {
    /// The advice column of the inputs.
    pub open spec fn input_column(&self) -> usize {
        self.adv[0]
    }

    /// The advice column of the weights.
    pub open spec fn weight_column(&self) -> usize {
        self.adv[1]
    }

    /// The advice column of the computed score.
    pub open spec fn score_column(&self) -> usize {
        self.adv[5]
    }

    /// The instance column of the public score.
    pub open spec fn score_instance(&self) -> usize {
        self.instance[2]
    }
}

/// One advice cell that synthesis fills.
#[derive(Clone, Copy, Debug, PartialEq, Eq, Structural)]
pub struct AssignedCell {
    /// Index of the advice column.
    pub column: usize,
    /// Row within the region.
    pub row: usize,
    /// What the cell holds.
    pub value: FieldElement,
}

/// The private witness of one inference, together with the score that the
/// prover declares in public.
#[derive(Clone, Debug)]
pub struct TxCircuit {
    /// The inputs.
    pub x: Vec<FieldElement>,
    /// The weights, one for each input.
    pub w: Vec<FieldElement>,
    /// The bias.
    pub b: FieldElement,
    /// The factor of the quantization remainder.
    pub alpha: FieldElement,
    /// The quantization remainder.
    pub q_out: FieldElement,
    /// The declared public score.
    pub score_pub: FieldElement,
}

/// A witness as it is stored: every number is a signed quantized value at
/// scale `2^16`.
#[derive(Clone, Debug)]
pub struct Witness {
    /// The inputs.
    pub x: Vec<i64>,
    /// The weights.
    pub w: Vec<i64>,
    /// The bias.
    pub b: i64,
    /// The factor of the quantization remainder.
    pub alpha: i64,
    /// The quantization remainder.
    pub q_out: i64,
    /// The declared public score.
    pub score_pub: i64,
}

/// Whether the codec accepts every number of `s`.
pub open spec fn all_in_safe_range(s: Seq<i64>) -> bool {
    forall|i: int| 0 <= i < s.len() ==> in_safe_range(#[trigger] s[i] as int)
}

/// Whether `e` holds the encodings of the numbers of `s`, in their order.
pub open spec fn encodes_all(e: Seq<FieldElement>, s: Seq<i64>) -> bool {
    &&& e.len() == s.len()
    &&& forall|i: int| 0 <= i < s.len() ==> (#[trigger] e[i]).value() == encode_spec(s[i] as int)
}

/// The encodings of the numbers of `s`, in their order.
pub open spec fn encodings(s: Seq<i64>) -> Seq<nat> {
    s.map_values(|v: i64| encode_spec(v as int))
}

impl Witness {
    /// The score that the stored witness determines.
    pub open spec fn score_value(&self) -> nat {
        score_spec(
            encodings(self.w@),
            encodings(self.x@),
            encode_spec(self.b as int),
            encode_spec(self.alpha as int),
            encode_spec(self.q_out as int),
        )
    }

    /// Whether the vectors have one length that the trace can hold.
    pub open spec fn shape_ok(&self) -> bool {
        self.w@.len() == self.x@.len() && self.w@.len() <= MAX_WIDTH
    }

    /// Whether the codec accepts every number of the witness.
    pub open spec fn in_safe_range(&self) -> bool {
        &&& all_in_safe_range(self.x@)
        &&& all_in_safe_range(self.w@)
        &&& in_safe_range(self.b as int)
        &&& in_safe_range(self.alpha as int)
        &&& in_safe_range(self.q_out as int)
        &&& in_safe_range(self.score_pub as int)
    }
}

/// Encodes a vector of quantized values, or fails on the first that the
/// codec refuses.
pub fn encode_all(s: &Vec<i64>) -> (r: Result<Vec<FieldElement>, CircuitError>)
    ensures
        all_in_safe_range(s@) <==> r is Ok,
        r is Ok ==> encodes_all(r->Ok_0@, s@),
        r is Err ==> r->Err_0 == CircuitError::Encoding,
{
    let mut out: Vec<FieldElement> = Vec::new();
    let mut i: usize = 0;
    while i < s.len()
        invariant
            i <= s.len(),
            out@.len() == i,
            forall|k: int| 0 <= k < i ==> in_safe_range(#[trigger] s@[k] as int),
            forall|k: int| 0 <= k < i ==> (#[trigger] out@[k]).value() == encode_spec(s@[k] as int),
        decreases s.len() - i,
    {
        match to_fr_q16(s[i]) {
            Err(e) => {
                assert(!in_safe_range(s@[i as int] as int));
                return Err(e);
            },
            Ok(element) => {
                out.push(element);
            },
        }
        i += 1;
    }
    Ok(out)
}

/// A witness lowered into a trace: the state that follows `Config`.
#[derive(Clone, Debug)]
pub struct Synthesized {
    /// What the first sponge absorbs: the weights, then the bias.
    pub commit_wb_inputs: Vec<FieldElement>,
    /// What the second sponge absorbs: the quantization remainder.
    pub commit_q_inputs: Vec<FieldElement>,
    /// The selector that is enabled.
    pub selector: usize,
    /// The row on which the selector is enabled.
    pub selector_row: usize,
    /// The advice cells in the order in which they are assigned.
    pub cells: Vec<AssignedCell>,
    /// The computed score, which the last assigned cell holds.
    pub score: FieldElement,
    /// The instance column that the score cell is bound to.
    pub instance_column: usize,
    /// The row of that instance column.
    pub instance_row: usize,
}

/// The advice cells of a trace: for each index a weight cell and an input
/// cell on the row of that index, and last the score cell on row 0.
pub open spec fn assignments_spec(
    cfg: Config,
    w: Seq<FieldElement>,
    x: Seq<FieldElement>,
    score: FieldElement,
) -> Seq<AssignedCell> {
    Seq::new(
        2 * w.len() + 1,
        |k: int|
            if k == 2 * w.len() {
                AssignedCell { column: cfg.score_column(), row: 0, value: score }
            } else if k % 2 == 0 {
                AssignedCell { column: cfg.weight_column(), row: (k / 2) as usize, value: w[k / 2] }
            } else {
                AssignedCell { column: cfg.input_column(), row: (k / 2) as usize, value: x[k / 2] }
            },
    )
}

impl Synthesized {
    /// Whether this is the trace of `circuit` under the layout `cfg`.
    pub open spec fn is_trace_of(&self, circuit: &TxCircuit, cfg: &Config) -> bool {
        &&& self.commit_wb_inputs@ == circuit.w@.push(circuit.b)
        &&& self.commit_q_inputs@ == seq![circuit.q_out]
        &&& self.selector == cfg.sel
        &&& self.selector_row == 0
        &&& self.score.value() == circuit.score_value()
        &&& self.cells@ == assignments_spec(*cfg, circuit.w@, circuit.x@, self.score)
        &&& self.instance_column == cfg.score_instance()
        &&& self.instance_row == 0
    }
}

impl Default for TxCircuit {
    /// The placeholder circuit: no inputs, and zero everywhere else.
    fn default() -> (r: TxCircuit)
        ensures
            r.x@.len() == 0,
            r.w@.len() == 0,
            r.b.value() == 0,
            r.alpha.value() == 0,
            r.q_out.value() == 0,
            r.score_pub.value() == 0,
    {
        TxCircuit {
            x: Vec::new(),
            w: Vec::new(),
            b: FieldElement::zero(),
            alpha: FieldElement::zero(),
            q_out: FieldElement::zero(),
            score_pub: FieldElement::zero(),
        }
    }
}

impl TxCircuit {
    /// Whether the vectors have one length that the trace can hold.
    pub open spec fn shape_ok(&self) -> bool {
        self.w@.len() == self.x@.len() && self.w@.len() <= MAX_WIDTH
    }

    /// The accumulator that the witness determines.
    pub open spec fn accumulator_value(&self) -> nat {
        accumulator_spec(
            values(self.w@),
            values(self.x@),
            self.b.value(),
            self.alpha.value(),
            self.q_out.value(),
        )
    }

    /// The score that the witness determines.
    pub open spec fn score_value(&self) -> nat {
        score_spec(
            values(self.w@),
            values(self.x@),
            self.b.value(),
            self.alpha.value(),
            self.q_out.value(),
        )
    }

    /// Whether the circuit holds the encodings of a stored witness.
    pub open spec fn encodes(&self, witness: &Witness) -> bool {
        &&& encodes_all(self.x@, witness.x@)
        &&& encodes_all(self.w@, witness.w@)
        &&& self.b.value() == encode_spec(witness.b as int)
        &&& self.alpha.value() == encode_spec(witness.alpha as int)
        &&& self.q_out.value() == encode_spec(witness.q_out as int)
        &&& self.score_pub.value() == encode_spec(witness.score_pub as int)
    }

    /// A circuit that holds the encodings of a stored witness has the
    /// score of that witness.
    pub proof fn lemma_encoded_score(&self, witness: &Witness)
        requires
            self.encodes(witness),
        ensures
            self.score_value() == witness.score_value(),
    {
        assert(values(self.w@) =~= encodings(witness.w@));
        assert(values(self.x@) =~= encodings(witness.x@));
    }

    /// Builds the circuit of a stored witness. The shape is checked before
    /// any number is encoded.
    pub fn from_witness(witness: &Witness) -> (r: Result<TxCircuit, CircuitError>)
        ensures
            !witness.shape_ok() ==> r is Err && r->Err_0 == CircuitError::ShapeMismatch,
            witness.shape_ok() && !witness.in_safe_range() ==> r is Err && r->Err_0
                == CircuitError::Encoding,
            witness.shape_ok() && witness.in_safe_range() ==> r is Ok && r->Ok_0.encodes(witness)
                && r->Ok_0.shape_ok(),
    {
        if witness.w.len() != witness.x.len() || witness.w.len() > MAX_WIDTH {
            return Err(CircuitError::ShapeMismatch);
        }
        let x = match encode_all(&witness.x) {
            Err(e) => { return Err(e); },
            Ok(x) => x,
        };
        let w = match encode_all(&witness.w) {
            Err(e) => { return Err(e); },
            Ok(w) => w,
        };
        let b = match to_fr_q16(witness.b) {
            Err(e) => { return Err(e); },
            Ok(b) => b,
        };
        let alpha = match to_fr_q16(witness.alpha) {
            Err(e) => { return Err(e); },
            Ok(alpha) => alpha,
        };
        let q_out = match to_fr_q16(witness.q_out) {
            Err(e) => { return Err(e); },
            Ok(q_out) => q_out,
        };
        let score_pub = match to_fr_q16(witness.score_pub) {
            Err(e) => { return Err(e); },
            Ok(score_pub) => score_pub,
        };
        Ok(TxCircuit { x, w, b, alpha, q_out, score_pub })
    }

    /// The circuit with placeholder values in place of the witness, as key
    /// generation takes it.
    pub fn without_witnesses(&self) -> (r: TxCircuit)
        ensures
            r.x@.len() == 0,
            r.w@.len() == 0,
            r.b.value() == 0,
            r.alpha.value() == 0,
            r.q_out.value() == 0,
            r.score_pub.value() == 0,
    {
        TxCircuit::default()
    }

    /// Fixes the column layout. It depends on no witness.
    pub fn configure() -> (r: Config)
        ensures
            r.adv@ == seq![0usize, 1, 2, 3, 4, 5],
            r.sel == 0,
            r.instance@ == seq![0usize, 1, 2],
    {
        Config { adv: [0, 1, 2, 3, 4, 5], sel: 0, instance: [0, 1, 2] }
    }

    /// Checks the shape of the witness.
    pub fn check_shape(&self) -> (r: Result<(), CircuitError>)
        ensures
            self.shape_ok() <==> r is Ok,
            r is Err ==> r->Err_0 == CircuitError::ShapeMismatch,
    {
        if self.w.len() != self.x.len() || self.w.len() > MAX_WIDTH {
            Err(CircuitError::ShapeMismatch)
        } else {
            Ok(())
        }
    }

    /// Whether this is `other` with zeros appended to inputs and weights up
    /// to the length `width`.
    pub open spec fn is_padding_of(&self, other: &TxCircuit, width: nat) -> bool {
        &&& self.w@.len() == width
        &&& self.x@.len() == width
        &&& other.w@.len() <= width
        &&& other.x@.len() == other.w@.len()
        &&& forall|i: int|
            0 <= i < other.w@.len() ==> self.w@[i] == other.w@[i] && self.x@[i] == other.x@[i]
        &&& forall|i: int|
            other.w@.len() <= i < width ==> self.w@[i].value() == 0 && self.x@[i].value() == 0
        &&& self.b == other.b
        &&& self.alpha == other.alpha
        &&& self.q_out == other.q_out
        &&& self.score_pub == other.score_pub
    }

    /// Padding with zeros changes neither the accumulator nor the score.
    pub proof fn lemma_padding_keeps_score(&self, other: &TxCircuit, width: nat)
        requires
            self.is_padding_of(other, width),
        ensures
            self.accumulator_value() == other.accumulator_value(),
            self.score_value() == other.score_value(),
    {
        let n = other.w@.len();
        lemma_dot_zero_tail(values(self.w@), values(self.x@), n, width);
        lemma_dot_agrees(values(self.w@), values(self.x@), values(other.w@), values(other.x@), n);
    }

    /// The circuit widened to `width` inputs by zeros, so that every
    /// witness of a proving key has one shape.
    pub fn padded_to(&self, width: usize) -> (r: Result<TxCircuit, CircuitError>)
        ensures
            self.shape_ok() && self.w@.len() <= width <= MAX_WIDTH <==> r is Ok,
            r is Ok ==> r->Ok_0.is_padding_of(self, width as nat) && r->Ok_0.score_value()
                == self.score_value(),
            r is Err ==> r->Err_0 == CircuitError::ShapeMismatch,
    {
        if self.w.len() != self.x.len() || self.w.len() > width || width > MAX_WIDTH {
            return Err(CircuitError::ShapeMismatch);
        }
        let mut w = self.w.clone();
        let mut x = self.x.clone();
        let n = self.w.len();
        let mut i: usize = n;
        while i < width
            invariant
                n <= i <= width,
                n == self.w@.len(),
                n == self.x@.len(),
                w@.len() == i,
                x@.len() == i,
                forall|k: int| 0 <= k < n ==> w@[k] == self.w@[k] && x@[k] == self.x@[k],
                forall|k: int| n <= k < i ==> w@[k].value() == 0 && x@[k].value() == 0,
            decreases width - i,
        {
            w.push(FieldElement::zero());
            x.push(FieldElement::zero());
            i += 1;
        }
        let r = TxCircuit {
            x,
            w,
            b: self.b,
            alpha: self.alpha,
            q_out: self.q_out,
            score_pub: self.score_pub,
        };
        proof {
            r.lemma_padding_keeps_score(self, width as nat);
        }
        Ok(r)
    }

    /// Computes the accumulator of the witness.
    pub fn accumulator(&self) -> (r: Result<FieldElement, CircuitError>)
        ensures
            self.shape_ok() <==> r is Ok,
            r is Ok ==> r->Ok_0.value() == self.accumulator_value(),
            r is Err ==> r->Err_0 == CircuitError::ShapeMismatch,
    {
        match self.check_shape() {
            Err(e) => Err(e),
            Ok(()) => Ok(accumulate(&self.w, &self.x, &self.b, &self.alpha, &self.q_out)),
        }
    }

    /// Computes the score of the witness.
    pub fn score(&self) -> (r: Result<FieldElement, CircuitError>)
        ensures
            self.shape_ok() <==> r is Ok,
            r is Ok ==> r->Ok_0.value() == self.score_value(),
            r is Err ==> r->Err_0 == CircuitError::ShapeMismatch,
    {
        match self.check_shape() {
            Err(e) => Err(e),
            Ok(()) => Ok(compute_score(&self.w, &self.x, &self.b, &self.alpha, &self.q_out)),
        }
    }

    /// Lowers the witness into a trace without holding the score against
    /// the public one.
    pub fn assign(&self, cfg: &Config) -> (r: Result<Synthesized, CircuitError>)
        ensures
            self.shape_ok() <==> r is Ok,
            r is Ok ==> r->Ok_0.is_trace_of(self, cfg),
            r is Err ==> r->Err_0 == CircuitError::ShapeMismatch,
    {
        match self.check_shape() {
            Err(e) => { return Err(e); },
            Ok(()) => {},
        }
        let mut commit_wb_inputs = self.w.clone();
        commit_wb_inputs.push(self.b);
        let mut commit_q_inputs: Vec<FieldElement> = Vec::new();
        commit_q_inputs.push(self.q_out);
        let score = compute_score(&self.w, &self.x, &self.b, &self.alpha, &self.q_out);
        let mut cells: Vec<AssignedCell> = Vec::new();
        let n = self.w.len();
        let mut i: usize = 0;
        while i < n
            invariant
                i <= n,
                n == self.w@.len(),
                n == self.x@.len(),
                n <= MAX_WIDTH,
                cells@.len() == 2 * i,
                forall|k: int|
                    0 <= k < 2 * i ==> cells@[k] == assignments_spec(
                        *cfg,
                        self.w@,
                        self.x@,
                        score,
                    )[k],
            decreases n - i,
        {
            cells.push(AssignedCell { column: cfg.adv[1], row: i, value: self.w[i] });
            cells.push(AssignedCell { column: cfg.adv[0], row: i, value: self.x[i] });
            i += 1;
        }
        cells.push(AssignedCell { column: cfg.adv[5], row: 0, value: score });
        assert(cells@ =~= assignments_spec(*cfg, self.w@, self.x@, score));
        assert(commit_wb_inputs@ =~= self.w@.push(self.b));
        assert(commit_q_inputs@ =~= seq![self.q_out]);
        Ok(
            Synthesized {
                commit_wb_inputs,
                commit_q_inputs,
                selector: cfg.sel,
                selector_row: 0,
                cells,
                score,
                instance_column: cfg.instance[2],
                instance_row: 0,
            },
        )
    }

    /// Lowers the witness into a trace and holds the active gate against
    /// it: the trace exists only where the computed score is the public
    /// score.
    pub fn synthesize(&self, cfg: &Config) -> (r: Result<Synthesized, CircuitError>)
        ensures
            !self.shape_ok() ==> r is Err && r->Err_0 == CircuitError::ShapeMismatch,
            self.shape_ok() && self.score_value() != self.score_pub.value() ==> r is Err
                && r->Err_0 == CircuitError::ConstraintViolation,
            self.shape_ok() && self.score_value() == self.score_pub.value() ==> r is Ok
                && r->Ok_0.is_trace_of(self, cfg),
    {
        let trace = match self.assign(cfg) {
            Err(e) => { return Err(e); },
            Ok(trace) => trace,
        };
        let flag = FieldElement::one();
        proof {
            use_type_invariant(&trace.score);
            use_type_invariant(&self.score_pub);
            lemma_gate_active(trace.score.value(), self.score_pub.value());
        }
        if gate_satisfied(&flag, &trace.score, &self.score_pub) {
            Ok(trace)
        } else {
            Err(CircuitError::ConstraintViolation)
        }
    }
}

} // verus!
