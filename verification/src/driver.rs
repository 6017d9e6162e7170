//! What a proving run settles before any backend is called.

use crate::circuit::{Config, Synthesized, TxCircuit, Witness};
use crate::codec::encode_spec;
use crate::error::CircuitError;
use crate::field::hex_text;
use crate::public::{column_values, PublicInstance, PublicRecord};
use vstd::prelude::*;

verus! {

/// All that a backend needs to prove one inference, and all that is stored
/// beside the proof.
#[derive(Clone, Debug)]
pub struct ProofRequest {
    /// The circuit with its witness.
    pub circuit: TxCircuit,
    /// The column layout.
    pub config: Config,
    /// The trace of the witness.
    pub trace: Synthesized,
    /// The public instance.
    pub instance: PublicInstance,
    /// The record to store.
    pub record: PublicRecord,
}

impl ProofRequest {
    /// Whether this is the request that `witness` calls for.
    pub open spec fn is_request_for(&self, witness: &Witness) -> bool {
        &&& self.circuit.encodes(witness)
        &&& self.circuit.shape_ok()
        &&& self.circuit.score_value() == self.circuit.score_pub.value()
        &&& self.config.adv@ == seq![0usize, 1, 2, 3, 4, 5]
        &&& self.config.sel == 0
        &&& self.config.instance@ == seq![0usize, 1, 2]
        &&& self.trace.is_trace_of(&self.circuit, &self.config)
        &&& self.instance.commit_wb.value() == 0
        &&& self.instance.commit_q.value() == 0
        &&& self.instance.score_pub == self.circuit.score_pub
        &&& self.record.commit_wb@ == "0x00"@
        &&& self.record.commit_q@ == "0x00"@
        &&& self.record.score_pub@ == hex_text(self.circuit.score_pub.value())
        &&& column_values(self.record.instances@) == self.instance.columns_spec()
    }
}

/// Settles a proving run: the shape of the witness, then its encoding,
/// then the score constraint. Only a witness that passes all three yields
/// a request.
pub fn prepare_proof(witness: &Witness) -> (r: Result<ProofRequest, CircuitError>)
    ensures
        !witness.shape_ok() ==> r is Err && r->Err_0 == CircuitError::ShapeMismatch,
        witness.shape_ok() && !witness.in_safe_range() ==> r is Err && r->Err_0
            == CircuitError::Encoding,
        witness.shape_ok() && witness.in_safe_range() && witness.score_value() != encode_spec(
            witness.score_pub as int,
        ) ==> r is Err && r->Err_0 == CircuitError::ConstraintViolation,
        witness.shape_ok() && witness.in_safe_range() && witness.score_value() == encode_spec(
            witness.score_pub as int,
        ) ==> r is Ok && r->Ok_0.is_request_for(witness),
{
    let circuit = match TxCircuit::from_witness(witness) {
        Err(e) => { return Err(e); },
        Ok(circuit) => circuit,
    };
    proof {
        circuit.lemma_encoded_score(witness);
    }
    let config = TxCircuit::configure();
    let trace = match circuit.synthesize(&config) {
        Err(e) => { return Err(e); },
        Ok(trace) => trace,
    };
    let instance = PublicInstance::for_score(circuit.score_pub);
    let record = PublicRecord::for_instance(&instance);
    Ok(ProofRequest { circuit, config, trace, instance, record })
}

} // verus!
