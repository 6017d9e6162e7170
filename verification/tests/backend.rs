use halo2_gadgets::poseidon::primitives::{ConstantLength, P128Pow5T3};
use halo2_gadgets::poseidon::{Pow5Chip, Pow5Config};
use halo2_proofs::circuit::{AssignedCell, Layouter, SimpleFloorPlanner, Value};
use halo2_proofs::dev::MockProver;
use halo2_proofs::pasta::{EqAffine, Fp};
use halo2_proofs::plonk::{
    create_proof, keygen_pk, keygen_vk, verify_proof, Advice, Circuit, Column, ConstraintSystem,
    Error, Instance, Selector, SingleVerifier,
};
use halo2_proofs::poly::commitment::Params;
use halo2_proofs::poly::Rotation;
use halo2_proofs::transcript::{Blake2bRead, Blake2bWrite, Challenge255};
use halo2_tx_validator::circuit::{Config, TxCircuit, Witness};
use halo2_tx_validator::codec::fr_from_qi128;
use halo2_tx_validator::driver::prepare_proof;
use halo2_tx_validator::field::FieldElement;
use halo2_tx_validator::public::PublicInstance;

const WIDTH: usize = 4;
const WB_WORDS: usize = WIDTH + 1;
const K: u32 = 9;

fn to_fp(e: &FieldElement) -> Fp {
    Fp::from_raw(e.limbs())
}

#[derive(Clone, Debug)]
struct NarrowConfig {
    layout: Config,
    adv: [Column<Advice>; 6],
    sel: Selector,
    poseidon: Pow5Config<Fp, 3, 2>,
    instance: [Column<Instance>; 3],
}

#[derive(Clone, Debug)]
struct NarrowCircuit {
    circuit: TxCircuit,
}

impl NarrowCircuit {
    fn new(circuit: &TxCircuit) -> NarrowCircuit {
        NarrowCircuit { circuit: circuit.padded_to(WIDTH).unwrap() }
    }
}

fn load_words(
    mut layouter: impl Layouter<Fp>,
    column: Column<Advice>,
    words: &[FieldElement],
) -> Result<Vec<AssignedCell<Fp, Fp>>, Error> {
    layouter.assign_region(
        || "load words",
        |mut region| {
            words
                .iter()
                .enumerate()
                .map(|(row, word)| {
                    region.assign_advice(|| "word", column, row, || Value::known(to_fp(word)))
                })
                .collect()
        },
    )
}

impl Circuit<Fp> for NarrowCircuit {
    type Config = NarrowConfig;
    type FloorPlanner = SimpleFloorPlanner;

    fn without_witnesses(&self) -> Self {
        NarrowCircuit::new(&self.circuit.without_witnesses())
    }

    fn configure(cs: &mut ConstraintSystem<Fp>) -> Self::Config {
        let layout = TxCircuit::configure();
        let adv = [(); 6].map(|_| cs.advice_column());
        for a in adv.iter() {
            cs.enable_equality(*a);
        }
        let instance = [(); 3].map(|_| cs.instance_column());
        for i in instance.iter() {
            cs.enable_equality(*i);
        }
        let sel = cs.selector();
        let rc_a = [(); 3].map(|_| cs.fixed_column());
        let rc_b = [(); 3].map(|_| cs.fixed_column());
        cs.enable_constant(rc_b[0]);
        let poseidon = Pow5Chip::configure::<P128Pow5T3>(
            cs,
            [adv[2], adv[3], adv[4]],
            adv[5],
            rc_a,
            rc_b,
        );
        let score_column = adv[layout.adv[5]];
        let score_instance = instance[layout.instance[2]];
        cs.create_gate("score equals public", |meta| {
            let s = meta.query_selector(sel);
            let score_calc = meta.query_advice(score_column, Rotation::cur());
            let score_pub = meta.query_instance(score_instance, Rotation::cur());
            vec![s * (score_calc - score_pub)]
        });
        NarrowConfig { layout, adv, sel, poseidon, instance }
    }

    fn synthesize(&self, cfg: Self::Config, mut layouter: impl Layouter<Fp>) -> Result<(), Error> {
        let trace = self.circuit.assign(&cfg.layout).map_err(|_| Error::Synthesis)?;
        let score_cell = layouter.assign_region(
            || "affine + sigmoid",
            |mut region| {
                cfg.sel.enable(&mut region, trace.selector_row)?;
                let mut last = None;
                for cell in trace.cells.iter() {
                    last = Some(region.assign_advice(
                        || "trace cell",
                        cfg.adv[cell.column],
                        cell.row,
                        || Value::known(to_fp(&cell.value)),
                    )?);
                }
                last.ok_or(Error::Synthesis)
            },
        )?;
        layouter.constrain_instance(
            score_cell.cell(),
            cfg.instance[trace.instance_column],
            trace.instance_row,
        )?;
        let wb_words: [AssignedCell<Fp, Fp>; WB_WORDS] =
            load_words(layouter.namespace(|| "load_wb"), cfg.adv[0], &trace.commit_wb_inputs)?
                .try_into()
                .map_err(|_| Error::Synthesis)?;
        let _commit_wb = halo2_gadgets::poseidon::Hash::<Fp, _, P128Pow5T3, ConstantLength<WB_WORDS>, 3, 2>::init(
            Pow5Chip::construct(cfg.poseidon.clone()),
            layouter.namespace(|| "poseidon_wb"),
        )?
        .hash(layouter.namespace(|| "absorb_wb"), wb_words)?;
        let q_words: [AssignedCell<Fp, Fp>; 1] =
            load_words(layouter.namespace(|| "load_q"), cfg.adv[0], &trace.commit_q_inputs)?
                .try_into()
                .map_err(|_| Error::Synthesis)?;
        let _commit_q = halo2_gadgets::poseidon::Hash::<Fp, _, P128Pow5T3, ConstantLength<1>, 3, 2>::init(
            Pow5Chip::construct(cfg.poseidon.clone()),
            layouter.namespace(|| "poseidon_q"),
        )?
        .hash(layouter.namespace(|| "absorb_q"), q_words)?;
        Ok(())
    }
}

fn columns_of(instance: &PublicInstance) -> Vec<Vec<Fp>> {
    instance.columns().iter().map(|column| column.iter().map(to_fp).collect()).collect()
}

fn half_times_one(score_pub: i64) -> Witness {
    Witness { x: vec![1 << 16], w: vec![1 << 15], b: 0, alpha: 0, q_out: 0, score_pub }
}

fn circuit_with_public_score(score_pub: i128) -> TxCircuit {
    TxCircuit {
        x: vec![fr_from_qi128(1 << 16).unwrap()],
        w: vec![fr_from_qi128(1 << 15).unwrap()],
        b: FieldElement::zero(),
        alpha: FieldElement::zero(),
        q_out: FieldElement::zero(),
        score_pub: fr_from_qi128(score_pub).unwrap(),
    }
}

fn prove(params: &Params<EqAffine>, circuit: &TxCircuit, instance: &PublicInstance) -> Result<Vec<u8>, Error> {
    let placeholder = NarrowCircuit::new(&TxCircuit::default());
    let vk = keygen_vk(params, &placeholder)?;
    let pk = keygen_pk(params, vk, &placeholder)?;
    let columns = columns_of(instance);
    let columns: Vec<&[Fp]> = columns.iter().map(|column| &column[..]).collect();
    let mut transcript = Blake2bWrite::<_, EqAffine, Challenge255<_>>::init(vec![]);
    create_proof(
        params,
        &pk,
        &[NarrowCircuit::new(circuit)],
        &[&columns[..]],
        rand::rng(),
        &mut transcript,
    )?;
    Ok(transcript.finalize())
}

fn verifies(params: &Params<EqAffine>, proof: &[u8], instance: &PublicInstance) -> bool {
    let vk = keygen_vk(params, &NarrowCircuit::new(&TxCircuit::default())).unwrap();
    let columns = columns_of(instance);
    let columns: Vec<&[Fp]> = columns.iter().map(|column| &column[..]).collect();
    let mut transcript = Blake2bRead::<_, EqAffine, Challenge255<_>>::init(proof);
    verify_proof(params, &vk, SingleVerifier::new(params), &[&columns[..]], &mut transcript).is_ok()
}

#[test]
fn backend_accepts_the_trace_of_the_exact_score() {
    let request = prepare_proof(&half_times_one(-11141120)).unwrap();
    let circuit = NarrowCircuit::new(&request.circuit);
    let prover = MockProver::run(K, &circuit, columns_of(&request.instance)).unwrap();
    assert_eq!(prover.verify(), Ok(()));
}

#[test]
fn backend_refuses_a_public_score_of_zero() {
    let circuit = NarrowCircuit::new(&circuit_with_public_score(0));
    let instance = PublicInstance::for_score(fr_from_qi128(0).unwrap());
    let prover = MockProver::run(K, &circuit, columns_of(&instance)).unwrap();
    assert!(prover.verify().is_err());
}

#[test]
fn backend_refuses_any_other_public_score() {
    let circuit = NarrowCircuit::new(&circuit_with_public_score(-11141120));
    for other in [-11141121i128, -11141119, 40960, 1] {
        let instance = PublicInstance::for_score(fr_from_qi128(other).unwrap());
        let prover = MockProver::run(K, &circuit, columns_of(&instance)).unwrap();
        assert!(prover.verify().is_err());
    }
}

#[test]
fn backend_accepts_a_wider_witness() {
    let mut circuit = TxCircuit {
        x: [3i128, -4, 5].iter().map(|v| fr_from_qi128(*v << 16).unwrap()).collect(),
        w: [7i128, 8, -9].iter().map(|v| fr_from_qi128(*v << 14).unwrap()).collect(),
        b: fr_from_qi128(11).unwrap(),
        alpha: fr_from_qi128(1 << 16).unwrap(),
        q_out: fr_from_qi128(-2).unwrap(),
        score_pub: FieldElement::zero(),
    };
    circuit.score_pub = circuit.score().unwrap();
    let instance = PublicInstance::for_score(circuit.score_pub);
    let prover = MockProver::run(K, &NarrowCircuit::new(&circuit), columns_of(&instance)).unwrap();
    assert_eq!(prover.verify(), Ok(()));
}

#[test]
fn proof_of_the_exact_score_verifies() {
    let params: Params<EqAffine> = Params::new(K);
    let request = prepare_proof(&half_times_one(-11141120)).unwrap();
    let proof = prove(&params, &request.circuit, &request.instance).unwrap();
    assert!(verifies(&params, &proof, &request.instance));
}

#[test]
fn proof_does_not_verify_against_another_public_record() {
    let params: Params<EqAffine> = Params::new(K);
    let request = prepare_proof(&half_times_one(-11141120)).unwrap();
    let proof = prove(&params, &request.circuit, &request.instance).unwrap();
    let other = prepare_proof(&Witness {
        x: vec![],
        w: vec![],
        b: 0,
        alpha: 0,
        q_out: 0,
        score_pub: 32768,
    })
    .unwrap();
    assert!(!verifies(&params, &proof, &other.instance));
    let shifted = PublicInstance {
        commit_wb: FieldElement::one(),
        ..request.instance
    };
    assert!(!verifies(&params, &proof, &shifted));
}

#[test]
fn tampered_proof_does_not_verify() {
    let params: Params<EqAffine> = Params::new(K);
    let request = prepare_proof(&half_times_one(-11141120)).unwrap();
    let proof = prove(&params, &request.circuit, &request.instance).unwrap();
    let step = proof.len() / 16 + 1;
    let mut at = 0;
    while at < proof.len() {
        let mut tampered = proof.clone();
        tampered[at] ^= 1;
        assert!(!verifies(&params, &tampered, &request.instance));
        at += step;
    }
    let mut tampered = proof.clone();
    let last = tampered.len() - 1;
    tampered[last] ^= 0x80;
    assert!(!verifies(&params, &tampered, &request.instance));
}
