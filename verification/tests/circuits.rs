use std::collections::BTreeMap;

use circuit_data::circuit_data::{
    CircuitData, MockCircuitData, ProverCircuitData, VerifierCircuitData,
};
use circuit_data::common::CommonCircuitData;
use circuit_data::config::CircuitConfig;
use circuit_data::field::Field;
use circuit_data::fri_params::FriParams;
use circuit_data::gates::{GateRef, SelectorsInfo};
use circuit_data::generator::WitnessGeneratorRef;
use circuit_data::goldilocks::{GoldilocksField, QuadraticExtension};
use circuit_data::hash::{GenericConfig, HashOut, MerkleCap, MerkleTree, PolynomialBatch};
use circuit_data::proof_system::{
    FriInitialTreeProof, FriProof, FriQueryRound, MerkleProof, OpeningSet, Proof, ProofSystem,
    ProofWithPublicInputs, VerificationError,
};
use circuit_data::prover_only::ProverOnlyCircuitData;
use circuit_data::serializer::{DefaultGateSerializer, DefaultGeneratorSerializer};
use circuit_data::target::{LookupWire, Target};
use circuit_data::validation::ValidationError;
use circuit_data::verifier_only::VerifierOnlyCircuitData;

const D: usize = 2;

type F = GoldilocksField;

/// Goldilocks with Poseidon, and a proof system that knows the shape of proofs only. It fails when it
/// is asked to check a proof against common data that is not valid or that asks for another number of
/// query rounds.
#[derive(Clone, Debug, PartialEq, Eq)]
struct C;

impl GenericConfig<D> for C {
    type F = GoldilocksField;
    type Hash = HashOut<GoldilocksField>;
}

fn hash(n: u64) -> HashOut<F> {
    HashOut {
        elements: [
            GoldilocksField(n),
            GoldilocksField(n + 1),
            GoldilocksField(n + 2),
            GoldilocksField(n + 3),
        ],
    }
}

fn cap() -> MerkleCap<HashOut<F>> {
    MerkleCap(vec![hash(10), hash(20)])
}

fn ext(n: u64) -> QuadraticExtension {
    QuadraticExtension([GoldilocksField(n), GoldilocksField(0)])
}

impl ProofSystem<D> for C {
    type PartialWitness = Vec<u64>;
    type PartitionWitness = Vec<u64>;
    type CompressedProof = (ProofWithPublicInputs<F, C, D>, HashOut<F>);
    type Error = &'static str;

    fn generate_partial_witness(
        inputs: Vec<u64>,
        prover_data: &ProverOnlyCircuitData<F, C, D>,
        common_data: &CommonCircuitData<F, D>,
    ) -> Result<Vec<u64>, &'static str> {
        if inputs.len() > common_data.num_public_inputs {
            return Err("too many inputs");
        }
        let mut witness = inputs;
        witness.resize(prover_data.representative_map.len(), 0);
        Ok(witness)
    }

    fn prove(
        prover_data: &ProverOnlyCircuitData<F, C, D>,
        common_data: &CommonCircuitData<F, D>,
        inputs: Vec<u64>,
    ) -> Result<ProofWithPublicInputs<F, C, D>, &'static str> {
        Self::generate_partial_witness(inputs, prover_data, common_data)?;
        let mut query_round_proofs = Vec::new();
        for _ in 0..common_data.config.fri_config.num_query_rounds {
            query_round_proofs.push(FriQueryRound {
                initial_trees_proof: FriInitialTreeProof {
                    evals_proofs: vec![(
                        vec![GoldilocksField(3)],
                        MerkleProof { siblings: vec![hash(5)] },
                    )],
                },
                steps: vec![],
            });
        }
        Ok(ProofWithPublicInputs {
            proof: Proof {
                wires_cap: cap(),
                plonk_zs_partial_products_cap: cap(),
                quotient_polys_cap: cap(),
                openings: OpeningSet {
                    constants: vec![ext(1)],
                    plonk_sigmas: vec![],
                    wires: vec![],
                    plonk_zs: vec![],
                    plonk_zs_next: vec![],
                    partial_products: vec![],
                    quotient_polys: vec![],
                    lookup_zs: vec![],
                    lookup_zs_next: vec![],
                },
                opening_proof: FriProof {
                    commit_phase_merkle_caps: vec![],
                    query_round_proofs,
                    final_poly: vec![ext(2)],
                    pow_witness: GoldilocksField(9),
                },
            },
            public_inputs: vec![GoldilocksField(0); common_data.num_public_inputs],
        })
    }

    fn verify(
        proof_with_pis: ProofWithPublicInputs<F, C, D>,
        verifier_data: &VerifierOnlyCircuitData<C, D>,
        common_data: &CommonCircuitData<F, D>,
    ) -> Result<(), &'static str> {
        // A key that is refused never gets here.
        assert_eq!(common_data.validate(), Ok(()));
        assert_eq!(
            proof_with_pis.proof.opening_proof.query_round_proofs.len(),
            common_data.config.fri_config.num_query_rounds
        );
        if proof_with_pis.public_inputs.len() != common_data.num_public_inputs {
            return Err("wrong number of public inputs");
        }
        if verifier_data.circuit_digest != hash(100) {
            return Err("wrong circuit");
        }
        Ok(())
    }

    fn verify_compressed(
        compressed_proof_with_pis: Self::CompressedProof,
        verifier_data: &VerifierOnlyCircuitData<C, D>,
        common_data: &CommonCircuitData<F, D>,
    ) -> Result<(), &'static str> {
        assert_eq!(common_data.validate(), Ok(()));
        Self::verify(compressed_proof_with_pis.0, verifier_data, common_data)
    }

    fn compress(
        proof: ProofWithPublicInputs<F, C, D>,
        circuit_digest: &HashOut<F>,
        _common_data: &CommonCircuitData<F, D>,
    ) -> Result<Self::CompressedProof, &'static str> {
        Ok((proof, *circuit_digest))
    }

    fn decompress(
        proof: Self::CompressedProof,
        circuit_digest: &HashOut<F>,
        _common_data: &CommonCircuitData<F, D>,
    ) -> Result<ProofWithPublicInputs<F, C, D>, &'static str> {
        if proof.1 == *circuit_digest {
            Ok(proof.0)
        } else {
            Err("compressed for another circuit")
        }
    }
}

fn gate(id: &str, degree: usize, num_constraints: usize) -> GateRef {
    GateRef { id: id.to_string(), degree, num_constraints }
}

/// The first powers of a generator of the multiplicative group.
fn coset_shifts(n: usize) -> Vec<F> {
    let mut shifts = vec![GoldilocksField(1)];
    while shifts.len() < n {
        shifts.push(shifts[shifts.len() - 1].times(GoldilocksField(7)));
    }
    shifts
}

/// The data of a circuit that hashes three constants and makes the hash public, with a no-op gate:
/// enough gate types to be split into several selector groups.
fn test_common() -> CommonCircuitData<F, D> {
    let config = CircuitConfig::standard_recursion_config();
    let fri_params = FriParams {
        config: config.fri_config.clone(),
        hiding: config.zero_knowledge,
        degree_bits: 3,
        reduction_arity_bits: vec![],
    };
    CommonCircuitData {
        config,
        fri_params,
        gates: vec![
            gate("NoopGate", 0, 0),
            gate("ConstantGate { num_consts: 2 }", 1, 2),
            gate("PublicInputGate", 1, 4),
            gate("PoseidonGate<WIDTH=12>", 7, 123),
        ],
        selectors_info: SelectorsInfo {
            selector_indices: vec![0, 0, 0, 1],
            groups: vec![0..3, 3..4],
        },
        quotient_degree_factor: 8,
        num_gate_constraints: 123,
        num_constants: 4,
        num_public_inputs: 4,
        k_is: coset_shifts(80),
        num_partial_products: 9,
        num_lookup_polys: 0,
        num_lookup_selectors: 0,
        luts: vec![],
    }
}

fn test_prover_only() -> ProverOnlyCircuitData<F, C, D> {
    let mut watches = BTreeMap::new();
    watches.insert(12, vec![0, 1]);
    watches.insert(3, vec![1]);
    ProverOnlyCircuitData {
        generators: vec![
            WitnessGeneratorRef { id: "ConstantGenerator".to_string(), params: vec![1, 2, 3] },
            WitnessGeneratorRef { id: "PoseidonGenerator".to_string(), params: vec![] },
        ],
        generator_indices_by_watches: watches,
        constants_sigmas_commitment: PolynomialBatch {
            polynomials: vec![vec![GoldilocksField(1), GoldilocksField(2)], vec![]],
            merkle_tree: MerkleTree {
                leaves: vec![vec![GoldilocksField(4)]],
                digests: vec![hash(30)],
                cap: cap(),
            },
            degree_log: 3,
            rate_bits: 3,
            blinding: false,
        },
        sigmas: vec![vec![GoldilocksField(8)], vec![GoldilocksField(9)]],
        subgroup: vec![GoldilocksField(1), GoldilocksField(18446744069414584320)],
        public_inputs: vec![
            Target::Wire { row: 2, column: 5 },
            Target::VirtualTarget { index: 7 },
        ],
        representative_map: vec![0, 1, 1, 3, 0],
        fft_root_table: Some(vec![vec![GoldilocksField(1)], vec![]]),
        circuit_digest: hash(100),
        lookup_rows: vec![LookupWire { last_lu_gate: 6, last_lut_gate: 5, first_lut_gate: 4 }],
        lut_to_lookups: vec![vec![(
            Target::Wire { row: 0, column: 0 },
            Target::VirtualTarget { index: 1 },
        )]],
    }
}

fn test_circuit() -> CircuitData<F, C, D> {
    CircuitData {
        prover_only: test_prover_only(),
        verifier_only: VerifierOnlyCircuitData {
            constants_sigmas_cap: cap(),
            circuit_digest: hash(100),
        },
        common: test_common(),
    }
}

#[test]
fn validates_circuit_built_by_the_builder() {
    let common = test_circuit().common;
    assert!(common.selectors_info.groups.len() > 1);
    assert_eq!(common.validate(), Ok(()));
}

#[test]
fn rejects_oversized_selector_group() {
    let mut common = test_circuit().common;
    common.selectors_info.groups[0].end = 1 << 32;
    assert!(common.validate().is_err());
}

#[test]
fn rejects_duplicated_gate_types() {
    let mut common = test_circuit().common;
    common.gates.push(common.gates[0].clone());
    assert!(common.validate().is_err());
}

#[test]
fn rejects_selector_index_outside_its_group() {
    let mut common = test_circuit().common;
    let last = common.selectors_info.selector_indices.len() - 1;
    common.selectors_info.selector_indices[last] = 0;
    assert!(common.validate().is_err());
}

#[test]
fn deserialization_rejects_oversized_selector_group() {
    let mut common = test_circuit().common;
    common.selectors_info.groups[0].end = 1 << 32;

    let gate_serializer = DefaultGateSerializer;
    let bytes = common.to_bytes(&gate_serializer).unwrap();
    assert!(CommonCircuitData::<F, D>::from_bytes(bytes, &gate_serializer).is_err());
}

#[test]
fn rejects_degree_bits_outside_the_field() {
    let mut common = test_circuit().common;
    common.fri_params.degree_bits = 1 << 50;
    assert!(common.validate().is_err());
}

#[test]
fn rejects_fri_params_disagreeing_with_the_config() {
    let mut common = test_circuit().common;
    common.fri_params.config.num_query_rounds += 1;
    assert!(common.validate().is_err());
}

/// The verifier must reject a tampered verification key rather than iterate over a count taken
/// from it.
#[test]
fn verifier_rejects_tampered_verification_key() {
    let data = test_circuit();
    let proof = data.prove(Vec::new()).unwrap();
    assert_eq!(data.verify(proof.clone()), Ok(()));

    let mut verifier_data = data.verifier_data();
    verifier_data.common.selectors_info.groups[0].end = 1 << 32;
    assert!(verifier_data.verify(proof.clone()).is_err());

    let mut verifier_data = data.verifier_data();
    verifier_data.common.config.fri_config.num_query_rounds = 1 << 50;
    verifier_data.common.fri_params.config.num_query_rounds = 1 << 50;
    assert!(verifier_data.verify(proof).is_err());
}

#[test]
fn each_check_reports_its_own_error() {
    let verdict = |change: fn(&mut CommonCircuitData<F, D>)| {
        let mut common = test_common();
        change(&mut common);
        common.validate()
    };
    assert_eq!(verdict(|c| c.gates.swap(0, 1)), Err(ValidationError::GatesNotSorted));
    assert_eq!(verdict(|c| c.gates.swap(1, 2)), Err(ValidationError::GatesNotSorted));
    assert_eq!(
        verdict(|c| c.selectors_info.selector_indices.push(1)),
        Err(ValidationError::SelectorIndexCount)
    );
    assert_eq!(
        verdict(|c| c.selectors_info.groups[1].start = 2),
        Err(ValidationError::GroupsNotContiguous)
    );
    assert_eq!(
        verdict(|c| c.selectors_info.groups[1].end = 5),
        Err(ValidationError::GroupsNotContiguous)
    );
    assert_eq!(
        verdict(|c| c.selectors_info.groups[0].end = 0),
        Err(ValidationError::EmptyGroup)
    );
    assert_eq!(
        verdict(|c| {
            c.selectors_info.groups = vec![0..4];
            c.selectors_info.selector_indices = vec![0; 4];
        }),
        Err(ValidationError::GroupTooLarge)
    );
    assert_eq!(
        verdict(|c| {
            c.selectors_info.groups.pop();
        }),
        Err(ValidationError::GroupsDoNotCover)
    );
    assert_eq!(
        verdict(|c| c.selectors_info.selector_indices[0] = 2),
        Err(ValidationError::SelectorIndexOutsideGroup)
    );
    assert_eq!(verdict(|c| c.num_constants = 1), Err(ValidationError::TooManySelectors));
    assert_eq!(
        verdict(|c| c.num_gate_constraints = 122),
        Err(ValidationError::TooManyGateConstraints)
    );
    assert_eq!(
        verdict(|c| c.quotient_degree_factor = 9),
        Err(ValidationError::QuotientDegreeFactor)
    );
    assert_eq!(verdict(|c| c.fri_params.degree_bits = 30), Err(ValidationError::LdeDomain));
    assert_eq!(verdict(|c| c.fri_params.degree_bits = 29), Ok(()));
    assert_eq!(verdict(|c| c.fri_params.hiding = true), Err(ValidationError::FriParamsMismatch));
}

#[test]
fn first_failing_group_decides_the_error() {
    let mut common = test_common();
    common.selectors_info.groups = vec![0..0, 5..9];
    assert_eq!(common.validate(), Err(ValidationError::EmptyGroup));
    common.selectors_info.groups = vec![0..9, 9..9];
    assert_eq!(common.validate(), Err(ValidationError::GroupsNotContiguous));
}

#[test]
fn checks_near_the_word_size_do_not_wrap() {
    let mut common = test_common();
    common.fri_params.degree_bits = usize::MAX;
    assert_eq!(common.validate(), Err(ValidationError::LdeDomain));

    let mut common = test_common();
    common.gates[3].degree = usize::MAX;
    assert_eq!(common.validate(), Err(ValidationError::GroupTooLarge));

    let mut common = test_common();
    common.num_lookup_selectors = usize::MAX;
    assert_eq!(common.validate(), Err(ValidationError::TooManySelectors));

    let mut common = test_common();
    common.quotient_degree_factor = usize::MAX;
    common.config.max_quotient_degree_factor = usize::MAX;
    assert_eq!(common.validate(), Ok(()));
}

#[test]
fn an_empty_circuit_is_valid() {
    let mut common = test_common();
    common.gates.clear();
    common.selectors_info = SelectorsInfo { selector_indices: vec![], groups: vec![] };
    assert_eq!(common.validate(), Ok(()));
}

#[test]
fn error_messages() {
    assert_eq!(
        ValidationError::GatesNotSorted.message(),
        "Gate types must be sorted by (degree, id), without duplicates."
    );
    assert_eq!(
        ValidationError::GroupsNotContiguous.message(),
        "Selector groups must be contiguous and index into the list of gates."
    );
    assert_eq!(
        ValidationError::LdeDomain.message(),
        "The LDE domain does not exist in this field."
    );
    assert_eq!(
        ValidationError::FriParamsMismatch.message(),
        "The FRI parameters do not match the circuit config."
    );
}

#[test]
fn gate_order_is_by_degree_and_then_by_bytes() {
    assert!(gate("z", 1, 0).precedes(&gate("a", 2, 0)));
    assert!(!gate("a", 2, 0).precedes(&gate("z", 1, 0)));
    assert!(gate("Gate", 1, 0).precedes(&gate("Gate2", 1, 0)));
    assert!(!gate("Gate2", 1, 0).precedes(&gate("Gate", 1, 0)));
    assert!(!gate("Gate", 1, 0).precedes(&gate("Gate", 1, 9)));
    assert!(gate("Z", 1, 0).precedes(&gate("a", 1, 0)));
    assert!(gate("z", 1, 0).precedes(&gate("é", 1, 0)));
}

#[test]
fn groups_partition_the_gates_of_valid_data() {
    let common = test_common();
    assert_eq!(common.validate(), Ok(()));
    for i in 0..common.gates.len() {
        for k in 0..common.selectors_info.groups.len() {
            assert_eq!(
                common.selectors_info.groups[k].contains(&i),
                common.selectors_info.selector_indices[i] == k
            );
        }
        assert!(common.selectors_info.selector_indices[i] < common.num_constants);
        for j in 0..i {
            assert!(common.gates[j].precedes(&common.gates[i]));
        }
    }
    assert!(common.constraint_degree() <= common.quotient_degree_factor + 1);
}

#[test]
fn verification_reports_what_failed() {
    let data = test_circuit();
    let proof = data.prove(vec![1, 2]).unwrap();
    let verifier_data = data.verifier_data();
    assert_eq!(verifier_data.verify(proof.clone()), Ok(()));

    let mut tampered = verifier_data.clone();
    tampered.common.selectors_info.groups[0].end = 1 << 32;
    assert_eq!(
        tampered.verify(proof.clone()),
        Err(VerificationError::Key(ValidationError::GroupsNotContiguous))
    );

    let mut tampered = verifier_data.clone();
    tampered.common.config.fri_config.num_query_rounds = 1 << 50;
    tampered.common.fri_params.config.num_query_rounds = 1 << 50;
    assert_eq!(tampered.verify(proof.clone()), Err(VerificationError::QueryRounds));

    let mut tampered = verifier_data.clone();
    tampered.verifier_only.circuit_digest = hash(101);
    assert_eq!(tampered.verify(proof.clone()), Err(VerificationError::Proof("wrong circuit")));

    let mut short = proof;
    short.public_inputs.pop();
    assert_eq!(
        data.verify(short),
        Err(VerificationError::Proof("wrong number of public inputs"))
    );
}

#[test]
fn the_proof_system_is_not_asked_about_refused_keys() {
    let data = test_circuit();
    let proof = data.prove(Vec::new()).unwrap();
    let compressed = data.compress(proof.clone()).unwrap();

    let changes: [fn(&mut CommonCircuitData<F, D>); 5] = [
        |common| common.selectors_info.groups[0].end = 1 << 32,
        |common| common.gates.swap(0, 1),
        |common| common.num_constants = 0,
        |common| common.fri_params.degree_bits = 1 << 50,
        |common| common.config.fri_config.num_query_rounds = 1 << 50,
    ];
    for change in changes {
        let mut key = data.verifier_data();
        change(&mut key.common);
        let reason = key.common.validate().unwrap_err();
        assert_eq!(key.verify(proof.clone()), Err(VerificationError::Key(reason)));
        assert_eq!(key.verify_compressed(compressed.clone()), Err(VerificationError::Key(reason)));
    }

    for rounds in [0, 27, 29, 1 << 50] {
        let mut key = data.verifier_data();
        key.common.config.fri_config.num_query_rounds = rounds;
        key.common.fri_params.config.num_query_rounds = rounds;
        assert_eq!(key.common.validate(), Ok(()));
        assert_eq!(key.verify(proof.clone()), Err(VerificationError::QueryRounds));
    }
}

#[test]
fn the_extracted_key_gives_the_same_verdicts() {
    let mut data = test_circuit();
    let proof = data.prove(Vec::new()).unwrap();
    let mut other_inputs = proof.clone();
    other_inputs.public_inputs.pop();
    let mut fewer_rounds = proof.clone();
    fewer_rounds.proof.opening_proof.query_round_proofs.pop();
    for p in [&proof, &other_inputs, &fewer_rounds] {
        assert_eq!(data.verifier_data().verify(p.clone()), data.verify(p.clone()));
        let compressed = data.compress(p.clone()).unwrap();
        if p.proof == proof.proof {
            assert_eq!(
                data.verifier_data().verify_compressed(compressed.clone()),
                data.verify_compressed(compressed)
            );
        }
    }
    assert_eq!(data.verify(proof.clone()), Ok(()));
    data.verifier_only.circuit_digest = hash(101);
    assert_eq!(data.verify(proof.clone()), Err(VerificationError::Proof("wrong circuit")));
    assert_eq!(data.verifier_data().verify(proof.clone()), data.verify(proof));
}

#[test]
fn what_is_proved_is_accepted_and_stays_accepted_when_compressed() {
    let data = test_circuit();
    for inputs in [vec![], vec![1], vec![1, 2, 3, 4]] {
        let proof = data.prove(inputs).unwrap();
        assert_eq!(data.verify(proof.clone()), Ok(()));
        let compressed = data.compress(proof.clone()).unwrap();
        assert_eq!(data.verify_compressed(compressed.clone()), Ok(()));
        assert_eq!(data.decompress(compressed), Ok(proof));
    }
}

#[test]
fn compressed_proofs() {
    let data = test_circuit();
    let proof = data.prove(vec![]).unwrap();
    let compressed = data.compress(proof.clone()).unwrap();
    assert_eq!(compressed.1, hash(100));
    assert_eq!(data.verify_compressed(compressed.clone()), Ok(()));
    assert_eq!(data.verifier_data().verify_compressed(compressed.clone()), Ok(()));
    assert!(data.decompress(compressed.clone()) == Ok(proof));

    let mut tampered = data.verifier_data();
    tampered.common.num_constants = 0;
    assert_eq!(
        tampered.verify_compressed(compressed.clone()),
        Err(VerificationError::Key(ValidationError::TooManySelectors))
    );

    let mut other = test_circuit();
    other.verifier_only.circuit_digest = hash(101);
    assert!(other.decompress(compressed) == Err("compressed for another circuit"));
}

#[test]
fn proving_with_the_proving_key_alone() {
    let data = test_circuit();
    let proof = data.prove(vec![3]).unwrap();
    let prover_data = test_circuit().prover_data();
    assert_eq!(prover_data.prover_only, data.prover_only);
    assert_eq!(prover_data.common, data.common);
    assert!(prover_data.prove(vec![3]) == Ok(proof));
    assert!(prover_data.prove(vec![0; 5]) == Err("too many inputs"));
}

#[test]
fn mock_circuits_generate_witnesses() {
    let mock: MockCircuitData<F, C, D> = MockCircuitData {
        prover_only: test_prover_only(),
        common: test_common(),
    };
    assert_eq!(mock.generate_witness(vec![7, 8]), vec![7, 8, 0, 0, 0]);
    assert_eq!(mock.try_generate_witness(vec![7]), Ok(vec![7, 0, 0, 0, 0]));
    assert_eq!(mock.try_generate_witness(vec![0; 5]), Err("too many inputs"));
}

#[test]
fn verifier_data_is_a_copy() {
    let data = test_circuit();
    let verifier_data = data.verifier_data();
    assert_eq!(verifier_data.verifier_only, data.verifier_only);
    assert_eq!(verifier_data.common, data.common);
}

#[test]
fn common_data_round_trip() {
    let mut common = test_common();
    common.luts = vec![vec![(1, 2), (3, 65535)], vec![]];
    let bytes = common.to_bytes(&DefaultGateSerializer).unwrap();
    let read = CommonCircuitData::<F, D>::from_bytes(bytes.clone(), &DefaultGateSerializer);
    assert_eq!(read, Ok(common.clone()));

    let mut longer = bytes.clone();
    longer.push(77);
    let read = CommonCircuitData::<F, D>::from_bytes(longer, &DefaultGateSerializer);
    assert_eq!(read, Ok(common));

    for n in 0..bytes.len() {
        let cut = bytes[..n].to_vec();
        assert!(CommonCircuitData::<F, D>::from_bytes(cut, &DefaultGateSerializer).is_err());
    }
}

#[test]
fn common_data_starts_with_the_config() {
    let bytes = test_common().to_bytes(&DefaultGateSerializer).unwrap();
    assert_eq!(bytes[..8], [135, 0, 0, 0, 0, 0, 0, 0]);
    assert_eq!(bytes[8..16], [80, 0, 0, 0, 0, 0, 0, 0]);
    let end = bytes.len();
    assert_eq!(bytes[end - 8..], [123, 0, 0, 0, 0, 0, 0, 0]);
    assert_eq!(bytes[end - 16..end - 8], [7, 0, 0, 0, 0, 0, 0, 0]);
}

#[test]
fn gate_names_that_are_not_text_are_rejected() {
    let common = test_common();
    let mut bytes = common.to_bytes(&DefaultGateSerializer).unwrap();
    let at = bytes.windows(8).position(|w| w == b"NoopGate").unwrap();
    bytes[at] = b'M';
    let read = CommonCircuitData::<F, D>::from_bytes(bytes.clone(), &DefaultGateSerializer);
    assert_eq!(read.unwrap().gates[0].id, "MoopGate");
    bytes[at] = 0xff;
    assert!(CommonCircuitData::<F, D>::from_bytes(bytes, &DefaultGateSerializer).is_err());
}

#[test]
fn gate_names_beyond_ascii_round_trip() {
    let mut common = test_common();
    common.gates[3].id = "Gate é漢🦀".to_string();
    let bytes = common.to_bytes(&DefaultGateSerializer).unwrap();
    let read = CommonCircuitData::<F, D>::from_bytes(bytes, &DefaultGateSerializer);
    assert_eq!(read, Ok(common));
}

#[test]
fn field_elements_must_be_canonical() {
    let common = test_common();
    let bytes = common.to_bytes(&DefaultGateSerializer).unwrap();
    let needle = [49u8, 0, 0, 0, 0, 0, 0, 0];
    let at = bytes.windows(8).position(|w| w == needle).unwrap();
    let mut largest = bytes.clone();
    largest[at..at + 8].copy_from_slice(&18446744069414584320u64.to_le_bytes());
    let read = CommonCircuitData::<F, D>::from_bytes(largest, &DefaultGateSerializer).unwrap();
    assert_eq!(read.k_is[2], GoldilocksField(18446744069414584320));
    let mut order = bytes;
    order[at..at + 8].copy_from_slice(&18446744069414584321u64.to_le_bytes());
    assert!(CommonCircuitData::<F, D>::from_bytes(order, &DefaultGateSerializer).is_err());
}

#[test]
fn verifier_only_round_trip() {
    let data = test_circuit().verifier_only;
    let bytes = data.to_bytes().unwrap();
    assert_eq!(bytes.len(), 8 + 3 * 32);
    assert_eq!(bytes[..16], [2, 0, 0, 0, 0, 0, 0, 0, 10, 0, 0, 0, 0, 0, 0, 0]);
    assert_eq!(VerifierOnlyCircuitData::<C, D>::from_bytes(bytes.clone()), Ok(data));
    let cut = bytes[..bytes.len() - 1].to_vec();
    assert!(VerifierOnlyCircuitData::<C, D>::from_bytes(cut).is_err());
}

#[test]
fn prover_only_round_trip() {
    let common = test_common();
    let data = test_prover_only();
    let bytes = data.to_bytes(&DefaultGeneratorSerializer, &common).unwrap();
    let read = ProverOnlyCircuitData::<F, C, D>::from_bytes(
        &bytes,
        &DefaultGeneratorSerializer,
        &common,
    );
    assert_eq!(read, Ok(data));
    for n in 0..bytes.len() {
        assert!(ProverOnlyCircuitData::<F, C, D>::from_bytes(
            &bytes[..n],
            &DefaultGeneratorSerializer,
            &common,
        )
        .is_err());
    }
}

#[test]
fn watched_targets_are_written_in_order_and_read_in_any_order() {
    let common = test_common();
    let mut data = test_prover_only();
    data.generators.clear();
    let mut bytes = data.to_bytes(&DefaultGeneratorSerializer, &common).unwrap();
    let word = |bytes: &Vec<u8>, i: usize| bytes[8 * i];
    // No generators, two entries, 3 => [1], 12 => [0, 1].
    assert_eq!(word(&bytes, 0), 0);
    assert_eq!(word(&bytes, 1), 2);
    assert_eq!((word(&bytes, 2), word(&bytes, 3), word(&bytes, 4)), (3, 1, 1));
    assert_eq!((word(&bytes, 5), word(&bytes, 6)), (12, 2));
    bytes[8 * 2] = 20;
    let read = ProverOnlyCircuitData::<F, C, D>::from_bytes(
        &bytes,
        &DefaultGeneratorSerializer,
        &common,
    )
    .unwrap();
    let mut watches = BTreeMap::new();
    watches.insert(12, vec![0, 1]);
    watches.insert(20, vec![1]);
    assert_eq!(read.generator_indices_by_watches, watches);
    // The later of two entries for one target stays.
    bytes[8 * 2] = 12;
    let read = ProverOnlyCircuitData::<F, C, D>::from_bytes(
        &bytes,
        &DefaultGeneratorSerializer,
        &common,
    )
    .unwrap();
    let mut watches = BTreeMap::new();
    watches.insert(12, vec![0, 1]);
    assert_eq!(read.generator_indices_by_watches, watches);
}

#[test]
fn generator_names_that_are_not_text_are_rejected() {
    let common = test_common();
    let data = test_prover_only();
    let mut bytes = data.to_bytes(&DefaultGeneratorSerializer, &common).unwrap();
    let at = bytes.windows(8).position(|w| w == b"Constant").unwrap();
    bytes[at] = 0xff;
    assert!(ProverOnlyCircuitData::<F, C, D>::from_bytes(
        &bytes,
        &DefaultGeneratorSerializer,
        &common,
    )
    .is_err());
}

#[test]
fn keys_round_trip() {
    let data = test_circuit();
    let bytes = data.to_bytes(&DefaultGateSerializer, &DefaultGeneratorSerializer).unwrap();
    let read = CircuitData::<F, C, D>::from_bytes(
        &bytes,
        &DefaultGateSerializer,
        &DefaultGeneratorSerializer,
    );
    assert_eq!(read, Ok(test_circuit()));

    let verifier_data = data.verifier_data();
    let bytes = verifier_data.to_bytes(&DefaultGateSerializer).unwrap();
    let read = VerifierCircuitData::<F, C, D>::from_bytes(bytes, &DefaultGateSerializer);
    assert_eq!(read, Ok(verifier_data));

    let prover_data = data.prover_data();
    let bytes = prover_data.to_bytes(&DefaultGateSerializer, &DefaultGeneratorSerializer).unwrap();
    let read = ProverCircuitData::<F, C, D>::from_bytes(
        &bytes,
        &DefaultGateSerializer,
        &DefaultGeneratorSerializer,
    );
    assert_eq!(read, Ok(prover_data));
}

#[test]
fn keys_with_tampered_common_data_are_not_read() {
    let mut data = test_circuit();
    data.common.num_gate_constraints = 0;
    let bytes = data.to_bytes(&DefaultGateSerializer, &DefaultGeneratorSerializer).unwrap();
    assert!(CircuitData::<F, C, D>::from_bytes(
        &bytes,
        &DefaultGateSerializer,
        &DefaultGeneratorSerializer,
    )
    .is_err());
    let bytes = data.verifier_data().to_bytes(&DefaultGateSerializer).unwrap();
    assert!(VerifierCircuitData::<F, C, D>::from_bytes(bytes, &DefaultGateSerializer).is_err());
    let prover_data = data.prover_data();
    let bytes = prover_data.to_bytes(&DefaultGateSerializer, &DefaultGeneratorSerializer).unwrap();
    assert!(ProverCircuitData::<F, C, D>::from_bytes(
        &bytes,
        &DefaultGateSerializer,
        &DefaultGeneratorSerializer,
    )
    .is_err());
}
