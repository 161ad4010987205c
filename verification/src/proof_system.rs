//! Proofs, and the proof system that makes and checks them.

use vstd::prelude::*;

use crate::common::CommonCircuitData;
use crate::field::{Extendable, Field, RichField};
use crate::hash::{GenericConfig, MerkleCap};
use crate::prover_only::ProverOnlyCircuitData;
use crate::validation::ValidationError;
use crate::verifier_only::VerifierOnlyCircuitData;
use crate::wire::Codec;

verus! {

/// The siblings on the path from a leaf to the cap.
#[derive(Clone, Debug, PartialEq, Eq)]
pub struct MerkleProof<H: Codec + Copy> {
    pub siblings: Vec<H>,
}

/// The openings of the oracles at one query index.
#[derive(Clone, Debug, PartialEq, Eq)]
pub struct FriInitialTreeProof<F: RichField, H: Codec + Copy> {
    pub evals_proofs: Vec<(Vec<F>, MerkleProof<H>)>,
}

/// One reduction step of one query.
#[derive(Clone, Debug, PartialEq, Eq)]
#[verifier::reject_recursive_types(F)]
pub struct FriQueryStep<F: RichField + Extendable<D>, H: Codec + Copy, const D: usize> {
    pub evals: Vec<F::Extension>,
    pub merkle_proof: MerkleProof<H>,
}

/// One query.
#[derive(Clone, Debug, PartialEq, Eq)]
#[verifier::reject_recursive_types(F)]
pub struct FriQueryRound<F: RichField + Extendable<D>, H: Codec + Copy, const D: usize> {
    pub initial_trees_proof: FriInitialTreeProof<F, H>,
    pub steps: Vec<FriQueryStep<F, H, D>>,
}

/// A proof of proximity to low degree.
#[derive(Clone, Debug, PartialEq, Eq)]
#[verifier::reject_recursive_types(F)]
pub struct FriProof<F: RichField + Extendable<D>, H: Codec + Copy, const D: usize> {
    /// A Merkle cap for each reduced polynomial in the commit phase.
    pub commit_phase_merkle_caps: Vec<MerkleCap<H>>,
    /// Query rounds proofs.
    pub query_round_proofs: Vec<FriQueryRound<F, H, D>>,
    /// The final polynomial in coefficient form.
    pub final_poly: Vec<F::Extension>,
    /// Witness showing that the prover did PoW.
    pub pow_witness: F,
}

/// The values that the polynomials are claimed to have at the opening points.
#[derive(Clone, Debug, PartialEq, Eq)]
#[verifier::reject_recursive_types(F)]
pub struct OpeningSet<F: RichField + Extendable<D>, const D: usize> {
    pub constants: Vec<F::Extension>,
    pub plonk_sigmas: Vec<F::Extension>,
    pub wires: Vec<F::Extension>,
    pub plonk_zs: Vec<F::Extension>,
    pub plonk_zs_next: Vec<F::Extension>,
    pub partial_products: Vec<F::Extension>,
    pub quotient_polys: Vec<F::Extension>,
    pub lookup_zs: Vec<F::Extension>,
    pub lookup_zs_next: Vec<F::Extension>,
}

/// A proof for one circuit.
#[derive(Clone, Debug, PartialEq, Eq)]
#[verifier::reject_recursive_types(F)]
#[verifier::reject_recursive_types(C)]
pub struct Proof<F: RichField + Extendable<D>, C: GenericConfig<D, F = F>, const D: usize> {
    /// Merkle cap of LDEs of wire values.
    pub wires_cap: MerkleCap<C::Hash>,
    /// Merkle cap of LDEs of Z, in the context of Plonk's permutation argument.
    pub plonk_zs_partial_products_cap: MerkleCap<C::Hash>,
    /// Merkle cap of LDEs of the quotient polynomial components.
    pub quotient_polys_cap: MerkleCap<C::Hash>,
    /// Purported values of each polynomial at the challenge point.
    pub openings: OpeningSet<F, D>,
    /// A batch FRI argument for all openings.
    pub opening_proof: FriProof<F, C::Hash, D>,
}

/// A proof and the public inputs that it is for.
#[derive(Clone, Debug, PartialEq, Eq)]
#[verifier::reject_recursive_types(F)]
#[verifier::reject_recursive_types(C)]
pub struct ProofWithPublicInputs<
    F: RichField + Extendable<D>,
    C: GenericConfig<D, F = F>,
    const D: usize,
> {
    pub proof: Proof<F, C, D>,
    pub public_inputs: Vec<F>,
}

/// The algorithms that make, check and compress proofs for circuits of one configuration.
pub trait ProofSystem<const D: usize>: GenericConfig<D> {
    /// The witness values that the caller provides.
    type PartialWitness;

    /// The values of all targets.
    type PartitionWitness;

    type CompressedProof;

    type Error;

    fn generate_partial_witness(
        inputs: Self::PartialWitness,
        prover_data: &ProverOnlyCircuitData<Self::F, Self, D>,
        common_data: &CommonCircuitData<Self::F, D>,
    ) -> Result<Self::PartitionWitness, Self::Error>;

    fn prove(
        prover_data: &ProverOnlyCircuitData<Self::F, Self, D>,
        common_data: &CommonCircuitData<Self::F, D>,
        inputs: Self::PartialWitness,
    ) -> Result<ProofWithPublicInputs<Self::F, Self, D>, Self::Error>;

    /// Checks a proof. It is only ever asked about circuit data that is valid and that asks for as
    /// many query rounds as the proof has, so it may use both as indices and loop bounds.
    fn verify(
        proof_with_pis: ProofWithPublicInputs<Self::F, Self, D>,
        verifier_data: &VerifierOnlyCircuitData<Self, D>,
        common_data: &CommonCircuitData<Self::F, D>,
    ) -> Result<(), Self::Error>
        requires
            common_data@.valid(<Self::F as Field>::TWO_ADICITY as nat),
            proof_with_pis.proof.opening_proof.query_round_proofs@.len()
                == common_data.config.fri_config.num_query_rounds,
    ;

    /// Checks a compressed proof. It is only ever asked about circuit data that is valid.
    fn verify_compressed(
        compressed_proof_with_pis: Self::CompressedProof,
        verifier_data: &VerifierOnlyCircuitData<Self, D>,
        common_data: &CommonCircuitData<Self::F, D>,
    ) -> Result<(), Self::Error>
        requires
            common_data@.valid(<Self::F as Field>::TWO_ADICITY as nat),
    ;

    fn compress(
        proof: ProofWithPublicInputs<Self::F, Self, D>,
        circuit_digest: &Self::Hash,
        common_data: &CommonCircuitData<Self::F, D>,
    ) -> Result<Self::CompressedProof, Self::Error>;

    fn decompress(
        proof: Self::CompressedProof,
        circuit_digest: &Self::Hash,
        common_data: &CommonCircuitData<Self::F, D>,
    ) -> Result<ProofWithPublicInputs<Self::F, Self, D>, Self::Error>;
}

/// Why a proof was rejected.
#[derive(Clone, Copy, Debug, PartialEq, Eq)]
pub enum VerificationError<E> {
    /// The circuit data is not valid.
    Key(ValidationError),
    /// The proof does not have as many query rounds as the circuit data asks for.
    QueryRounds,
    /// The proof system rejected the proof.
    Proof(E),
}

/// What the proof system's answer means to the caller.
pub open spec fn reported<E>(answer: Result<(), E>) -> Result<(), VerificationError<E>> {
    match answer {
        Ok(()) => Ok(()),
        Err(e) => Err(VerificationError::Proof(e)),
    }
}

/// Checks a proof. The circuit data may come from anyone, so it is checked before anything in it is
/// used as a loop bound, and so is the number of query rounds it asks for: the proof system is not
/// asked about a key that is refused.
pub fn verify<F: RichField + Extendable<D>, C: ProofSystem<D, F = F>, const D: usize>(
    proof_with_pis: ProofWithPublicInputs<F, C, D>,
    verifier_data: &VerifierOnlyCircuitData<C, D>,
    common_data: &CommonCircuitData<F, D>,
) -> (r: Result<(), VerificationError<C::Error>>)
    ensures
        verifies(proof_with_pis, verifier_data, common_data, r),
{
    if let Err(e) = common_data.validate() {
        return Err(VerificationError::Key(e));
    }
    if proof_with_pis.proof.opening_proof.query_round_proofs.len()
        != common_data.config.fri_config.num_query_rounds {
        return Err(VerificationError::QueryRounds);
    }
    match C::verify(proof_with_pis, verifier_data, common_data) {
        Ok(()) => Ok(()),
        Err(e) => Err(VerificationError::Proof(e)),
    }
}

/// `r` is the outcome of checking a proof: circuit data that is not valid is rejected for the reason
/// that its check gives, a wrong number of query rounds is rejected next, and otherwise `r` is what
/// the proof system answers.
pub open spec fn verifies<
    F: RichField + Extendable<D>,
    C: ProofSystem<D, F = F>,
    const D: usize,
>(
    proof_with_pis: ProofWithPublicInputs<F, C, D>,
    verifier_data: &VerifierOnlyCircuitData<C, D>,
    common_data: &CommonCircuitData<F, D>,
    r: Result<(), VerificationError<C::Error>>,
) -> bool {
    let t = F::TWO_ADICITY as nat;
    let rounds = proof_with_pis.proof.opening_proof.query_round_proofs@.len();
    &&& forall|e: ValidationError| #[trigger]
        common_data@.fails_with(e, t) ==> r == Err::<(), _>(VerificationError::<C::Error>::Key(e))
    &&& common_data@.valid(t) && rounds != common_data.config.fri_config.num_query_rounds ==> r
        == Err::<(), _>(VerificationError::<C::Error>::QueryRounds)
    &&& common_data@.valid(t) && rounds == common_data.config.fri_config.num_query_rounds
        ==> exists|answer: Result<(), C::Error>| #[trigger]
        call_ensures(C::verify, (proof_with_pis, verifier_data, common_data), answer) && r
            == reported(answer)
}

/// Checks a compressed proof, after the circuit data it is checked against.
pub fn verify_compressed<F: RichField + Extendable<D>, C: ProofSystem<D, F = F>, const D: usize>(
    compressed_proof_with_pis: C::CompressedProof,
    verifier_data: &VerifierOnlyCircuitData<C, D>,
    common_data: &CommonCircuitData<F, D>,
) -> (r: Result<(), VerificationError<C::Error>>)
    ensures
        verifies_compressed(compressed_proof_with_pis, verifier_data, common_data, r),
{
    if let Err(e) = common_data.validate() {
        return Err(VerificationError::Key(e));
    }
    match C::verify_compressed(compressed_proof_with_pis, verifier_data, common_data) {
        Ok(()) => Ok(()),
        Err(e) => Err(VerificationError::Proof(e)),
    }
}

/// `r` is the outcome of checking a compressed proof.
pub open spec fn verifies_compressed<
    F: RichField + Extendable<D>,
    C: ProofSystem<D, F = F>,
    const D: usize,
>(
    compressed_proof_with_pis: C::CompressedProof,
    verifier_data: &VerifierOnlyCircuitData<C, D>,
    common_data: &CommonCircuitData<F, D>,
    r: Result<(), VerificationError<C::Error>>,
) -> bool {
    let t = F::TWO_ADICITY as nat;
    &&& forall|e: ValidationError| #[trigger]
        common_data@.fails_with(e, t) ==> r == Err::<(), _>(VerificationError::<C::Error>::Key(e))
    &&& common_data@.valid(t) ==> exists|answer: Result<(), C::Error>| #[trigger]
        call_ensures(
            C::verify_compressed,
            (compressed_proof_with_pis, verifier_data, common_data),
            answer,
        ) && r == reported(answer)
}

/// A proof is accepted only against valid circuit data that asks for as many query rounds as the
/// proof has, and only if the proof system accepts it.
pub proof fn law_accepted_proof<
    F: RichField + Extendable<D>,
    C: ProofSystem<D, F = F>,
    const D: usize,
>(
    proof_with_pis: ProofWithPublicInputs<F, C, D>,
    verifier_data: &VerifierOnlyCircuitData<C, D>,
    common_data: &CommonCircuitData<F, D>,
    r: Result<(), VerificationError<C::Error>>,
)
    requires
        verifies(proof_with_pis, verifier_data, common_data, r),
        r is Ok,
    ensures
        common_data@.valid(F::TWO_ADICITY as nat),
        proof_with_pis.proof.opening_proof.query_round_proofs@.len()
            == common_data.config.fri_config.num_query_rounds,
        call_ensures(
            C::verify,
            (proof_with_pis, verifier_data, common_data),
            Ok::<(), C::Error>(()),
        ),
{
    crate::validation::law_some_verdict(common_data@, F::TWO_ADICITY as nat);
    let answer = choose|answer: Result<(), C::Error>| #[trigger]
        call_ensures(C::verify, (proof_with_pis, verifier_data, common_data), answer) && r
            == reported(answer);
    assert(answer is Ok && answer->Ok_0 == ());
}

/// A proof is accepted against valid circuit data that asks for as many query rounds as the proof has,
/// if the proof system accepts it.
pub proof fn law_accepts<F: RichField + Extendable<D>, C: ProofSystem<D, F = F>, const D: usize>(
    proof_with_pis: ProofWithPublicInputs<F, C, D>,
    verifier_data: &VerifierOnlyCircuitData<C, D>,
    common_data: &CommonCircuitData<F, D>,
    r: Result<(), VerificationError<C::Error>>,
)
    requires
        verifies(proof_with_pis, verifier_data, common_data, r),
        common_data@.valid(F::TWO_ADICITY as nat),
        proof_with_pis.proof.opening_proof.query_round_proofs@.len()
            == common_data.config.fri_config.num_query_rounds,
        forall|answer: Result<(), C::Error>| #[trigger]
            call_ensures(C::verify, (proof_with_pis, verifier_data, common_data), answer)
                ==> answer is Ok,
    ensures
        r is Ok,
{
}

/// A proof that the proof system rejects is rejected with the proof system's error, against valid
/// circuit data that asks for as many query rounds as the proof has.
pub proof fn law_rejects<F: RichField + Extendable<D>, C: ProofSystem<D, F = F>, const D: usize>(
    proof_with_pis: ProofWithPublicInputs<F, C, D>,
    verifier_data: &VerifierOnlyCircuitData<C, D>,
    common_data: &CommonCircuitData<F, D>,
    e: C::Error,
    r: Result<(), VerificationError<C::Error>>,
)
    requires
        verifies(proof_with_pis, verifier_data, common_data, r),
        common_data@.valid(F::TWO_ADICITY as nat),
        proof_with_pis.proof.opening_proof.query_round_proofs@.len()
            == common_data.config.fri_config.num_query_rounds,
        forall|answer: Result<(), C::Error>| #[trigger]
            call_ensures(C::verify, (proof_with_pis, verifier_data, common_data), answer)
                ==> answer == Err::<(), C::Error>(e),
    ensures
        r == Err::<(), _>(VerificationError::<C::Error>::Proof(e)),
{
}

/// A compressed proof is accepted only against valid circuit data, and only if the proof system
/// accepts it.
pub proof fn law_accepted_compressed_proof<
    F: RichField + Extendable<D>,
    C: ProofSystem<D, F = F>,
    const D: usize,
>(
    compressed_proof_with_pis: C::CompressedProof,
    verifier_data: &VerifierOnlyCircuitData<C, D>,
    common_data: &CommonCircuitData<F, D>,
    r: Result<(), VerificationError<C::Error>>,
)
    requires
        verifies_compressed(compressed_proof_with_pis, verifier_data, common_data, r),
        r is Ok,
    ensures
        common_data@.valid(F::TWO_ADICITY as nat),
        call_ensures(
            C::verify_compressed,
            (compressed_proof_with_pis, verifier_data, common_data),
            Ok::<(), C::Error>(()),
        ),
{
    crate::validation::law_some_verdict(common_data@, F::TWO_ADICITY as nat);
    let answer = choose|answer: Result<(), C::Error>| #[trigger]
        call_ensures(
            C::verify_compressed,
            (compressed_proof_with_pis, verifier_data, common_data),
            answer,
        ) && r == reported(answer);
    assert(answer is Ok && answer->Ok_0 == ());
}

/// A compressed proof is accepted against valid circuit data if the proof system accepts it, and
/// rejected with the proof system's error if the proof system rejects it.
pub proof fn law_compressed_answer<
    F: RichField + Extendable<D>,
    C: ProofSystem<D, F = F>,
    const D: usize,
>(
    compressed_proof_with_pis: C::CompressedProof,
    verifier_data: &VerifierOnlyCircuitData<C, D>,
    common_data: &CommonCircuitData<F, D>,
    expected: Result<(), C::Error>,
    r: Result<(), VerificationError<C::Error>>,
)
    requires
        verifies_compressed(compressed_proof_with_pis, verifier_data, common_data, r),
        common_data@.valid(F::TWO_ADICITY as nat),
        forall|answer: Result<(), C::Error>| #[trigger]
            call_ensures(
                C::verify_compressed,
                (compressed_proof_with_pis, verifier_data, common_data),
                answer,
            ) ==> answer == expected,
    ensures
        r is Ok <==> expected is Ok,
        expected matches Err(e) ==> r == Err::<(), _>(VerificationError::<C::Error>::Proof(e)),
{
}

/// Whether a verification key is rejected, and why, depends on its value alone: a copy of the common
/// data is rejected exactly when the data itself is, for the same reason.
pub proof fn law_key_verdict_by_value<
    F: RichField + Extendable<D>,
    C: ProofSystem<D, F = F>,
    const D: usize,
>(
    p: ProofWithPublicInputs<F, C, D>,
    verifier_data: &VerifierOnlyCircuitData<C, D>,
    common_data: &CommonCircuitData<F, D>,
    r: Result<(), VerificationError<C::Error>>,
    q: ProofWithPublicInputs<F, C, D>,
    other_verifier_data: &VerifierOnlyCircuitData<C, D>,
    other_common_data: &CommonCircuitData<F, D>,
    s: Result<(), VerificationError<C::Error>>,
    e: ValidationError,
)
    requires
        verifies(p, verifier_data, common_data, r),
        verifies(q, other_verifier_data, other_common_data, s),
        common_data@ == other_common_data@,
    ensures
        r == Err::<(), _>(VerificationError::<C::Error>::Key(e)) <==> s == Err::<(), _>(
            VerificationError::<C::Error>::Key(e),
        ),
{
    crate::validation::law_some_verdict(common_data@, F::TWO_ADICITY as nat);
}

/// What the proof system answers about a proof depends on the values of the circuit data alone.
pub open spec fn answers_by_value<
    F: RichField + Extendable<D>,
    C: ProofSystem<D, F = F>,
    const D: usize,
>(proof_with_pis: ProofWithPublicInputs<F, C, D>) -> bool {
    forall|
        a: &VerifierOnlyCircuitData<C, D>,
        v: &CommonCircuitData<F, D>,
        x: Result<(), C::Error>,
        b: &VerifierOnlyCircuitData<C, D>,
        w: &CommonCircuitData<F, D>,
        y: Result<(), C::Error>,
    |
        v@.valid(F::TWO_ADICITY as nat) && a.deep_view() == b.deep_view() && v@ == w@
            && #[trigger] call_ensures(C::verify, (proof_with_pis, a, v), x)
            && #[trigger] call_ensures(C::verify, (proof_with_pis, b, w), y) ==> x == y
}

/// What the proof system answers about a compressed proof depends on the values of the circuit data
/// alone.
pub open spec fn compressed_answers_by_value<
    F: RichField + Extendable<D>,
    C: ProofSystem<D, F = F>,
    const D: usize,
>(compressed_proof_with_pis: C::CompressedProof) -> bool {
    forall|
        a: &VerifierOnlyCircuitData<C, D>,
        v: &CommonCircuitData<F, D>,
        x: Result<(), C::Error>,
        b: &VerifierOnlyCircuitData<C, D>,
        w: &CommonCircuitData<F, D>,
        y: Result<(), C::Error>,
    |
        v@.valid(F::TWO_ADICITY as nat) && a.deep_view() == b.deep_view() && v@ == w@
            && #[trigger] call_ensures(C::verify_compressed, (compressed_proof_with_pis, a, v), x)
            && #[trigger] call_ensures(C::verify_compressed, (compressed_proof_with_pis, b, w), y)
            ==> x == y
}

/// A copy of a verification key gives the same verdict on a proof as the key itself, when the answers
/// of the proof system depend on the value of the key alone.
pub proof fn law_verdict_by_value<
    F: RichField + Extendable<D>,
    C: ProofSystem<D, F = F>,
    const D: usize,
>(
    proof_with_pis: ProofWithPublicInputs<F, C, D>,
    verifier_data: &VerifierOnlyCircuitData<C, D>,
    common_data: &CommonCircuitData<F, D>,
    r: Result<(), VerificationError<C::Error>>,
    other_verifier_data: &VerifierOnlyCircuitData<C, D>,
    other_common_data: &CommonCircuitData<F, D>,
    s: Result<(), VerificationError<C::Error>>,
)
    requires
        answers_by_value::<F, C, D>(proof_with_pis),
        verifies(proof_with_pis, verifier_data, common_data, r),
        verifies(proof_with_pis, other_verifier_data, other_common_data, s),
        verifier_data.deep_view() == other_verifier_data.deep_view(),
        common_data@ == other_common_data@,
    ensures
        r == s,
{
    crate::validation::law_some_verdict(common_data@, F::TWO_ADICITY as nat);
    assert(common_data@.config.fri_config.num_query_rounds
        == common_data.config.fri_config.num_query_rounds);
    assert(other_common_data@.config.fri_config.num_query_rounds
        == other_common_data.config.fri_config.num_query_rounds);
}

/// A copy of a verification key gives the same verdict on a compressed proof as the key itself, when
/// the answers of the proof system depend on the value of the key alone.
pub proof fn law_compressed_verdict_by_value<
    F: RichField + Extendable<D>,
    C: ProofSystem<D, F = F>,
    const D: usize,
>(
    compressed_proof_with_pis: C::CompressedProof,
    verifier_data: &VerifierOnlyCircuitData<C, D>,
    common_data: &CommonCircuitData<F, D>,
    r: Result<(), VerificationError<C::Error>>,
    other_verifier_data: &VerifierOnlyCircuitData<C, D>,
    other_common_data: &CommonCircuitData<F, D>,
    s: Result<(), VerificationError<C::Error>>,
)
    requires
        compressed_answers_by_value::<F, C, D>(compressed_proof_with_pis),
        verifies_compressed(compressed_proof_with_pis, verifier_data, common_data, r),
        verifies_compressed(compressed_proof_with_pis, other_verifier_data, other_common_data, s),
        verifier_data.deep_view() == other_verifier_data.deep_view(),
        common_data@ == other_common_data@,
    ensures
        r == s,
{
    crate::validation::law_some_verdict(common_data@, F::TWO_ADICITY as nat);
}

} // verus!
