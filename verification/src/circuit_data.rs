//! Circuit data specific to the prover and the verifier.
//!
//! After building a circuit, one obtains an instance of [`CircuitData`]. This contains both prover
//! and verifier data, allowing to generate proofs for the given circuit and verify them.
//!
//! Most of the [`CircuitData`] is actually prover-specific, and can be extracted by calling
//! [`CircuitData::prover_data`]. The verifier data can similarly be extracted by calling
//! [`CircuitData::verifier_data`]. This is useful to allow even small devices to verify proofs.

use vstd::prelude::*;

use crate::common::{CommonCircuitData, CommonView};
use crate::field::{Extendable, RichField};
use crate::gates::GateRef;
use crate::generator::WitnessGeneratorRef;
use crate::hash::GenericConfig;
use crate::proof_system::{
    answers_by_value, compressed_answers_by_value, law_accepted_compressed_proof,
    law_accepted_proof, law_accepts, law_compressed_verdict_by_value, law_verdict_by_value,
    verifies, verifies_compressed, verify, verify_compressed, ProofSystem, ProofWithPublicInputs,
    VerificationError,
};
use crate::prover_only::{
    lemma_prover_only_prefix_free, prover_only_bytes, prover_only_writable, ProverOnlyCircuitData,
    ProverOnlyView,
};
use crate::serializer::{DefaultGateSerializer, DefaultGeneratorSerializer, Serializer};
use crate::validation::{law_some_verdict, ValidationError};
use crate::verifier_only::{VerifierOnlyCircuitData, VerifierOnlyView};
use crate::watches::sorted_entries;
use crate::wire::{lemma_prefix_concat, lemma_starts_with, Buffer, Codec, IoError, IoResult};

verus! {

/// Mock circuit data to only do witness generation without generating a proof.
#[derive(Debug, PartialEq, Eq)]
#[verifier::reject_recursive_types(F)]
#[verifier::reject_recursive_types(C)]
pub struct MockCircuitData<
    F: RichField + Extendable<D>,
    C: GenericConfig<D, F = F>,
    const D: usize,
> {
    pub prover_only: ProverOnlyCircuitData<F, C, D>,
    pub common: CommonCircuitData<F, D>,
}

impl<F: RichField + Extendable<D>, C: ProofSystem<D, F = F>, const D: usize> MockCircuitData<
    F,
    C,
    D,
> {
    /// The full witness, for inputs from which the proof system can generate one.
    pub fn generate_witness(&self, inputs: C::PartialWitness) -> (r: C::PartitionWitness)
        requires
            forall|answer: Result<C::PartitionWitness, C::Error>| #[trigger]
                call_ensures(
                    C::generate_partial_witness,
                    (inputs, &self.prover_only, &self.common),
                    answer,
                ) ==> answer is Ok,
        ensures
            call_ensures(
                C::generate_partial_witness,
                (inputs, &self.prover_only, &self.common),
                Ok::<_, C::Error>(r),
            ),
    {
        match self.try_generate_witness(inputs) {
            Ok(witness) => witness,
            Err(_) => vstd::pervasive::unreached(),
        }
    }

    /// The full witness, or the reason why the proof system could not generate one.
    pub fn try_generate_witness(&self, inputs: C::PartialWitness) -> (r: Result<
        C::PartitionWitness,
        C::Error,
    >)
        ensures
            call_ensures(
                C::generate_partial_witness,
                (inputs, &self.prover_only, &self.common),
                r,
            ),
    {
        C::generate_partial_witness(inputs, &self.prover_only, &self.common)
    }
}

/// Circuit data required by the prover. This may be thought of as a proving key, although it
/// includes code for witness generation.
///
/// The goal here is to make proof generation as fast as we can, rather than making this prover
/// structure as succinct as we can. Thus we include various precomputed data which isn't strictly
/// required, like LDEs of preprocessed polynomials. If more succinctness was desired, we could
/// construct a more minimal prover structure and convert back and forth.
#[derive(Debug, PartialEq, Eq)]
#[verifier::reject_recursive_types(F)]
#[verifier::reject_recursive_types(C)]
pub struct ProverCircuitData<
    F: RichField + Extendable<D>,
    C: GenericConfig<D, F = F>,
    const D: usize,
> {
    pub prover_only: ProverOnlyCircuitData<F, C, D>,
    pub common: CommonCircuitData<F, D>,
}

/// The value of a [`ProverCircuitData`].
pub struct ProverView<H> {
    pub prover_only: ProverOnlyView<H>,
    pub common: CommonView,
}

impl<F: RichField + Extendable<D>, C: GenericConfig<D, F = F>, const D: usize> View
    for ProverCircuitData<F, C, D> {
    type V = ProverView<<C::Hash as DeepView>::V>;

    open spec fn view(&self) -> ProverView<<C::Hash as DeepView>::V> {
        ProverView { prover_only: self.prover_only@, common: self.common@ }
    }
}

/// The proving key has an encoding in which `watches` lists the watched targets.
pub open spec fn prover_writable<S, W, F, C, const D: usize>(
    v: ProverView<<C::Hash as DeepView>::V>,
    watches: Seq<(usize, Seq<usize>)>,
    gate_serializer: &S,
    generator_serializer: &W,
) -> bool where
    S: Serializer<GateRef, F, D>,
    W: Serializer<WitnessGeneratorRef, F, D>,
    F: RichField + Extendable<D>,
    C: GenericConfig<D, F = F>,
 {
    &&& v.common.writable::<S, F, D>(gate_serializer)
    &&& prover_only_writable::<W, F, C, D>(v.prover_only, watches, generator_serializer, v.common)
}

/// The bytes that stand for a proving key when `watches` lists the watched targets.
pub open spec fn prover_bytes<S, W, F, C, const D: usize>(
    v: ProverView<<C::Hash as DeepView>::V>,
    watches: Seq<(usize, Seq<usize>)>,
    gate_serializer: &S,
    generator_serializer: &W,
) -> Seq<u8> where
    S: Serializer<GateRef, F, D>,
    W: Serializer<WitnessGeneratorRef, F, D>,
    F: RichField + Extendable<D>,
    C: GenericConfig<D, F = F>,
 {
    v.common.bytes::<S, F, D>(gate_serializer) + prover_only_bytes::<W, F, C, D>(
        v.prover_only,
        watches,
        generator_serializer,
        v.common,
    )
}

/// `r` is what a string is read as: a proving key with valid common data whose bytes the string
/// starts with, or nothing when there is none.
pub open spec fn prover_decodes<S, W, F, C, const D: usize>(
    gate_serializer: &S,
    generator_serializer: &W,
    s: Seq<u8>,
    r: Option<ProverView<<C::Hash as DeepView>::V>>,
) -> bool where
    S: Serializer<GateRef, F, D>,
    W: Serializer<WitnessGeneratorRef, F, D>,
    F: RichField + Extendable<D>,
    C: GenericConfig<D, F = F>,
 {
    match r {
        Some(v) => exists|watches: Seq<(usize, Seq<usize>)>|
            {
                &&& v.common.valid(F::TWO_ADICITY as nat)
                &&& prover_writable::<S, W, F, C, D>(
                    v,
                    watches,
                    gate_serializer,
                    generator_serializer,
                )
                &&& (#[trigger] prover_bytes::<S, W, F, C, D>(
                    v,
                    watches,
                    gate_serializer,
                    generator_serializer,
                )).is_prefix_of(s)
            },
        None => forall|
            v: ProverView<<C::Hash as DeepView>::V>,
            watches: Seq<(usize, Seq<usize>)>,
        |
            #![trigger prover_bytes::<S, W, F, C, D>(v, watches, gate_serializer, generator_serializer)]
            v.common.valid(F::TWO_ADICITY as nat) && prover_writable::<S, W, F, C, D>(
                v,
                watches,
                gate_serializer,
                generator_serializer,
            ) ==> !prover_bytes::<S, W, F, C, D>(
                v,
                watches,
                gate_serializer,
                generator_serializer,
            ).is_prefix_of(s),
    }
}

/// No string starts with the bytes of two different proving keys.
pub proof fn lemma_prover_prefix_free<
    S: Serializer<GateRef, F, D>,
    W: Serializer<WitnessGeneratorRef, F, D>,
    F: RichField + Extendable<D>,
    C: GenericConfig<D, F = F>,
    const D: usize,
>(
    gate_serializer: &S,
    generator_serializer: &W,
    a: ProverView<<C::Hash as DeepView>::V>,
    x: Seq<(usize, Seq<usize>)>,
    b: ProverView<<C::Hash as DeepView>::V>,
    y: Seq<(usize, Seq<usize>)>,
    s: Seq<u8>,
)
    requires
        prover_writable::<S, W, F, C, D>(a, x, gate_serializer, generator_serializer),
        prover_writable::<S, W, F, C, D>(b, y, gate_serializer, generator_serializer),
        prover_bytes::<S, W, F, C, D>(a, x, gate_serializer, generator_serializer).is_prefix_of(s),
        prover_bytes::<S, W, F, C, D>(b, y, gate_serializer, generator_serializer).is_prefix_of(s),
    ensures
        a == b,
        x == y,
{
    let c = a.common.bytes::<S, F, D>(gate_serializer);
    lemma_prefix_concat(
        c,
        prover_only_bytes::<W, F, C, D>(a.prover_only, x, generator_serializer, a.common),
        s,
    );
    lemma_prefix_concat(
        b.common.bytes::<S, F, D>(gate_serializer),
        prover_only_bytes::<W, F, C, D>(b.prover_only, y, generator_serializer, b.common),
        s,
    );
    crate::common_wire::lemma_common_prefix_free::<S, F, D>(
        gate_serializer,
        a.common,
        b.common,
        s,
    );
    lemma_prover_only_prefix_free::<W, F, C, D>(
        generator_serializer,
        a.common,
        a.prover_only,
        x,
        b.prover_only,
        y,
        s.skip(c.len() as int),
    );
}

impl<F: RichField + Extendable<D>, C: GenericConfig<D, F = F>, const D: usize> ProverCircuitData<
    F,
    C,
    D,
> {
    /// Reads the proving key whose bytes stand next, and fails exactly when there is none or its
    /// common data is not valid.
    pub fn read<S: Serializer<GateRef, F, D>, W: Serializer<WitnessGeneratorRef, F, D>>(
        gate_serializer: &S,
        generator_serializer: &W,
        buf: &mut Buffer<'_>,
    ) -> (r: IoResult<Self>)
        ensures
            match r {
                Ok(v) => exists|watches: Seq<(usize, Seq<usize>)>|
                    {
                        let bytes = #[trigger] prover_bytes::<S, W, F, C, D>(
                            v@,
                            watches,
                            gate_serializer,
                            generator_serializer,
                        );
                        &&& v@.common.valid(F::TWO_ADICITY as nat)
                        &&& prover_writable::<S, W, F, C, D>(
                            v@,
                            watches,
                            gate_serializer,
                            generator_serializer,
                        )
                        &&& bytes.is_prefix_of(old(buf)@)
                        &&& final(buf)@ == old(buf)@.skip(bytes.len() as int)
                    },
                Err(_) => forall|
                    v: ProverView<<C::Hash as DeepView>::V>,
                    watches: Seq<(usize, Seq<usize>)>,
                |
                    #![trigger prover_bytes::<S, W, F, C, D>(v, watches, gate_serializer, generator_serializer)]
                    v.common.valid(F::TWO_ADICITY as nat) && prover_writable::<S, W, F, C, D>(
                        v,
                        watches,
                        gate_serializer,
                        generator_serializer,
                    ) ==> !prover_bytes::<S, W, F, C, D>(
                        v,
                        watches,
                        gate_serializer,
                        generator_serializer,
                    ).is_prefix_of(old(buf)@),
            },
    {
        let ghost before = buf@;
        proof {
            assert forall|
                v: ProverView<<C::Hash as DeepView>::V>,
                watches: Seq<(usize, Seq<usize>)>,
            |
                #![trigger prover_bytes::<S, W, F, C, D>(v, watches, gate_serializer, generator_serializer)]
                prover_bytes::<S, W, F, C, D>(
                    v,
                    watches,
                    gate_serializer,
                    generator_serializer,
                ).is_prefix_of(before) implies v.common.bytes::<S, F, D>(
                gate_serializer,
            ).is_prefix_of(before) && prover_only_bytes::<W, F, C, D>(
                v.prover_only,
                watches,
                generator_serializer,
                v.common,
            ).is_prefix_of(
                before.skip(v.common.bytes::<S, F, D>(gate_serializer).len() as int),
            ) by {
                lemma_prefix_concat(
                    v.common.bytes::<S, F, D>(gate_serializer),
                    prover_only_bytes::<W, F, C, D>(
                        v.prover_only,
                        watches,
                        generator_serializer,
                        v.common,
                    ),
                    before,
                );
            }
        }
        let common = CommonCircuitData::<F, D>::read(gate_serializer, buf)?;
        let ghost c = common@.bytes::<S, F, D>(gate_serializer);
        proof {
            assert forall|
                v: ProverView<<C::Hash as DeepView>::V>,
                watches: Seq<(usize, Seq<usize>)>,
            |
                #![trigger prover_bytes::<S, W, F, C, D>(v, watches, gate_serializer, generator_serializer)]
                prover_writable::<S, W, F, C, D>(v, watches, gate_serializer, generator_serializer)
                    && prover_bytes::<S, W, F, C, D>(
                    v,
                    watches,
                    gate_serializer,
                    generator_serializer,
                ).is_prefix_of(before) implies v.common == common@ by {
                crate::common_wire::lemma_common_prefix_free::<S, F, D>(
                    gate_serializer,
                    v.common,
                    common@,
                    before,
                );
            }
        }
        let prover_only = ProverOnlyCircuitData::<F, C, D>::read(
            generator_serializer,
            &common,
            buf,
        )?;
        let r = ProverCircuitData { prover_only, common };
        proof {
            let middle = before.skip(c.len() as int);
            let watches = choose|watches: Seq<(usize, Seq<usize>)>|
                {
                    let bytes = #[trigger] prover_only_bytes::<W, F, C, D>(
                        prover_only@,
                        watches,
                        generator_serializer,
                        common@,
                    );
                    &&& prover_only_writable::<W, F, C, D>(
                        prover_only@,
                        watches,
                        generator_serializer,
                        common@,
                    )
                    &&& bytes.is_prefix_of(middle)
                    &&& buf@ == middle.skip(bytes.len() as int)
                };
            let p = prover_only_bytes::<W, F, C, D>(
                prover_only@,
                watches,
                generator_serializer,
                common@,
            );
            lemma_prefix_concat(c, p, before);
            assert(buf@ =~= before.skip((c + p).len() as int));
            assert(prover_bytes::<S, W, F, C, D>(
                r@,
                watches,
                gate_serializer,
                generator_serializer,
            ) == c + p);
        }
        Ok(r)
    }

    /// The bytes of the proving key, with the watched targets in increasing order.
    pub fn to_bytes<S: Serializer<GateRef, F, D>, W: Serializer<WitnessGeneratorRef, F, D>>(
        &self,
        gate_serializer: &S,
        generator_serializer: &W,
    ) -> (r: IoResult<Vec<u8>>)
        ensures
            gate_serializer.total() && generator_serializer.total() ==> r is Ok,
            ({
                let watches = sorted_entries(self@.prover_only.generator_indices_by_watches);
                let writable = prover_writable::<S, W, F, C, D>(
                    self@,
                    watches,
                    gate_serializer,
                    generator_serializer,
                );
                match r {
                    Ok(bytes) => {
                        &&& writable
                        &&& bytes@ == prover_bytes::<S, W, F, C, D>(
                            self@,
                            watches,
                            gate_serializer,
                            generator_serializer,
                        )
                    },
                    Err(_) => !writable,
                }
            }),
    {
        let mut buffer: Vec<u8> = Vec::new();
        self.common.write(gate_serializer, &mut buffer)?;
        self.prover_only.write(generator_serializer, &self.common, &mut buffer)?;
        assert(buffer@ =~= prover_bytes::<S, W, F, C, D>(
            self@,
            sorted_entries(self@.prover_only.generator_indices_by_watches),
            gate_serializer,
            generator_serializer,
        ));
        Ok(buffer)
    }

    /// Reads the proving key that the bytes start with. Common data that is not valid is rejected.
    pub fn from_bytes<S: Serializer<GateRef, F, D>, W: Serializer<WitnessGeneratorRef, F, D>>(
        bytes: &[u8],
        gate_serializer: &S,
        generator_serializer: &W,
    ) -> (r: IoResult<Self>)
        ensures
            prover_decodes::<S, W, F, C, D>(
                gate_serializer,
                generator_serializer,
                bytes@,
                match r {
                    Ok(v) => Some(v@),
                    Err(_) => None,
                },
            ),
    {
        let mut buffer = Buffer::new(bytes);
        Self::read(gate_serializer, generator_serializer, &mut buffer)
    }
}

impl<F: RichField + Extendable<D>, C: ProofSystem<D, F = F>, const D: usize> ProverCircuitData<
    F,
    C,
    D,
> {
    pub fn prove(&self, inputs: C::PartialWitness) -> (r: Result<
        ProofWithPublicInputs<F, C, D>,
        C::Error,
    >)
        ensures
            call_ensures(C::prove, (&self.prover_only, &self.common, inputs), r),
    {
        C::prove(&self.prover_only, &self.common, inputs)
    }
}

/// Circuit data required by the verifier.
#[derive(Debug, PartialEq, Eq)]
#[verifier::reject_recursive_types(F)]
#[verifier::reject_recursive_types(C)]
pub struct VerifierCircuitData<
    F: RichField + Extendable<D>,
    C: GenericConfig<D, F = F>,
    const D: usize,
> {
    pub verifier_only: VerifierOnlyCircuitData<C, D>,
    pub common: CommonCircuitData<F, D>,
}

/// The value of a [`VerifierCircuitData`].
pub struct VerifierView<H> {
    pub verifier_only: VerifierOnlyView<H>,
    pub common: CommonView,
}

impl<F: RichField + Extendable<D>, C: GenericConfig<D, F = F>, const D: usize> View
    for VerifierCircuitData<F, C, D> {
    type V = VerifierView<<C::Hash as DeepView>::V>;

    open spec fn view(&self) -> VerifierView<<C::Hash as DeepView>::V> {
        VerifierView { verifier_only: self.verifier_only.deep_view(), common: self.common@ }
    }
}

impl<F: RichField + Extendable<D>, C: GenericConfig<D, F = F>, const D: usize> Clone
    for VerifierCircuitData<F, C, D> {
    fn clone(&self) -> (r: Self)
        ensures
            r@ == self@,
    {
        VerifierCircuitData {
            verifier_only: self.verifier_only.clone(),
            common: self.common.clone(),
        }
    }
}

/// The verification key has an encoding.
pub open spec fn verifier_writable<S, F, C, const D: usize>(
    v: VerifierView<<C::Hash as DeepView>::V>,
    gate_serializer: &S,
) -> bool where
    S: Serializer<GateRef, F, D>,
    F: RichField + Extendable<D>,
    C: GenericConfig<D, F = F>,
 {
    &&& v.common.writable::<S, F, D>(gate_serializer)
    &&& VerifierOnlyCircuitData::<C, D>::encodable(v.verifier_only)
}

/// The bytes that stand for a verification key.
pub open spec fn verifier_bytes<S, F, C, const D: usize>(
    v: VerifierView<<C::Hash as DeepView>::V>,
    gate_serializer: &S,
) -> Seq<u8> where
    S: Serializer<GateRef, F, D>,
    F: RichField + Extendable<D>,
    C: GenericConfig<D, F = F>,
 {
    v.common.bytes::<S, F, D>(gate_serializer) + VerifierOnlyCircuitData::<C, D>::encoding(
        v.verifier_only,
    )
}

/// `r` is what a string is read as: a verification key with valid common data whose bytes the string
/// starts with, or nothing when there is none.
pub open spec fn verifier_decodes<S, F, C, const D: usize>(
    gate_serializer: &S,
    s: Seq<u8>,
    r: Option<VerifierView<<C::Hash as DeepView>::V>>,
) -> bool where
    S: Serializer<GateRef, F, D>,
    F: RichField + Extendable<D>,
    C: GenericConfig<D, F = F>,
 {
    match r {
        Some(v) => {
            &&& v.common.valid(F::TWO_ADICITY as nat)
            &&& verifier_writable::<S, F, C, D>(v, gate_serializer)
            &&& verifier_bytes::<S, F, C, D>(v, gate_serializer).is_prefix_of(s)
        },
        None => forall|v: VerifierView<<C::Hash as DeepView>::V>|
            #![trigger verifier_bytes::<S, F, C, D>(v, gate_serializer)]
            v.common.valid(F::TWO_ADICITY as nat) && verifier_writable::<S, F, C, D>(
                v,
                gate_serializer,
            ) ==> !verifier_bytes::<S, F, C, D>(v, gate_serializer).is_prefix_of(s),
    }
}

/// No string starts with the bytes of two different verification keys.
pub proof fn lemma_verifier_prefix_free<
    S: Serializer<GateRef, F, D>,
    F: RichField + Extendable<D>,
    C: GenericConfig<D, F = F>,
    const D: usize,
>(
    gate_serializer: &S,
    a: VerifierView<<C::Hash as DeepView>::V>,
    b: VerifierView<<C::Hash as DeepView>::V>,
    s: Seq<u8>,
)
    requires
        verifier_writable::<S, F, C, D>(a, gate_serializer),
        verifier_writable::<S, F, C, D>(b, gate_serializer),
        verifier_bytes::<S, F, C, D>(a, gate_serializer).is_prefix_of(s),
        verifier_bytes::<S, F, C, D>(b, gate_serializer).is_prefix_of(s),
    ensures
        a == b,
{
    let c = a.common.bytes::<S, F, D>(gate_serializer);
    lemma_prefix_concat(c, VerifierOnlyCircuitData::<C, D>::encoding(a.verifier_only), s);
    lemma_prefix_concat(
        b.common.bytes::<S, F, D>(gate_serializer),
        VerifierOnlyCircuitData::<C, D>::encoding(b.verifier_only),
        s,
    );
    crate::common_wire::lemma_common_prefix_free::<S, F, D>(
        gate_serializer,
        a.common,
        b.common,
        s,
    );
    VerifierOnlyCircuitData::<C, D>::lemma_prefix_free(
        a.verifier_only,
        b.verifier_only,
        s.skip(c.len() as int),
    );
}

impl<
    F: RichField + Extendable<D>,
    C: GenericConfig<D, F = F>,
    const D: usize,
> VerifierCircuitData<F, C, D> {
    pub fn to_bytes<S: Serializer<GateRef, F, D>>(&self, gate_serializer: &S) -> (r: IoResult<
        Vec<u8>,
    >)
        ensures
            gate_serializer.total() ==> r is Ok,
            match r {
                Ok(bytes) => {
                    &&& verifier_writable::<S, F, C, D>(self@, gate_serializer)
                    &&& bytes@ == verifier_bytes::<S, F, C, D>(self@, gate_serializer)
                },
                Err(_) => !verifier_writable::<S, F, C, D>(self@, gate_serializer),
            },
    {
        let mut buffer: Vec<u8> = Vec::new();
        self.common.write(gate_serializer, &mut buffer)?;
        self.verifier_only.write(&mut buffer);
        proof {
            self.verifier_only.lemma_encodable();
            assert(buffer@ =~= verifier_bytes::<S, F, C, D>(self@, gate_serializer));
        }
        Ok(buffer)
    }

    /// Reads the verification key that the bytes start with. Common data that is not valid is
    /// rejected.
    pub fn from_bytes<S: Serializer<GateRef, F, D>>(bytes: Vec<u8>, gate_serializer: &S) -> (r:
        IoResult<Self>)
        ensures
            verifier_decodes::<S, F, C, D>(
                gate_serializer,
                bytes@,
                match r {
                    Ok(v) => Some(v@),
                    Err(_) => None,
                },
            ),
    {
        let mut buffer = Buffer::new(bytes.as_slice());
        let ghost before = buffer@;
        proof {
            assert forall|v: VerifierView<<C::Hash as DeepView>::V>|
                #![trigger verifier_bytes::<S, F, C, D>(v, gate_serializer)]
                verifier_bytes::<S, F, C, D>(v, gate_serializer).is_prefix_of(
                    before,
                ) implies v.common.bytes::<S, F, D>(gate_serializer).is_prefix_of(before)
                && VerifierOnlyCircuitData::<C, D>::encoding(v.verifier_only).is_prefix_of(
                before.skip(v.common.bytes::<S, F, D>(gate_serializer).len() as int),
            ) by {
                lemma_prefix_concat(
                    v.common.bytes::<S, F, D>(gate_serializer),
                    VerifierOnlyCircuitData::<C, D>::encoding(v.verifier_only),
                    before,
                );
            }
        }
        let common = CommonCircuitData::<F, D>::read(gate_serializer, &mut buffer)?;
        proof {
            assert forall|v: VerifierView<<C::Hash as DeepView>::V>|
                #![trigger verifier_bytes::<S, F, C, D>(v, gate_serializer)]
                verifier_writable::<S, F, C, D>(v, gate_serializer) && verifier_bytes::<
                    S,
                    F,
                    C,
                    D,
                >(v, gate_serializer).is_prefix_of(before) implies v.common == common@ by {
                crate::common_wire::lemma_common_prefix_free::<S, F, D>(
                    gate_serializer,
                    v.common,
                    common@,
                    before,
                );
            }
        }
        let verifier_only = VerifierOnlyCircuitData::<C, D>::read(&mut buffer)?;
        let r = VerifierCircuitData { verifier_only, common };
        proof {
            lemma_prefix_concat(
                common@.bytes::<S, F, D>(gate_serializer),
                VerifierOnlyCircuitData::<C, D>::encoding(verifier_only.deep_view()),
                before,
            );
        }
        Ok(r)
    }
}

impl<F: RichField + Extendable<D>, C: ProofSystem<D, F = F>, const D: usize> VerifierCircuitData<
    F,
    C,
    D,
> {
    pub fn verify(&self, proof_with_pis: ProofWithPublicInputs<F, C, D>) -> (r: Result<
        (),
        VerificationError<C::Error>,
    >)
        ensures
            verifies(proof_with_pis, &self.verifier_only, &self.common, r),
    {
        verify(proof_with_pis, &self.verifier_only, &self.common)
    }

    pub fn verify_compressed(&self, compressed_proof_with_pis: C::CompressedProof) -> (r: Result<
        (),
        VerificationError<C::Error>,
    >)
        ensures
            verifies_compressed(compressed_proof_with_pis, &self.verifier_only, &self.common, r),
    {
        verify_compressed(compressed_proof_with_pis, &self.verifier_only, &self.common)
    }
}

/// Circuit data required by the prover or the verifier.
#[derive(Debug, PartialEq, Eq)]
#[verifier::reject_recursive_types(F)]
#[verifier::reject_recursive_types(C)]
pub struct CircuitData<F: RichField + Extendable<D>, C: GenericConfig<D, F = F>, const D: usize> {
    pub prover_only: ProverOnlyCircuitData<F, C, D>,
    pub verifier_only: VerifierOnlyCircuitData<C, D>,
    pub common: CommonCircuitData<F, D>,
}

/// The value of a [`CircuitData`]: a proving key and what the verifier adds to it.
pub struct CircuitView<H> {
    pub prover: ProverView<H>,
    pub verifier_only: VerifierOnlyView<H>,
}

impl<F: RichField + Extendable<D>, C: GenericConfig<D, F = F>, const D: usize> View
    for CircuitData<F, C, D> {
    type V = CircuitView<<C::Hash as DeepView>::V>;

    open spec fn view(&self) -> CircuitView<<C::Hash as DeepView>::V> {
        CircuitView {
            prover: ProverView { prover_only: self.prover_only@, common: self.common@ },
            verifier_only: self.verifier_only.deep_view(),
        }
    }
}

/// The circuit data has an encoding in which `watches` lists the watched targets.
pub open spec fn circuit_writable<S, W, F, C, const D: usize>(
    v: CircuitView<<C::Hash as DeepView>::V>,
    watches: Seq<(usize, Seq<usize>)>,
    gate_serializer: &S,
    generator_serializer: &W,
) -> bool where
    S: Serializer<GateRef, F, D>,
    W: Serializer<WitnessGeneratorRef, F, D>,
    F: RichField + Extendable<D>,
    C: GenericConfig<D, F = F>,
 {
    &&& prover_writable::<S, W, F, C, D>(v.prover, watches, gate_serializer, generator_serializer)
    &&& VerifierOnlyCircuitData::<C, D>::encodable(v.verifier_only)
}

/// The bytes that stand for circuit data when `watches` lists the watched targets.
pub open spec fn circuit_bytes<S, W, F, C, const D: usize>(
    v: CircuitView<<C::Hash as DeepView>::V>,
    watches: Seq<(usize, Seq<usize>)>,
    gate_serializer: &S,
    generator_serializer: &W,
) -> Seq<u8> where
    S: Serializer<GateRef, F, D>,
    W: Serializer<WitnessGeneratorRef, F, D>,
    F: RichField + Extendable<D>,
    C: GenericConfig<D, F = F>,
 {
    prover_bytes::<S, W, F, C, D>(v.prover, watches, gate_serializer, generator_serializer)
        + VerifierOnlyCircuitData::<C, D>::encoding(v.verifier_only)
}

/// `r` is what a string is read as: circuit data with valid common data whose bytes the string starts
/// with, or nothing when there is none.
pub open spec fn circuit_decodes<S, W, F, C, const D: usize>(
    gate_serializer: &S,
    generator_serializer: &W,
    s: Seq<u8>,
    r: Option<CircuitView<<C::Hash as DeepView>::V>>,
) -> bool where
    S: Serializer<GateRef, F, D>,
    W: Serializer<WitnessGeneratorRef, F, D>,
    F: RichField + Extendable<D>,
    C: GenericConfig<D, F = F>,
 {
    match r {
        Some(v) => exists|watches: Seq<(usize, Seq<usize>)>|
            {
                &&& v.prover.common.valid(F::TWO_ADICITY as nat)
                &&& circuit_writable::<S, W, F, C, D>(
                    v,
                    watches,
                    gate_serializer,
                    generator_serializer,
                )
                &&& (#[trigger] circuit_bytes::<S, W, F, C, D>(
                    v,
                    watches,
                    gate_serializer,
                    generator_serializer,
                )).is_prefix_of(s)
            },
        None => forall|
            v: CircuitView<<C::Hash as DeepView>::V>,
            watches: Seq<(usize, Seq<usize>)>,
        |
            #![trigger circuit_bytes::<S, W, F, C, D>(v, watches, gate_serializer, generator_serializer)]
            v.prover.common.valid(F::TWO_ADICITY as nat) && circuit_writable::<S, W, F, C, D>(
                v,
                watches,
                gate_serializer,
                generator_serializer,
            ) ==> !circuit_bytes::<S, W, F, C, D>(
                v,
                watches,
                gate_serializer,
                generator_serializer,
            ).is_prefix_of(s),
    }
}

/// No string starts with the bytes of two different circuits.
pub proof fn lemma_circuit_prefix_free<
    S: Serializer<GateRef, F, D>,
    W: Serializer<WitnessGeneratorRef, F, D>,
    F: RichField + Extendable<D>,
    C: GenericConfig<D, F = F>,
    const D: usize,
>(
    gate_serializer: &S,
    generator_serializer: &W,
    a: CircuitView<<C::Hash as DeepView>::V>,
    x: Seq<(usize, Seq<usize>)>,
    b: CircuitView<<C::Hash as DeepView>::V>,
    y: Seq<(usize, Seq<usize>)>,
    s: Seq<u8>,
)
    requires
        circuit_writable::<S, W, F, C, D>(a, x, gate_serializer, generator_serializer),
        circuit_writable::<S, W, F, C, D>(b, y, gate_serializer, generator_serializer),
        circuit_bytes::<S, W, F, C, D>(a, x, gate_serializer, generator_serializer).is_prefix_of(s),
        circuit_bytes::<S, W, F, C, D>(b, y, gate_serializer, generator_serializer).is_prefix_of(s),
    ensures
        a == b,
        x == y,
{
    let p = prover_bytes::<S, W, F, C, D>(a.prover, x, gate_serializer, generator_serializer);
    lemma_prefix_concat(p, VerifierOnlyCircuitData::<C, D>::encoding(a.verifier_only), s);
    lemma_prefix_concat(
        prover_bytes::<S, W, F, C, D>(b.prover, y, gate_serializer, generator_serializer),
        VerifierOnlyCircuitData::<C, D>::encoding(b.verifier_only),
        s,
    );
    lemma_prover_prefix_free::<S, W, F, C, D>(
        gate_serializer,
        generator_serializer,
        a.prover,
        x,
        b.prover,
        y,
        s,
    );
    VerifierOnlyCircuitData::<C, D>::lemma_prefix_free(
        a.verifier_only,
        b.verifier_only,
        s.skip(p.len() as int),
    );
}

impl<F: RichField + Extendable<D>, C: GenericConfig<D, F = F>, const D: usize> CircuitData<
    F,
    C,
    D,
> {
    /// The bytes of the circuit data, with the watched targets in increasing order.
    pub fn to_bytes<S: Serializer<GateRef, F, D>, W: Serializer<WitnessGeneratorRef, F, D>>(
        &self,
        gate_serializer: &S,
        generator_serializer: &W,
    ) -> (r: IoResult<Vec<u8>>)
        ensures
            gate_serializer.total() && generator_serializer.total() ==> r is Ok,
            ({
                let watches = sorted_entries(
                    self@.prover.prover_only.generator_indices_by_watches,
                );
                let writable = circuit_writable::<S, W, F, C, D>(
                    self@,
                    watches,
                    gate_serializer,
                    generator_serializer,
                );
                match r {
                    Ok(bytes) => {
                        &&& writable
                        &&& bytes@ == circuit_bytes::<S, W, F, C, D>(
                            self@,
                            watches,
                            gate_serializer,
                            generator_serializer,
                        )
                    },
                    Err(_) => !writable,
                }
            }),
    {
        let mut buffer: Vec<u8> = Vec::new();
        self.common.write(gate_serializer, &mut buffer)?;
        self.prover_only.write(generator_serializer, &self.common, &mut buffer)?;
        self.verifier_only.write(&mut buffer);
        proof {
            self.verifier_only.lemma_encodable();
            assert(buffer@ =~= circuit_bytes::<S, W, F, C, D>(
                self@,
                sorted_entries(self@.prover.prover_only.generator_indices_by_watches),
                gate_serializer,
                generator_serializer,
            ));
        }
        Ok(buffer)
    }

    /// Reads the circuit data that the bytes start with. Common data that is not valid is rejected.
    pub fn from_bytes<S: Serializer<GateRef, F, D>, W: Serializer<WitnessGeneratorRef, F, D>>(
        bytes: &[u8],
        gate_serializer: &S,
        generator_serializer: &W,
    ) -> (r: IoResult<Self>)
        ensures
            circuit_decodes::<S, W, F, C, D>(
                gate_serializer,
                generator_serializer,
                bytes@,
                match r {
                    Ok(v) => Some(v@),
                    Err(_) => None,
                },
            ),
    {
        let mut buffer = Buffer::new(bytes);
        let ghost before = buffer@;
        proof {
            assert forall|
                v: CircuitView<<C::Hash as DeepView>::V>,
                watches: Seq<(usize, Seq<usize>)>,
            |
                #![trigger circuit_bytes::<S, W, F, C, D>(v, watches, gate_serializer, generator_serializer)]
                circuit_bytes::<S, W, F, C, D>(
                    v,
                    watches,
                    gate_serializer,
                    generator_serializer,
                ).is_prefix_of(before) implies prover_bytes::<S, W, F, C, D>(
                v.prover,
                watches,
                gate_serializer,
                generator_serializer,
            ).is_prefix_of(before) && VerifierOnlyCircuitData::<C, D>::encoding(
                v.verifier_only,
            ).is_prefix_of(
                before.skip(
                    prover_bytes::<S, W, F, C, D>(
                        v.prover,
                        watches,
                        gate_serializer,
                        generator_serializer,
                    ).len() as int,
                ),
            ) by {
                lemma_prefix_concat(
                    prover_bytes::<S, W, F, C, D>(
                        v.prover,
                        watches,
                        gate_serializer,
                        generator_serializer,
                    ),
                    VerifierOnlyCircuitData::<C, D>::encoding(v.verifier_only),
                    before,
                );
            }
        }
        let prover = ProverCircuitData::<F, C, D>::read(
            gate_serializer,
            generator_serializer,
            &mut buffer,
        )?;
        let ghost middle = buffer@;
        let ghost ws = choose|watches: Seq<(usize, Seq<usize>)>|
            {
                let bytes = #[trigger] prover_bytes::<S, W, F, C, D>(
                    prover@,
                    watches,
                    gate_serializer,
                    generator_serializer,
                );
                &&& prover@.common.valid(F::TWO_ADICITY as nat)
                &&& prover_writable::<S, W, F, C, D>(
                    prover@,
                    watches,
                    gate_serializer,
                    generator_serializer,
                )
                &&& bytes.is_prefix_of(before)
                &&& middle == before.skip(bytes.len() as int)
            };
        let ghost p = prover_bytes::<S, W, F, C, D>(
            prover@,
            ws,
            gate_serializer,
            generator_serializer,
        );
        proof {
            assert forall|
                v: CircuitView<<C::Hash as DeepView>::V>,
                watches: Seq<(usize, Seq<usize>)>,
            |
                #![trigger circuit_bytes::<S, W, F, C, D>(v, watches, gate_serializer, generator_serializer)]
                circuit_writable::<S, W, F, C, D>(v, watches, gate_serializer, generator_serializer)
                    && circuit_bytes::<S, W, F, C, D>(
                    v,
                    watches,
                    gate_serializer,
                    generator_serializer,
                ).is_prefix_of(before) implies v.prover == prover@ && watches == ws by {
                lemma_prover_prefix_free::<S, W, F, C, D>(
                    gate_serializer,
                    generator_serializer,
                    v.prover,
                    watches,
                    prover@,
                    ws,
                    before,
                );
            }
        }
        let verifier_only = VerifierOnlyCircuitData::<C, D>::read(&mut buffer)?;
        let r = CircuitData {
            prover_only: prover.prover_only,
            verifier_only,
            common: prover.common,
        };
        proof {
            let e = VerifierOnlyCircuitData::<C, D>::encoding(verifier_only.deep_view());
            lemma_prefix_concat(p, e, before);
            assert(r@.prover == prover@);
            assert(circuit_bytes::<S, W, F, C, D>(r@, ws, gate_serializer, generator_serializer)
                == p + e);
        }
        Ok(r)
    }

    pub fn verifier_data(&self) -> (r: VerifierCircuitData<F, C, D>)
        ensures
            r@.verifier_only == self@.verifier_only,
            r@.common == self@.prover.common,
    {
        VerifierCircuitData {
            verifier_only: self.verifier_only.clone(),
            common: self.common.clone(),
        }
    }

    pub fn prover_data(self) -> (r: ProverCircuitData<F, C, D>)
        ensures
            r.prover_only == self.prover_only,
            r.common == self.common,
            r@ == self@.prover,
    {
        ProverCircuitData { prover_only: self.prover_only, common: self.common }
    }
}

impl<F: RichField + Extendable<D>, C: ProofSystem<D, F = F>, const D: usize> CircuitData<F, C, D> {
    pub fn prove(&self, inputs: C::PartialWitness) -> (r: Result<
        ProofWithPublicInputs<F, C, D>,
        C::Error,
    >)
        ensures
            call_ensures(C::prove, (&self.prover_only, &self.common, inputs), r),
    {
        C::prove(&self.prover_only, &self.common, inputs)
    }

    pub fn verify(&self, proof_with_pis: ProofWithPublicInputs<F, C, D>) -> (r: Result<
        (),
        VerificationError<C::Error>,
    >)
        ensures
            verifies(proof_with_pis, &self.verifier_only, &self.common, r),
    {
        verify(proof_with_pis, &self.verifier_only, &self.common)
    }

    pub fn verify_compressed(&self, compressed_proof_with_pis: C::CompressedProof) -> (r: Result<
        (),
        VerificationError<C::Error>,
    >)
        ensures
            verifies_compressed(compressed_proof_with_pis, &self.verifier_only, &self.common, r),
    {
        verify_compressed(compressed_proof_with_pis, &self.verifier_only, &self.common)
    }

    pub fn compress(&self, proof_with_pis: ProofWithPublicInputs<F, C, D>) -> (r: Result<
        C::CompressedProof,
        C::Error,
    >)
        ensures
            call_ensures(
                C::compress,
                (proof_with_pis, &self.verifier_only.circuit_digest, &self.common),
                r,
            ),
    {
        C::compress(proof_with_pis, &self.verifier_only.circuit_digest, &self.common)
    }

    pub fn decompress(&self, compressed_proof_with_pis: C::CompressedProof) -> (r: Result<
        ProofWithPublicInputs<F, C, D>,
        C::Error,
    >)
        ensures
            call_ensures(
                C::decompress,
                (compressed_proof_with_pis, &self.verifier_only.circuit_digest, &self.common),
                r,
            ),
    {
        C::decompress(
            compressed_proof_with_pis,
            &self.verifier_only.circuit_digest,
            &self.common,
        )
    }
}

/// A proving key that was written is read back as it was when its common data is valid, and rejected
/// when it is not, whatever follows it.
pub proof fn law_prover_round_trip<
    S: Serializer<GateRef, F, D>,
    W: Serializer<WitnessGeneratorRef, F, D>,
    F: RichField + Extendable<D>,
    C: GenericConfig<D, F = F>,
    const D: usize,
>(
    gate_serializer: &S,
    generator_serializer: &W,
    v: ProverView<<C::Hash as DeepView>::V>,
    watches: Seq<(usize, Seq<usize>)>,
    tail: Seq<u8>,
    r: Option<ProverView<<C::Hash as DeepView>::V>>,
)
    requires
        prover_writable::<S, W, F, C, D>(v, watches, gate_serializer, generator_serializer),
        prover_decodes::<S, W, F, C, D>(
            gate_serializer,
            generator_serializer,
            prover_bytes::<S, W, F, C, D>(v, watches, gate_serializer, generator_serializer) + tail,
            r,
        ),
    ensures
        v.common.valid(F::TWO_ADICITY as nat) ==> r == Some(v),
        !v.common.valid(F::TWO_ADICITY as nat) ==> r is None,
{
    let e = prover_bytes::<S, W, F, C, D>(v, watches, gate_serializer, generator_serializer);
    lemma_starts_with(e, tail);
    if let Some(w) = r {
        let ws = choose|ws: Seq<(usize, Seq<usize>)>|
            {
                &&& w.common.valid(F::TWO_ADICITY as nat)
                &&& prover_writable::<S, W, F, C, D>(
                    w,
                    ws,
                    gate_serializer,
                    generator_serializer,
                )
                &&& (#[trigger] prover_bytes::<S, W, F, C, D>(
                    w,
                    ws,
                    gate_serializer,
                    generator_serializer,
                )).is_prefix_of(e + tail)
            };
        lemma_prover_prefix_free::<S, W, F, C, D>(
            gate_serializer,
            generator_serializer,
            v,
            watches,
            w,
            ws,
            e + tail,
        );
    }
}

/// A verification key that was written is read back as it was when its common data is valid, and
/// rejected when it is not, whatever follows it.
pub proof fn law_verifier_round_trip<
    S: Serializer<GateRef, F, D>,
    F: RichField + Extendable<D>,
    C: GenericConfig<D, F = F>,
    const D: usize,
>(
    gate_serializer: &S,
    v: VerifierView<<C::Hash as DeepView>::V>,
    tail: Seq<u8>,
    r: Option<VerifierView<<C::Hash as DeepView>::V>>,
)
    requires
        verifier_writable::<S, F, C, D>(v, gate_serializer),
        verifier_decodes::<S, F, C, D>(
            gate_serializer,
            verifier_bytes::<S, F, C, D>(v, gate_serializer) + tail,
            r,
        ),
    ensures
        v.common.valid(F::TWO_ADICITY as nat) ==> r == Some(v),
        !v.common.valid(F::TWO_ADICITY as nat) ==> r is None,
{
    let e = verifier_bytes::<S, F, C, D>(v, gate_serializer);
    lemma_starts_with(e, tail);
    if let Some(w) = r {
        lemma_verifier_prefix_free::<S, F, C, D>(gate_serializer, v, w, e + tail);
    }
}

/// Circuit data that was written is read back as it was when its common data is valid, and rejected
/// when it is not, whatever follows it.
pub proof fn law_circuit_round_trip<
    S: Serializer<GateRef, F, D>,
    W: Serializer<WitnessGeneratorRef, F, D>,
    F: RichField + Extendable<D>,
    C: GenericConfig<D, F = F>,
    const D: usize,
>(
    gate_serializer: &S,
    generator_serializer: &W,
    v: CircuitView<<C::Hash as DeepView>::V>,
    watches: Seq<(usize, Seq<usize>)>,
    tail: Seq<u8>,
    r: Option<CircuitView<<C::Hash as DeepView>::V>>,
)
    requires
        circuit_writable::<S, W, F, C, D>(v, watches, gate_serializer, generator_serializer),
        circuit_decodes::<S, W, F, C, D>(
            gate_serializer,
            generator_serializer,
            circuit_bytes::<S, W, F, C, D>(v, watches, gate_serializer, generator_serializer)
                + tail,
            r,
        ),
    ensures
        v.prover.common.valid(F::TWO_ADICITY as nat) ==> r == Some(v),
        !v.prover.common.valid(F::TWO_ADICITY as nat) ==> r is None,
{
    let e = circuit_bytes::<S, W, F, C, D>(v, watches, gate_serializer, generator_serializer);
    lemma_starts_with(e, tail);
    if let Some(w) = r {
        let ws = choose|ws: Seq<(usize, Seq<usize>)>|
            {
                &&& w.prover.common.valid(F::TWO_ADICITY as nat)
                &&& circuit_writable::<S, W, F, C, D>(
                    w,
                    ws,
                    gate_serializer,
                    generator_serializer,
                )
                &&& (#[trigger] circuit_bytes::<S, W, F, C, D>(
                    w,
                    ws,
                    gate_serializer,
                    generator_serializer,
                )).is_prefix_of(e + tail)
            };
        lemma_circuit_prefix_free::<S, W, F, C, D>(
            gate_serializer,
            generator_serializer,
            v,
            watches,
            w,
            ws,
            e + tail,
        );
    }
}

/// The extracted verifier data gives the same verdict on every proof as the circuit data that it was
/// extracted from, when the answers of the proof system depend on the value of the key alone. In
/// particular it accepts exactly the same proofs.
pub proof fn law_verifier_data_verdict<
    F: RichField + Extendable<D>,
    C: ProofSystem<D, F = F>,
    const D: usize,
>(
    data: &CircuitData<F, C, D>,
    verifier_data: VerifierCircuitData<F, C, D>,
    proof_with_pis: ProofWithPublicInputs<F, C, D>,
    r: Result<(), VerificationError<C::Error>>,
    s: Result<(), VerificationError<C::Error>>,
)
    requires
        answers_by_value::<F, C, D>(proof_with_pis),
        call_ensures(CircuitData::<F, C, D>::verifier_data, (data,), verifier_data),
        call_ensures(CircuitData::<F, C, D>::verify, (data, proof_with_pis), r),
        call_ensures(VerifierCircuitData::<F, C, D>::verify, (&verifier_data, proof_with_pis), s),
    ensures
        r == s,
{
    law_verdict_by_value(
        proof_with_pis,
        &data.verifier_only,
        &data.common,
        r,
        &verifier_data.verifier_only,
        &verifier_data.common,
        s,
    );
}

/// The extracted verifier data gives the same verdict on every compressed proof as the circuit data
/// that it was extracted from, when the answers of the proof system depend on the value of the key
/// alone.
pub proof fn law_verifier_data_compressed_verdict<
    F: RichField + Extendable<D>,
    C: ProofSystem<D, F = F>,
    const D: usize,
>(
    data: &CircuitData<F, C, D>,
    verifier_data: VerifierCircuitData<F, C, D>,
    compressed_proof_with_pis: C::CompressedProof,
    r: Result<(), VerificationError<C::Error>>,
    s: Result<(), VerificationError<C::Error>>,
)
    requires
        compressed_answers_by_value::<F, C, D>(compressed_proof_with_pis),
        call_ensures(CircuitData::<F, C, D>::verifier_data, (data,), verifier_data),
        call_ensures(
            CircuitData::<F, C, D>::verify_compressed,
            (data, compressed_proof_with_pis),
            r,
        ),
        call_ensures(
            VerifierCircuitData::<F, C, D>::verify_compressed,
            (&verifier_data, compressed_proof_with_pis),
            s,
        ),
    ensures
        r == s,
{
    law_compressed_verdict_by_value(
        compressed_proof_with_pis,
        &data.verifier_only,
        &data.common,
        r,
        &verifier_data.verifier_only,
        &verifier_data.common,
        s,
    );
}

/// What the proof system makes from the inputs has as many query rounds as the circuit asks for, and
/// the proof system accepts it.
pub open spec fn proves_what_it_accepts<
    F: RichField + Extendable<D>,
    C: ProofSystem<D, F = F>,
    const D: usize,
>(data: &CircuitData<F, C, D>, inputs: C::PartialWitness) -> bool {
    forall|p: ProofWithPublicInputs<F, C, D>| #[trigger]
        call_ensures(
            C::prove,
            (&data.prover_only, &data.common, inputs),
            Ok::<ProofWithPublicInputs<F, C, D>, C::Error>(p),
        ) ==> {
            &&& p.proof.opening_proof.query_round_proofs@.len()
                == data.common.config.fri_config.num_query_rounds
            &&& forall|answer: Result<(), C::Error>| #[trigger]
                call_ensures(C::verify, (p, &data.verifier_only, &data.common), answer)
                    ==> answer is Ok
        }
}

/// What is proved is accepted: against valid circuit data, [`CircuitData::verify`] accepts what
/// [`CircuitData::prove`] makes, if the proof system accepts what it makes itself.
pub proof fn law_completeness<
    F: RichField + Extendable<D>,
    C: ProofSystem<D, F = F>,
    const D: usize,
>(
    data: &CircuitData<F, C, D>,
    inputs: C::PartialWitness,
    proof_with_pis: ProofWithPublicInputs<F, C, D>,
    r: Result<(), VerificationError<C::Error>>,
)
    requires
        data.common@.valid(F::TWO_ADICITY as nat),
        proves_what_it_accepts(data, inputs),
        call_ensures(
            CircuitData::<F, C, D>::prove,
            (data, inputs),
            Ok::<ProofWithPublicInputs<F, C, D>, C::Error>(proof_with_pis),
        ),
        call_ensures(CircuitData::<F, C, D>::verify, (data, proof_with_pis), r),
    ensures
        r is Ok,
{
    law_accepts(proof_with_pis, &data.verifier_only, &data.common, r);
}

/// The proof system's decompression gives back what its compression took: the proof, under one digest
/// and one common data.
pub open spec fn decompression_restores<
    F: RichField + Extendable<D>,
    C: ProofSystem<D, F = F>,
    const D: usize,
>(
    proof_with_pis: ProofWithPublicInputs<F, C, D>,
    circuit_digest: &C::Hash,
    common_data: &CommonCircuitData<F, D>,
) -> bool {
    forall|c: C::CompressedProof, q: Result<ProofWithPublicInputs<F, C, D>, C::Error>|
        #[trigger] call_ensures(
            C::compress,
            (proof_with_pis, circuit_digest, common_data),
            Ok::<C::CompressedProof, C::Error>(c),
        ) && #[trigger] call_ensures(C::decompress, (c, circuit_digest, common_data), q) ==> q
            == Ok::<ProofWithPublicInputs<F, C, D>, C::Error>(proof_with_pis)
}

/// The proof system accepts the compressed form of a proof.
pub open spec fn compressed_form_accepted<
    F: RichField + Extendable<D>,
    C: ProofSystem<D, F = F>,
    const D: usize,
>(
    proof_with_pis: ProofWithPublicInputs<F, C, D>,
    verifier_data: &VerifierOnlyCircuitData<C, D>,
    common_data: &CommonCircuitData<F, D>,
) -> bool {
    forall|c: C::CompressedProof, answer: Result<(), C::Error>|
        #[trigger] call_ensures(
            C::compress,
            (proof_with_pis, &verifier_data.circuit_digest, common_data),
            Ok::<C::CompressedProof, C::Error>(c),
        ) && #[trigger] call_ensures(C::verify_compressed, (c, verifier_data, common_data), answer)
            ==> answer is Ok
}

/// [`CircuitData::decompress`] gives back what [`CircuitData::compress`] took, if the proof system's
/// decompression inverts its compression on that proof.
pub proof fn law_decompress_after_compress<
    F: RichField + Extendable<D>,
    C: ProofSystem<D, F = F>,
    const D: usize,
>(
    data: &CircuitData<F, C, D>,
    proof_with_pis: ProofWithPublicInputs<F, C, D>,
    c: C::CompressedProof,
    q: Result<ProofWithPublicInputs<F, C, D>, C::Error>,
)
    requires
        decompression_restores(proof_with_pis, &data.verifier_only.circuit_digest, &data.common),
        call_ensures(
            CircuitData::<F, C, D>::compress,
            (data, proof_with_pis),
            Ok::<C::CompressedProof, C::Error>(c),
        ),
        call_ensures(CircuitData::<F, C, D>::decompress, (data, c), q),
    ensures
        q == Ok::<ProofWithPublicInputs<F, C, D>, C::Error>(proof_with_pis),
{
}

/// Compressing an accepted proof keeps it accepted, and decompressing gives the proof back, if the
/// proof system does so for the proofs that it accepts.
pub proof fn law_accepted_proof_compressed<
    F: RichField + Extendable<D>,
    C: ProofSystem<D, F = F>,
    const D: usize,
>(
    data: &CircuitData<F, C, D>,
    proof_with_pis: ProofWithPublicInputs<F, C, D>,
    r: Result<(), VerificationError<C::Error>>,
    c: C::CompressedProof,
    s: Result<(), VerificationError<C::Error>>,
    q: Result<ProofWithPublicInputs<F, C, D>, C::Error>,
)
    requires
        call_ensures(
            C::verify,
            (proof_with_pis, &data.verifier_only, &data.common),
            Ok::<(), C::Error>(()),
        ) ==> {
            &&& decompression_restores(
                proof_with_pis,
                &data.verifier_only.circuit_digest,
                &data.common,
            )
            &&& compressed_form_accepted(proof_with_pis, &data.verifier_only, &data.common)
        },
        call_ensures(CircuitData::<F, C, D>::verify, (data, proof_with_pis), r),
        r is Ok,
        call_ensures(
            CircuitData::<F, C, D>::compress,
            (data, proof_with_pis),
            Ok::<C::CompressedProof, C::Error>(c),
        ),
        call_ensures(CircuitData::<F, C, D>::verify_compressed, (data, c), s),
        call_ensures(CircuitData::<F, C, D>::decompress, (data, c), q),
    ensures
        s is Ok,
        q == Ok::<ProofWithPublicInputs<F, C, D>, C::Error>(proof_with_pis),
{
    law_accepted_proof(proof_with_pis, &data.verifier_only, &data.common, r);
    law_decompress_after_compress(data, proof_with_pis, c, q);
}

/// What was written is read back: from the bytes that [`ProverCircuitData::to_bytes`] gave, whatever
/// follows them, [`ProverCircuitData::from_bytes`] gives a proving key of the same value, exactly if
/// [`CommonCircuitData::validate`] accepts its common data.
pub proof fn law_prover_read_back<
    S: Serializer<GateRef, F, D>,
    W: Serializer<WitnessGeneratorRef, F, D>,
    F: RichField + Extendable<D>,
    C: GenericConfig<D, F = F>,
    const D: usize,
>(
    data: &ProverCircuitData<F, C, D>,
    gate_serializer: &S,
    generator_serializer: &W,
    verdict: Result<(), ValidationError>,
    bytes: Vec<u8>,
    tail: Seq<u8>,
    input: &[u8],
    r: IoResult<ProverCircuitData<F, C, D>>,
)
    requires
        call_ensures(CommonCircuitData::<F, D>::validate, (&data.common,), verdict),
        call_ensures(
            ProverCircuitData::<F, C, D>::to_bytes::<S, W>,
            (data, gate_serializer, generator_serializer),
            Ok::<Vec<u8>, IoError>(bytes),
        ),
        input@ == bytes@ + tail,
        call_ensures(
            ProverCircuitData::<F, C, D>::from_bytes::<S, W>,
            (input, gate_serializer, generator_serializer),
            r,
        ),
    ensures
        r is Ok <==> verdict is Ok,
        r is Ok ==> r->Ok_0.prover_only@ == data.prover_only@ && r->Ok_0.common@ == data.common@,
{
    let read = match r {
        Ok(v) => Some(v@),
        Err(_) => None,
    };
    law_prover_round_trip::<S, W, F, C, D>(
        gate_serializer,
        generator_serializer,
        data@,
        sorted_entries(data@.prover_only.generator_indices_by_watches),
        tail,
        read,
    );
}

/// What was written is read back: from the bytes that [`VerifierCircuitData::to_bytes`] gave, whatever
/// follows them, [`VerifierCircuitData::from_bytes`] gives a verification key of the same value, exactly if
/// [`CommonCircuitData::validate`] accepts its common data.
pub proof fn law_verifier_read_back<
    S: Serializer<GateRef, F, D>,
    F: RichField + Extendable<D>,
    C: GenericConfig<D, F = F>,
    const D: usize,
>(
    data: &VerifierCircuitData<F, C, D>,
    gate_serializer: &S,
    verdict: Result<(), ValidationError>,
    bytes: Vec<u8>,
    tail: Seq<u8>,
    input: Vec<u8>,
    r: IoResult<VerifierCircuitData<F, C, D>>,
)
    requires
        call_ensures(CommonCircuitData::<F, D>::validate, (&data.common,), verdict),
        call_ensures(
            VerifierCircuitData::<F, C, D>::to_bytes::<S>,
            (data, gate_serializer),
            Ok::<Vec<u8>, IoError>(bytes),
        ),
        input@ == bytes@ + tail,
        call_ensures(
            VerifierCircuitData::<F, C, D>::from_bytes::<S>,
            (input, gate_serializer),
            r,
        ),
    ensures
        r is Ok <==> verdict is Ok,
        r is Ok ==> r->Ok_0.verifier_only.deep_view() == data.verifier_only.deep_view()
            && r->Ok_0.common@ == data.common@,
{
    let read = match r {
        Ok(v) => Some(v@),
        Err(_) => None,
    };
    law_verifier_round_trip::<S, F, C, D>(gate_serializer, data@, tail, read);
}

/// What was written is read back: from the bytes that [`CircuitData::to_bytes`] gave, whatever
/// follows them, [`CircuitData::from_bytes`] gives circuit data of the same value, exactly if
/// [`CommonCircuitData::validate`] accepts its common data.
pub proof fn law_circuit_read_back<
    S: Serializer<GateRef, F, D>,
    W: Serializer<WitnessGeneratorRef, F, D>,
    F: RichField + Extendable<D>,
    C: GenericConfig<D, F = F>,
    const D: usize,
>(
    data: &CircuitData<F, C, D>,
    gate_serializer: &S,
    generator_serializer: &W,
    verdict: Result<(), ValidationError>,
    bytes: Vec<u8>,
    tail: Seq<u8>,
    input: &[u8],
    r: IoResult<CircuitData<F, C, D>>,
)
    requires
        call_ensures(CommonCircuitData::<F, D>::validate, (&data.common,), verdict),
        call_ensures(
            CircuitData::<F, C, D>::to_bytes::<S, W>,
            (data, gate_serializer, generator_serializer),
            Ok::<Vec<u8>, IoError>(bytes),
        ),
        input@ == bytes@ + tail,
        call_ensures(
            CircuitData::<F, C, D>::from_bytes::<S, W>,
            (input, gate_serializer, generator_serializer),
            r,
        ),
    ensures
        r is Ok <==> verdict is Ok,
        r is Ok ==> {
            &&& r->Ok_0.prover_only@ == data.prover_only@
            &&& r->Ok_0.verifier_only.deep_view() == data.verifier_only.deep_view()
            &&& r->Ok_0.common@ == data.common@
        },
{
    let read = match r {
        Ok(v) => Some(v@),
        Err(_) => None,
    };
    law_circuit_round_trip::<S, W, F, C, D>(
        gate_serializer,
        generator_serializer,
        data@,
        sorted_entries(data@.prover.prover_only.generator_indices_by_watches),
        tail,
        read,
    );
}

/// Only what is written is read: a verification key that was read has valid common data, and the bytes
/// that it is written as stand at the start of what it was read from.
pub proof fn law_verifier_canonical<
    S: Serializer<GateRef, F, D>,
    F: RichField + Extendable<D>,
    C: GenericConfig<D, F = F>,
    const D: usize,
>(
    input: Vec<u8>,
    gate_serializer: &S,
    data: VerifierCircuitData<F, C, D>,
    verdict: Result<(), ValidationError>,
    written: IoResult<Vec<u8>>,
)
    requires
        call_ensures(
            VerifierCircuitData::<F, C, D>::from_bytes::<S>,
            (input, gate_serializer),
            Ok::<VerifierCircuitData<F, C, D>, IoError>(data),
        ),
        call_ensures(CommonCircuitData::<F, D>::validate, (&data.common,), verdict),
        call_ensures(
            VerifierCircuitData::<F, C, D>::to_bytes::<S>,
            (&data, gate_serializer),
            written,
        ),
    ensures
        verdict is Ok,
        written is Ok,
        written->Ok_0@.is_prefix_of(input@),
{
}

/// The default serializers write all proving keys, verification keys and circuit data.
pub proof fn law_keys_written<
    F: RichField + Extendable<D>,
    C: GenericConfig<D, F = F>,
    const D: usize,
>(
    prover_data: &ProverCircuitData<F, C, D>,
    p: IoResult<Vec<u8>>,
    verifier_data: &VerifierCircuitData<F, C, D>,
    v: IoResult<Vec<u8>>,
    data: &CircuitData<F, C, D>,
    r: IoResult<Vec<u8>>,
)
    requires
        call_ensures(
            ProverCircuitData::<F, C, D>::to_bytes::<
                DefaultGateSerializer,
                DefaultGeneratorSerializer,
            >,
            (prover_data, &DefaultGateSerializer, &DefaultGeneratorSerializer),
            p,
        ),
        call_ensures(
            VerifierCircuitData::<F, C, D>::to_bytes::<DefaultGateSerializer>,
            (verifier_data, &DefaultGateSerializer),
            v,
        ),
        call_ensures(
            CircuitData::<F, C, D>::to_bytes::<DefaultGateSerializer, DefaultGeneratorSerializer>,
            (data, &DefaultGateSerializer, &DefaultGeneratorSerializer),
            r,
        ),
    ensures
        p is Ok,
        v is Ok,
        r is Ok,
{
}

/// What [`CircuitData::verify`] answers: what [`CommonCircuitData::validate`] finds wrong with the key
/// comes first, then a wrong number of query rounds, and then the answer of the proof system about this
/// proof and this key.
pub proof fn law_circuit_verify<
    F: RichField + Extendable<D>,
    C: ProofSystem<D, F = F>,
    const D: usize,
>(
    data: &CircuitData<F, C, D>,
    proof_with_pis: ProofWithPublicInputs<F, C, D>,
    verdict: Result<(), ValidationError>,
    r: Result<(), VerificationError<C::Error>>,
)
    requires
        call_ensures(CommonCircuitData::<F, D>::validate, (&data.common,), verdict),
        call_ensures(CircuitData::<F, C, D>::verify, (data, proof_with_pis), r),
    ensures
        verdict matches Err(e) ==> r == Err::<(), _>(VerificationError::<C::Error>::Key(e)),
        r matches Err(VerificationError::Key(e)) ==> verdict == Err::<(), _>(e),
        verdict is Ok ==> (proof_with_pis.proof.opening_proof.query_round_proofs@.len()
            != data.common.config.fri_config.num_query_rounds <==> r == Err::<(), _>(
            VerificationError::<C::Error>::QueryRounds,
        )),
        r is Ok ==> call_ensures(
            C::verify,
            (proof_with_pis, &data.verifier_only, &data.common),
            Ok::<(), C::Error>(()),
        ),
        r matches Err(VerificationError::Proof(e)) ==> call_ensures(
            C::verify,
            (proof_with_pis, &data.verifier_only, &data.common),
            Err::<(), C::Error>(e),
        ),
{
    let (vo, common) = (&data.verifier_only, &data.common);
    law_some_verdict(common@, F::TWO_ADICITY as nat);
    if r is Ok {
        law_accepted_proof(proof_with_pis, vo, common, r);
    }
}

/// What [`CircuitData::verify_compressed`] answers: what [`CommonCircuitData::validate`] finds wrong
/// with the key comes first, and then the answer of the proof system about this proof and this key.
pub proof fn law_circuit_verify_compressed<
    F: RichField + Extendable<D>,
    C: ProofSystem<D, F = F>,
    const D: usize,
>(
    data: &CircuitData<F, C, D>,
    compressed_proof_with_pis: C::CompressedProof,
    verdict: Result<(), ValidationError>,
    r: Result<(), VerificationError<C::Error>>,
)
    requires
        call_ensures(CommonCircuitData::<F, D>::validate, (&data.common,), verdict),
        call_ensures(
            CircuitData::<F, C, D>::verify_compressed,
            (data, compressed_proof_with_pis),
            r,
        ),
    ensures
        verdict matches Err(e) ==> r == Err::<(), _>(VerificationError::<C::Error>::Key(e)),
        r matches Err(VerificationError::Key(e)) ==> verdict == Err::<(), _>(e),
        r != Err::<(), _>(VerificationError::<C::Error>::QueryRounds),
        r is Ok ==> call_ensures(
            C::verify_compressed,
            (compressed_proof_with_pis, &data.verifier_only, &data.common),
            Ok::<(), C::Error>(()),
        ),
        r matches Err(VerificationError::Proof(e)) ==> call_ensures(
            C::verify_compressed,
            (compressed_proof_with_pis, &data.verifier_only, &data.common),
            Err::<(), C::Error>(e),
        ),
{
    let (vo, common) = (&data.verifier_only, &data.common);
    law_some_verdict(common@, F::TWO_ADICITY as nat);
    if r is Ok {
        law_accepted_compressed_proof(compressed_proof_with_pis, vo, common, r);
    }
}

/// What [`VerifierCircuitData::verify`] answers: what [`CommonCircuitData::validate`] finds wrong with the key
/// comes first, then a wrong number of query rounds, and then the answer of the proof system about this
/// proof and this key.
pub proof fn law_verifier_verify<
    F: RichField + Extendable<D>,
    C: ProofSystem<D, F = F>,
    const D: usize,
>(
    data: &VerifierCircuitData<F, C, D>,
    proof_with_pis: ProofWithPublicInputs<F, C, D>,
    verdict: Result<(), ValidationError>,
    r: Result<(), VerificationError<C::Error>>,
)
    requires
        call_ensures(CommonCircuitData::<F, D>::validate, (&data.common,), verdict),
        call_ensures(VerifierCircuitData::<F, C, D>::verify, (data, proof_with_pis), r),
    ensures
        verdict matches Err(e) ==> r == Err::<(), _>(VerificationError::<C::Error>::Key(e)),
        r matches Err(VerificationError::Key(e)) ==> verdict == Err::<(), _>(e),
        verdict is Ok ==> (proof_with_pis.proof.opening_proof.query_round_proofs@.len()
            != data.common.config.fri_config.num_query_rounds <==> r == Err::<(), _>(
            VerificationError::<C::Error>::QueryRounds,
        )),
        r is Ok ==> call_ensures(
            C::verify,
            (proof_with_pis, &data.verifier_only, &data.common),
            Ok::<(), C::Error>(()),
        ),
        r matches Err(VerificationError::Proof(e)) ==> call_ensures(
            C::verify,
            (proof_with_pis, &data.verifier_only, &data.common),
            Err::<(), C::Error>(e),
        ),
{
    let (vo, common) = (&data.verifier_only, &data.common);
    law_some_verdict(common@, F::TWO_ADICITY as nat);
    if r is Ok {
        law_accepted_proof(proof_with_pis, vo, common, r);
    }
}

/// What [`VerifierCircuitData::verify_compressed`] answers: what [`CommonCircuitData::validate`] finds wrong
/// with the key comes first, and then the answer of the proof system about this proof and this key.
pub proof fn law_verifier_verify_compressed<
    F: RichField + Extendable<D>,
    C: ProofSystem<D, F = F>,
    const D: usize,
>(
    data: &VerifierCircuitData<F, C, D>,
    compressed_proof_with_pis: C::CompressedProof,
    verdict: Result<(), ValidationError>,
    r: Result<(), VerificationError<C::Error>>,
)
    requires
        call_ensures(CommonCircuitData::<F, D>::validate, (&data.common,), verdict),
        call_ensures(
            VerifierCircuitData::<F, C, D>::verify_compressed,
            (data, compressed_proof_with_pis),
            r,
        ),
    ensures
        verdict matches Err(e) ==> r == Err::<(), _>(VerificationError::<C::Error>::Key(e)),
        r matches Err(VerificationError::Key(e)) ==> verdict == Err::<(), _>(e),
        r != Err::<(), _>(VerificationError::<C::Error>::QueryRounds),
        r is Ok ==> call_ensures(
            C::verify_compressed,
            (compressed_proof_with_pis, &data.verifier_only, &data.common),
            Ok::<(), C::Error>(()),
        ),
        r matches Err(VerificationError::Proof(e)) ==> call_ensures(
            C::verify_compressed,
            (compressed_proof_with_pis, &data.verifier_only, &data.common),
            Err::<(), C::Error>(e),
        ),
{
    let (vo, common) = (&data.verifier_only, &data.common);
    law_some_verdict(common@, F::TWO_ADICITY as nat);
    if r is Ok {
        law_accepted_compressed_proof(compressed_proof_with_pis, vo, common, r);
    }
}

/// The keys that are extracted from circuit data are its parts: the proving key is the prover's part
/// and the common data, and the verification key has the values of the verifier's part and the common
/// data.
pub proof fn law_extracted_keys<
    F: RichField + Extendable<D>,
    C: GenericConfig<D, F = F>,
    const D: usize,
>(
    data: CircuitData<F, C, D>,
    verifier_data: VerifierCircuitData<F, C, D>,
    prover_data: ProverCircuitData<F, C, D>,
)
    requires
        call_ensures(CircuitData::<F, C, D>::verifier_data, (&data,), verifier_data),
        call_ensures(CircuitData::<F, C, D>::prover_data, (data,), prover_data),
    ensures
        prover_data.prover_only == data.prover_only,
        prover_data.common == data.common,
        verifier_data.verifier_only.deep_view() == data.verifier_only.deep_view(),
        verifier_data.common@ == data.common@,
{
}

/// Circuit data and the proving key that is extracted from it hand the same question to the proof
/// system, and what comes back is the proof system's answer to it.
pub proof fn law_same_prover<
    F: RichField + Extendable<D>,
    C: ProofSystem<D, F = F>,
    const D: usize,
>(
    data: CircuitData<F, C, D>,
    prover_data: ProverCircuitData<F, C, D>,
    inputs: C::PartialWitness,
    r: Result<ProofWithPublicInputs<F, C, D>, C::Error>,
    s: Result<ProofWithPublicInputs<F, C, D>, C::Error>,
)
    requires
        call_ensures(CircuitData::<F, C, D>::prover_data, (data,), prover_data),
        call_ensures(CircuitData::<F, C, D>::prove, (&data, inputs), r),
        call_ensures(ProverCircuitData::<F, C, D>::prove, (&prover_data, inputs), s),
    ensures
        call_ensures(C::prove, (&data.prover_only, &data.common, inputs), r),
        call_ensures(C::prove, (&data.prover_only, &data.common, inputs), s),
{
}

/// Compression and decompression are those of the proof system, for the digest of the verifier's part
/// and the common data.
pub proof fn law_compression_of_the_proof_system<
    F: RichField + Extendable<D>,
    C: ProofSystem<D, F = F>,
    const D: usize,
>(
    data: &CircuitData<F, C, D>,
    proof_with_pis: ProofWithPublicInputs<F, C, D>,
    r: Result<C::CompressedProof, C::Error>,
    compressed: C::CompressedProof,
    s: Result<ProofWithPublicInputs<F, C, D>, C::Error>,
)
    requires
        call_ensures(CircuitData::<F, C, D>::compress, (data, proof_with_pis), r),
        call_ensures(CircuitData::<F, C, D>::decompress, (data, compressed), s),
    ensures
        call_ensures(
            C::compress,
            (proof_with_pis, &data.verifier_only.circuit_digest, &data.common),
            r,
        ),
        call_ensures(
            C::decompress,
            (compressed, &data.verifier_only.circuit_digest, &data.common),
            s,
        ),
{
}

/// A mock circuit generates the witness that the proof system generates from the inputs.
pub proof fn law_witness_of_the_proof_system<
    F: RichField + Extendable<D>,
    C: ProofSystem<D, F = F>,
    const D: usize,
>(
    data: &MockCircuitData<F, C, D>,
    inputs: C::PartialWitness,
    r: Result<C::PartitionWitness, C::Error>,
    witness: C::PartitionWitness,
)
    requires
        call_ensures(MockCircuitData::<F, C, D>::try_generate_witness, (data, inputs), r),
    ensures
        call_ensures(C::generate_partial_witness, (inputs, &data.prover_only, &data.common), r),
        call_ensures(
            MockCircuitData::<F, C, D>::generate_witness,
            (data, inputs),
            witness,
        ) ==> call_ensures(
            C::generate_partial_witness,
            (inputs, &data.prover_only, &data.common),
            Ok::<C::PartitionWitness, C::Error>(witness),
        ),
{
}

/// A copy of a verification key has the values of its parts.
pub proof fn law_verifier_copy<
    F: RichField + Extendable<D>,
    C: GenericConfig<D, F = F>,
    const D: usize,
>(a: &VerifierCircuitData<F, C, D>, b: VerifierCircuitData<F, C, D>)
    requires
        call_ensures(<VerifierCircuitData<F, C, D> as Clone>::clone, (a,), b),
    ensures
        b.verifier_only.deep_view() == a.verifier_only.deep_view(),
        b.common@ == a.common@,
{
}

} // verus!
