//! Circuit data required by the verifier, but not the prover.

use vstd::prelude::*;

use crate::hash::{GenericConfig, MerkleCap};
use crate::wire::{lemma_starts_with, unreadable, Buffer, Codec, IoError, IoResult};

verus! {

/// Circuit data required by the verifier, but not the prover.
#[derive(Debug, PartialEq, Eq)]
#[verifier::reject_recursive_types(C)]
pub struct VerifierOnlyCircuitData<C: GenericConfig<D>, const D: usize> {
    /// A commitment to each constant polynomial and each permutation polynomial.
    pub constants_sigmas_cap: MerkleCap<C::Hash>,
    /// A digest of the "circuit" (i.e. the instance, minus public inputs), which can be used to
    /// seed Fiat-Shamir.
    pub circuit_digest: C::Hash,
}

/// The value of a [`VerifierOnlyCircuitData`].
pub struct VerifierOnlyView<H> {
    pub constants_sigmas_cap: Seq<H>,
    pub circuit_digest: H,
}

impl<C: GenericConfig<D>, const D: usize> DeepView for VerifierOnlyCircuitData<C, D> {
    type V = VerifierOnlyView<<C::Hash as DeepView>::V>;

    open spec fn deep_view(&self) -> VerifierOnlyView<<C::Hash as DeepView>::V> {
        VerifierOnlyView {
            constants_sigmas_cap: self.constants_sigmas_cap.deep_view(),
            circuit_digest: self.circuit_digest.deep_view(),
        }
    }
}

impl<C: GenericConfig<D>, const D: usize> Clone for VerifierOnlyCircuitData<C, D> {
    fn clone(&self) -> (r: Self)
        ensures
            r.deep_view() == self.deep_view(),
    {
        VerifierOnlyCircuitData {
            constants_sigmas_cap: self.constants_sigmas_cap.clone(),
            circuit_digest: self.circuit_digest,
        }
    }
}

/// The parts of a [`VerifierOnlyCircuitData`] in the order in which they are written.
pub type VerifierOnlyParts<H> = (MerkleCap<H>, H);

/// The values of those parts.
pub open spec fn verifier_only_parts<H>(v: VerifierOnlyView<H>) -> (Seq<H>, H) {
    (v.constants_sigmas_cap, v.circuit_digest)
}

impl<C: GenericConfig<D>, const D: usize> Codec for VerifierOnlyCircuitData<C, D> {
    open spec fn encodable(v: VerifierOnlyView<<C::Hash as DeepView>::V>) -> bool {
        VerifierOnlyParts::<C::Hash>::encodable(verifier_only_parts(v))
    }

    open spec fn encoding(v: VerifierOnlyView<<C::Hash as DeepView>::V>) -> Seq<u8> {
        VerifierOnlyParts::<C::Hash>::encoding(verifier_only_parts(v))
    }

    proof fn lemma_encodable(&self) {
        self.constants_sigmas_cap.lemma_encodable();
        self.circuit_digest.lemma_encodable();
    }

    proof fn lemma_prefix_free(
        a: VerifierOnlyView<<C::Hash as DeepView>::V>,
        b: VerifierOnlyView<<C::Hash as DeepView>::V>,
        s: Seq<u8>,
    ) {
        VerifierOnlyParts::<C::Hash>::lemma_prefix_free(
            verifier_only_parts(a),
            verifier_only_parts(b),
            s,
        );
    }

    fn write(&self, buf: &mut Vec<u8>) {
        self.constants_sigmas_cap.write(buf);
        self.circuit_digest.write(buf);
        assert(buf@ =~= old(buf)@ + Self::encoding(self.deep_view()));
    }

    fn read(buf: &mut Buffer<'_>) -> (r: IoResult<Self>) {
        let (constants_sigmas_cap, circuit_digest) = VerifierOnlyParts::<C::Hash>::read(buf)?;
        Ok(VerifierOnlyCircuitData { constants_sigmas_cap, circuit_digest })
    }
}

/// `r` is what a string is read as: the data whose bytes the string starts with, or nothing when there
/// is none.
pub open spec fn verifier_only_decodes<C: GenericConfig<D>, const D: usize>(
    s: Seq<u8>,
    r: Option<VerifierOnlyView<<C::Hash as DeepView>::V>>,
) -> bool {
    match r {
        Some(v) => {
            &&& VerifierOnlyCircuitData::<C, D>::encodable(v)
            &&& VerifierOnlyCircuitData::<C, D>::encoding(v).is_prefix_of(s)
        },
        None => unreadable::<VerifierOnlyCircuitData<C, D>>(s),
    }
}

impl<C: GenericConfig<D>, const D: usize> VerifierOnlyCircuitData<C, D> {
    pub fn to_bytes(&self) -> (r: IoResult<Vec<u8>>)
        ensures
            r is Ok,
            Self::encodable(self.deep_view()),
            r->Ok_0@ == Self::encoding(self.deep_view()),
    {
        let mut buffer: Vec<u8> = Vec::new();
        self.write(&mut buffer);
        proof {
            self.lemma_encodable();
            assert(buffer@ =~= Self::encoding(self.deep_view()));
        }
        Ok(buffer)
    }

    /// Reads the data that the bytes start with.
    pub fn from_bytes(bytes: Vec<u8>) -> (r: IoResult<Self>)
        ensures
            verifier_only_decodes::<C, D>(
                bytes@,
                match r {
                    Ok(v) => Some(v.deep_view()),
                    Err(_) => None,
                },
            ),
    {
        let mut buffer = Buffer::new(bytes.as_slice());
        Self::read(&mut buffer)
    }
}

/// Verifier data that was written is read back as it was, whatever follows it.
pub proof fn law_verifier_only_round_trip<C: GenericConfig<D>, const D: usize>(
    v: VerifierOnlyView<<C::Hash as DeepView>::V>,
    tail: Seq<u8>,
    r: Option<VerifierOnlyView<<C::Hash as DeepView>::V>>,
)
    requires
        VerifierOnlyCircuitData::<C, D>::encodable(v),
        verifier_only_decodes::<C, D>(VerifierOnlyCircuitData::<C, D>::encoding(v) + tail, r),
    ensures
        r == Some(v),
{
    let e = VerifierOnlyCircuitData::<C, D>::encoding(v);
    lemma_starts_with(e, tail);
    if let Some(w) = r {
        VerifierOnlyCircuitData::<C, D>::lemma_prefix_free(v, w, e + tail);
    }
}

/// What was written is read back: [`VerifierOnlyCircuitData::to_bytes`] succeeds, and from its bytes,
/// whatever follows them, [`VerifierOnlyCircuitData::from_bytes`] gives data of the same value.
pub proof fn law_verifier_only_read_back<C: GenericConfig<D>, const D: usize>(
    data: &VerifierOnlyCircuitData<C, D>,
    written: IoResult<Vec<u8>>,
    tail: Seq<u8>,
    input: Vec<u8>,
    r: IoResult<VerifierOnlyCircuitData<C, D>>,
)
    requires
        call_ensures(VerifierOnlyCircuitData::<C, D>::to_bytes, (data,), written),
        input@ == written->Ok_0@ + tail,
        call_ensures(VerifierOnlyCircuitData::<C, D>::from_bytes, (input,), r),
    ensures
        written is Ok,
        r is Ok,
        r->Ok_0.deep_view() == data.deep_view(),
{
    let read = match r {
        Ok(v) => Some(v.deep_view()),
        Err(_) => None,
    };
    law_verifier_only_round_trip::<C, D>(data.deep_view(), tail, read);
}

/// Only what is written is read: the bytes that data is written as stand at the start of what it was
/// read from.
pub proof fn law_verifier_only_canonical<C: GenericConfig<D>, const D: usize>(
    input: Vec<u8>,
    data: VerifierOnlyCircuitData<C, D>,
    written: IoResult<Vec<u8>>,
)
    requires
        call_ensures(
            VerifierOnlyCircuitData::<C, D>::from_bytes,
            (input,),
            Ok::<VerifierOnlyCircuitData<C, D>, IoError>(data),
        ),
        call_ensures(VerifierOnlyCircuitData::<C, D>::to_bytes, (&data,), written),
    ensures
        written is Ok,
        written->Ok_0@.is_prefix_of(input@),
{
}

/// The value of verifier data is made of both its fields: data of one value agree in the hashes of the
/// cap and in the digest.
pub proof fn law_verifier_only_value<C: GenericConfig<D>, const D: usize>(
    a: &VerifierOnlyCircuitData<C, D>,
    b: &VerifierOnlyCircuitData<C, D>,
)
    requires
        a.deep_view() == b.deep_view(),
    ensures
        a.constants_sigmas_cap.0@.len() == b.constants_sigmas_cap.0@.len(),
        forall|i: int|
            0 <= i < a.constants_sigmas_cap.0@.len() ==> (
            #[trigger] a.constants_sigmas_cap.0@[i]).deep_view()
                == b.constants_sigmas_cap.0@[i].deep_view(),
        a.circuit_digest.deep_view() == b.circuit_digest.deep_view(),
{
    let (x, y) = (a.constants_sigmas_cap.0, b.constants_sigmas_cap.0);
    assert(x.deep_view() == y.deep_view());
    assert(x.deep_view().len() == x@.len() && y.deep_view().len() == y@.len());
    assert forall|i: int| 0 <= i < x@.len() implies (#[trigger] x@[i]).deep_view()
        == y@[i].deep_view() by {
        assert(x.deep_view()[i] == x@[i].deep_view() && y.deep_view()[i] == y@[i].deep_view());
    }
}

} // verus!
