//! Hashes, Merkle trees and the choice of field and hash that a circuit is built for.

use core::fmt::Debug;

use vstd::prelude::*;

use crate::common::copy_list;
use crate::field::{Extendable, RichField};
use crate::goldilocks::GoldilocksField;
use crate::wire::{Buffer, Codec, IoResult};

verus! {

/// The field of a circuit and the values of the hash that it is committed to with.
pub trait GenericConfig<const D: usize>: Sized {
    type F: RichField + Extendable<D>;

    type Hash: Codec + Copy + Eq + Debug;
}

/// The value of an algebraic hash: four field elements.
#[derive(Clone, Copy, Debug, PartialEq, Eq)]
pub struct HashOut<F: RichField> {
    pub elements: [F; 4],
}

impl<F: RichField> DeepView for HashOut<F> {
    type V = (nat, (nat, (nat, nat)));

    open spec fn deep_view(&self) -> (nat, (nat, (nat, nat))) {
        (
            self.elements[0].deep_view(),
            (
                self.elements[1].deep_view(),
                (self.elements[2].deep_view(), self.elements[3].deep_view()),
            ),
        )
    }
}

/// The elements of a hash value, in the order in which they are written.
pub type HashParts<F> = (F, (F, (F, F)));

impl<F: RichField> Codec for HashOut<F> {
    open spec fn encodable(v: (nat, (nat, (nat, nat)))) -> bool {
        HashParts::<F>::encodable(v)
    }

    open spec fn encoding(v: (nat, (nat, (nat, nat)))) -> Seq<u8> {
        HashParts::<F>::encoding(v)
    }

    proof fn lemma_encodable(&self) {
        self.elements[0].lemma_encodable();
        self.elements[1].lemma_encodable();
        self.elements[2].lemma_encodable();
        self.elements[3].lemma_encodable();
    }

    proof fn lemma_prefix_free(
        a: (nat, (nat, (nat, nat))),
        b: (nat, (nat, (nat, nat))),
        s: Seq<u8>,
    ) {
        HashParts::<F>::lemma_prefix_free(a, b, s);
    }

    fn write(&self, buf: &mut Vec<u8>) {
        self.elements[0].write(buf);
        self.elements[1].write(buf);
        self.elements[2].write(buf);
        self.elements[3].write(buf);
        assert(buf@ =~= old(buf)@ + Self::encoding(self.deep_view()));
    }

    fn read(buf: &mut Buffer<'_>) -> (r: IoResult<Self>) {
        let (a, (b, (c, d))) = HashParts::<F>::read(buf)?;
        Ok(HashOut { elements: [a, b, c, d] })
    }
}

/// Circuits over the Goldilocks field, committed to with Poseidon.
#[derive(Clone, Copy, Debug, PartialEq, Eq)]
pub struct PoseidonGoldilocksConfig;

impl GenericConfig<2> for PoseidonGoldilocksConfig {
    type F = GoldilocksField;

    type Hash = HashOut<GoldilocksField>;
}

/// The hashes of one layer of a Merkle tree, which stand in for its root.
#[derive(Debug, PartialEq, Eq)]
pub struct MerkleCap<H: Codec + Copy>(pub Vec<H>);

impl<H: Codec + Copy> DeepView for MerkleCap<H> {
    type V = Seq<H::V>;

    open spec fn deep_view(&self) -> Seq<H::V> {
        self.0.deep_view()
    }
}

impl<H: Codec + Copy> Clone for MerkleCap<H> {
    fn clone(&self) -> (r: Self)
        ensures
            r.0@ == self.0@,
            r.deep_view() == self.deep_view(),
    {
        let r = MerkleCap(copy_list(&self.0));
        assert(r.deep_view() =~= self.deep_view());
        r
    }
}

impl<H: Codec + Copy> Codec for MerkleCap<H> {
    open spec fn encodable(v: Seq<H::V>) -> bool {
        Vec::<H>::encodable(v)
    }

    open spec fn encoding(v: Seq<H::V>) -> Seq<u8> {
        Vec::<H>::encoding(v)
    }

    proof fn lemma_encodable(&self) {
        self.0.lemma_encodable();
    }

    proof fn lemma_prefix_free(a: Seq<H::V>, b: Seq<H::V>, s: Seq<u8>) {
        Vec::<H>::lemma_prefix_free(a, b, s);
    }

    fn write(&self, buf: &mut Vec<u8>) {
        self.0.write(buf);
    }

    fn read(buf: &mut Buffer<'_>) -> (r: IoResult<Self>) {
        Ok(MerkleCap(Vec::<H>::read(buf)?))
    }
}

/// A Merkle tree over lists of field elements.
#[derive(Debug, PartialEq, Eq)]
pub struct MerkleTree<F: RichField, H: Codec + Copy> {
    /// The data in the leaves of the Merkle tree.
    pub leaves: Vec<Vec<F>>,
    /// The digests below the cap.
    pub digests: Vec<H>,
    pub cap: MerkleCap<H>,
}

/// The value of a [`MerkleTree`].
pub struct MerkleTreeView<H> {
    pub leaves: Seq<Seq<nat>>,
    pub digests: Seq<H>,
    pub cap: Seq<H>,
}

impl<F: RichField, H: Codec + Copy> DeepView for MerkleTree<F, H> {
    type V = MerkleTreeView<H::V>;

    open spec fn deep_view(&self) -> MerkleTreeView<H::V> {
        MerkleTreeView {
            leaves: self.leaves.deep_view(),
            digests: self.digests.deep_view(),
            cap: self.cap.deep_view(),
        }
    }
}

/// The parts of a [`MerkleTree`] in the order in which they are written.
pub type MerkleTreeParts<F, H> = (Vec<Vec<F>>, (Vec<H>, MerkleCap<H>));

/// The values of those parts.
pub open spec fn merkle_tree_parts<H>(v: MerkleTreeView<H>) -> (Seq<Seq<nat>>, (Seq<H>, Seq<H>)) {
    (v.leaves, (v.digests, v.cap))
}

impl<F: RichField, H: Codec + Copy> Codec for MerkleTree<F, H> {
    open spec fn encodable(v: MerkleTreeView<H::V>) -> bool {
        MerkleTreeParts::<F, H>::encodable(merkle_tree_parts(v))
    }

    open spec fn encoding(v: MerkleTreeView<H::V>) -> Seq<u8> {
        MerkleTreeParts::<F, H>::encoding(merkle_tree_parts(v))
    }

    proof fn lemma_encodable(&self) {
        self.leaves.lemma_encodable();
        self.digests.lemma_encodable();
        self.cap.lemma_encodable();
    }

    proof fn lemma_prefix_free(
        a: MerkleTreeView<H::V>,
        b: MerkleTreeView<H::V>,
        s: Seq<u8>,
    ) {
        MerkleTreeParts::<F, H>::lemma_prefix_free(merkle_tree_parts(a), merkle_tree_parts(b), s);
    }

    fn write(&self, buf: &mut Vec<u8>) {
        self.leaves.write(buf);
        self.digests.write(buf);
        self.cap.write(buf);
        assert(buf@ =~= old(buf)@ + Self::encoding(self.deep_view()));
    }

    fn read(buf: &mut Buffer<'_>) -> (r: IoResult<Self>) {
        let (leaves, (digests, cap)) = MerkleTreeParts::<F, H>::read(buf)?;
        Ok(MerkleTree { leaves, digests, cap })
    }
}

/// A commitment to a batch of polynomials, with everything that opening it needs.
#[derive(Debug, PartialEq, Eq)]
pub struct PolynomialBatch<F: RichField, H: Codec + Copy> {
    /// The coefficients of each polynomial.
    pub polynomials: Vec<Vec<F>>,
    pub merkle_tree: MerkleTree<F, H>,
    pub degree_log: usize,
    pub rate_bits: usize,
    pub blinding: bool,
}

/// The value of a [`PolynomialBatch`].
pub struct PolynomialBatchView<H> {
    pub polynomials: Seq<Seq<nat>>,
    pub merkle_tree: MerkleTreeView<H>,
    pub degree_log: usize,
    pub rate_bits: usize,
    pub blinding: bool,
}

impl<F: RichField, H: Codec + Copy> DeepView for PolynomialBatch<F, H> {
    type V = PolynomialBatchView<H::V>;

    open spec fn deep_view(&self) -> PolynomialBatchView<H::V> {
        PolynomialBatchView {
            polynomials: self.polynomials.deep_view(),
            merkle_tree: self.merkle_tree.deep_view(),
            degree_log: self.degree_log,
            rate_bits: self.rate_bits,
            blinding: self.blinding,
        }
    }
}

/// The parts of a [`PolynomialBatch`] in the order in which they are written.
pub type PolynomialBatchParts<F, H> = (Vec<Vec<F>>, (MerkleTree<F, H>, (usize, (usize, bool))));

/// The values of those parts.
pub open spec fn polynomial_batch_parts<H>(v: PolynomialBatchView<H>) -> (
    Seq<Seq<nat>>,
    (MerkleTreeView<H>, (usize, (usize, bool))),
) {
    (v.polynomials, (v.merkle_tree, (v.degree_log, (v.rate_bits, v.blinding))))
}

impl<F: RichField, H: Codec + Copy> Codec for PolynomialBatch<F, H> {
    open spec fn encodable(v: PolynomialBatchView<H::V>) -> bool {
        PolynomialBatchParts::<F, H>::encodable(polynomial_batch_parts(v))
    }

    open spec fn encoding(v: PolynomialBatchView<H::V>) -> Seq<u8> {
        PolynomialBatchParts::<F, H>::encoding(polynomial_batch_parts(v))
    }

    proof fn lemma_encodable(&self) {
        self.polynomials.lemma_encodable();
        self.merkle_tree.lemma_encodable();
    }

    proof fn lemma_prefix_free(
        a: PolynomialBatchView<H::V>,
        b: PolynomialBatchView<H::V>,
        s: Seq<u8>,
    ) {
        PolynomialBatchParts::<F, H>::lemma_prefix_free(
            polynomial_batch_parts(a),
            polynomial_batch_parts(b),
            s,
        );
    }

    fn write(&self, buf: &mut Vec<u8>) {
        self.polynomials.write(buf);
        self.merkle_tree.write(buf);
        self.degree_log.write(buf);
        self.rate_bits.write(buf);
        self.blinding.write(buf);
        assert(buf@ =~= old(buf)@ + Self::encoding(self.deep_view()));
    }

    fn read(buf: &mut Buffer<'_>) -> (r: IoResult<Self>) {
        let (polynomials, (merkle_tree, (degree_log, (rate_bits, blinding)))) =
            PolynomialBatchParts::<F, H>::read(buf)?;
        Ok(PolynomialBatch { polynomials, merkle_tree, degree_log, rate_bits, blinding })
    }
}

} // verus!
