//! Targets: the values that a circuit computes with, as its builder names them.

use vstd::prelude::*;

use crate::wire::{lemma_prefix_concat, Buffer, Codec, IoResult};

verus! {

/// A location in the witness.
#[derive(Clone, Copy, Debug, PartialEq, Eq, Structural)]
pub enum Target {
    /// A wire of the circuit's grid.
    Wire { row: usize, column: usize },
    /// A target that has no location of its own until it is connected to a wire.
    VirtualTarget { index: usize },
}

/// `D` targets that stand for an element of the field extension of degree `D`.
#[derive(Clone, Copy, Debug, PartialEq, Eq)]
pub struct ExtensionTarget<const D: usize>(pub [Target; D]);

/// The part of a circuit builder that opening points inside a circuit need.
pub trait ExtensionBuilder<F, const D: usize>: Sized {
    /// Adds the product of a constant and an extension target to the circuit. Returns the target of
    /// the product and the builder with the product added.
    fn mul_const_extension(self, c: F, multiplicand: ExtensionTarget<D>) -> (
        ExtensionTarget<D>,
        Self,
    );
}

impl DeepView for Target {
    type V = Target;

    open spec fn deep_view(&self) -> Target {
        *self
    }
}

/// A target is a flag that says whether it is a wire, followed by its coordinates.
impl Codec for Target {
    open spec fn encodable(v: Target) -> bool {
        true
    }

    open spec fn encoding(v: Target) -> Seq<u8> {
        match v {
            Target::Wire { row, column } => bool::encoding(true) + <(usize, usize)>::encoding(
                (row, column),
            ),
            Target::VirtualTarget { index } => bool::encoding(false) + usize::encoding(index),
        }
    }

    proof fn lemma_encodable(&self) {
    }

    proof fn lemma_prefix_free(a: Target, b: Target, s: Seq<u8>) {
        lemma_target_split(a, s);
        lemma_target_split(b, s);
        bool::lemma_prefix_free(a is Wire, b is Wire, s);
        let rest = s.skip(bool::encoding(a is Wire).len() as int);
        match (a, b) {
            (Target::Wire { row: r, column: c }, Target::Wire { row: p, column: q }) => {
                <(usize, usize)>::lemma_prefix_free((r, c), (p, q), rest);
            },
            (Target::VirtualTarget { index: i }, Target::VirtualTarget { index: j }) => {
                usize::lemma_prefix_free(i, j, rest);
            },
            _ => {},
        }
    }

    fn write(&self, buf: &mut Vec<u8>) {
        match self {
            Target::Wire { row, column } => {
                true.write(buf);
                row.write(buf);
                column.write(buf);
            },
            Target::VirtualTarget { index } => {
                false.write(buf);
                index.write(buf);
            },
        }
        assert(buf@ =~= old(buf)@ + Self::encoding(*self));
    }

    fn read(buf: &mut Buffer<'_>) -> (r: IoResult<Self>) {
        let ghost before = buf@;
        proof {
            assert forall|v: Target|
                #![trigger Self::encoding(v)]
                Self::encoding(v).is_prefix_of(before) implies bool::encoding(
                v is Wire,
            ).is_prefix_of(before) && target_rest(v).is_prefix_of(
                before.skip(bool::encoding(v is Wire).len() as int),
            ) by {
                lemma_target_split(v, before);
            }
        }
        let is_wire = bool::read(buf)?;
        proof {
            assert forall|v: Target|
                #![trigger Self::encoding(v)]
                Self::encoding(v).is_prefix_of(before) implies is_wire == (v is Wire) by {
                bool::lemma_prefix_free(v is Wire, is_wire, before);
            }
        }
        let r = if is_wire {
            let (row, column) = <(usize, usize)>::read(buf)?;
            Target::Wire { row, column }
        } else {
            let index = usize::read(buf)?;
            Target::VirtualTarget { index }
        };
        proof {
            lemma_target_split(r, before);
            assert(buf@ =~= before.skip(Self::encoding(r).len() as int));
        }
        Ok(r)
    }
}

spec fn target_rest(v: Target) -> Seq<u8> {
    match v {
        Target::Wire { row, column } => <(usize, usize)>::encoding((row, column)),
        Target::VirtualTarget { index } => usize::encoding(index),
    }
}

proof fn lemma_target_split(v: Target, s: Seq<u8>)
    ensures
        Target::encoding(v) == bool::encoding(v is Wire) + target_rest(v),
        Target::encoding(v).is_prefix_of(s) <==> bool::encoding(v is Wire).is_prefix_of(s)
            && target_rest(v).is_prefix_of(s.skip(bool::encoding(v is Wire).len() as int)),
{
    lemma_prefix_concat(bool::encoding(v is Wire), target_rest(v), s);
}

/// Where the gates of a lookup table are placed.
#[derive(Clone, Copy, Debug, PartialEq, Eq, Structural)]
pub struct LookupWire {
    /// Index of the last lookup row (i.e. the first in the evaluation order).
    pub last_lu_gate: usize,
    /// Index of the last lookup table row.
    pub last_lut_gate: usize,
    /// Index of the first lookup table row.
    pub first_lut_gate: usize,
}

impl DeepView for LookupWire {
    type V = LookupWire;

    open spec fn deep_view(&self) -> LookupWire {
        *self
    }
}

/// The rows in the order in which they are written.
pub type LookupWireParts = (usize, (usize, usize));

/// The values of those parts.
pub open spec fn lookup_wire_parts(v: LookupWire) -> (usize, (usize, usize)) {
    (v.last_lu_gate, (v.last_lut_gate, v.first_lut_gate))
}

impl Codec for LookupWire {
    open spec fn encodable(v: LookupWire) -> bool {
        true
    }

    open spec fn encoding(v: LookupWire) -> Seq<u8> {
        LookupWireParts::encoding(lookup_wire_parts(v))
    }

    proof fn lemma_encodable(&self) {
    }

    proof fn lemma_prefix_free(a: LookupWire, b: LookupWire, s: Seq<u8>) {
        LookupWireParts::lemma_prefix_free(lookup_wire_parts(a), lookup_wire_parts(b), s);
    }

    fn write(&self, buf: &mut Vec<u8>) {
        self.last_lu_gate.write(buf);
        self.last_lut_gate.write(buf);
        self.first_lut_gate.write(buf);
        assert(buf@ =~= old(buf)@ + Self::encoding(*self));
    }

    fn read(buf: &mut Buffer<'_>) -> (r: IoResult<Self>) {
        let (last_lu_gate, (last_lut_gate, first_lut_gate)) = LookupWireParts::read(buf)?;
        Ok(LookupWire { last_lu_gate, last_lut_gate, first_lut_gate })
    }
}

/// The `(looking_in, looking_out)` pairs of one lookup table.
pub type Lookup = Vec<(Target, Target)>;

/// Four targets that stand for an algebraic hash value.
#[derive(Clone, Copy, Debug, PartialEq, Eq)]
pub struct HashOutTarget {
    pub elements: [Target; 4],
}

/// A Merkle cap inside a circuit.
#[derive(Clone, Debug, PartialEq, Eq)]
pub struct MerkleCapTarget(pub Vec<HashOutTarget>);

/// The `Target` version of the verifier's circuit data, for use inside recursive circuits. Note that
/// this is intentionally missing certain fields, such as the configuration, because we support only
/// a limited form of dynamic inner circuits. We can't practically make things like the wire count
/// dynamic, at least not without setting a maximum wire count and paying for the worst case.
#[derive(Clone, Debug, PartialEq, Eq)]
pub struct VerifierCircuitTarget {
    /// A commitment to each constant polynomial and each permutation polynomial.
    pub constants_sigmas_cap: MerkleCapTarget,
    /// A digest of the "circuit" (i.e. the instance, minus public inputs), which can be used to
    /// seed Fiat-Shamir.
    pub circuit_digest: HashOutTarget,
}

} // verus!
