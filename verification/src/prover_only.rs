//! Circuit data required by the prover, but not the verifier.

use vstd::prelude::*;

use crate::common::{CommonCircuitData, CommonView};
use crate::field::{Extendable, RichField};
use crate::generator::{GeneratorView, WitnessGeneratorRef};
use crate::hash::{GenericConfig, PolynomialBatch, PolynomialBatchView};
use crate::serializer::{
    items_encoding, items_supported, lemma_items_prefix_free, read_items, write_items,
    DefaultGeneratorSerializer, Serializer,
};
use crate::target::{Lookup, LookupWire, Target};
use crate::watches::{collect, entries, map_of, sorted_entries, watches_view, Watches};
use crate::wire::{
    lemma_append_twice, lemma_prefix_concat, lemma_starts_with, Buffer, Codec, IoError, IoResult,
};

verus! {

/// Pre-computed roots for faster FFT: for each size, the powers of a root of unity.
pub type FftRootTable<F> = Vec<Vec<F>>;

/// Circuit data required by the prover, but not the verifier.
#[derive(Debug, PartialEq, Eq)]
#[verifier::reject_recursive_types(F)]
#[verifier::reject_recursive_types(C)]
pub struct ProverOnlyCircuitData<
    F: RichField + Extendable<D>,
    C: GenericConfig<D, F = F>,
    const D: usize,
> {
    pub generators: Vec<WitnessGeneratorRef>,
    /// Generator indices (within the `Vec` above), indexed by the representative of each target
    /// they watch.
    pub generator_indices_by_watches: Watches,
    /// Commitments to the constants polynomials and sigma polynomials.
    pub constants_sigmas_commitment: PolynomialBatch<F, C::Hash>,
    /// The transpose of the list of sigma polynomials.
    pub sigmas: Vec<Vec<F>>,
    /// Subgroup of order `degree`.
    pub subgroup: Vec<F>,
    /// Targets to be made public.
    pub public_inputs: Vec<Target>,
    /// A map from each `Target`'s index to the index of its representative in the disjoint-set
    /// forest.
    pub representative_map: Vec<usize>,
    /// Pre-computed roots for faster FFT.
    pub fft_root_table: Option<FftRootTable<F>>,
    /// A digest of the "circuit" (i.e. the instance, minus public inputs), which can be used to
    /// seed Fiat-Shamir.
    pub circuit_digest: C::Hash,
    /// The concrete placement of the lookup gates for each lookup table index.
    pub lookup_rows: Vec<LookupWire>,
    /// A vector of (looking_in, looking_out) pairs for each lookup table index.
    pub lut_to_lookups: Vec<Lookup>,
}

/// The value of a [`ProverOnlyCircuitData`].
pub struct ProverOnlyView<H> {
    pub generators: Seq<GeneratorView>,
    pub generator_indices_by_watches: Map<usize, Seq<usize>>,
    pub constants_sigmas_commitment: PolynomialBatchView<H>,
    pub sigmas: Seq<Seq<nat>>,
    pub subgroup: Seq<nat>,
    pub public_inputs: Seq<Target>,
    pub representative_map: Seq<usize>,
    pub fft_root_table: Option<Seq<Seq<nat>>>,
    pub circuit_digest: H,
    pub lookup_rows: Seq<LookupWire>,
    pub lut_to_lookups: Seq<Seq<(Target, Target)>>,
}

impl<F: RichField + Extendable<D>, C: GenericConfig<D, F = F>, const D: usize> View
    for ProverOnlyCircuitData<F, C, D> {
    type V = ProverOnlyView<<C::Hash as DeepView>::V>;

    open spec fn view(&self) -> ProverOnlyView<<C::Hash as DeepView>::V> {
        ProverOnlyView {
            generators: self.generators.deep_view(),
            generator_indices_by_watches: watches_view(self.generator_indices_by_watches@),
            constants_sigmas_commitment: self.constants_sigmas_commitment.deep_view(),
            sigmas: self.sigmas.deep_view(),
            subgroup: self.subgroup.deep_view(),
            public_inputs: self.public_inputs.deep_view(),
            representative_map: self.representative_map.deep_view(),
            fft_root_table: self.fft_root_table.deep_view(),
            circuit_digest: self.circuit_digest.deep_view(),
            lookup_rows: self.lookup_rows.deep_view(),
            lut_to_lookups: self.lut_to_lookups.deep_view(),
        }
    }
}

/// Everything but the generators, in the order in which it is written.
pub type ProverOnlyParts<F, H> = (
    Vec<(usize, Vec<usize>)>,
    (
        PolynomialBatch<F, H>,
        (
            Vec<Vec<F>>,
            (
                Vec<F>,
                (
                    Vec<Target>,
                    (
                        Vec<usize>,
                        (Option<FftRootTable<F>>, (H, (Vec<LookupWire>, Vec<Lookup>))),
                    ),
                ),
            ),
        ),
    ),
);

/// The values of those parts.
pub type ProverOnlyValues<H> = (
    Seq<(usize, Seq<usize>)>,
    (
        PolynomialBatchView<H>,
        (
            Seq<Seq<nat>>,
            (
                Seq<nat>,
                (
                    Seq<Target>,
                    (
                        Seq<usize>,
                        (
                            Option<Seq<Seq<nat>>>,
                            (H, (Seq<LookupWire>, Seq<Seq<(Target, Target)>>)),
                        ),
                    ),
                ),
            ),
        ),
    ),
);

/// The bytes that stand for a list of generators: their number and the generators.
pub open spec fn generators_bytes<W, F, const D: usize>(
    generators: Seq<GeneratorView>,
    generator_serializer: &W,
    common: CommonView,
) -> Seq<u8> where W: Serializer<WitnessGeneratorRef, F, D>, F: RichField + Extendable<D> {
    usize::encoding(generators.len() as usize) + items_encoding::<WitnessGeneratorRef, W, F, D>(
        generator_serializer,
        common.header(),
        generators,
    )
}

/// The list can be held in memory, and the serializer knows its generators.
pub open spec fn generators_writable<W, F, const D: usize>(
    generators: Seq<GeneratorView>,
    generator_serializer: &W,
    common: CommonView,
) -> bool where W: Serializer<WitnessGeneratorRef, F, D>, F: RichField + Extendable<D> {
    &&& generators.len() <= usize::MAX
    &&& items_supported::<WitnessGeneratorRef, W, F, D>(
        generator_serializer,
        common.header(),
        generators,
    )
}

impl<H> ProverOnlyView<H> {
    /// The values of everything but the generators, with `watches` as the list of watched targets.
    pub open spec fn values(self, watches: Seq<(usize, Seq<usize>)>) -> ProverOnlyValues<H> {
        (
            watches,
            (
                self.constants_sigmas_commitment,
                (
                    self.sigmas,
                    (
                        self.subgroup,
                        (
                            self.public_inputs,
                            (
                                self.representative_map,
                                (
                                    self.fft_root_table,
                                    (
                                        self.circuit_digest,
                                        (self.lookup_rows, self.lut_to_lookups),
                                    ),
                                ),
                            ),
                        ),
                    ),
                ),
            ),
        )
    }
}

/// The data has an encoding in which `watches` lists the watched targets.
#[verifier::opaque]
pub open spec fn prover_only_writable<W, F, C, const D: usize>(
    v: ProverOnlyView<<C::Hash as DeepView>::V>,
    watches: Seq<(usize, Seq<usize>)>,
    generator_serializer: &W,
    common: CommonView,
) -> bool where
    W: Serializer<WitnessGeneratorRef, F, D>,
    F: RichField + Extendable<D>,
    C: GenericConfig<D, F = F>,
 {
    &&& generators_writable::<W, F, D>(v.generators, generator_serializer, common)
    &&& ProverOnlyParts::<F, C::Hash>::encodable(v.values(watches))
    &&& v.generator_indices_by_watches == map_of(watches)
}

/// The bytes that stand for the data when `watches` lists the watched targets.
#[verifier::opaque]
pub open spec fn prover_only_bytes<W, F, C, const D: usize>(
    v: ProverOnlyView<<C::Hash as DeepView>::V>,
    watches: Seq<(usize, Seq<usize>)>,
    generator_serializer: &W,
    common: CommonView,
) -> Seq<u8> where
    W: Serializer<WitnessGeneratorRef, F, D>,
    F: RichField + Extendable<D>,
    C: GenericConfig<D, F = F>,
 {
    generators_bytes::<W, F, D>(v.generators, generator_serializer, common) + ProverOnlyParts::<
        F,
        C::Hash,
    >::encoding(v.values(watches))
}

/// `r` is what a string is read as: the data whose bytes the string starts with, in whatever order it
/// lists the watched targets, or nothing when there is none.
pub open spec fn prover_only_decodes<W, F, C, const D: usize>(
    generator_serializer: &W,
    common: CommonView,
    s: Seq<u8>,
    r: Option<ProverOnlyView<<C::Hash as DeepView>::V>>,
) -> bool where
    W: Serializer<WitnessGeneratorRef, F, D>,
    F: RichField + Extendable<D>,
    C: GenericConfig<D, F = F>,
 {
    match r {
        Some(v) => exists|watches: Seq<(usize, Seq<usize>)>|
            {
                &&& prover_only_writable::<W, F, C, D>(v, watches, generator_serializer, common)
                &&& (#[trigger] prover_only_bytes::<W, F, C, D>(
                    v,
                    watches,
                    generator_serializer,
                    common,
                )).is_prefix_of(s)
            },
        None => forall|
            v: ProverOnlyView<<C::Hash as DeepView>::V>,
            watches: Seq<(usize, Seq<usize>)>,
        |
            #![trigger prover_only_bytes::<W, F, C, D>(v, watches, generator_serializer, common)]
            prover_only_writable::<W, F, C, D>(v, watches, generator_serializer, common)
                ==> !prover_only_bytes::<W, F, C, D>(
                v,
                watches,
                generator_serializer,
                common,
            ).is_prefix_of(s),
    }
}

proof fn lemma_generators_prefix_free<
    W: Serializer<WitnessGeneratorRef, F, D>,
    F: RichField + Extendable<D>,
    const D: usize,
>(
    generator_serializer: &W,
    common: CommonView,
    a: Seq<GeneratorView>,
    b: Seq<GeneratorView>,
    s: Seq<u8>,
)
    requires
        generators_writable::<W, F, D>(a, generator_serializer, common),
        generators_writable::<W, F, D>(b, generator_serializer, common),
        generators_bytes::<W, F, D>(a, generator_serializer, common).is_prefix_of(s),
        generators_bytes::<W, F, D>(b, generator_serializer, common).is_prefix_of(s),
    ensures
        a == b,
{
    let (n, m) = (a.len() as usize, b.len() as usize);
    lemma_prefix_concat(
        usize::encoding(n),
        items_encoding::<WitnessGeneratorRef, W, F, D>(generator_serializer, common.header(), a),
        s,
    );
    lemma_prefix_concat(
        usize::encoding(m),
        items_encoding::<WitnessGeneratorRef, W, F, D>(generator_serializer, common.header(), b),
        s,
    );
    usize::lemma_prefix_free(n, m, s);
    lemma_items_prefix_free::<WitnessGeneratorRef, W, F, D>(
        generator_serializer,
        common.header(),
        a,
        b,
        s.skip(usize::encoding(n).len() as int),
    );
}

/// No string starts with the bytes of two different data.
pub proof fn lemma_prover_only_prefix_free<
    W: Serializer<WitnessGeneratorRef, F, D>,
    F: RichField + Extendable<D>,
    C: GenericConfig<D, F = F>,
    const D: usize,
>(
    generator_serializer: &W,
    common: CommonView,
    a: ProverOnlyView<<C::Hash as DeepView>::V>,
    x: Seq<(usize, Seq<usize>)>,
    b: ProverOnlyView<<C::Hash as DeepView>::V>,
    y: Seq<(usize, Seq<usize>)>,
    s: Seq<u8>,
)
    requires
        prover_only_writable::<W, F, C, D>(a, x, generator_serializer, common),
        prover_only_writable::<W, F, C, D>(b, y, generator_serializer, common),
        prover_only_bytes::<W, F, C, D>(a, x, generator_serializer, common).is_prefix_of(s),
        prover_only_bytes::<W, F, C, D>(b, y, generator_serializer, common).is_prefix_of(s),
    ensures
        a == b,
        x == y,
{
    reveal(prover_only_writable);
    reveal(prover_only_bytes);
    let g = generators_bytes::<W, F, D>(a.generators, generator_serializer, common);
    lemma_prefix_concat(g, ProverOnlyParts::<F, C::Hash>::encoding(a.values(x)), s);
    lemma_prefix_concat(
        generators_bytes::<W, F, D>(b.generators, generator_serializer, common),
        ProverOnlyParts::<F, C::Hash>::encoding(b.values(y)),
        s,
    );
    lemma_generators_prefix_free::<W, F, D>(
        generator_serializer,
        common,
        a.generators,
        b.generators,
        s,
    );
    ProverOnlyParts::<F, C::Hash>::lemma_prefix_free(
        a.values(x),
        b.values(y),
        s.skip(g.len() as int),
    );
}

/// Reads a list of generators.
fn read_generators<
    W: Serializer<WitnessGeneratorRef, F, D>,
    F: RichField + Extendable<D>,
    const D: usize,
>(
    generator_serializer: &W,
    common_data: &CommonCircuitData<F, D>,
    buf: &mut Buffer<'_>,
) -> (r: IoResult<Vec<WitnessGeneratorRef>>)
    ensures
        match r {
            Ok(generators) => {
                let bytes = generators_bytes::<W, F, D>(
                    generators.deep_view(),
                    generator_serializer,
                    common_data@,
                );
                &&& generators_writable::<W, F, D>(
                    generators.deep_view(),
                    generator_serializer,
                    common_data@,
                )
                &&& bytes.is_prefix_of(old(buf)@)
                &&& final(buf)@ == old(buf)@.skip(bytes.len() as int)
            },
            Err(_) => forall|g: Seq<GeneratorView>|
                #![trigger generators_bytes::<W, F, D>(g, generator_serializer, common_data@)]
                generators_writable::<W, F, D>(g, generator_serializer, common_data@)
                    ==> !generators_bytes::<W, F, D>(
                    g,
                    generator_serializer,
                    common_data@,
                ).is_prefix_of(old(buf)@),
        },
{
    let ghost before = buf@;
    let ghost common = common_data@;
    proof {
        assert forall|g: Seq<GeneratorView>|
            #![trigger generators_bytes::<W, F, D>(g, generator_serializer, common)]
            generators_bytes::<W, F, D>(g, generator_serializer, common).is_prefix_of(
                before,
            ) implies usize::encoding(g.len() as usize).is_prefix_of(before) && items_encoding::<
            WitnessGeneratorRef,
            W,
            F,
            D,
        >(generator_serializer, common.header(), g).is_prefix_of(
            before.skip(usize::encoding(g.len() as usize).len() as int),
        ) by {
            lemma_prefix_concat(
                usize::encoding(g.len() as usize),
                items_encoding::<WitnessGeneratorRef, W, F, D>(
                    generator_serializer,
                    common.header(),
                    g,
                ),
                before,
            );
        }
    }
    let n = usize::read(buf)?;
    proof {
        assert forall|g: Seq<GeneratorView>|
            #![trigger generators_bytes::<W, F, D>(g, generator_serializer, common)]
            generators_bytes::<W, F, D>(g, generator_serializer, common).is_prefix_of(
                before,
            ) implies g.len() as usize == n by {
            usize::lemma_prefix_free(g.len() as usize, n, before);
        }
    }
    let generators = read_items(generator_serializer, n, common_data, buf)?;
    proof {
        let items = items_encoding::<WitnessGeneratorRef, W, F, D>(
            generator_serializer,
            common.header(),
            generators.deep_view(),
        );
        lemma_prefix_concat(usize::encoding(n), items, before);
        assert(buf@ =~= before.skip((usize::encoding(n) + items).len() as int));
    }
    Ok(generators)
}

impl<
    F: RichField + Extendable<D>,
    C: GenericConfig<D, F = F>,
    const D: usize,
> ProverOnlyCircuitData<F, C, D> {
    /// Appends everything but the generators.
    fn write_parts(&self, buf: &mut Vec<u8>)
        ensures
            ({
                let values = self@.values(sorted_entries(self@.generator_indices_by_watches));
                &&& ProverOnlyParts::<F, C::Hash>::encodable(values)
                &&& self@.generator_indices_by_watches == map_of(values.0)
                &&& final(buf)@ == old(buf)@ + ProverOnlyParts::<F, C::Hash>::encoding(values)
            }),
    {
        let watches = entries(&self.generator_indices_by_watches);
        let ghost b0 = buf@;
        watches.write(buf);
        let ghost b1 = buf@;
        self.constants_sigmas_commitment.write(buf);
        let ghost b2 = buf@;
        self.sigmas.write(buf);
        let ghost b3 = buf@;
        self.subgroup.write(buf);
        let ghost b4 = buf@;
        self.public_inputs.write(buf);
        let ghost b5 = buf@;
        self.representative_map.write(buf);
        let ghost b6 = buf@;
        self.fft_root_table.write(buf);
        let ghost b7 = buf@;
        self.circuit_digest.write(buf);
        let ghost b8 = buf@;
        self.lookup_rows.write(buf);
        let ghost b9 = buf@;
        self.lut_to_lookups.write(buf);
        proof {
            crate::watches::law_sorted_entries(
                watches.deep_view(),
                self@.generator_indices_by_watches,
            );
            watches.lemma_encodable();
            self.constants_sigmas_commitment.lemma_encodable();
            self.sigmas.lemma_encodable();
            self.subgroup.lemma_encodable();
            self.public_inputs.lemma_encodable();
            self.representative_map.lemma_encodable();
            self.fft_root_table.lemma_encodable();
            self.circuit_digest.lemma_encodable();
            self.lookup_rows.lemma_encodable();
            self.lut_to_lookups.lemma_encodable();
            let v = self@;
            let t9 = Vec::<Lookup>::encoding(v.lut_to_lookups);
            let e8 = Vec::<LookupWire>::encoding(v.lookup_rows);
            lemma_append_twice(b8, e8, t9);
            let t8 = e8 + t9;
            let e7 = <C::Hash as Codec>::encoding(v.circuit_digest);
            lemma_append_twice(b7, e7, t8);
            let t7 = e7 + t8;
            let e6 = Option::<FftRootTable<F>>::encoding(v.fft_root_table);
            lemma_append_twice(b6, e6, t7);
            let t6 = e6 + t7;
            let e5 = Vec::<usize>::encoding(v.representative_map);
            lemma_append_twice(b5, e5, t6);
            let t5 = e5 + t6;
            let e4 = Vec::<Target>::encoding(v.public_inputs);
            lemma_append_twice(b4, e4, t5);
            let t4 = e4 + t5;
            let e3 = Vec::<F>::encoding(v.subgroup);
            lemma_append_twice(b3, e3, t4);
            let t3 = e3 + t4;
            let e2 = Vec::<Vec<F>>::encoding(v.sigmas);
            lemma_append_twice(b2, e2, t3);
            let t2 = e2 + t3;
            let e1 = PolynomialBatch::<F, C::Hash>::encoding(v.constants_sigmas_commitment);
            lemma_append_twice(b1, e1, t2);
            let t1 = e1 + t2;
            let e0 = Vec::<(usize, Vec<usize>)>::encoding(watches.deep_view());
            lemma_append_twice(b0, e0, t1);
            assert(e0 + t1 == ProverOnlyParts::<F, C::Hash>::encoding(
                v.values(watches.deep_view()),
            ));
        }
    }

    /// Appends the bytes of the data, with the watched targets in increasing order, and fails exactly
    /// when a generator is not supported.
    pub fn write<W: Serializer<WitnessGeneratorRef, F, D>>(
        &self,
        generator_serializer: &W,
        common_data: &CommonCircuitData<F, D>,
        buf: &mut Vec<u8>,
    ) -> (r: IoResult<()>)
        ensures
            generator_serializer.total() ==> r is Ok,
            (forall|i: int|
                0 <= i < self.generators@.len() ==> generator_serializer.supports(
                    common_data@.header(),
                    #[trigger] self.generators@[i]@,
                )) ==> r is Ok,
            ({
                let watches = sorted_entries(self@.generator_indices_by_watches);
                let writable = prover_only_writable::<W, F, C, D>(
                    self@,
                    watches,
                    generator_serializer,
                    common_data@,
                );
                match r {
                    Ok(()) => {
                        &&& writable
                        &&& final(buf)@ == old(buf)@ + prover_only_bytes::<W, F, C, D>(
                            self@,
                            watches,
                            generator_serializer,
                            common_data@,
                        )
                    },
                    Err(_) => !writable,
                }
            }),
    {
        proof {
            reveal(prover_only_writable);
            reveal(prover_only_bytes);
        }
        let ghost b0 = buf@;
        self.generators.len().write(buf);
        assert forall|i: int| 0 <= i < self@.generators.len() implies #[trigger] self@.generators[i]
            == self.generators@[i]@ by {}
        write_items(generator_serializer, &self.generators, common_data, buf)?;
        proof {
            assert(self.generators.len() == self.generators@.len());
            lemma_append_twice(
                b0,
                usize::encoding(self@.generators.len() as usize),
                items_encoding::<WitnessGeneratorRef, W, F, D>(
                    generator_serializer,
                    common_data@.header(),
                    self@.generators,
                ),
            );
        }
        self.write_parts(buf);
        proof {
            lemma_append_twice(
                b0,
                generators_bytes::<W, F, D>(
                    self@.generators,
                    generator_serializer,
                    common_data@,
                ),
                ProverOnlyParts::<F, C::Hash>::encoding(
                    self@.values(sorted_entries(self@.generator_indices_by_watches)),
                ),
            );
        }
        Ok(())
    }

    /// Reads the data whose bytes stand next, whatever the order of its watched targets, and fails
    /// exactly when there is none.
    pub fn read<W: Serializer<WitnessGeneratorRef, F, D>>(
        generator_serializer: &W,
        common_data: &CommonCircuitData<F, D>,
        buf: &mut Buffer<'_>,
    ) -> (r: IoResult<Self>)
        ensures
            match r {
                Ok(v) => exists|watches: Seq<(usize, Seq<usize>)>|
                    {
                        let bytes = #[trigger] prover_only_bytes::<W, F, C, D>(
                            v@,
                            watches,
                            generator_serializer,
                            common_data@,
                        );
                        &&& prover_only_writable::<W, F, C, D>(
                            v@,
                            watches,
                            generator_serializer,
                            common_data@,
                        )
                        &&& bytes.is_prefix_of(old(buf)@)
                        &&& final(buf)@ == old(buf)@.skip(bytes.len() as int)
                    },
                Err(_) => forall|
                    v: ProverOnlyView<<C::Hash as DeepView>::V>,
                    watches: Seq<(usize, Seq<usize>)>,
                |
                    #![trigger prover_only_bytes::<W, F, C, D>(v, watches, generator_serializer, common_data@)]
                    prover_only_writable::<W, F, C, D>(
                        v,
                        watches,
                        generator_serializer,
                        common_data@,
                    ) ==> !prover_only_bytes::<W, F, C, D>(
                        v,
                        watches,
                        generator_serializer,
                        common_data@,
                    ).is_prefix_of(old(buf)@),
            },
    {
        proof {
            reveal(prover_only_writable);
            reveal(prover_only_bytes);
        }
        let ghost before = buf@;
        let ghost common = common_data@;
        proof {
            assert forall|
                v: ProverOnlyView<<C::Hash as DeepView>::V>,
                watches: Seq<(usize, Seq<usize>)>,
            |
                #![trigger prover_only_bytes::<W, F, C, D>(v, watches, generator_serializer, common)]
                prover_only_bytes::<W, F, C, D>(
                    v,
                    watches,
                    generator_serializer,
                    common,
                ).is_prefix_of(before) implies generators_bytes::<W, F, D>(
                v.generators,
                generator_serializer,
                common,
            ).is_prefix_of(before) && ProverOnlyParts::<F, C::Hash>::encoding(
                v.values(watches),
            ).is_prefix_of(
                before.skip(
                    generators_bytes::<W, F, D>(
                        v.generators,
                        generator_serializer,
                        common,
                    ).len() as int,
                ),
            ) by {
                lemma_prefix_concat(
                    generators_bytes::<W, F, D>(v.generators, generator_serializer, common),
                    ProverOnlyParts::<F, C::Hash>::encoding(v.values(watches)),
                    before,
                );
            }
        }
        let generators = read_generators(generator_serializer, common_data, buf)?;
        let ghost gens = generators.deep_view();
        proof {
            assert forall|
                v: ProverOnlyView<<C::Hash as DeepView>::V>,
                watches: Seq<(usize, Seq<usize>)>,
            |
                #![trigger prover_only_bytes::<W, F, C, D>(v, watches, generator_serializer, common)]
                prover_only_writable::<W, F, C, D>(v, watches, generator_serializer, common)
                    && prover_only_bytes::<W, F, C, D>(
                    v,
                    watches,
                    generator_serializer,
                    common,
                ).is_prefix_of(before) implies v.generators == gens by {
                lemma_generators_prefix_free::<W, F, D>(
                    generator_serializer,
                    common,
                    v.generators,
                    gens,
                    before,
                );
            }
        }
        let (
            watches,
            (
                constants_sigmas_commitment,
                (
                    sigmas,
                    (
                        subgroup,
                        (
                            public_inputs,
                            (
                                representative_map,
                                (fft_root_table, (circuit_digest, (lookup_rows, lut_to_lookups))),
                            ),
                        ),
                    ),
                ),
            ),
        ) = ProverOnlyParts::<F, C::Hash>::read(buf)?;
        let r = ProverOnlyCircuitData {
            generators,
            generator_indices_by_watches: collect(&watches),
            constants_sigmas_commitment,
            sigmas,
            subgroup,
            public_inputs,
            representative_map,
            fft_root_table,
            circuit_digest,
            lookup_rows,
            lut_to_lookups,
        };
        proof {
            let ws = watches.deep_view();
            let g = generators_bytes::<W, F, D>(gens, generator_serializer, common);
            let p = ProverOnlyParts::<F, C::Hash>::encoding(r@.values(ws));
            lemma_prefix_concat(g, p, before);
            assert(buf@ =~= before.skip((g + p).len() as int));
            assert(prover_only_bytes::<W, F, C, D>(r@, ws, generator_serializer, common) == g + p);
        }
        Ok(r)
    }

    /// The bytes of the data, with the watched targets in increasing order.
    pub fn to_bytes<W: Serializer<WitnessGeneratorRef, F, D>>(
        &self,
        generator_serializer: &W,
        common_data: &CommonCircuitData<F, D>,
    ) -> (r: IoResult<Vec<u8>>)
        ensures
            generator_serializer.total() ==> r is Ok,
            (forall|i: int|
                0 <= i < self.generators@.len() ==> generator_serializer.supports(
                    common_data@.header(),
                    #[trigger] self.generators@[i]@,
                )) ==> r is Ok,
            ({
                let watches = sorted_entries(self@.generator_indices_by_watches);
                let writable = prover_only_writable::<W, F, C, D>(
                    self@,
                    watches,
                    generator_serializer,
                    common_data@,
                );
                match r {
                    Ok(bytes) => {
                        &&& writable
                        &&& bytes@ == prover_only_bytes::<W, F, C, D>(
                            self@,
                            watches,
                            generator_serializer,
                            common_data@,
                        )
                    },
                    Err(_) => !writable,
                }
            }),
    {
        let mut buffer: Vec<u8> = Vec::new();
        self.write(generator_serializer, common_data, &mut buffer)?;
        proof {
            let bytes = prover_only_bytes::<W, F, C, D>(
                self@,
                sorted_entries(self@.generator_indices_by_watches),
                generator_serializer,
                common_data@,
            );
            assert(Seq::<u8>::empty() + bytes =~= bytes);
        }
        Ok(buffer)
    }

    /// Reads the data that the bytes start with.
    pub fn from_bytes<W: Serializer<WitnessGeneratorRef, F, D>>(
        bytes: &[u8],
        generator_serializer: &W,
        common_data: &CommonCircuitData<F, D>,
    ) -> (r: IoResult<Self>)
        ensures
            prover_only_decodes::<W, F, C, D>(
                generator_serializer,
                common_data@,
                bytes@,
                match r {
                    Ok(v) => Some(v@),
                    Err(_) => None,
                },
            ),
    {
        let mut buffer = Buffer::new(bytes);
        Self::read(generator_serializer, common_data, &mut buffer)
    }
}

/// Prover data that was written is read back as it was, whatever follows it.
pub proof fn law_prover_only_round_trip<
    W: Serializer<WitnessGeneratorRef, F, D>,
    F: RichField + Extendable<D>,
    C: GenericConfig<D, F = F>,
    const D: usize,
>(
    generator_serializer: &W,
    common: CommonView,
    v: ProverOnlyView<<C::Hash as DeepView>::V>,
    watches: Seq<(usize, Seq<usize>)>,
    tail: Seq<u8>,
    r: Option<ProverOnlyView<<C::Hash as DeepView>::V>>,
)
    requires
        prover_only_writable::<W, F, C, D>(v, watches, generator_serializer, common),
        prover_only_decodes::<W, F, C, D>(
            generator_serializer,
            common,
            prover_only_bytes::<W, F, C, D>(v, watches, generator_serializer, common) + tail,
            r,
        ),
    ensures
        r == Some(v),
{
    let e = prover_only_bytes::<W, F, C, D>(v, watches, generator_serializer, common);
    lemma_starts_with(e, tail);
    if let Some(w) = r {
        let ws = choose|ws: Seq<(usize, Seq<usize>)>|
            {
                &&& prover_only_writable::<W, F, C, D>(w, ws, generator_serializer, common)
                &&& (#[trigger] prover_only_bytes::<W, F, C, D>(
                    w,
                    ws,
                    generator_serializer,
                    common,
                )).is_prefix_of(e + tail)
            };
        lemma_prover_only_prefix_free::<W, F, C, D>(
            generator_serializer,
            common,
            v,
            watches,
            w,
            ws,
            e + tail,
        );
    }
}

/// What was written is read back: from the bytes that [`ProverOnlyCircuitData::to_bytes`] gave, whatever
/// follows them, [`ProverOnlyCircuitData::from_bytes`] gives data of the same value.
pub proof fn law_prover_only_read_back<
    W: Serializer<WitnessGeneratorRef, F, D>,
    F: RichField + Extendable<D>,
    C: GenericConfig<D, F = F>,
    const D: usize,
>(
    data: &ProverOnlyCircuitData<F, C, D>,
    generator_serializer: &W,
    common: &CommonCircuitData<F, D>,
    bytes: Vec<u8>,
    tail: Seq<u8>,
    input: &[u8],
    r: IoResult<ProverOnlyCircuitData<F, C, D>>,
)
    requires
        call_ensures(
            ProverOnlyCircuitData::<F, C, D>::to_bytes::<W>,
            (data, generator_serializer, common),
            Ok::<Vec<u8>, IoError>(bytes),
        ),
        input@ == bytes@ + tail,
        call_ensures(
            ProverOnlyCircuitData::<F, C, D>::from_bytes::<W>,
            (input, generator_serializer, common),
            r,
        ),
    ensures
        r is Ok,
        r->Ok_0@ == data@,
{
    let read = match r {
        Ok(v) => Some(v@),
        Err(_) => None,
    };
    law_prover_only_round_trip::<W, F, C, D>(
        generator_serializer,
        common@,
        data@,
        sorted_entries(data@.generator_indices_by_watches),
        tail,
        read,
    );
}

/// The default serializer writes all prover data.
pub proof fn law_prover_only_written<
    F: RichField + Extendable<D>,
    C: GenericConfig<D, F = F>,
    const D: usize,
>(
    data: &ProverOnlyCircuitData<F, C, D>,
    common: &CommonCircuitData<F, D>,
    r: IoResult<Vec<u8>>,
)
    requires
        call_ensures(
            ProverOnlyCircuitData::<F, C, D>::to_bytes::<DefaultGeneratorSerializer>,
            (data, &DefaultGeneratorSerializer, common),
            r,
        ),
    ensures
        r is Ok,
{
}

/// The value of prover data is made of all its fields: data of one value agree in each of them.
pub proof fn law_prover_only_value<
    F: RichField + Extendable<D>,
    C: GenericConfig<D, F = F>,
    const D: usize,
>(a: &ProverOnlyCircuitData<F, C, D>, b: &ProverOnlyCircuitData<F, C, D>)
    requires
        a@ == b@,
    ensures
        a.generators@.len() == b.generators@.len(),
        forall|i: int|
            0 <= i < a.generators@.len() ==> (#[trigger] a.generators@[i]).id@
                == b.generators@[i].id@ && a.generators@[i].params@ == b.generators@[i].params@,
        forall|k: usize| #[trigger]
            a.generator_indices_by_watches@.contains_key(k)
                == b.generator_indices_by_watches@.contains_key(k),
        forall|k: usize| #[trigger]
            a.generator_indices_by_watches@.contains_key(k)
                ==> a.generator_indices_by_watches@[k]@ == b.generator_indices_by_watches@[k]@,
        a.constants_sigmas_commitment.polynomials.deep_view()
            == b.constants_sigmas_commitment.polynomials.deep_view(),
        a.constants_sigmas_commitment.merkle_tree.leaves.deep_view()
            == b.constants_sigmas_commitment.merkle_tree.leaves.deep_view(),
        a.constants_sigmas_commitment.merkle_tree.digests.deep_view()
            == b.constants_sigmas_commitment.merkle_tree.digests.deep_view(),
        a.constants_sigmas_commitment.merkle_tree.cap.0.deep_view()
            == b.constants_sigmas_commitment.merkle_tree.cap.0.deep_view(),
        a.constants_sigmas_commitment.degree_log == b.constants_sigmas_commitment.degree_log,
        a.constants_sigmas_commitment.rate_bits == b.constants_sigmas_commitment.rate_bits,
        a.constants_sigmas_commitment.blinding == b.constants_sigmas_commitment.blinding,
        a.sigmas.deep_view() == b.sigmas.deep_view(),
        a.subgroup.deep_view() == b.subgroup.deep_view(),
        a.public_inputs@ == b.public_inputs@,
        a.representative_map@ == b.representative_map@,
        a.fft_root_table.deep_view() == b.fft_root_table.deep_view(),
        a.circuit_digest.deep_view() == b.circuit_digest.deep_view(),
        a.lookup_rows@ == b.lookup_rows@,
        a.lut_to_lookups.deep_view() == b.lut_to_lookups.deep_view(),
{
    let (v, w) = (a@, b@);
    assert(v.generators.len() == a.generators@.len() && w.generators.len()
        == b.generators@.len());
    assert forall|i: int| 0 <= i < a.generators@.len() implies (#[trigger] a.generators@[i]).id@
        == b.generators@[i].id@ && a.generators@[i].params@ == b.generators@[i].params@ by {
        assert(v.generators[i] == a.generators@[i]@ && w.generators[i] == b.generators@[i]@);
    }
    let (m, n) = (a.generator_indices_by_watches@, b.generator_indices_by_watches@);
    assert forall|k: usize| #[trigger] m.contains_key(k) == n.contains_key(k) by {
        assert(watches_view(m).contains_key(k) == watches_view(n).contains_key(k));
    }
    assert forall|k: usize| #[trigger] m.contains_key(k) implies m[k]@ == n[k]@ by {
        assert(watches_view(m)[k] == watches_view(n)[k]);
    }
    assert(a.public_inputs.deep_view() =~= a.public_inputs@);
    assert(b.public_inputs.deep_view() =~= b.public_inputs@);
    assert(a.representative_map.deep_view() =~= a.representative_map@);
    assert(b.representative_map.deep_view() =~= b.representative_map@);
    assert(a.lookup_rows.deep_view() =~= a.lookup_rows@);
    assert(b.lookup_rows.deep_view() =~= b.lookup_rows@);
}

} // verus!
