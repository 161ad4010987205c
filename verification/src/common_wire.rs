//! The binary format of the common circuit data.

use vstd::prelude::*;

use crate::common::{CommonCircuitData, CommonView};
use crate::config::{CircuitConfig, CircuitConfigView};
use crate::field::{Extendable, RichField};
use crate::fri_params::{FriParams, FriParamsView};
use crate::gates::{GateRef, GateView, LookupTable, SelectorsInfo, SelectorsView};
use crate::serializer::{
    items_encoding, items_supported, lemma_items_prefix_free, read_items, write_items,
    DefaultGateSerializer, Serializer,
};
use crate::validation::ValidationError;
use crate::wire::{
    lemma_append_twice, lemma_prefix_concat, lemma_starts_with, Buffer, Codec, IoError, IoResult,
};

verus! {

/// Everything but the list of gates, in the order in which it is written, and then the number of
/// gates.
pub type HeaderParts<F> = (
    CircuitConfig,
    (
        FriParams,
        (
            SelectorsInfo,
            (
                usize,
                (
                    usize,
                    (
                        usize,
                        (
                            usize,
                            (
                                Vec<F>,
                                (usize, (usize, (usize, (Vec<LookupTable>, usize)))),
                            ),
                        ),
                    ),
                ),
            ),
        ),
    ),
);

/// The values of those parts.
pub type HeaderValues = (
    CircuitConfigView,
    (
        FriParamsView,
        (
            SelectorsView,
            (
                usize,
                (
                    usize,
                    (
                        usize,
                        (
                            usize,
                            (
                                Seq<nat>,
                                (usize, (usize, (usize, (Seq<Seq<(u16, u16)>>, usize)))),
                            ),
                        ),
                    ),
                ),
            ),
        ),
    ),
);

impl CommonView {
    /// The values of the parts that come before a list of `num_gates` gates.
    pub open spec fn header_values(self, num_gates: usize) -> HeaderValues {
        (
            self.config,
            (
                self.fri_params,
                (
                    self.selectors_info,
                    (
                        self.quotient_degree_factor,
                        (
                            self.num_gate_constraints,
                            (
                                self.num_constants,
                                (
                                    self.num_public_inputs,
                                    (
                                        self.k_is,
                                        (
                                            self.num_partial_products,
                                            (
                                                self.num_lookup_polys,
                                                (
                                                    self.num_lookup_selectors,
                                                    (self.luts, num_gates),
                                                ),
                                            ),
                                        ),
                                    ),
                                ),
                            ),
                        ),
                    ),
                ),
            ),
        )
    }

    /// All of the data has an encoding: it could be held in memory, and the serializer knows its
    /// gates.
    #[verifier::opaque]
    pub open spec fn writable<S, F, const D: usize>(self, gate_serializer: &S) -> bool where
        S: Serializer<GateRef, F, D>,
        F: RichField + Extendable<D>,
     {
        &&& HeaderParts::<F>::encodable(self.header_values(self.gates.len() as usize))
        &&& self.gates.len() <= usize::MAX
        &&& items_supported::<GateRef, S, F, D>(gate_serializer, self.header(), self.gates)
    }

    /// The bytes that stand for the data: everything but the list of gates, the number of gates, and
    /// then each of them.
    #[verifier::opaque]
    pub open spec fn bytes<S, F, const D: usize>(self, gate_serializer: &S) -> Seq<u8> where
        S: Serializer<GateRef, F, D>,
        F: RichField + Extendable<D>,
     {
        HeaderParts::<F>::encoding(self.header_values(self.gates.len() as usize))
            + items_encoding::<GateRef, S, F, D>(gate_serializer, self.header(), self.gates)
    }
}

/// `r` is what a string is read as: valid data whose bytes the string starts with, or nothing when
/// there is none.
pub open spec fn common_decodes<S, F, const D: usize>(
    gate_serializer: &S,
    s: Seq<u8>,
    r: Option<CommonView>,
) -> bool where S: Serializer<GateRef, F, D>, F: RichField + Extendable<D> {
    match r {
        Some(v) => {
            &&& v.valid(F::TWO_ADICITY as nat)
            &&& v.writable::<S, F, D>(gate_serializer)
            &&& v.bytes::<S, F, D>(gate_serializer).is_prefix_of(s)
        },
        None => forall|v: CommonView|
            #![trigger v.bytes::<S, F, D>(gate_serializer)]
            v.valid(F::TWO_ADICITY as nat) && v.writable::<S, F, D>(gate_serializer)
                ==> !v.bytes::<S, F, D>(gate_serializer).is_prefix_of(s),
    }
}

/// What a string that starts with the bytes of `v` says of any header that it starts with.
proof fn lemma_header_unique<
    S: Serializer<GateRef, F, D>,
    F: RichField + Extendable<D>,
    const D: usize,
>(gate_serializer: &S, v: CommonView, h: CommonView, num_gates: usize, s: Seq<u8>)
    requires
        v.writable::<S, F, D>(gate_serializer),
        v.bytes::<S, F, D>(gate_serializer).is_prefix_of(s),
        HeaderParts::<F>::encodable(h.header_values(num_gates)),
        HeaderParts::<F>::encoding(h.header_values(num_gates)).is_prefix_of(s),
    ensures
        v.header() == h.header(),
        v.gates.len() == num_gates,
        items_encoding::<GateRef, S, F, D>(gate_serializer, h.header(), v.gates).is_prefix_of(
            s.skip(HeaderParts::<F>::encoding(h.header_values(num_gates)).len() as int),
        ),
{
    reveal(CommonView::writable);
    reveal(CommonView::bytes);
    let x = v.header_values(v.gates.len() as usize);
    lemma_prefix_concat(
        HeaderParts::<F>::encoding(x),
        items_encoding::<GateRef, S, F, D>(gate_serializer, v.header(), v.gates),
        s,
    );
    HeaderParts::<F>::lemma_prefix_free(x, h.header_values(num_gates), s);
}

/// No string starts with the bytes of two different circuits.
pub proof fn lemma_common_prefix_free<
    S: Serializer<GateRef, F, D>,
    F: RichField + Extendable<D>,
    const D: usize,
>(gate_serializer: &S, a: CommonView, b: CommonView, s: Seq<u8>)
    requires
        a.writable::<S, F, D>(gate_serializer),
        b.writable::<S, F, D>(gate_serializer),
        a.bytes::<S, F, D>(gate_serializer).is_prefix_of(s),
        b.bytes::<S, F, D>(gate_serializer).is_prefix_of(s),
    ensures
        a == b,
{
    reveal(CommonView::writable);
    reveal(CommonView::bytes);
    let n = b.gates.len() as usize;
    let h = HeaderParts::<F>::encoding(b.header_values(n));
    lemma_prefix_concat(
        h,
        items_encoding::<GateRef, S, F, D>(gate_serializer, b.header(), b.gates),
        s,
    );
    lemma_header_unique::<S, F, D>(gate_serializer, a, b, n, s);
    lemma_items_prefix_free::<GateRef, S, F, D>(
        gate_serializer,
        b.header(),
        a.gates,
        b.gates,
        s.skip(h.len() as int),
    );
    assert(a == CommonView { gates: a.gates, ..a.header() });
    assert(b == CommonView { gates: b.gates, ..b.header() });
}

impl<F: RichField + Extendable<D>, const D: usize> CommonCircuitData<F, D> {
    /// Whatever the data holds, only its gates can keep it from being written.
    pub proof fn lemma_header_encodable(&self)
        ensures
            HeaderParts::<F>::encodable(self@.header_values(self@.gates.len() as usize)),
            self@.gates.len() <= usize::MAX,
    {
        self.config.lemma_encodable();
        self.fri_params.lemma_encodable();
        self.selectors_info.lemma_encodable();
        self.k_is.lemma_encodable();
        self.luts.lemma_encodable();
        assert(self.gates.len() == self.gates@.len());
    }

    /// Appends the bytes of the data, and fails exactly when a gate is not supported.
    pub fn write<S: Serializer<GateRef, F, D>>(
        &self,
        gate_serializer: &S,
        buf: &mut Vec<u8>,
    ) -> (r: IoResult<()>)
        ensures
            gate_serializer.total() ==> r is Ok,
            (forall|i: int|
                0 <= i < self.gates@.len() ==> gate_serializer.supports(
                    self@.header(),
                    #[trigger] self.gates@[i]@,
                )) ==> r is Ok,
            match r {
                Ok(()) => {
                    &&& self@.writable::<S, F, D>(gate_serializer)
                    &&& final(buf)@ == old(buf)@ + self@.bytes::<S, F, D>(gate_serializer)
                },
                Err(_) => !self@.writable::<S, F, D>(gate_serializer),
            },
    {
        proof {
            reveal(CommonView::writable);
            reveal(CommonView::bytes);
        }
        let ghost b0 = buf@;
        self.config.write(buf);
        let ghost b1 = buf@;
        self.fri_params.write(buf);
        let ghost b2 = buf@;
        self.selectors_info.write(buf);
        let ghost b3 = buf@;
        self.quotient_degree_factor.write(buf);
        let ghost b4 = buf@;
        self.num_gate_constraints.write(buf);
        let ghost b5 = buf@;
        self.num_constants.write(buf);
        let ghost b6 = buf@;
        self.num_public_inputs.write(buf);
        let ghost b7 = buf@;
        self.k_is.write(buf);
        let ghost b8 = buf@;
        self.num_partial_products.write(buf);
        let ghost b9 = buf@;
        self.num_lookup_polys.write(buf);
        let ghost b10 = buf@;
        self.num_lookup_selectors.write(buf);
        let ghost b11 = buf@;
        self.luts.write(buf);
        let ghost b12 = buf@;
        self.gates.len().write(buf);
        proof {
            self.lemma_header_encodable();
            let t12 = usize::encoding(self.gates@.len() as usize);
            let t11 = Vec::<LookupTable>::encoding(self.luts.deep_view()) + t12;
            lemma_append_twice(b11, Vec::<LookupTable>::encoding(self.luts.deep_view()), t12);
            let t10 = usize::encoding(self.num_lookup_selectors) + t11;
            lemma_append_twice(b10, usize::encoding(self.num_lookup_selectors), t11);
            let t9 = usize::encoding(self.num_lookup_polys) + t10;
            lemma_append_twice(b9, usize::encoding(self.num_lookup_polys), t10);
            let t8 = usize::encoding(self.num_partial_products) + t9;
            lemma_append_twice(b8, usize::encoding(self.num_partial_products), t9);
            let t7 = Vec::<F>::encoding(self.k_is.deep_view()) + t8;
            lemma_append_twice(b7, Vec::<F>::encoding(self.k_is.deep_view()), t8);
            let t6 = usize::encoding(self.num_public_inputs) + t7;
            lemma_append_twice(b6, usize::encoding(self.num_public_inputs), t7);
            let t5 = usize::encoding(self.num_constants) + t6;
            lemma_append_twice(b5, usize::encoding(self.num_constants), t6);
            let t4 = usize::encoding(self.num_gate_constraints) + t5;
            lemma_append_twice(b4, usize::encoding(self.num_gate_constraints), t5);
            let t3 = usize::encoding(self.quotient_degree_factor) + t4;
            lemma_append_twice(b3, usize::encoding(self.quotient_degree_factor), t4);
            let t2 = SelectorsInfo::encoding(self.selectors_info@) + t3;
            lemma_append_twice(b2, SelectorsInfo::encoding(self.selectors_info@), t3);
            let t1 = FriParams::encoding(self.fri_params@) + t2;
            lemma_append_twice(b1, FriParams::encoding(self.fri_params@), t2);
            let t0 = CircuitConfig::encoding(self.config@) + t1;
            lemma_append_twice(b0, CircuitConfig::encoding(self.config@), t1);
            assert(t0 == HeaderParts::<F>::encoding(
                self@.header_values(self@.gates.len() as usize),
            ));
        }
        assert forall|i: int| 0 <= i < self@.gates.len() implies #[trigger] self@.gates[i]
            == self.gates@[i]@ by {}
        write_items(gate_serializer, &self.gates, self, buf)?;
        proof {
            lemma_append_twice(
                b0,
                HeaderParts::<F>::encoding(self@.header_values(self@.gates.len() as usize)),
                items_encoding::<GateRef, S, F, D>(
                    gate_serializer,
                    self@.header(),
                    self@.gates,
                ),
            );
        }
        Ok(())
    }

    /// Reads everything but the list of gates, and the number of gates that follow.
    fn read_header(buf: &mut Buffer<'_>) -> (r: IoResult<(Self, usize)>)
        ensures
            match r {
                Ok((v, num_gates)) => {
                    let header = v@.header_values(num_gates);
                    &&& v@.gates == Seq::<GateView>::empty()
                    &&& HeaderParts::<F>::encodable(header)
                    &&& HeaderParts::<F>::encoding(header).is_prefix_of(old(buf)@)
                    &&& final(buf)@ == old(buf)@.skip(
                        HeaderParts::<F>::encoding(header).len() as int,
                    )
                },
                Err(_) => forall|header: HeaderValues|
                    #![trigger HeaderParts::<F>::encoding(header)]
                    HeaderParts::<F>::encodable(header) ==> !HeaderParts::<F>::encoding(
                        header,
                    ).is_prefix_of(old(buf)@),
            },
    {
        let (
            config,
            (
                fri_params,
                (
                    selectors_info,
                    (
                        quotient_degree_factor,
                        (
                            num_gate_constraints,
                            (
                                num_constants,
                                (
                                    num_public_inputs,
                                    (
                                        k_is,
                                        (
                                            num_partial_products,
                                            (
                                                num_lookup_polys,
                                                (num_lookup_selectors, (luts, num_gates)),
                                            ),
                                        ),
                                    ),
                                ),
                            ),
                        ),
                    ),
                ),
            ),
        ) = HeaderParts::<F>::read(buf)?;
        let header = CommonCircuitData {
            config,
            fri_params,
            gates: Vec::new(),
            selectors_info,
            quotient_degree_factor,
            num_gate_constraints,
            num_constants,
            num_public_inputs,
            k_is,
            num_partial_products,
            num_lookup_polys,
            num_lookup_selectors,
            luts,
        };
        assert(header@.gates =~= Seq::<GateView>::empty());
        Ok((header, num_gates))
    }

    /// Reads the data whose bytes stand next, and fails exactly when there is none or it is not
    /// valid.
    pub fn read<S: Serializer<GateRef, F, D>>(
        gate_serializer: &S,
        buf: &mut Buffer<'_>,
    ) -> (r: IoResult<Self>)
        ensures
            match r {
                Ok(v) => {
                    &&& v@.valid(F::TWO_ADICITY as nat)
                    &&& v@.writable::<S, F, D>(gate_serializer)
                    &&& v@.bytes::<S, F, D>(gate_serializer).is_prefix_of(old(buf)@)
                    &&& final(buf)@ == old(buf)@.skip(
                        v@.bytes::<S, F, D>(gate_serializer).len() as int,
                    )
                },
                Err(_) => forall|v: CommonView|
                    #![trigger v.bytes::<S, F, D>(gate_serializer)]
                    v.valid(F::TWO_ADICITY as nat) && v.writable::<S, F, D>(gate_serializer)
                        ==> !v.bytes::<S, F, D>(gate_serializer).is_prefix_of(old(buf)@),
            },
    {
        proof {
            reveal(CommonView::writable);
            reveal(CommonView::bytes);
        }
        let ghost before = buf@;
        let (mut common_data, num_gates) = match Self::read_header(buf) {
            Ok(header) => header,
            Err(e) => {
                proof {
                    assert forall|v: CommonView|
                        #![trigger v.bytes::<S, F, D>(gate_serializer)]
                        v.writable::<S, F, D>(gate_serializer) implies !v.bytes::<S, F, D>(
                        gate_serializer,
                    ).is_prefix_of(before) by {
                        lemma_prefix_concat(
                            HeaderParts::<F>::encoding(
                                v.header_values(v.gates.len() as usize),
                            ),
                            items_encoding::<GateRef, S, F, D>(
                                gate_serializer,
                                v.header(),
                                v.gates,
                            ),
                            before,
                        );
                    }
                }
                return Err(e);
            },
        };
        let ghost header = common_data@;
        let ghost prefix = HeaderParts::<F>::encoding(header.header_values(num_gates));
        assert(header.header() == header);
        let gates = match read_items(gate_serializer, num_gates, &common_data, buf) {
            Ok(gates) => gates,
            Err(e) => {
                proof {
                    assert forall|v: CommonView|
                        #![trigger v.bytes::<S, F, D>(gate_serializer)]
                        v.writable::<S, F, D>(gate_serializer) implies !v.bytes::<S, F, D>(
                        gate_serializer,
                    ).is_prefix_of(before) by {
                        if v.bytes::<S, F, D>(gate_serializer).is_prefix_of(before) {
                            lemma_header_unique::<S, F, D>(
                                gate_serializer,
                                v,
                                header,
                                num_gates,
                                before,
                            );
                        }
                    }
                }
                return Err(e);
            },
        };
        common_data.gates = gates;
        let ghost read = common_data@;
        proof {
            let items = items_encoding::<GateRef, S, F, D>(gate_serializer, header, read.gates);
            assert(read.header() == header);
            assert(read.header_values(num_gates) == header.header_values(num_gates));
            lemma_prefix_concat(prefix, items, before);
            assert(before.skip(prefix.len() as int).skip(items.len() as int) =~= before.skip(
                (prefix + items).len() as int,
            ));
        }
        match common_data.validate() {
            Ok(()) => Ok(common_data),
            Err(_) => {
                proof {
                    assert forall|v: CommonView|
                        #![trigger v.bytes::<S, F, D>(gate_serializer)]
                        v.valid(F::TWO_ADICITY as nat) && v.writable::<S, F, D>(
                            gate_serializer,
                        ) implies !v.bytes::<S, F, D>(gate_serializer).is_prefix_of(before) by {
                        if v.bytes::<S, F, D>(gate_serializer).is_prefix_of(before) {
                            lemma_common_prefix_free::<S, F, D>(gate_serializer, v, read, before);
                        }
                    }
                }
                Err(IoError)
            },
        }
    }

    pub fn to_bytes<S: Serializer<GateRef, F, D>>(&self, gate_serializer: &S) -> (r: IoResult<
        Vec<u8>,
    >)
        ensures
            gate_serializer.total() ==> r is Ok,
            (forall|i: int|
                0 <= i < self.gates@.len() ==> gate_serializer.supports(
                    self@.header(),
                    #[trigger] self.gates@[i]@,
                )) ==> r is Ok,
            match r {
                Ok(bytes) => {
                    &&& self@.writable::<S, F, D>(gate_serializer)
                    &&& bytes@ == self@.bytes::<S, F, D>(gate_serializer)
                },
                Err(_) => !self@.writable::<S, F, D>(gate_serializer),
            },
    {
        let mut buffer: Vec<u8> = Vec::new();
        self.write(gate_serializer, &mut buffer)?;
        assert(buffer@ =~= self@.bytes::<S, F, D>(gate_serializer));
        Ok(buffer)
    }

    /// Reads the data that the bytes start with. Data that is not valid is rejected.
    pub fn from_bytes<S: Serializer<GateRef, F, D>>(bytes: Vec<u8>, gate_serializer: &S) -> (r:
        IoResult<Self>)
        ensures
            common_decodes::<S, F, D>(
                gate_serializer,
                bytes@,
                match r {
                    Ok(v) => Some(v@),
                    Err(_) => None,
                },
            ),
    {
        let mut buffer = Buffer::new(bytes.as_slice());
        Self::read(gate_serializer, &mut buffer)
    }
}

/// Common data that was written is read back as it was when it is valid, and rejected when it is
/// not, whatever follows it.
pub proof fn law_common_round_trip<
    S: Serializer<GateRef, F, D>,
    F: RichField + Extendable<D>,
    const D: usize,
>(gate_serializer: &S, v: CommonView, tail: Seq<u8>, r: Option<CommonView>)
    requires
        v.writable::<S, F, D>(gate_serializer),
        common_decodes::<S, F, D>(
            gate_serializer,
            v.bytes::<S, F, D>(gate_serializer) + tail,
            r,
        ),
    ensures
        v.valid(F::TWO_ADICITY as nat) ==> r == Some(v),
        !v.valid(F::TWO_ADICITY as nat) ==> r is None,
{
    let e = v.bytes::<S, F, D>(gate_serializer);
    lemma_starts_with(e, tail);
    if let Some(w) = r {
        lemma_common_prefix_free::<S, F, D>(gate_serializer, v, w, e + tail);
    }
}

/// What was written is read back: from the bytes that [`CommonCircuitData::to_bytes`] gave, whatever
/// follows them, [`CommonCircuitData::from_bytes`] gives data of the same value, exactly if
/// [`CommonCircuitData::validate`] accepts the data.
pub proof fn law_common_read_back<
    S: Serializer<GateRef, F, D>,
    F: RichField + Extendable<D>,
    const D: usize,
>(
    common: &CommonCircuitData<F, D>,
    gate_serializer: &S,
    verdict: Result<(), ValidationError>,
    bytes: Vec<u8>,
    tail: Seq<u8>,
    input: Vec<u8>,
    r: IoResult<CommonCircuitData<F, D>>,
)
    requires
        call_ensures(CommonCircuitData::<F, D>::validate, (common,), verdict),
        call_ensures(
            CommonCircuitData::<F, D>::to_bytes::<S>,
            (common, gate_serializer),
            Ok::<Vec<u8>, IoError>(bytes),
        ),
        input@ == bytes@ + tail,
        call_ensures(
            CommonCircuitData::<F, D>::from_bytes::<S>,
            (input, gate_serializer),
            r,
        ),
    ensures
        r is Ok <==> verdict is Ok,
        r is Ok ==> r->Ok_0@ == common@,
{
    let read = match r {
        Ok(v) => Some(v@),
        Err(_) => None,
    };
    law_common_round_trip::<S, F, D>(gate_serializer, common@, tail, read);
}

/// Only what is written is read: data that was read is valid, can be written, and the bytes that it is
/// written as stand at the start of what it was read from.
pub proof fn law_common_canonical<
    S: Serializer<GateRef, F, D>,
    F: RichField + Extendable<D>,
    const D: usize,
>(
    input: Vec<u8>,
    gate_serializer: &S,
    common: CommonCircuitData<F, D>,
    verdict: Result<(), ValidationError>,
    written: IoResult<Vec<u8>>,
)
    requires
        call_ensures(
            CommonCircuitData::<F, D>::from_bytes::<S>,
            (input, gate_serializer),
            Ok::<CommonCircuitData<F, D>, IoError>(common),
        ),
        call_ensures(CommonCircuitData::<F, D>::validate, (&common,), verdict),
        call_ensures(
            CommonCircuitData::<F, D>::to_bytes::<S>,
            (&common, gate_serializer),
            written,
        ),
    ensures
        verdict is Ok,
        written is Ok,
        written->Ok_0@.is_prefix_of(input@),
{
}

/// Only a gate type that the serializer does not know keeps common data from being written.
pub proof fn law_common_written_if_supported<
    S: Serializer<GateRef, F, D>,
    F: RichField + Extendable<D>,
    const D: usize,
>(common: &CommonCircuitData<F, D>, gate_serializer: &S, r: IoResult<Vec<u8>>)
    requires
        call_ensures(
            CommonCircuitData::<F, D>::to_bytes::<S>,
            (common, gate_serializer),
            r,
        ),
    ensures
        r is Ok <==> forall|i: int|
            0 <= i < common.gates@.len() ==> gate_serializer.supports(
                common@.header(),
                #[trigger] common.gates@[i]@,
            ),
{
    reveal(CommonView::writable);
    if r is Ok {
        assert forall|i: int| 0 <= i < common.gates@.len() implies gate_serializer.supports(
            common@.header(),
            #[trigger] common.gates@[i]@,
        ) by {
            assert(common@.gates[i] == common.gates@[i]@);
        }
    }
}

/// The default serializer writes all common data.
pub proof fn law_common_written<F: RichField + Extendable<D>, const D: usize>(
    common: &CommonCircuitData<F, D>,
    r: IoResult<Vec<u8>>,
)
    requires
        call_ensures(
            CommonCircuitData::<F, D>::to_bytes::<DefaultGateSerializer>,
            (common, &DefaultGateSerializer),
            r,
        ),
    ensures
        r is Ok,
{
}

} // verus!
