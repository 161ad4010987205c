//! Serializers: how gate types and witness generators, which users of the library add to, are
//! written and read.

use vstd::prelude::*;
use vstd::utf8::{decode_utf8, encode_utf8, valid_utf8};

use crate::common::{CommonCircuitData, CommonView};
use crate::field::{Extendable, RichField};
use crate::gates::{GateRef, GateView};
use crate::generator::{GeneratorView, WitnessGeneratorRef};
use crate::wire::{lemma_prefix_concat, Buffer, Codec, IoError, IoResult};

verus! {

/// Writes and reads items of type `T` for circuits over `F`. The encoding may depend on the circuit
/// data around the item, other than its gate list, which is not known yet when gates are read.
pub trait Serializer<T: DeepView, F: RichField + Extendable<D>, const D: usize> {
    /// Whether the item is one of those that this serializer knows.
    spec fn supports(&self, common: CommonView, v: T::V) -> bool;

    /// Whether this serializer writes every item that can be held in memory.
    spec fn total(&self) -> bool;

    /// The bytes that stand for the item.
    spec fn item_encoding(&self, common: CommonView, v: T::V) -> Seq<u8>;

    /// No string starts with the encodings of two different items.
    proof fn lemma_item_prefix_free(&self, common: CommonView, a: T::V, b: T::V, s: Seq<u8>)
        requires
            self.supports(common, a),
            self.supports(common, b),
            self.item_encoding(common, a).is_prefix_of(s),
            self.item_encoding(common, b).is_prefix_of(s),
        ensures
            a == b,
    ;

    /// Appends the encoding, and fails exactly on the items that are not supported.
    fn write_item(&self, item: &T, common_data: &CommonCircuitData<F, D>, buf: &mut Vec<u8>) -> (r:
        IoResult<()>)
        ensures
            self.total() ==> r is Ok,
            match r {
                Ok(()) => {
                    &&& self.supports(common_data@.header(), item.deep_view())
                    &&& final(buf)@ == old(buf)@ + self.item_encoding(
                        common_data@.header(),
                        item.deep_view(),
                    )
                },
                Err(_) => !self.supports(common_data@.header(), item.deep_view()),
            },
    ;

    /// Reads the item whose encoding stands next, and fails exactly when there is none.
    fn read_item(&self, common_data: &CommonCircuitData<F, D>, buf: &mut Buffer<'_>) -> (r:
        IoResult<T>)
        ensures
            match r {
                Ok(item) => {
                    &&& self.supports(common_data@.header(), item.deep_view())
                    &&& self.item_encoding(
                        common_data@.header(),
                        item.deep_view(),
                    ).is_prefix_of(old(buf)@)
                    &&& final(buf)@ == old(buf)@.skip(
                        self.item_encoding(common_data@.header(), item.deep_view()).len() as int,
                    )
                },
                Err(_) => forall|v: T::V|
                    #![trigger self.item_encoding(common_data@.header(), v)]
                    self.supports(common_data@.header(), v) ==> !self.item_encoding(
                        common_data@.header(),
                        v,
                    ).is_prefix_of(old(buf)@),
            },
    ;
}

impl CommonView {
    /// Everything but the list of gates.
    pub open spec fn header(self) -> CommonView {
        CommonView { gates: Seq::empty(), ..self }
    }
}

/// The serializer knows every item of the list.
pub open spec fn items_supported<
    T: DeepView,
    S: Serializer<T, F, D>,
    F: RichField + Extendable<D>,
    const D: usize,
>(ser: &S, common: CommonView, s: Seq<T::V>) -> bool {
    forall|i: int| 0 <= i < s.len() ==> ser.supports(common, #[trigger] s[i])
}

/// The encodings of the items, one after the other.
pub open spec fn items_encoding<
    T: DeepView,
    S: Serializer<T, F, D>,
    F: RichField + Extendable<D>,
    const D: usize,
>(ser: &S, common: CommonView, s: Seq<T::V>) -> Seq<u8>
    decreases s.len(),
{
    if s.len() == 0 {
        Seq::empty()
    } else {
        ser.item_encoding(common, s[0]) + items_encoding::<T, S, F, D>(ser, common, s.skip(1))
    }
}

proof fn lemma_items_push<
    T: DeepView,
    S: Serializer<T, F, D>,
    F: RichField + Extendable<D>,
    const D: usize,
>(ser: &S, common: CommonView, s: Seq<T::V>, v: T::V)
    ensures
        items_encoding::<T, S, F, D>(ser, common, s.push(v)) == items_encoding::<T, S, F, D>(
            ser,
            common,
            s,
        ) + ser.item_encoding(common, v),
    decreases s.len(),
{
    let e = ser.item_encoding(common, v);
    if s.len() == 0 {
        assert(s.push(v).skip(1) =~= Seq::<T::V>::empty());
        assert(items_encoding::<T, S, F, D>(ser, common, s.push(v).skip(1)) =~= Seq::<
            u8,
        >::empty());
        assert(items_encoding::<T, S, F, D>(ser, common, s.push(v)) =~= e);
        assert(items_encoding::<T, S, F, D>(ser, common, s) + e =~= e);
    } else {
        assert(s.push(v).skip(1) =~= s.skip(1).push(v));
        lemma_items_push::<T, S, F, D>(ser, common, s.skip(1), v);
        let first = ser.item_encoding(common, s[0]);
        let rest = items_encoding::<T, S, F, D>(ser, common, s.skip(1));
        assert(first + (rest + e) =~= (first + rest) + e);
    }
}

/// Lists of one length whose items stand at the start of one string are equal.
pub proof fn lemma_items_prefix_free<
    T: DeepView,
    S: Serializer<T, F, D>,
    F: RichField + Extendable<D>,
    const D: usize,
>(ser: &S, common: CommonView, a: Seq<T::V>, b: Seq<T::V>, s: Seq<u8>)
    requires
        a.len() == b.len(),
        items_supported::<T, S, F, D>(ser, common, a),
        items_supported::<T, S, F, D>(ser, common, b),
        items_encoding::<T, S, F, D>(ser, common, a).is_prefix_of(s),
        items_encoding::<T, S, F, D>(ser, common, b).is_prefix_of(s),
    ensures
        a == b,
    decreases a.len(),
{
    if a.len() > 0 {
        let (x, y) = (ser.item_encoding(common, a[0]), ser.item_encoding(common, b[0]));
        lemma_prefix_concat(x, items_encoding::<T, S, F, D>(ser, common, a.skip(1)), s);
        lemma_prefix_concat(y, items_encoding::<T, S, F, D>(ser, common, b.skip(1)), s);
        ser.lemma_item_prefix_free(common, a[0], b[0], s);
        lemma_items_prefix_free::<T, S, F, D>(
            ser,
            common,
            a.skip(1),
            b.skip(1),
            s.skip(x.len() as int),
        );
        assert forall|i: int| 0 <= i < a.len() implies a[i] == b[i] by {
            if i > 0 {
                assert(a.skip(1)[i - 1] == b.skip(1)[i - 1]);
            }
        }
    }
    assert(a =~= b);
}

/// Appends the encodings of the items, and fails exactly when one of them is not supported.
pub fn write_items<
    T: DeepView,
    S: Serializer<T, F, D>,
    F: RichField + Extendable<D>,
    const D: usize,
>(ser: &S, items: &Vec<T>, common_data: &CommonCircuitData<F, D>, buf: &mut Vec<u8>) -> (r:
    IoResult<()>)
    ensures
        ser.total() ==> r is Ok,
        match r {
            Ok(()) => {
                &&& items_supported::<T, S, F, D>(ser, common_data@.header(), items.deep_view())
                &&& final(buf)@ == old(buf)@ + items_encoding::<T, S, F, D>(
                    ser,
                    common_data@.header(),
                    items.deep_view(),
                )
            },
            Err(_) => !items_supported::<T, S, F, D>(
                ser,
                common_data@.header(),
                items.deep_view(),
            ),
        },
{
    let ghost all = items.deep_view();
    let ghost common = common_data@.header();
    let mut i: usize = 0;
    assert(all.take(0) =~= Seq::<T::V>::empty());
    assert(old(buf)@ + Seq::<u8>::empty() =~= old(buf)@);
    while i < items.len()
        invariant
            i <= items@.len(),
            all == items.deep_view(),
            common == common_data@.header(),
            forall|j: int| 0 <= j < i ==> ser.supports(common, #[trigger] all[j]),
            buf@ == old(buf)@ + items_encoding::<T, S, F, D>(ser, common, all.take(i as int)),
        decreases items@.len() - i,
    {
        assert(all[i as int] == items@[i as int].deep_view());
        ser.write_item(&items[i], common_data, buf)?;
        proof {
            lemma_items_push::<T, S, F, D>(ser, common, all.take(i as int), all[i as int]);
            assert(all.take(i + 1) =~= all.take(i as int).push(all[i as int]));
            assert(buf@ =~= old(buf)@ + items_encoding::<T, S, F, D>(
                ser,
                common,
                all.take(i + 1),
            ));
        }
        i = i + 1;
    }
    assert(all.take(items@.len() as int) =~= all);
    Ok(())
}

/// Reads `n` items.
pub fn read_items<
    T: DeepView,
    S: Serializer<T, F, D>,
    F: RichField + Extendable<D>,
    const D: usize,
>(ser: &S, n: usize, common_data: &CommonCircuitData<F, D>, buf: &mut Buffer<'_>) -> (r: IoResult<
    Vec<T>,
>)
    ensures
        match r {
            Ok(items) => {
                let common = common_data@.header();
                &&& items@.len() == n
                &&& items_supported::<T, S, F, D>(ser, common, items.deep_view())
                &&& items_encoding::<T, S, F, D>(ser, common, items.deep_view()).is_prefix_of(
                    old(buf)@,
                )
                &&& final(buf)@ == old(buf)@.skip(
                    items_encoding::<T, S, F, D>(ser, common, items.deep_view()).len() as int,
                )
            },
            Err(_) => forall|s: Seq<T::V>|
                #![trigger items_encoding::<T, S, F, D>(ser, common_data@.header(), s)]
                s.len() == n && items_supported::<T, S, F, D>(ser, common_data@.header(), s)
                    ==> !items_encoding::<T, S, F, D>(
                    ser,
                    common_data@.header(),
                    s,
                ).is_prefix_of(old(buf)@),
        },
{
    let ghost before = buf@;
    let ghost common = common_data@.header();
    let mut items: Vec<T> = Vec::new();
    let mut i: usize = 0;
    assert(items.deep_view() =~= Seq::<T::V>::empty());
    assert(before.subrange(0, 0) =~= Seq::<u8>::empty());
    assert(before.skip(0) =~= before);
    proof {
        assert forall|s: Seq<T::V>| #[trigger] s.skip(0) == s by {
            assert(s.skip(0) =~= s);
        }
    }
    while i < n
        invariant
            i <= n,
            before == old(buf)@,
            common == common_data@.header(),
            items@.len() == i,
            items_supported::<T, S, F, D>(ser, common, items.deep_view()),
            items_encoding::<T, S, F, D>(ser, common, items.deep_view()).is_prefix_of(before),
            buf@ == before.skip(
                items_encoding::<T, S, F, D>(ser, common, items.deep_view()).len() as int,
            ),
            forall|s: Seq<T::V>|
                #![trigger items_encoding::<T, S, F, D>(ser, common, s)]
                s.len() == n && items_supported::<T, S, F, D>(ser, common, s) && items_encoding::<
                    T,
                    S,
                    F,
                    D,
                >(ser, common, s).is_prefix_of(before) ==> items_encoding::<T, S, F, D>(
                    ser,
                    common,
                    s.skip(i as int),
                ).is_prefix_of(buf@),
        decreases n - i,
    {
        let ghost middle = buf@;
        let ghost done = items.deep_view();
        match ser.read_item(common_data, buf) {
            Ok(item) => {
                let ghost x = item.deep_view();
                items.push(item);
                proof {
                    assert(items.deep_view() =~= done.push(x));
                    lemma_items_push::<T, S, F, D>(ser, common, done, x);
                    lemma_prefix_concat(
                        items_encoding::<T, S, F, D>(ser, common, done),
                        ser.item_encoding(common, x),
                        before,
                    );
                    assert(buf@ =~= before.skip(
                        items_encoding::<T, S, F, D>(ser, common, done.push(x)).len() as int,
                    ));
                    assert forall|s: Seq<T::V>|
                        #![trigger items_encoding::<T, S, F, D>(ser, common, s)]
                        s.len() == n && items_supported::<T, S, F, D>(ser, common, s)
                            && items_encoding::<T, S, F, D>(ser, common, s).is_prefix_of(
                            before,
                        ) implies items_encoding::<T, S, F, D>(
                        ser,
                        common,
                        s.skip(i + 1),
                    ).is_prefix_of(buf@) by {
                        let rest = s.skip(i as int);
                        assert(rest.skip(1) =~= s.skip(i + 1));
                        assert(rest[0] == s[i as int]);
                        lemma_prefix_concat(
                            ser.item_encoding(common, rest[0]),
                            items_encoding::<T, S, F, D>(ser, common, rest.skip(1)),
                            middle,
                        );
                        ser.lemma_item_prefix_free(common, rest[0], x, middle);
                    }
                }
            },
            Err(e) => {
                proof {
                    assert forall|s: Seq<T::V>|
                        #![trigger items_encoding::<T, S, F, D>(ser, common, s)]
                        s.len() == n && items_supported::<T, S, F, D>(
                            ser,
                            common,
                            s,
                        ) implies !items_encoding::<T, S, F, D>(ser, common, s).is_prefix_of(
                        before,
                    ) by {
                        if items_encoding::<T, S, F, D>(ser, common, s).is_prefix_of(before) {
                            let rest = s.skip(i as int);
                            assert(rest[0] == s[i as int]);
                            lemma_prefix_concat(
                                ser.item_encoding(common, rest[0]),
                                items_encoding::<T, S, F, D>(ser, common, rest.skip(1)),
                                middle,
                            );
                        }
                    }
                }
                return Err(e);
            },
        }
        i = i + 1;
    }
    Ok(items)
}

/// Calls `String::from_utf8`, which returns the string whose UTF-8 encoding the bytes are, or an
/// error when the bytes are not valid UTF-8.
#[verifier::external_body]
fn string_from_utf8(bytes: Vec<u8>) -> (r: Option<String>)
    ensures
        r is Some <==> valid_utf8(bytes@),
        r matches Some(s) ==> s@ == decode_utf8(bytes@),
{
    String::from_utf8(bytes).ok()
}

/// Writes a gate type as its name, its degree and its number of constraints.
///
/// The degree and the number of constraints that are read back are those that the bytes say, not those
/// of a gate type that is looked up by its name. Bytes that someone else wrote can understate them, and
/// nothing here notices: whoever reads such bytes and knows the named gate types compares the two.
#[derive(Clone, Copy, Debug)]
pub struct DefaultGateSerializer;

/// What stands for a gate type: the bytes of its name, its degree and its number of constraints.
pub type GateParts = (Vec<u8>, (usize, usize));

/// The values of those parts.
pub open spec fn gate_parts(v: GateView) -> (Seq<u8>, (usize, usize)) {
    (encode_utf8(v.id), (v.degree, v.num_constraints))
}

impl<F: RichField + Extendable<D>, const D: usize> Serializer<
    GateRef,
    F,
    D,
> for DefaultGateSerializer {
    open spec fn total(&self) -> bool {
        true
    }

    open spec fn supports(&self, common: CommonView, v: GateView) -> bool {
        GateParts::encodable(gate_parts(v))
    }

    open spec fn item_encoding(&self, common: CommonView, v: GateView) -> Seq<u8> {
        GateParts::encoding(gate_parts(v))
    }

    proof fn lemma_item_prefix_free(
        &self,
        common: CommonView,
        a: GateView,
        b: GateView,
        s: Seq<u8>,
    ) {
        GateParts::lemma_prefix_free(gate_parts(a), gate_parts(b), s);
        vstd::utf8::encode_utf8_decode_utf8(a.id);
        vstd::utf8::encode_utf8_decode_utf8(b.id);
    }

    fn write_item(
        &self,
        item: &GateRef,
        common_data: &CommonCircuitData<F, D>,
        buf: &mut Vec<u8>,
    ) -> (r: IoResult<()>) {
        let id = vstd::slice::slice_to_vec(item.id.as_str().as_bytes());
        proof {
            id.lemma_encodable();
            assert(id.deep_view() =~= id@);
        }
        id.write(buf);
        item.degree.write(buf);
        item.num_constraints.write(buf);
        assert(buf@ =~= old(buf)@ + GateParts::encoding(gate_parts(item@)));
        Ok(())
    }

    fn read_item(&self, common_data: &CommonCircuitData<F, D>, buf: &mut Buffer<'_>) -> (r:
        IoResult<GateRef>) {
        let ghost before = buf@;
        let (bytes, (degree, num_constraints)) = GateParts::read(buf)?;
        let ghost id = bytes@;
        assert(bytes.deep_view() =~= id);
        match string_from_utf8(bytes) {
            Some(name) => {
                proof {
                    vstd::utf8::decode_utf8_encode_utf8(id);
                }
                Ok(GateRef { id: name, degree, num_constraints })
            },
            None => {
                proof {
                    assert forall|v: GateView|
                        #![trigger GateParts::encoding(gate_parts(v))]
                        GateParts::encodable(gate_parts(v)) implies !GateParts::encoding(
                        gate_parts(v),
                    ).is_prefix_of(before) by {
                        if GateParts::encoding(gate_parts(v)).is_prefix_of(before) {
                            GateParts::lemma_prefix_free(
                                gate_parts(v),
                                (id, (degree, num_constraints)),
                                before,
                            );
                            vstd::utf8::encode_utf8_valid_utf8(v.id);
                        }
                    }
                }
                Err(IoError)
            },
        }
    }
}

/// Writes a witness generator as its name and its parameters.
#[derive(Clone, Copy, Debug)]
pub struct DefaultGeneratorSerializer;

/// What stands for a generator: the bytes of its name and its parameters.
pub type GeneratorParts = (Vec<u8>, Vec<u8>);

/// The values of those parts.
pub open spec fn generator_parts(v: GeneratorView) -> (Seq<u8>, Seq<u8>) {
    (encode_utf8(v.id), v.params)
}

impl<F: RichField + Extendable<D>, const D: usize> Serializer<
    WitnessGeneratorRef,
    F,
    D,
> for DefaultGeneratorSerializer {
    open spec fn total(&self) -> bool {
        true
    }

    open spec fn supports(&self, common: CommonView, v: GeneratorView) -> bool {
        GeneratorParts::encodable(generator_parts(v))
    }

    open spec fn item_encoding(&self, common: CommonView, v: GeneratorView) -> Seq<u8> {
        GeneratorParts::encoding(generator_parts(v))
    }

    proof fn lemma_item_prefix_free(
        &self,
        common: CommonView,
        a: GeneratorView,
        b: GeneratorView,
        s: Seq<u8>,
    ) {
        GeneratorParts::lemma_prefix_free(generator_parts(a), generator_parts(b), s);
        vstd::utf8::encode_utf8_decode_utf8(a.id);
        vstd::utf8::encode_utf8_decode_utf8(b.id);
    }

    fn write_item(
        &self,
        item: &WitnessGeneratorRef,
        common_data: &CommonCircuitData<F, D>,
        buf: &mut Vec<u8>,
    ) -> (r: IoResult<()>) {
        let id = vstd::slice::slice_to_vec(item.id.as_str().as_bytes());
        proof {
            id.lemma_encodable();
            item.params.lemma_encodable();
            assert(id.deep_view() =~= id@);
            assert(item.params.deep_view() =~= item.params@);
        }
        id.write(buf);
        item.params.write(buf);
        assert(buf@ =~= old(buf)@ + GeneratorParts::encoding(generator_parts(item@)));
        Ok(())
    }

    fn read_item(&self, common_data: &CommonCircuitData<F, D>, buf: &mut Buffer<'_>) -> (r:
        IoResult<WitnessGeneratorRef>) {
        let ghost before = buf@;
        let (bytes, params) = GeneratorParts::read(buf)?;
        let ghost id = bytes@;
        assert(bytes.deep_view() =~= id);
        assert(params.deep_view() =~= params@);
        match string_from_utf8(bytes) {
            Some(name) => {
                proof {
                    vstd::utf8::decode_utf8_encode_utf8(id);
                }
                Ok(WitnessGeneratorRef { id: name, params })
            },
            None => {
                proof {
                    assert forall|v: GeneratorView|
                        #![trigger GeneratorParts::encoding(generator_parts(v))]
                        GeneratorParts::encodable(
                            generator_parts(v),
                        ) implies !GeneratorParts::encoding(generator_parts(v)).is_prefix_of(
                        before,
                    ) by {
                        if GeneratorParts::encoding(generator_parts(v)).is_prefix_of(before) {
                            GeneratorParts::lemma_prefix_free(
                                generator_parts(v),
                                (id, params@),
                                before,
                            );
                            vstd::utf8::encode_utf8_valid_utf8(v.id);
                        }
                    }
                }
                Err(IoError)
            },
        }
    }
}

/// The default serializer knows every gate type whose name fits into memory, whatever its degree, its
/// number of constraints and the circuit around it.
pub proof fn law_every_gate_supported<F: RichField + Extendable<D>, const D: usize>(
    common: CommonView,
    gate: GateView,
)
    requires
        encode_utf8(gate.id).len() <= usize::MAX,
    ensures
        <DefaultGateSerializer as Serializer<GateRef, F, D>>::supports(
            &DefaultGateSerializer,
            common,
            gate,
        ),
        <DefaultGateSerializer as Serializer<GateRef, F, D>>::total(&DefaultGateSerializer),
{
}

/// The default serializer knows every generator whose name and parameters fit into memory.
pub proof fn law_every_generator_supported<F: RichField + Extendable<D>, const D: usize>(
    common: CommonView,
    generator: GeneratorView,
)
    requires
        encode_utf8(generator.id).len() <= usize::MAX,
        generator.params.len() <= usize::MAX,
    ensures
        <DefaultGeneratorSerializer as Serializer<WitnessGeneratorRef, F, D>>::supports(
            &DefaultGeneratorSerializer,
            common,
            generator,
        ),
        <DefaultGeneratorSerializer as Serializer<WitnessGeneratorRef, F, D>>::total(
            &DefaultGeneratorSerializer,
        ),
{
}

} // verus!
