//! The binary format: little-endian integers, length-prefixed lists, and values written one after
//! the other with nothing in between.
//!
//! [`Codec`] ties every written type to the bytes that stand for it. A reader accepts an input
//! exactly when the input starts with the encoding of some value, and no input starts with the
//! encodings of two different values, so reading gives back what was written.

use vstd::prelude::*;

verus! {

/// The error of every reader: the input does not start with an encoding of the requested value.
#[derive(Clone, Copy, Debug, PartialEq, Eq, Structural)]
pub struct IoError;

pub type IoResult<T> = Result<T, IoError>;

/// `256^w`, the number of values that `w` bytes can hold.
pub open spec fn pow256(w: nat) -> nat
    decreases w,
{
    if w == 0 {
        1
    } else {
        256 * pow256((w - 1) as nat)
    }
}

/// The `w` low bytes of `n`, least significant byte first.
pub open spec fn le_bytes(n: nat, w: nat) -> Seq<u8>
    decreases w,
{
    if w == 0 {
        Seq::empty()
    } else {
        seq![(n % 256) as u8] + le_bytes(n / 256, (w - 1) as nat)
    }
}

/// The number that a string of bytes stands for, least significant byte first.
pub open spec fn le_value(s: Seq<u8>) -> nat
    decreases s.len(),
{
    if s.len() == 0 {
        0
    } else {
        s[0] as nat + 256 * le_value(s.skip(1))
    }
}

pub proof fn lemma_le_bytes_len(n: nat, w: nat)
    ensures
        le_bytes(n, w).len() == w,
    decreases w,
{
    if w > 0 {
        lemma_le_bytes_len(n / 256, (w - 1) as nat);
    }
}

proof fn lemma_le_value_of_bytes(n: nat, w: nat)
    requires
        n < pow256(w),
    ensures
        le_value(le_bytes(n, w)) == n,
    decreases w,
{
    if w > 0 {
        let rest = le_bytes(n / 256, (w - 1) as nat);
        lemma_le_value_of_bytes(n / 256, (w - 1) as nat);
        assert(le_bytes(n, w).skip(1) =~= rest);
    }
}

proof fn lemma_le_bytes_of_value(s: Seq<u8>)
    ensures
        le_bytes(le_value(s), s.len()) == s,
        le_value(s) < pow256(s.len()),
    decreases s.len(),
{
    if s.len() > 0 {
        lemma_le_bytes_of_value(s.skip(1));
        let v = le_value(s);
        assert(v % 256 == s[0] as nat && v / 256 == le_value(s.skip(1)));
        assert(le_bytes(v, s.len()) =~= s);
    }
}

proof fn lemma_pow256_monotone(a: nat, b: nat)
    requires
        a <= b,
    ensures
        1 <= pow256(a) <= pow256(b),
    decreases b,
{
    if b > 0 {
        if a == b {
            lemma_pow256_monotone((a - 1) as nat, (b - 1) as nat);
        } else {
            lemma_pow256_monotone(a, (b - 1) as nat);
        }
    }
}

pub proof fn lemma_pow256_values()
    ensures
        pow256(1) == 0x100,
        pow256(2) == 0x1_0000,
        pow256(4) == 0x1_0000_0000,
        pow256(8) == 0x1_0000_0000_0000_0000,
{
    reveal_with_fuel(pow256, 9);
}

/// Two numbers whose bytes stand at the start of one string are equal.
pub proof fn lemma_le_bytes_prefix_free(a: nat, b: nat, w: nat, s: Seq<u8>)
    requires
        a < pow256(w),
        b < pow256(w),
        le_bytes(a, w).is_prefix_of(s),
        le_bytes(b, w).is_prefix_of(s),
    ensures
        a == b,
{
    lemma_le_bytes_len(a, w);
    lemma_le_bytes_len(b, w);
    assert(le_bytes(a, w) =~= le_bytes(b, w));
    lemma_le_value_of_bytes(a, w);
    lemma_le_value_of_bytes(b, w);
}

/// A string starts with `a + b` exactly when it starts with `a` and what follows starts with `b`.
pub proof fn lemma_prefix_concat(a: Seq<u8>, b: Seq<u8>, s: Seq<u8>)
    ensures
        (a + b).is_prefix_of(s) <==> a.is_prefix_of(s) && b.is_prefix_of(s.skip(a.len() as int)),
{
    if (a + b).is_prefix_of(s) {
        assert(a =~= s.subrange(0, a.len() as int)) by {
            assert forall|i: int| 0 <= i < a.len() implies a[i] == s[i] by {
                assert((a + b)[i] == s.subrange(0, (a + b).len() as int)[i]);
            }
        }
        assert(b =~= s.skip(a.len() as int).subrange(0, b.len() as int)) by {
            assert forall|i: int| 0 <= i < b.len() implies b[i] == s[a.len() + i] by {
                assert((a + b)[a.len() + i] == s.subrange(0, (a + b).len() as int)[a.len() + i]);
            }
        }
    }
    if a.is_prefix_of(s) && b.is_prefix_of(s.skip(a.len() as int)) {
        assert(a + b =~= s.subrange(0, (a + b).len() as int)) by {
            assert forall|i: int| 0 <= i < (a + b).len() implies (a + b)[i] == s[i] by {
                if i < a.len() {
                    assert(a[i] == s.subrange(0, a.len() as int)[i]);
                } else {
                    assert(b[i - a.len()] == s.skip(a.len() as int).subrange(
                        0,
                        b.len() as int,
                    )[i - a.len()]);
                }
            }
        }
    }
}

/// `a + b` starts with `a`.
pub proof fn lemma_starts_with(a: Seq<u8>, b: Seq<u8>)
    ensures
        a.is_prefix_of(a + b),
{
    assert(a =~= (a + b).subrange(0, a.len() as int));
}

/// Appending `a` and then `b` to a string is appending `a + b`.
pub proof fn lemma_append_twice(s: Seq<u8>, a: Seq<u8>, b: Seq<u8>)
    ensures
        (s + a) + b == s + (a + b),
{
    assert((s + a) + b =~= s + (a + b));
}

/// Input that is read from the front.
pub struct Buffer<'a> {
    bytes: &'a [u8],
    pos: usize,
}

impl<'a> View for Buffer<'a> {
    type V = Seq<u8>;

    /// The bytes that are still to be read.
    closed spec fn view(&self) -> Seq<u8> {
        self.bytes@.skip(self.pos as int)
    }
}

impl<'a> Buffer<'a> {
    #[verifier::type_invariant]
    spec fn position_in_bounds(&self) -> bool {
        self.pos <= self.bytes@.len()
    }

    pub fn new(bytes: &'a [u8]) -> (buf: Self)
        ensures
            buf@ == bytes@,
    {
        let buf = Buffer { bytes, pos: 0 };
        assert(bytes@.skip(0) =~= bytes@);
        buf
    }

    /// Reads the number that the next `w` bytes stand for.
    pub fn read_le(&mut self, w: usize) -> (r: IoResult<u64>)
        requires
            w <= 8,
        ensures
            match r {
                Ok(x) => {
                    &&& x < pow256(w as nat)
                    &&& le_bytes(x as nat, w as nat).is_prefix_of(old(self)@)
                    &&& final(self)@ == old(self)@.skip(w as int)
                },
                Err(_) => old(self)@.len() < w && final(self)@ == old(self)@,
            },
    {
        proof {
            use_type_invariant(&*self);
        }
        let start = self.pos;
        let len = self.bytes.len();
        if len - start < w {
            return Err(IoError);
        }
        let ghost s = self.bytes@.subrange(start as int, start + w);
        let mut x: u64 = 0;
        let mut i: usize = w;
        assert(s.subrange(w as int, w as int) =~= Seq::<u8>::empty());
        while i > 0
            invariant
                i <= w <= 8,
                start + w <= len == self.bytes@.len(),
                s == self.bytes@.subrange(start as int, start + w),
                x == le_value(s.subrange(i as int, w as int)),
            decreases i,
        {
            let ghost tail = s.subrange(i as int, w as int);
            let ghost longer = s.subrange(i - 1, w as int);
            proof {
                assert(longer.skip(1) =~= tail);
                assert(longer[0] == s[i - 1]);
                lemma_le_bytes_of_value(longer);
                lemma_pow256_monotone(longer.len(), 8);
                lemma_pow256_values();
            }
            i = i - 1;
            x = x * 256 + self.bytes[start + i] as u64;
        }
        proof {
            assert(s.subrange(0, w as int) =~= s);
            lemma_le_bytes_of_value(s);
            assert(old(self)@.subrange(0, w as int) =~= s);
            assert(self.bytes@.skip(start + w) =~= old(self)@.skip(w as int));
        }
        self.pos = start + w;
        Ok(x)
    }
}

/// Appends the `w` low bytes of `x`, least significant byte first.
pub fn write_le(buf: &mut Vec<u8>, x: u64, w: usize)
    requires
        w <= 8,
    ensures
        final(buf)@ == old(buf)@ + le_bytes(x as nat, w as nat),
{
    let mut rest: u64 = x;
    let mut i: usize = 0;
    while i < w
        invariant
            i <= w <= 8,
            buf@ + le_bytes(rest as nat, (w - i) as nat) == old(buf)@ + le_bytes(
                x as nat,
                w as nat,
            ),
        decreases w - i,
    {
        let ghost before = buf@;
        let byte: u8 = (rest % 256) as u8;
        buf.push(byte);
        proof {
            let tail = le_bytes((rest / 256) as nat, (w - i - 1) as nat);
            assert(le_bytes(rest as nat, (w - i) as nat) =~= seq![byte] + tail);
            assert(buf@ + tail =~= before + (seq![byte] + tail));
        }
        rest = rest / 256;
        i = i + 1;
    }
    assert(buf@ + Seq::<u8>::empty() =~= buf@);
}

/// A type with a binary encoding.
pub trait Codec: DeepView + Sized {
    /// The values that have an encoding: at least those that the type can hold.
    spec fn encodable(v: Self::V) -> bool;

    /// The bytes that stand for a value.
    spec fn encoding(v: Self::V) -> Seq<u8>;

    /// Whatever the type holds can be written.
    proof fn lemma_encodable(&self)
        ensures
            Self::encodable(self.deep_view()),
    ;

    /// No string starts with the encodings of two different values.
    proof fn lemma_prefix_free(a: Self::V, b: Self::V, s: Seq<u8>)
        requires
            Self::encodable(a),
            Self::encodable(b),
            Self::encoding(a).is_prefix_of(s),
            Self::encoding(b).is_prefix_of(s),
        ensures
            a == b,
    ;

    /// Appends the encoding.
    fn write(&self, buf: &mut Vec<u8>)
        ensures
            final(buf)@ == old(buf)@ + Self::encoding(self.deep_view()),
    ;

    /// Reads the value whose encoding stands next, and fails exactly when there is none.
    fn read(buf: &mut Buffer<'_>) -> (r: IoResult<Self>)
        ensures
            match r {
                Ok(v) => {
                    &&& Self::encodable(v.deep_view())
                    &&& Self::encoding(v.deep_view()).is_prefix_of(old(buf)@)
                    &&& final(buf)@ == old(buf)@.skip(
                        Self::encoding(v.deep_view()).len() as int,
                    )
                },
                Err(_) => forall|v: Self::V|
                    #![trigger Self::encoding(v)]
                    Self::encodable(v) ==> !Self::encoding(v).is_prefix_of(old(buf)@),
            },
    ;
}

/// `before` is the encoding of `v` followed by `after`.
pub open spec fn reads<T: Codec>(before: Seq<u8>, v: T::V, after: Seq<u8>) -> bool {
    &&& T::encodable(v)
    &&& T::encoding(v).is_prefix_of(before)
    &&& after == before.skip(T::encoding(v).len() as int)
}

/// `s` starts with the encoding of no value.
pub open spec fn unreadable<T: Codec>(s: Seq<u8>) -> bool {
    forall|v: T::V|
        #![trigger T::encoding(v)]
        T::encodable(v) ==> !T::encoding(v).is_prefix_of(s)
}

/// Reading gives back what was written, and leaves what follows it: an input that starts with the
/// encoding of `v` is read as `v` and as nothing else.
pub proof fn law_read_after_write<T: Codec>(v: T::V, tail: Seq<u8>, w: T::V, after: Seq<u8>)
    requires
        T::encodable(v),
    ensures
        !unreadable::<T>(T::encoding(v) + tail),
        reads::<T>(T::encoding(v) + tail, v, tail),
        reads::<T>(T::encoding(v) + tail, w, after) ==> w == v && after == tail,
{
    let s = T::encoding(v) + tail;
    assert(T::encoding(v) =~= s.subrange(0, T::encoding(v).len() as int));
    assert(s.skip(T::encoding(v).len() as int) =~= tail);
    assert(T::encoding(v).is_prefix_of(s));
    if reads::<T>(s, w, after) {
        T::lemma_prefix_free(v, w, s);
    }
}

impl Codec for u8 {
    open spec fn encodable(v: u8) -> bool {
        true
    }

    open spec fn encoding(v: u8) -> Seq<u8> {
        le_bytes(v as nat, 1)
    }

    proof fn lemma_encodable(&self) {
    }

    proof fn lemma_prefix_free(a: u8, b: u8, s: Seq<u8>) {
        lemma_pow256_values();
        lemma_le_bytes_prefix_free(a as nat, b as nat, 1, s);
    }

    fn write(&self, buf: &mut Vec<u8>) {
        write_le(buf, *self as u64, 1);
    }

    fn read(buf: &mut Buffer<'_>) -> (r: IoResult<u8>) {
        proof {
            lemma_pow256_values();
        }
        let ghost before = buf@;
        match buf.read_le(1) {
            Ok(x) => {
                proof {
                    lemma_le_bytes_len(x as nat, 1);
                }
                Ok(x as u8)
            },
            Err(e) => {
                proof {
                    assert forall|v: u8|
                        !(#[trigger] Self::encoding(v)).is_prefix_of(before) by {
                        lemma_le_bytes_len(v as nat, 1);
                    }
                }
                Err(e)
            },
        }
    }
}

impl Codec for u16 {
    open spec fn encodable(v: u16) -> bool {
        true
    }

    open spec fn encoding(v: u16) -> Seq<u8> {
        le_bytes(v as nat, 2)
    }

    proof fn lemma_encodable(&self) {
    }

    proof fn lemma_prefix_free(a: u16, b: u16, s: Seq<u8>) {
        lemma_pow256_values();
        lemma_le_bytes_prefix_free(a as nat, b as nat, 2, s);
    }

    fn write(&self, buf: &mut Vec<u8>) {
        write_le(buf, *self as u64, 2);
    }

    fn read(buf: &mut Buffer<'_>) -> (r: IoResult<u16>) {
        proof {
            lemma_pow256_values();
        }
        let ghost before = buf@;
        match buf.read_le(2) {
            Ok(x) => {
                proof {
                    lemma_le_bytes_len(x as nat, 2);
                }
                Ok(x as u16)
            },
            Err(e) => {
                proof {
                    assert forall|v: u16|
                        !(#[trigger] Self::encoding(v)).is_prefix_of(before) by {
                        lemma_le_bytes_len(v as nat, 2);
                    }
                }
                Err(e)
            },
        }
    }
}

impl Codec for u32 {
    open spec fn encodable(v: u32) -> bool {
        true
    }

    open spec fn encoding(v: u32) -> Seq<u8> {
        le_bytes(v as nat, 4)
    }

    proof fn lemma_encodable(&self) {
    }

    proof fn lemma_prefix_free(a: u32, b: u32, s: Seq<u8>) {
        lemma_pow256_values();
        lemma_le_bytes_prefix_free(a as nat, b as nat, 4, s);
    }

    fn write(&self, buf: &mut Vec<u8>) {
        write_le(buf, *self as u64, 4);
    }

    fn read(buf: &mut Buffer<'_>) -> (r: IoResult<u32>) {
        proof {
            lemma_pow256_values();
        }
        let ghost before = buf@;
        match buf.read_le(4) {
            Ok(x) => {
                proof {
                    lemma_le_bytes_len(x as nat, 4);
                }
                Ok(x as u32)
            },
            Err(e) => {
                proof {
                    assert forall|v: u32|
                        !(#[trigger] Self::encoding(v)).is_prefix_of(before) by {
                        lemma_le_bytes_len(v as nat, 4);
                    }
                }
                Err(e)
            },
        }
    }
}

/// A size takes eight bytes on every machine; one that the reading machine cannot hold is rejected.
impl Codec for usize {
    open spec fn encodable(v: usize) -> bool {
        true
    }

    open spec fn encoding(v: usize) -> Seq<u8> {
        le_bytes(v as nat, 8)
    }

    proof fn lemma_encodable(&self) {
    }

    proof fn lemma_prefix_free(a: usize, b: usize, s: Seq<u8>) {
        lemma_pow256_values();
        lemma_le_bytes_prefix_free(a as nat, b as nat, 8, s);
    }

    fn write(&self, buf: &mut Vec<u8>) {
        write_le(buf, *self as u64, 8);
    }

    fn read(buf: &mut Buffer<'_>) -> (r: IoResult<usize>) {
        proof {
            lemma_pow256_values();
        }
        let ghost before = buf@;
        match buf.read_le(8) {
            Ok(x) => {
                if x > usize::MAX as u64 {
                    proof {
                        assert forall|v: usize|
                            !(#[trigger] Self::encoding(v)).is_prefix_of(before) by {
                            if Self::encoding(v).is_prefix_of(before) {
                                lemma_le_bytes_prefix_free(v as nat, x as nat, 8, before);
                            }
                        }
                    }
                    return Err(IoError);
                }
                proof {
                    lemma_le_bytes_len(x as nat, 8);
                }
                Ok(x as usize)
            },
            Err(e) => {
                proof {
                    assert forall|v: usize|
                        !(#[trigger] Self::encoding(v)).is_prefix_of(before) by {
                        lemma_le_bytes_len(v as nat, 8);
                    }
                }
                Err(e)
            },
        }
    }
}

/// A flag is the byte 0 or 1.
impl Codec for bool {
    open spec fn encodable(v: bool) -> bool {
        true
    }

    open spec fn encoding(v: bool) -> Seq<u8> {
        u8::encoding(if v { 1u8 } else { 0u8 })
    }

    proof fn lemma_encodable(&self) {
    }

    proof fn lemma_prefix_free(a: bool, b: bool, s: Seq<u8>) {
        u8::lemma_prefix_free(
            if a { 1u8 } else { 0u8 },
            if b { 1u8 } else { 0u8 },
            s,
        );
    }

    fn write(&self, buf: &mut Vec<u8>) {
        let byte: u8 = if *self { 1 } else { 0 };
        byte.write(buf);
    }

    fn read(buf: &mut Buffer<'_>) -> (r: IoResult<bool>) {
        let ghost before = buf@;
        match u8::read(buf) {
            Ok(0) => Ok(false),
            Ok(1) => Ok(true),
            Ok(byte) => {
                proof {
                    assert forall|v: bool|
                        !(#[trigger] Self::encoding(v)).is_prefix_of(before) by {
                        if Self::encoding(v).is_prefix_of(before) {
                            u8::lemma_prefix_free(if v { 1u8 } else { 0u8 }, byte, before);
                        }
                    }
                }
                Err(IoError)
            },
            Err(e) => {
                proof {
                    assert forall|v: bool|
                        !(#[trigger] Self::encoding(v)).is_prefix_of(before) by {
                        assert(Self::encoding(v) == u8::encoding(if v { 1u8 } else { 0u8 }));
                    }
                }
                Err(e)
            },
        }
    }
}

/// A pair is its first part followed by its second.
impl<A: Codec, B: Codec> Codec for (A, B) {
    open spec fn encodable(v: (A::V, B::V)) -> bool {
        A::encodable(v.0) && B::encodable(v.1)
    }

    open spec fn encoding(v: (A::V, B::V)) -> Seq<u8> {
        A::encoding(v.0) + B::encoding(v.1)
    }

    proof fn lemma_encodable(&self) {
        self.0.lemma_encodable();
        self.1.lemma_encodable();
    }

    proof fn lemma_prefix_free(a: (A::V, B::V), b: (A::V, B::V), s: Seq<u8>) {
        lemma_prefix_concat(A::encoding(a.0), B::encoding(a.1), s);
        lemma_prefix_concat(A::encoding(b.0), B::encoding(b.1), s);
        A::lemma_prefix_free(a.0, b.0, s);
        B::lemma_prefix_free(a.1, b.1, s.skip(A::encoding(a.0).len() as int));
    }

    fn write(&self, buf: &mut Vec<u8>) {
        self.0.write(buf);
        self.1.write(buf);
    }

    fn read(buf: &mut Buffer<'_>) -> (r: IoResult<(A, B)>) {
        let ghost before = buf@;
        let first = match A::read(buf) {
            Ok(v) => v,
            Err(e) => {
                proof {
                    assert forall|v: (A::V, B::V)| Self::encodable(v) implies !(
                    #[trigger] Self::encoding(v)).is_prefix_of(before) by {
                        lemma_prefix_concat(A::encoding(v.0), B::encoding(v.1), before);
                    }
                }
                return Err(e);
            },
        };
        let ghost middle = buf@;
        let second = match B::read(buf) {
            Ok(v) => v,
            Err(e) => {
                proof {
                    assert forall|v: (A::V, B::V)| Self::encodable(v) implies !(
                    #[trigger] Self::encoding(v)).is_prefix_of(before) by {
                        lemma_prefix_concat(A::encoding(v.0), B::encoding(v.1), before);
                        if Self::encoding(v).is_prefix_of(before) {
                            A::lemma_prefix_free(v.0, first.deep_view(), before);
                        }
                    }
                }
                return Err(e);
            },
        };
        proof {
            lemma_prefix_concat(
                A::encoding(first.deep_view()),
                B::encoding(second.deep_view()),
                before,
            );
            assert(buf@ =~= before.skip(
                (A::encoding(first.deep_view()) + B::encoding(second.deep_view())).len() as int,
            ));
        }
        Ok((first, second))
    }
}

/// The encodings of a list's items, one after the other.
pub open spec fn list_encoding<T: Codec>(s: Seq<T::V>) -> Seq<u8>
    decreases s.len(),
{
    if s.len() == 0 {
        Seq::empty()
    } else {
        T::encoding(s[0]) + list_encoding::<T>(s.skip(1))
    }
}

/// Every item of the list has an encoding.
pub open spec fn list_encodable<T: Codec>(s: Seq<T::V>) -> bool {
    forall|i: int| 0 <= i < s.len() ==> T::encodable(#[trigger] s[i])
}

proof fn lemma_list_encoding_push<T: Codec>(s: Seq<T::V>, v: T::V)
    ensures
        list_encoding::<T>(s.push(v)) == list_encoding::<T>(s) + T::encoding(v),
    decreases s.len(),
{
    if s.len() == 0 {
        assert(s.push(v).skip(1) =~= Seq::<T::V>::empty());
        assert(list_encoding::<T>(s.push(v).skip(1)) =~= Seq::<u8>::empty());
        assert(list_encoding::<T>(s.push(v)) =~= T::encoding(v));
        assert(list_encoding::<T>(s) + T::encoding(v) =~= T::encoding(v));
    } else {
        assert(s.push(v).skip(1) =~= s.skip(1).push(v));
        lemma_list_encoding_push::<T>(s.skip(1), v);
        assert(T::encoding(s[0]) + (list_encoding::<T>(s.skip(1)) + T::encoding(v)) =~= (
        T::encoding(s[0]) + list_encoding::<T>(s.skip(1))) + T::encoding(v));
    }
}

/// Lists of one length whose items stand at the start of one string are equal.
pub proof fn lemma_list_prefix_free<T: Codec>(a: Seq<T::V>, b: Seq<T::V>, s: Seq<u8>)
    requires
        a.len() == b.len(),
        list_encodable::<T>(a),
        list_encodable::<T>(b),
        list_encoding::<T>(a).is_prefix_of(s),
        list_encoding::<T>(b).is_prefix_of(s),
    ensures
        a == b,
    decreases a.len(),
{
    if a.len() > 0 {
        lemma_prefix_concat(T::encoding(a[0]), list_encoding::<T>(a.skip(1)), s);
        lemma_prefix_concat(T::encoding(b[0]), list_encoding::<T>(b.skip(1)), s);
        T::lemma_prefix_free(a[0], b[0], s);
        lemma_list_prefix_free::<T>(
            a.skip(1),
            b.skip(1),
            s.skip(T::encoding(a[0]).len() as int),
        );
        assert(a =~= b) by {
            assert forall|i: int| 0 <= i < a.len() implies a[i] == b[i] by {
                if i > 0 {
                    assert(a.skip(1)[i - 1] == b.skip(1)[i - 1]);
                }
            }
        }
    } else {
        assert(a =~= b);
    }
}

/// Appends the encodings of the items.
pub fn write_list<T: Codec>(items: &Vec<T>, buf: &mut Vec<u8>)
    ensures
        final(buf)@ == old(buf)@ + list_encoding::<T>(items.deep_view()),
{
    let ghost all = items.deep_view();
    let mut i: usize = 0;
    assert(all.take(0) =~= Seq::<T::V>::empty());
    assert(old(buf)@ + Seq::<u8>::empty() =~= old(buf)@);
    while i < items.len()
        invariant
            i <= items@.len(),
            all == items.deep_view(),
            buf@ == old(buf)@ + list_encoding::<T>(all.take(i as int)),
        decreases items@.len() - i,
    {
        items[i].write(buf);
        proof {
            lemma_list_encoding_push::<T>(all.take(i as int), all[i as int]);
            assert(all.take(i + 1) =~= all.take(i as int).push(all[i as int]));
            assert(buf@ =~= old(buf)@ + list_encoding::<T>(all.take(i + 1)));
        }
        i = i + 1;
    }
    assert(all.take(items@.len() as int) =~= all);
}

/// Reads `n` items.
pub fn read_list<T: Codec>(buf: &mut Buffer<'_>, n: usize) -> (r: IoResult<Vec<T>>)
    ensures
        match r {
            Ok(items) => {
                &&& items@.len() == n
                &&& list_encodable::<T>(items.deep_view())
                &&& list_encoding::<T>(items.deep_view()).is_prefix_of(old(buf)@)
                &&& final(buf)@ == old(buf)@.skip(
                    list_encoding::<T>(items.deep_view()).len() as int,
                )
            },
            Err(_) => forall|s: Seq<T::V>|
                #![trigger list_encoding::<T>(s)]
                s.len() == n && list_encodable::<T>(s) ==> !list_encoding::<T>(s).is_prefix_of(
                    old(buf)@,
                ),
        },
{
    let ghost before = buf@;
    let mut items: Vec<T> = Vec::new();
    let mut i: usize = 0;
    assert(items.deep_view() =~= Seq::<T::V>::empty());
    assert(before.subrange(0, 0) =~= Seq::<u8>::empty());
    assert(before.skip(0) =~= before);
    proof {
        assert forall|s: Seq<T::V>| #[trigger] s.skip(0) == s by {
            assert(s.skip(0) =~= s);
        }
    }
    while i < n
        invariant
            i <= n,
            before == old(buf)@,
            items@.len() == i,
            list_encodable::<T>(items.deep_view()),
            list_encoding::<T>(items.deep_view()).is_prefix_of(before),
            buf@ == before.skip(list_encoding::<T>(items.deep_view()).len() as int),
            forall|s: Seq<T::V>|
                #![trigger list_encoding::<T>(s)]
                s.len() == n && list_encodable::<T>(s) && list_encoding::<T>(s).is_prefix_of(before)
                    ==> list_encoding::<T>(s.skip(i as int)).is_prefix_of(buf@),
        decreases n - i,
    {
        let ghost middle = buf@;
        let ghost done = items.deep_view();
        match T::read(buf) {
            Ok(v) => {
                let ghost x = v.deep_view();
                items.push(v);
                proof {
                    assert(items.deep_view() =~= done.push(x));
                    lemma_list_encoding_push::<T>(done, x);
                    lemma_prefix_concat(list_encoding::<T>(done), T::encoding(x), before);
                    assert(buf@ =~= before.skip(list_encoding::<T>(done.push(x)).len() as int));
                    assert forall|s: Seq<T::V>|
                        #![trigger list_encoding::<T>(s)]
                        s.len() == n && list_encodable::<T>(s) && list_encoding::<T>(
                            s,
                        ).is_prefix_of(before) implies list_encoding::<T>(
                        s.skip(i + 1),
                    ).is_prefix_of(buf@) by {
                        let rest = s.skip(i as int);
                        assert(rest.skip(1) =~= s.skip(i + 1));
                        assert(rest[0] == s[i as int]);
                        lemma_prefix_concat(
                            T::encoding(rest[0]),
                            list_encoding::<T>(rest.skip(1)),
                            middle,
                        );
                        T::lemma_prefix_free(rest[0], x, middle);
                    }
                }
            },
            Err(e) => {
                proof {
                    assert forall|s: Seq<T::V>|
                        #![trigger list_encoding::<T>(s)]
                        s.len() == n && list_encodable::<T>(s) implies !list_encoding::<T>(
                        s,
                    ).is_prefix_of(before) by {
                        if list_encoding::<T>(s).is_prefix_of(before) {
                            let rest = s.skip(i as int);
                            assert(rest[0] == s[i as int]);
                            lemma_prefix_concat(
                                T::encoding(rest[0]),
                                list_encoding::<T>(rest.skip(1)),
                                middle,
                            );
                        }
                    }
                }
                return Err(e);
            },
        }
        i = i + 1;
    }
    Ok(items)
}

/// A list is its length followed by its items.
impl<T: Codec> Codec for Vec<T> {
    open spec fn encodable(v: Seq<T::V>) -> bool {
        v.len() <= usize::MAX && list_encodable::<T>(v)
    }

    open spec fn encoding(v: Seq<T::V>) -> Seq<u8> {
        usize::encoding(v.len() as usize) + list_encoding::<T>(v)
    }

    proof fn lemma_encodable(&self) {
        let v = self.deep_view();
        assert forall|i: int| 0 <= i < v.len() implies T::encodable(#[trigger] v[i]) by {
            self@[i].lemma_encodable();
        }
        assert(self.len() == self@.len());
    }

    proof fn lemma_prefix_free(a: Seq<T::V>, b: Seq<T::V>, s: Seq<u8>) {
        let (n, m) = (a.len() as usize, b.len() as usize);
        lemma_prefix_concat(usize::encoding(n), list_encoding::<T>(a), s);
        lemma_prefix_concat(usize::encoding(m), list_encoding::<T>(b), s);
        usize::lemma_prefix_free(n, m, s);
        lemma_list_prefix_free::<T>(a, b, s.skip(usize::encoding(n).len() as int));
    }

    fn write(&self, buf: &mut Vec<u8>) {
        self.len().write(buf);
        write_list(self, buf);
    }

    fn read(buf: &mut Buffer<'_>) -> (r: IoResult<Vec<T>>) {
        let ghost before = buf@;
        let n = match usize::read(buf) {
            Ok(n) => n,
            Err(e) => {
                proof {
                    assert forall|v: Seq<T::V>| Self::encodable(v) implies !(
                    #[trigger] Self::encoding(v)).is_prefix_of(before) by {
                        lemma_prefix_concat(
                            usize::encoding(v.len() as usize),
                            list_encoding::<T>(v),
                            before,
                        );
                    }
                }
                return Err(e);
            },
        };
        match read_list::<T>(buf, n) {
            Ok(items) => {
                proof {
                    lemma_prefix_concat(
                        usize::encoding(n),
                        list_encoding::<T>(items.deep_view()),
                        before,
                    );
                    assert(buf@ =~= before.skip(Self::encoding(items.deep_view()).len() as int));
                }
                Ok(items)
            },
            Err(e) => {
                proof {
                    assert forall|v: Seq<T::V>| Self::encodable(v) implies !(
                    #[trigger] Self::encoding(v)).is_prefix_of(before) by {
                        let m = v.len() as usize;
                        lemma_prefix_concat(usize::encoding(m), list_encoding::<T>(v), before);
                        if Self::encoding(v).is_prefix_of(before) {
                            usize::lemma_prefix_free(m, n, before);
                        }
                    }
                }
                Err(e)
            },
        }
    }
}

/// An optional value is a flag, followed by the value where there is one.
impl<T: Codec> Codec for Option<T> {
    open spec fn encodable(v: Option<T::V>) -> bool {
        v matches Some(x) ==> T::encodable(x)
    }

    open spec fn encoding(v: Option<T::V>) -> Seq<u8> {
        match v {
            Some(x) => bool::encoding(true) + T::encoding(x),
            None => bool::encoding(false),
        }
    }

    proof fn lemma_encodable(&self) {
        if let Some(x) = self {
            x.lemma_encodable();
        }
    }

    proof fn lemma_prefix_free(a: Option<T::V>, b: Option<T::V>, s: Seq<u8>) {
        if let Some(x) = a {
            lemma_prefix_concat(bool::encoding(true), T::encoding(x), s);
        }
        if let Some(y) = b {
            lemma_prefix_concat(bool::encoding(true), T::encoding(y), s);
        }
        bool::lemma_prefix_free(a is Some, b is Some, s);
        if a is Some {
            T::lemma_prefix_free(a->0, b->0, s.skip(bool::encoding(true).len() as int));
        }
    }

    fn write(&self, buf: &mut Vec<u8>) {
        match self {
            Some(x) => {
                true.write(buf);
                x.write(buf);
            },
            None => {
                false.write(buf);
            },
        }
        assert(buf@ =~= old(buf)@ + Self::encoding(self.deep_view()));
    }

    fn read(buf: &mut Buffer<'_>) -> (r: IoResult<Option<T>>) {
        let ghost before = buf@;
        proof {
            assert forall|v: Option<T::V>|
                #![trigger Self::encoding(v)]
                Self::encoding(v).is_prefix_of(before) implies bool::encoding(
                v is Some,
            ).is_prefix_of(before) && (v is Some ==> T::encoding(v->0).is_prefix_of(
                before.skip(bool::encoding(true).len() as int),
            )) by {
                if let Some(x) = v {
                    lemma_prefix_concat(bool::encoding(true), T::encoding(x), before);
                }
            }
        }
        let present = bool::read(buf)?;
        proof {
            assert forall|v: Option<T::V>|
                #![trigger Self::encoding(v)]
                Self::encoding(v).is_prefix_of(before) implies present == (v is Some) by {
                bool::lemma_prefix_free(v is Some, present, before);
            }
        }
        if present {
            let x = T::read(buf)?;
            proof {
                lemma_prefix_concat(bool::encoding(true), T::encoding(x.deep_view()), before);
                assert(buf@ =~= before.skip(
                    (bool::encoding(true) + T::encoding(x.deep_view())).len() as int,
                ));
            }
            Ok(Some(x))
        } else {
            Ok(None)
        }
    }
}

/// The bytes of a number are its digits in base 256, the least significant first.
pub proof fn law_le_bytes(n: nat, w: nat, i: nat)
    requires
        i < w,
    ensures
        le_bytes(n, w).len() == w,
        le_bytes(n, w)[i as int] as nat == (n / pow256(i)) % 256,
    decreases w,
{
    lemma_le_bytes_len(n, w);
    lemma_le_bytes_len(n / 256, (w - 1) as nat);
    if i == 0 {
        assert(n / 1 == n);
    } else {
        let k = (i - 1) as nat;
        law_le_bytes(n / 256, (w - 1) as nat, k);
        lemma_pow256_monotone(0, k);
        vstd::arithmetic::div_mod::lemma_div_denominator(n as int, 256, pow256(k) as int);
        assert(pow256(i) == 256 * pow256(k));
    }
}

/// How many bytes the integers take, and that a flag is the byte 0 or 1.
pub proof fn law_integer_encodings(a: u8, b: u16, c: u32, d: usize, e: bool)
    ensures
        u8::encoding(a) == le_bytes(a as nat, 1),
        u16::encoding(b) == le_bytes(b as nat, 2),
        u32::encoding(c) == le_bytes(c as nat, 4),
        usize::encoding(d) == le_bytes(d as nat, 8),
        bool::encoding(e).len() == 1,
        bool::encoding(e)[0] == (if e {
            1
        } else {
            0int
        }),
{
    lemma_le_bytes_len(if e {
        1
    } else {
        0
    }, 1);
}

/// Lists are written item by item: the items of one list behind the items of another are the items of
/// both.
pub proof fn law_list_encoding<T: Codec>(a: Seq<T::V>, b: Seq<T::V>)
    ensures
        list_encoding::<T>(a + b) == list_encoding::<T>(a) + list_encoding::<T>(b),
        a.len() == 1 ==> list_encoding::<T>(a) == T::encoding(a[0]),
        Vec::<T>::encoding(a) == usize::encoding(a.len() as usize) + list_encoding::<T>(a),
    decreases b.len(),
{
    if a.len() == 1 {
        assert(a.skip(1) =~= Seq::<T::V>::empty());
        assert(list_encoding::<T>(a.skip(1)) =~= Seq::<u8>::empty());
        assert(T::encoding(a[0]) + Seq::<u8>::empty() =~= T::encoding(a[0]));
    }
    if b.len() == 0 {
        assert(a + b =~= a);
        assert(list_encoding::<T>(a) + list_encoding::<T>(b) =~= list_encoding::<T>(a));
    } else {
        let (rest, last) = (b.drop_last(), b.last());
        law_list_encoding::<T>(a, rest);
        lemma_list_encoding_push::<T>(rest, last);
        lemma_list_encoding_push::<T>(a + rest, last);
        assert(rest.push(last) =~= b);
        assert((a + rest).push(last) =~= a + b);
        lemma_append_twice(list_encoding::<T>(a), list_encoding::<T>(rest), T::encoding(last));
    }
}

} // verus!
