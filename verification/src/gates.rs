//! Gate types of a circuit, the groups of gates that share a selector polynomial, and lookup
//! tables.

use core::ops::Range;

use vstd::prelude::*;
use vstd::utf8::encode_utf8;

use crate::fri_params::copy_sizes;
use crate::wire::{Buffer, Codec, IoResult};

verus! {

/// A table of `(input, output)` pairs.
pub type LookupTable = Vec<(u16, u16)>;

/// What is known of a gate type outside its own constraints.
#[derive(Debug, PartialEq, Eq)]
pub struct GateRef {
    /// The name of this gate type, with its parameters.
    pub id: String,
    /// The maximum degree among its constraint polynomials.
    pub degree: usize,
    /// The number of constraints it imposes.
    pub num_constraints: usize,
}

/// The value of a [`GateRef`].
pub struct GateView {
    pub id: Seq<char>,
    pub degree: usize,
    pub num_constraints: usize,
}

impl View for GateRef {
    type V = GateView;

    open spec fn view(&self) -> GateView {
        GateView { id: self.id@, degree: self.degree, num_constraints: self.num_constraints }
    }
}

impl DeepView for GateRef {
    type V = GateView;

    open spec fn deep_view(&self) -> GateView {
        self@
    }
}

impl Clone for GateRef {
    fn clone(&self) -> (r: Self)
        ensures
            r@ == self@,
    {
        GateRef {
            id: self.id.clone(),
            degree: self.degree,
            num_constraints: self.num_constraints,
        }
    }
}

/// Lexicographic order of byte strings.
pub open spec fn bytes_less(a: Seq<u8>, b: Seq<u8>) -> bool
    decreases a.len(),
{
    if b.len() == 0 {
        false
    } else if a.len() == 0 {
        true
    } else {
        a[0] < b[0] || (a[0] == b[0] && bytes_less(a.skip(1), b.skip(1)))
    }
}

proof fn lemma_bytes_less_transitive(a: Seq<u8>, b: Seq<u8>, c: Seq<u8>)
    requires
        bytes_less(a, b),
        bytes_less(b, c),
    ensures
        bytes_less(a, c),
    decreases a.len(),
{
    if a.len() > 0 && a[0] == b[0] && b[0] == c[0] {
        lemma_bytes_less_transitive(a.skip(1), b.skip(1), c.skip(1));
    }
}

proof fn lemma_bytes_less_irreflexive(a: Seq<u8>)
    ensures
        !bytes_less(a, a),
    decreases a.len(),
{
    if a.len() > 0 {
        lemma_bytes_less_irreflexive(a.skip(1));
    }
}

fn compare_bytes(a: &[u8], b: &[u8]) -> (r: bool)
    ensures
        r == bytes_less(a@, b@),
{
    let mut i: usize = 0;
    assert(a@.skip(0) =~= a@);
    assert(b@.skip(0) =~= b@);
    while i < a.len() && i < b.len()
        invariant
            i <= a@.len(),
            i <= b@.len(),
            bytes_less(a@, b@) == bytes_less(a@.skip(i as int), b@.skip(i as int)),
        decreases a@.len() - i,
    {
        assert(a@.skip(i as int).skip(1) =~= a@.skip(i + 1));
        assert(b@.skip(i as int).skip(1) =~= b@.skip(i + 1));
        if a[i] != b[i] {
            return a[i] < b[i];
        }
        i = i + 1;
    }
    i < b.len()
}

/// The order of gate types: by degree, then by the bytes of their names.
pub open spec fn gate_less(a: GateView, b: GateView) -> bool {
    a.degree < b.degree || (a.degree == b.degree && bytes_less(
        encode_utf8(a.id),
        encode_utf8(b.id),
    ))
}

pub proof fn lemma_gate_less_transitive(a: GateView, b: GateView, c: GateView)
    requires
        gate_less(a, b),
        gate_less(b, c),
    ensures
        gate_less(a, c),
{
    if a.degree == c.degree {
        lemma_bytes_less_transitive(encode_utf8(a.id), encode_utf8(b.id), encode_utf8(c.id));
    }
}

/// Gate types that are ordered differ in degree or in name.
pub proof fn lemma_gate_less_distinct(a: GateView, b: GateView)
    requires
        gate_less(a, b),
    ensures
        a.degree != b.degree || a.id != b.id,
{
    lemma_bytes_less_irreflexive(encode_utf8(a.id));
}

impl GateRef {
    /// Whether this gate type comes before the other.
    pub fn precedes(&self, other: &GateRef) -> (r: bool)
        ensures
            r == gate_less(self@, other@),
    {
        self.degree < other.degree || (self.degree == other.degree && compare_bytes(
            self.id.as_str().as_bytes(),
            other.id.as_str().as_bytes(),
        ))
    }
}

/// Which selector polynomial each gate type uses.
#[derive(Debug, PartialEq, Eq)]
pub struct SelectorsInfo {
    /// For each gate type, the index of its group.
    pub selector_indices: Vec<usize>,
    /// The groups, as ranges of gate types.
    pub groups: Vec<Range<usize>>,
}

/// The value of a [`SelectorsInfo`].
pub struct SelectorsView {
    pub selector_indices: Seq<usize>,
    pub groups: Seq<Range<usize>>,
}

impl View for SelectorsInfo {
    type V = SelectorsView;

    open spec fn view(&self) -> SelectorsView {
        SelectorsView { selector_indices: self.selector_indices@, groups: self.groups@ }
    }
}

impl DeepView for SelectorsInfo {
    type V = SelectorsView;

    open spec fn deep_view(&self) -> SelectorsView {
        self@
    }
}

impl Clone for SelectorsInfo {
    fn clone(&self) -> (r: Self)
        ensures
            r@ == self@,
    {
        let mut groups: Vec<Range<usize>> = Vec::new();
        let mut i: usize = 0;
        while i < self.groups.len()
            invariant
                i <= self.groups@.len(),
                groups@ == self.groups@.take(i as int),
            decreases self.groups@.len() - i,
        {
            groups.push(self.groups[i].start..self.groups[i].end);
            i = i + 1;
            assert(groups@ =~= self.groups@.take(i as int));
        }
        assert(groups@ =~= self.groups@);
        SelectorsInfo { selector_indices: copy_sizes(&self.selector_indices), groups }
    }
}

/// The end points of ranges.
pub open spec fn range_ends(groups: Seq<Range<usize>>) -> Seq<(usize, usize)> {
    groups.map_values(|g: Range<usize>| (g.start, g.end))
}

proof fn lemma_range_ends_injective(a: Seq<Range<usize>>, b: Seq<Range<usize>>)
    requires
        range_ends(a) == range_ends(b),
    ensures
        a == b,
{
    assert(a.len() == range_ends(a).len() && b.len() == range_ends(b).len());
    assert forall|i: int| 0 <= i < a.len() implies a[i] == b[i] by {
        assert(range_ends(a)[i] == range_ends(b)[i]);
    }
    assert(a =~= b);
}

/// The parts of a [`SelectorsInfo`] in the order in which they are written.
pub type SelectorsParts = (Vec<usize>, Vec<(usize, usize)>);

impl Codec for SelectorsInfo {
    open spec fn encodable(v: SelectorsView) -> bool {
        SelectorsParts::encodable((v.selector_indices, range_ends(v.groups)))
    }

    open spec fn encoding(v: SelectorsView) -> Seq<u8> {
        SelectorsParts::encoding((v.selector_indices, range_ends(v.groups)))
    }

    proof fn lemma_encodable(&self) {
        self.selector_indices.lemma_encodable();
        assert(self.selector_indices.deep_view() =~= self.selector_indices@);
        assert(self.groups.len() == self.groups@.len());
    }

    proof fn lemma_prefix_free(a: SelectorsView, b: SelectorsView, s: Seq<u8>) {
        SelectorsParts::lemma_prefix_free(
            (a.selector_indices, range_ends(a.groups)),
            (b.selector_indices, range_ends(b.groups)),
            s,
        );
        lemma_range_ends_injective(a.groups, b.groups);
    }

    fn write(&self, buf: &mut Vec<u8>) {
        let mut ends: Vec<(usize, usize)> = Vec::new();
        let mut i: usize = 0;
        while i < self.groups.len()
            invariant
                i <= self.groups@.len(),
                ends@ == range_ends(self.groups@).take(i as int),
            decreases self.groups@.len() - i,
        {
            ends.push((self.groups[i].start, self.groups[i].end));
            i = i + 1;
            assert(ends@ =~= range_ends(self.groups@).take(i as int));
        }
        self.selector_indices.write(buf);
        ends.write(buf);
        assert(self.selector_indices.deep_view() =~= self.selector_indices@);
        assert(ends.deep_view() =~= range_ends(self.groups@));
        assert(buf@ =~= old(buf)@ + Self::encoding(self@));
    }

    fn read(buf: &mut Buffer<'_>) -> (r: IoResult<Self>) {
        let (selector_indices, ends) = SelectorsParts::read(buf)?;
        let mut groups: Vec<Range<usize>> = Vec::new();
        let mut i: usize = 0;
        while i < ends.len()
            invariant
                i <= ends@.len(),
                groups@.len() == i,
                forall|j: int|
                    0 <= j < i ==> (#[trigger] groups@[j]).start == ends@[j].0 && groups@[j].end
                        == ends@[j].1,
            decreases ends@.len() - i,
        {
            groups.push(ends[i].0..ends[i].1);
            i = i + 1;
        }
        assert(selector_indices.deep_view() =~= selector_indices@);
        assert(range_ends(groups@) =~= ends.deep_view());
        Ok(SelectorsInfo { selector_indices, groups })
    }
}

/// `x` comes before `y` in the order of a dictionary because of what stands at position `k`: up to
/// there they agree, and there `x` ends or has the smaller byte.
pub open spec fn smaller_at(x: Seq<u8>, y: Seq<u8>, k: int) -> bool {
    &&& 0 <= k <= x.len()
    &&& k < y.len()
    &&& forall|i: int| 0 <= i < k ==> #[trigger] x[i] == y[i]
    &&& k == x.len() || x[k] < y[k]
}

proof fn lemma_bytes_less_at(x: Seq<u8>, y: Seq<u8>)
    ensures
        bytes_less(x, y) <==> exists|k: int| #[trigger] smaller_at(x, y, k),
    decreases x.len(),
{
    if y.len() == 0 || x.len() == 0 {
        if y.len() > 0 {
            assert(smaller_at(x, y, 0));
        }
    } else {
        let (a, b) = (x.skip(1), y.skip(1));
        lemma_bytes_less_at(a, b);
        if x[0] < y[0] {
            assert(smaller_at(x, y, 0));
        } else if bytes_less(x, y) {
            let k = choose|k: int| #[trigger] smaller_at(a, b, k);
            assert forall|i: int| 0 <= i < k + 1 implies #[trigger] x[i] == y[i] by {
                if i > 0 {
                    assert(a[i - 1] == b[i - 1]);
                }
            }
            assert(smaller_at(x, y, k + 1));
        }
        if exists|k: int| #[trigger] smaller_at(x, y, k) {
            let k = choose|k: int| #[trigger] smaller_at(x, y, k);
            if k > 0 {
                assert(x[0] == y[0]);
                assert forall|i: int| 0 <= i < k - 1 implies #[trigger] a[i] == b[i] by {
                    assert(x[i + 1] == y[i + 1]);
                }
                assert(smaller_at(a, b, k - 1));
            }
        }
    }
}

/// The order of gate types: the smaller degree comes first, and among gate types of one degree the
/// name that comes first in a dictionary of bytes.
pub proof fn law_gate_order(a: &GateRef, b: &GateRef, r: bool)
    requires
        call_ensures(GateRef::precedes, (a, b), r),
    ensures
        a.degree < b.degree ==> r,
        a.degree > b.degree ==> !r,
        a.degree == b.degree ==> (r <==> exists|k: int| #[trigger]
            smaller_at(encode_utf8(a.id@), encode_utf8(b.id@), k)),
        r == gate_less(a@, b@),
{
    lemma_bytes_less_at(encode_utf8(a.id@), encode_utf8(b.id@));
}

proof fn lemma_bytes_less_total(x: Seq<u8>, y: Seq<u8>)
    ensures
        bytes_less(x, y) || bytes_less(y, x) || x == y,
        !(bytes_less(x, y) && bytes_less(y, x)),
    decreases x.len(),
{
    if x.len() > 0 && y.len() > 0 && x[0] == y[0] {
        lemma_bytes_less_total(x.skip(1), y.skip(1));
        if x.skip(1) == y.skip(1) {
            assert(x =~= seq![x[0]] + x.skip(1));
            assert(y =~= seq![y[0]] + y.skip(1));
        }
    } else if x.len() == 0 && y.len() == 0 {
        assert(x =~= y);
    }
}

/// Of two gate types exactly one comes first, unless they have the same degree and the same name.
pub proof fn law_gate_order_total(a: &GateRef, b: &GateRef, r: bool, s: bool)
    requires
        call_ensures(GateRef::precedes, (a, b), r),
        call_ensures(GateRef::precedes, (b, a), s),
    ensures
        !(r && s),
        r || s <==> a.degree != b.degree || a.id@ != b.id@,
{
    lemma_bytes_less_total(encode_utf8(a.id@), encode_utf8(b.id@));
    vstd::utf8::encode_utf8_decode_utf8(a.id@);
    vstd::utf8::encode_utf8_decode_utf8(b.id@);
    lemma_bytes_less_irreflexive(encode_utf8(a.id@));
}

} // verus!
