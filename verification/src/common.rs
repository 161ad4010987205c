//! Circuit data required by both the prover and the verifier.

use vstd::prelude::*;

use crate::config::{CircuitConfig, CircuitConfigView};
use crate::field::{Extendable, RichField};
use crate::fri_params::{FriParams, FriParamsView};
use crate::gates::{GateRef, GateView, LookupTable, SelectorsInfo, SelectorsView};

verus! {

/// Circuit data required by both the prover and the verifier.
#[derive(Debug, PartialEq, Eq)]
#[verifier::reject_recursive_types(F)]
pub struct CommonCircuitData<F: RichField + Extendable<D>, const D: usize> {
    pub config: CircuitConfig,
    pub fri_params: FriParams,
    /// The types of gates used in this circuit.
    pub gates: Vec<GateRef>,
    /// Information on the circuit's selector polynomials.
    pub selectors_info: SelectorsInfo,
    /// The degree of the PLONK quotient polynomial.
    pub quotient_degree_factor: usize,
    /// The largest number of constraints imposed by any gate.
    pub num_gate_constraints: usize,
    /// The number of constant wires.
    pub num_constants: usize,
    pub num_public_inputs: usize,
    /// The `{k_i}` valued used in `S_ID_i` in Plonk's permutation argument.
    pub k_is: Vec<F>,
    /// The number of partial products needed to compute the `Z` polynomials.
    pub num_partial_products: usize,
    /// The number of lookup polynomials.
    pub num_lookup_polys: usize,
    /// The number of lookup selectors.
    pub num_lookup_selectors: usize,
    /// The stored lookup tables.
    pub luts: Vec<LookupTable>,
}

/// The value of a [`CommonCircuitData`].
pub struct CommonView {
    pub config: CircuitConfigView,
    pub fri_params: FriParamsView,
    pub gates: Seq<GateView>,
    pub selectors_info: SelectorsView,
    pub quotient_degree_factor: usize,
    pub num_gate_constraints: usize,
    pub num_constants: usize,
    pub num_public_inputs: usize,
    pub k_is: Seq<nat>,
    pub num_partial_products: usize,
    pub num_lookup_polys: usize,
    pub num_lookup_selectors: usize,
    pub luts: Seq<Seq<(u16, u16)>>,
}

impl<F: RichField + Extendable<D>, const D: usize> View for CommonCircuitData<F, D> {
    type V = CommonView;

    open spec fn view(&self) -> CommonView {
        CommonView {
            config: self.config@,
            fri_params: self.fri_params@,
            gates: self.gates.deep_view(),
            selectors_info: self.selectors_info@,
            quotient_degree_factor: self.quotient_degree_factor,
            num_gate_constraints: self.num_gate_constraints,
            num_constants: self.num_constants,
            num_public_inputs: self.num_public_inputs,
            k_is: self.k_is.deep_view(),
            num_partial_products: self.num_partial_products,
            num_lookup_polys: self.num_lookup_polys,
            num_lookup_selectors: self.num_lookup_selectors,
            luts: self.luts.deep_view(),
        }
    }
}

/// A copy of a list of copyable elements.
pub fn copy_list<T: Copy>(a: &Vec<T>) -> (r: Vec<T>)
    ensures
        r@ == a@,
{
    let mut r: Vec<T> = Vec::new();
    let mut i: usize = 0;
    while i < a.len()
        invariant
            i <= a@.len(),
            r@ == a@.take(i as int),
        decreases a@.len() - i,
    {
        r.push(a[i]);
        i = i + 1;
        assert(r@ =~= a@.take(i as int));
    }
    assert(r@ =~= a@);
    r
}

impl<F: RichField + Extendable<D>, const D: usize> Clone for CommonCircuitData<F, D> {
    fn clone(&self) -> (r: Self)
        ensures
            r@ == self@,
    {
        let mut gates: Vec<GateRef> = Vec::new();
        let mut i: usize = 0;
        while i < self.gates.len()
            invariant
                i <= self.gates@.len(),
                gates@.len() == i,
                forall|j: int| 0 <= j < i ==> (#[trigger] gates@[j])@ == self.gates@[j]@,
            decreases self.gates@.len() - i,
        {
            gates.push(self.gates[i].clone());
            i = i + 1;
        }
        let mut luts: Vec<LookupTable> = Vec::new();
        let mut i: usize = 0;
        while i < self.luts.len()
            invariant
                i <= self.luts@.len(),
                luts@.len() == i,
                forall|j: int| 0 <= j < i ==> (#[trigger] luts@[j])@ == self.luts@[j]@,
            decreases self.luts@.len() - i,
        {
            luts.push(copy_list(&self.luts[i]));
            i = i + 1;
        }
        let r = CommonCircuitData {
            config: self.config.clone(),
            fri_params: self.fri_params.clone(),
            gates,
            selectors_info: self.selectors_info.clone(),
            quotient_degree_factor: self.quotient_degree_factor,
            num_gate_constraints: self.num_gate_constraints,
            num_constants: self.num_constants,
            num_public_inputs: self.num_public_inputs,
            k_is: copy_list(&self.k_is),
            num_partial_products: self.num_partial_products,
            num_lookup_polys: self.num_lookup_polys,
            num_lookup_selectors: self.num_lookup_selectors,
            luts,
        };
        assert(r.gates.deep_view() =~= self.gates.deep_view());
        assert(r.k_is.deep_view() =~= self.k_is.deep_view());
        assert forall|j: int| 0 <= j < luts@.len() implies #[trigger] luts@[j].deep_view()
            == self.luts@[j].deep_view() by {
            assert(luts@[j]@ == self.luts@[j]@);
        }
        assert(r.luts.deep_view() =~= self.luts.deep_view());
        r
    }
}

/// The value of common data is made of all its fields: data of one value agree in each of them.
pub proof fn law_common_value<F: RichField + Extendable<D>, const D: usize>(
    a: &CommonCircuitData<F, D>,
    b: &CommonCircuitData<F, D>,
)
    requires
        a@ == b@,
    ensures
        a.config@ == b.config@,
        a.fri_params@ == b.fri_params@,
        a.gates@.len() == b.gates@.len(),
        forall|i: int|
            0 <= i < a.gates@.len() ==> {
                &&& (#[trigger] a.gates@[i]).id@ == b.gates@[i].id@
                &&& a.gates@[i].degree == b.gates@[i].degree
                &&& a.gates@[i].num_constraints == b.gates@[i].num_constraints
            },
        a.selectors_info.selector_indices@ == b.selectors_info.selector_indices@,
        a.selectors_info.groups@ == b.selectors_info.groups@,
        a.quotient_degree_factor == b.quotient_degree_factor,
        a.num_gate_constraints == b.num_gate_constraints,
        a.num_constants == b.num_constants,
        a.num_public_inputs == b.num_public_inputs,
        a.k_is@.len() == b.k_is@.len(),
        forall|i: int|
            0 <= i < a.k_is@.len() ==> (#[trigger] a.k_is@[i]).deep_view()
                == b.k_is@[i].deep_view(),
        a.num_partial_products == b.num_partial_products,
        a.num_lookup_polys == b.num_lookup_polys,
        a.num_lookup_selectors == b.num_lookup_selectors,
        a.luts@.len() == b.luts@.len(),
        forall|i: int| 0 <= i < a.luts@.len() ==> (#[trigger] a.luts@[i])@ == b.luts@[i]@,
{
    let (v, w) = (a@, b@);
    assert(v.gates.len() == a.gates@.len() && w.gates.len() == b.gates@.len());
    assert(v.k_is.len() == a.k_is@.len() && w.k_is.len() == b.k_is@.len());
    assert(v.luts.len() == a.luts@.len() && w.luts.len() == b.luts@.len());
    assert forall|i: int| 0 <= i < a.gates@.len() implies {
        &&& (#[trigger] a.gates@[i]).id@ == b.gates@[i].id@
        &&& a.gates@[i].degree == b.gates@[i].degree
        &&& a.gates@[i].num_constraints == b.gates@[i].num_constraints
    } by {
        assert(v.gates[i] == a.gates@[i]@ && w.gates[i] == b.gates@[i]@);
    }
    assert forall|i: int| 0 <= i < a.k_is@.len() implies (#[trigger] a.k_is@[i]).deep_view()
        == b.k_is@[i].deep_view() by {
        assert(v.k_is[i] == a.k_is@[i].deep_view() && w.k_is[i] == b.k_is@[i].deep_view());
    }
    assert forall|i: int| 0 <= i < a.luts@.len() implies (#[trigger] a.luts@[i])@
        == b.luts@[i]@ by {
        assert(v.luts[i] == a.luts@[i].deep_view() && w.luts[i] == b.luts@[i].deep_view());
        let (x, y) = (a.luts@[i], b.luts@[i]);
        assert forall|j: int| 0 <= j < x@.len() implies x@[j] == y@[j] by {
            assert(v.luts[i][j] == x@[j] && w.luts[i][j] == y@[j]);
        }
        assert(x@.len() == v.luts[i].len() && y@.len() == w.luts[i].len());
        assert(x@ =~= y@);
    }
}

/// A copy of common data has the same value.
pub proof fn law_common_copy<F: RichField + Extendable<D>, const D: usize>(
    a: &CommonCircuitData<F, D>,
    b: CommonCircuitData<F, D>,
)
    requires
        call_ensures(<CommonCircuitData<F, D> as Clone>::clone, (a,), b),
    ensures
        b@ == a@,
{
}

} // verus!
