//! The sizes that follow from circuit data: degrees, domain sizes, polynomial counts, and the ranges
//! of polynomials within each commitment.

use core::ops::{Range, RangeFrom};

use vstd::arithmetic::power2::pow2;
use vstd::prelude::*;

use crate::common::{CommonCircuitData, CommonView};
use crate::field::{
    has_order_pow2, law_root_of_unity_order, lemma_squared_twice, root_of_unity, squared,
    Extendable, RichField,
};
use crate::fri_params::power_of_two;
use crate::validation::{is_max_degree, max_degree};

verus! {

/// `core::ops::RangeFrom`, whose one public field is where the range starts.
#[verifier::external_type_specification]
#[verifier::reject_recursive_types(Idx)]
pub struct ExRangeFrom<Idx>(RangeFrom<Idx>);

impl CommonView {
    /// The constants polynomials and the sigma polynomials.
    pub open spec fn num_preprocessed_polys(self) -> nat {
        self.num_constants as nat + self.config.num_routed_wires as nat
    }

    /// For each challenge, the `Z` polynomial and its partial products.
    pub open spec fn num_zs_partial_products_polys(self) -> nat {
        self.config.num_challenges as nat * (1 + self.num_partial_products as nat)
    }

    pub open spec fn num_all_lookup_polys(self) -> nat {
        self.config.num_challenges as nat * self.num_lookup_polys as nat
    }

    pub open spec fn num_quotient_polys(self) -> nat {
        self.config.num_challenges as nat * self.quotient_degree_factor as nat
    }

    pub open spec fn zs_partial_products_fit(self) -> bool {
        self.num_partial_products < usize::MAX && self.num_zs_partial_products_polys()
            <= usize::MAX
    }

    /// The polynomials of the oracle of the `Z`s, the partial products and the lookups can be numbered.
    pub open spec fn zs_and_lookups_fit(self) -> bool {
        &&& self.zs_partial_products_fit()
        &&& self.num_zs_partial_products_polys() + self.num_all_lookup_polys() <= usize::MAX
    }

    /// Every polynomial can be numbered.
    pub open spec fn poly_counts_fit(self) -> bool {
        &&& self.num_preprocessed_polys() <= usize::MAX
        &&& self.zs_and_lookups_fit()
        &&& self.num_quotient_polys() <= usize::MAX
    }
}

impl<F: RichField + Extendable<D>, const D: usize> CommonCircuitData<F, D> {
    pub fn degree_bits(&self) -> (r: usize)
        ensures
            r == self.fri_params.degree_bits,
    {
        self.fri_params.degree_bits
    }

    pub fn degree(&self) -> (r: usize)
        requires
            self.fri_params.degree_bits < usize::BITS,
        ensures
            r == pow2(self.fri_params.degree_bits as nat),
    {
        power_of_two(self.degree_bits())
    }

    pub fn lde_size(&self) -> (r: usize)
        requires
            self.fri_params@.lde_bits() < usize::BITS,
        ensures
            r == pow2(self.fri_params@.lde_bits()),
    {
        self.fri_params.lde_size()
    }

    pub fn lde_generator(&self) -> (r: F)
        requires
            self@.lde_domain_exists(F::TWO_ADICITY as nat),
        ensures
            r.deep_view() == root_of_unity::<F>(
                self.fri_params.degree_bits as nat + self.config.fri_config.rate_bits as nat,
            ),
    {
        F::primitive_root_of_unity(self.degree_bits() + self.config.fri_config.rate_bits)
    }

    /// The largest degree among all gate types.
    pub fn constraint_degree(&self) -> (r: usize)
        requires
            self.gates@.len() > 0,
        ensures
            is_max_degree(self@.gates, 0, self@.gates.len() as int, r),
    {
        max_degree(&self.gates, 0, self.gates.len())
    }

    pub fn quotient_degree(&self) -> (r: usize)
        requires
            self.fri_params.degree_bits < usize::BITS,
            self.quotient_degree_factor as nat * pow2(self.fri_params.degree_bits as nat)
                <= usize::MAX,
        ensures
            r == self.quotient_degree_factor as nat * pow2(self.fri_params.degree_bits as nat),
    {
        self.quotient_degree_factor * self.degree()
    }

    /// Range of the constants polynomials in the `constants_sigmas_commitment`.
    pub fn constants_range(&self) -> (r: Range<usize>)
        ensures
            r.start == 0,
            r.end == self.num_constants,
    {
        0..self.num_constants
    }

    /// Range of the sigma polynomials in the `constants_sigmas_commitment`.
    pub fn sigmas_range(&self) -> (r: Range<usize>)
        requires
            self@.num_preprocessed_polys() <= usize::MAX,
        ensures
            r.start == self.num_constants,
            r.end == self.num_constants + self.config.num_routed_wires,
    {
        self.num_constants..self.num_constants + self.config.num_routed_wires
    }

    /// Range of the `z`s polynomials in the `zs_partial_products_commitment`.
    pub fn zs_range(&self) -> (r: Range<usize>)
        ensures
            r.start == 0,
            r.end == self.config.num_challenges,
    {
        0..self.config.num_challenges
    }

    /// Range of the partial products polynomials in the `zs_partial_products_lookup_commitment`.
    pub fn partial_products_range(&self) -> (r: Range<usize>)
        requires
            self@.zs_partial_products_fit(),
        ensures
            r.start == self.config.num_challenges,
            r.end == (self.num_partial_products + 1) * self.config.num_challenges,
    {
        assert((self.num_partial_products + 1) * self.config.num_challenges
            == self.config.num_challenges * (1 + self.num_partial_products)) by (nonlinear_arith);
        self.config.num_challenges..(self.num_partial_products + 1) * self.config.num_challenges
    }

    /// Range of lookup polynomials in the `zs_partial_products_lookup_commitment`.
    pub fn lookup_range(&self) -> (r: RangeFrom<usize>)
        requires
            self@.zs_partial_products_fit(),
        ensures
            r.start == self@.num_zs_partial_products_polys(),
    {
        self.num_zs_partial_products_polys()..
    }

    /// Range of lookup polynomials needed for evaluation at `g * zeta`.
    pub fn next_lookup_range(&self, i: usize) -> (r: Range<usize>)
        requires
            self@.zs_partial_products_fit(),
            self@.num_zs_partial_products_polys() + i * self.num_lookup_polys + 2 <= usize::MAX,
        ensures
            r.start == self@.num_zs_partial_products_polys() + i * self.num_lookup_polys,
            r.end == r.start + 2,
    {
        assert(0 <= i * self.num_lookup_polys) by (nonlinear_arith)
            requires
                0 <= i,
                0 <= self.num_lookup_polys,
        ;
        let start = self.num_zs_partial_products_polys() + i * self.num_lookup_polys;
        start..start + 2
    }

    pub fn num_preprocessed_polys(&self) -> (r: usize)
        requires
            self@.num_preprocessed_polys() <= usize::MAX,
        ensures
            r == self@.num_preprocessed_polys(),
    {
        self.sigmas_range().end
    }

    pub fn num_zs_partial_products_polys(&self) -> (r: usize)
        requires
            self@.zs_partial_products_fit(),
        ensures
            r == self@.num_zs_partial_products_polys(),
    {
        self.config.num_challenges * (1 + self.num_partial_products)
    }

    /// Returns the total number of lookup polynomials.
    pub fn num_all_lookup_polys(&self) -> (r: usize)
        requires
            self@.num_all_lookup_polys() <= usize::MAX,
        ensures
            r == self@.num_all_lookup_polys(),
    {
        self.config.num_challenges * self.num_lookup_polys
    }

    pub fn num_quotient_polys(&self) -> (r: usize)
        requires
            self@.num_quotient_polys() <= usize::MAX,
        ensures
            r == self@.num_quotient_polys(),
    {
        self.config.num_challenges * self.quotient_degree_factor
    }
}

/// For valid data, the generator of the low-degree extension's domain has exactly the order that the
/// domain has elements, and so does the generator of the subgroup that it extends.
pub proof fn law_lde_generator_order<F: RichField + Extendable<D>, const D: usize>(v: CommonView)
    requires
        v.valid(F::TWO_ADICITY as nat),
    ensures
        v.fri_params.lde_bits() == v.fri_params.degree_bits + v.config.fri_config.rate_bits,
        has_order_pow2::<F>(
            root_of_unity::<F>(v.fri_params.lde_bits()),
            v.fri_params.lde_bits(),
        ),
        has_order_pow2::<F>(
            root_of_unity::<F>(v.fri_params.degree_bits as nat),
            v.fri_params.degree_bits as nat,
        ),
{
    law_root_of_unity_order::<F>(v.fri_params.lde_bits());
    law_root_of_unity_order::<F>(v.fri_params.degree_bits as nat);
}

/// The ranges tile the commitments: the sigmas follow the constants and end the preprocessed
/// polynomials, the partial products follow the `Z`s, and the lookup polynomials follow the partial
/// products.
pub proof fn law_ranges_tile<F: RichField + Extendable<D>, const D: usize>(
    common: &CommonCircuitData<F, D>,
    constants: Range<usize>,
    sigmas: Range<usize>,
    zs: Range<usize>,
    partial_products: Range<usize>,
    lookups: RangeFrom<usize>,
)
    requires
        common@.num_preprocessed_polys() <= usize::MAX,
        common@.zs_partial_products_fit(),
        call_ensures(CommonCircuitData::<F, D>::constants_range, (common,), constants),
        call_ensures(CommonCircuitData::<F, D>::sigmas_range, (common,), sigmas),
        call_ensures(CommonCircuitData::<F, D>::zs_range, (common,), zs),
        call_ensures(
            CommonCircuitData::<F, D>::partial_products_range,
            (common,),
            partial_products,
        ),
        call_ensures(CommonCircuitData::<F, D>::lookup_range, (common,), lookups),
    ensures
        constants.start == 0,
        constants.end == sigmas.start,
        sigmas.end == common@.num_preprocessed_polys(),
        zs.start == 0,
        zs.end == partial_products.start,
        partial_products.end == lookups.start,
        lookups.start == common@.num_zs_partial_products_polys(),
{
    assert((common.num_partial_products + 1) * common.config.num_challenges
        == common.config.num_challenges * (1 + common.num_partial_products)) by (nonlinear_arith);
}

/// The lookup polynomials that are opened again for a challenge are among the lookup polynomials, and
/// those of different challenges do not overlap, when a challenge has at least two of them.
pub proof fn law_next_lookup_ranges<F: RichField + Extendable<D>, const D: usize>(
    common: &CommonCircuitData<F, D>,
    i: usize,
    j: usize,
    a: Range<usize>,
    b: Range<usize>,
)
    requires
        common@.zs_and_lookups_fit(),
        common.num_lookup_polys >= 2,
        i < j < common.config.num_challenges,
        call_ensures(CommonCircuitData::<F, D>::next_lookup_range, (common, i), a),
        call_ensures(CommonCircuitData::<F, D>::next_lookup_range, (common, j), b),
    ensures
        common@.num_zs_partial_products_polys() <= a.start < a.end <= b.start < b.end,
        b.end <= common@.num_zs_partial_products_polys() + common@.num_all_lookup_polys(),
{
    let (n, c) = (common.num_lookup_polys as int, common.config.num_challenges as int);
    assert(0 <= i * n && i * n + 2 <= j * n && j * n + 2 <= c * n) by (nonlinear_arith)
        requires
            0 <= i < j < c,
            n >= 2,
    ;
}

/// The degree of the circuit is a power of two, the domain of the low-degree extension is larger by the
/// inverse of the rate, and the quotient is larger by the quotient degree factor.
pub proof fn law_domain_sizes<F: RichField + Extendable<D>, const D: usize>(
    common: &CommonCircuitData<F, D>,
    bits: usize,
    degree: usize,
    lde_size: usize,
    quotient_degree: usize,
)
    requires
        call_ensures(CommonCircuitData::<F, D>::degree_bits, (common,), bits),
        call_ensures(CommonCircuitData::<F, D>::degree, (common,), degree),
    ensures
        bits == common.fri_params.degree_bits,
        degree == pow2(bits as nat),
        call_ensures(CommonCircuitData::<F, D>::lde_size, (common,), lde_size) ==> lde_size
            == degree * pow2(common.fri_params.config.rate_bits as nat),
        call_ensures(CommonCircuitData::<F, D>::quotient_degree, (common,), quotient_degree)
            ==> quotient_degree == degree * common.quotient_degree_factor,
{
    vstd::arithmetic::power2::lemma_pow2_adds(
        common.fri_params.degree_bits as nat,
        common.fri_params.config.rate_bits as nat,
    );
    assert(common.quotient_degree_factor * degree == degree * common.quotient_degree_factor)
        by (nonlinear_arith);
}

/// The constraint degree is reached by some gate type and exceeded by none.
pub proof fn law_constraint_degree<F: RichField + Extendable<D>, const D: usize>(
    common: &CommonCircuitData<F, D>,
    r: usize,
)
    requires
        common.gates@.len() > 0,
        call_ensures(CommonCircuitData::<F, D>::constraint_degree, (common,), r),
    ensures
        forall|i: int| 0 <= i < common.gates@.len() ==> (#[trigger] common.gates@[i]).degree <= r,
        exists|i: int| 0 <= i < common.gates@.len() && (#[trigger] common.gates@[i]).degree == r,
{
    let v = common@.gates;
    let i = choose|i: int| 0 <= i < v.len() && (#[trigger] v[i]).degree == r;
    assert(common.gates@[i].degree == r);
    assert forall|j: int| 0 <= j < common.gates@.len() implies (#[trigger] common.gates@[j]).degree
        <= r by {
        assert(v[j] == common.gates@[j]@);
    }
}

/// The generator of the low-degree extension's domain is the field's generator squared down; it has
/// exactly the order of the domain, and its power by the inverse of the rate generates the subgroup of
/// the circuit.
pub proof fn law_lde_generator<F: RichField + Extendable<D>, const D: usize>(
    common: &CommonCircuitData<F, D>,
    r: F,
)
    requires
        common.fri_params.degree_bits + common.config.fri_config.rate_bits <= F::TWO_ADICITY,
        call_ensures(CommonCircuitData::<F, D>::lde_generator, (common,), r),
    ensures
        ({
            let (n, k) = (
                common.fri_params.degree_bits as nat,
                common.config.fri_config.rate_bits as nat,
            );
            &&& r.deep_view() == squared::<F>(F::generator(), (F::TWO_ADICITY - n - k) as nat)
            &&& squared::<F>(r.deep_view(), n + k) == F::one()
            &&& n + k > 0 ==> squared::<F>(r.deep_view(), (n + k - 1) as nat) != F::one()
            &&& squared::<F>(r.deep_view(), k) == squared::<F>(
                F::generator(),
                (F::TWO_ADICITY - n) as nat,
            )
        }),
{
    let (n, k) = (common.fri_params.degree_bits as nat, common.config.fri_config.rate_bits as nat);
    law_root_of_unity_order::<F>(n + k);
    lemma_squared_twice::<F>(F::generator(), (F::TWO_ADICITY - n - k) as nat, k);
    assert((F::TWO_ADICITY - n - k) as nat + k == (F::TWO_ADICITY - n) as nat);
}

/// How many polynomials the ranges hold: as many constants and sigmas as the circuit has constants and
/// routed wires, one `Z` per challenge, as many partial products per challenge as the circuit needs,
/// and two lookup polynomials that are opened again per challenge.
pub proof fn law_range_lengths<F: RichField + Extendable<D>, const D: usize>(
    common: &CommonCircuitData<F, D>,
    constants: Range<usize>,
    sigmas: Range<usize>,
    zs: Range<usize>,
    partial_products: Range<usize>,
    lookups: RangeFrom<usize>,
    i: usize,
    next_lookups: Range<usize>,
)
    requires
        call_ensures(CommonCircuitData::<F, D>::constants_range, (common,), constants),
        call_ensures(CommonCircuitData::<F, D>::zs_range, (common,), zs),
    ensures
        constants.start == 0,
        constants.end - constants.start == common.num_constants,
        call_ensures(CommonCircuitData::<F, D>::sigmas_range, (common,), sigmas) ==> {
            &&& sigmas.start == constants.end
            &&& sigmas.end - sigmas.start == common.config.num_routed_wires
        },
        zs.start == 0,
        zs.end - zs.start == common.config.num_challenges,
        call_ensures(
            CommonCircuitData::<F, D>::partial_products_range,
            (common,),
            partial_products,
        ) ==> {
            &&& partial_products.start == zs.end
            &&& partial_products.end - partial_products.start == common.config.num_challenges
                * common.num_partial_products
        },
        call_ensures(CommonCircuitData::<F, D>::lookup_range, (common,), lookups) ==> lookups.start
            - zs.end == common.config.num_challenges * common.num_partial_products,
        call_ensures(CommonCircuitData::<F, D>::next_lookup_range, (common, i), next_lookups) ==> {
            &&& next_lookups.start - zs.end == common.config.num_challenges
                * common.num_partial_products + i * common.num_lookup_polys
            &&& next_lookups.end - next_lookups.start == 2
        },
{
    let (c, p) = (common.config.num_challenges as int, common.num_partial_products as int);
    assert((p + 1) * c == c * (1 + p) && c * (1 + p) == c + c * p) by (nonlinear_arith);
}

/// How many polynomials there are of each kind, as a number of polynomials per challenge.
pub proof fn law_polynomial_counts<F: RichField + Extendable<D>, const D: usize>(
    common: &CommonCircuitData<F, D>,
    n: usize,
)
    ensures
        call_ensures(CommonCircuitData::<F, D>::num_preprocessed_polys, (common,), n) ==> n
            == common.num_constants + common.config.num_routed_wires,
        call_ensures(CommonCircuitData::<F, D>::num_zs_partial_products_polys, (common,), n) ==> n
            == common.config.num_challenges + common.config.num_challenges
            * common.num_partial_products,
        call_ensures(CommonCircuitData::<F, D>::num_all_lookup_polys, (common,), n) ==> n
            == common.config.num_challenges * common.num_lookup_polys,
        call_ensures(CommonCircuitData::<F, D>::num_quotient_polys, (common,), n) ==> n
            == common.config.num_challenges * common.quotient_degree_factor,
{
    let (c, p) = (common.config.num_challenges as int, common.num_partial_products as int);
    assert(c * (1 + p) == c + c * p) by (nonlinear_arith);
}

} // verus!
