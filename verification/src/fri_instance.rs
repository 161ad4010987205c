//! What the prover opens and the verifier checks with FRI: the committed oracles, and for each
//! opening point the polynomials that are opened there.

use core::ops::Range;

use vstd::prelude::*;

use crate::common::{CommonCircuitData, CommonView};
use crate::field::{
    has_order_pow2, law_extension_root_of_unity, law_root_of_unity_order, law_shifted_point,
    root_of_unity, squared, Extendable, Field, FieldModel, RichField,
};
use crate::target::{ExtensionBuilder, ExtensionTarget};

verus! {

/// The index of the oracle of the constants and sigma polynomials. It is not blinded.
pub const CONSTANTS_SIGMAS: usize = 0;

/// The index of the oracle of the wire polynomials.
pub const WIRES: usize = 1;

/// The index of the oracle of the `Z`, partial product and lookup polynomials.
pub const ZS_PARTIAL_PRODUCTS: usize = 2;

/// The index of the oracle of the quotient polynomials.
pub const QUOTIENT: usize = 3;

/// A committed batch of polynomials.
#[derive(Clone, Copy, Debug, PartialEq, Eq, Structural)]
pub struct FriOracleInfo {
    pub num_polys: usize,
    pub blinding: bool,
}

/// One polynomial of one oracle.
#[derive(Clone, Copy, Debug, PartialEq, Eq, Structural)]
pub struct FriPolynomialInfo {
    /// Index into the oracles of the instance.
    pub oracle_index: usize,
    /// Index of the polynomial within the oracle.
    pub polynomial_index: usize,
}

/// The polynomials `lo`, ..., `hi - 1` of an oracle, in order.
pub open spec fn oracle_polys(oracle_index: usize, lo: nat, hi: nat) -> Seq<FriPolynomialInfo> {
    Seq::new(
        if lo <= hi {
            (hi - lo) as nat
        } else {
            0
        },
        |i: int| FriPolynomialInfo { oracle_index, polynomial_index: (lo + i) as usize },
    )
}

impl FriPolynomialInfo {
    pub fn from_range(oracle_index: usize, polynomial_indices: Range<usize>) -> (r: Vec<Self>)
        ensures
            r@ == oracle_polys(
                oracle_index,
                polynomial_indices.start as nat,
                polynomial_indices.end as nat,
            ),
    {
        let (lo, hi) = (polynomial_indices.start, polynomial_indices.end);
        let ghost all = oracle_polys(oracle_index, lo as nat, hi as nat);
        let mut r: Vec<FriPolynomialInfo> = Vec::new();
        let mut i: usize = lo;
        while i < hi
            invariant
                lo <= i,
                i <= hi || hi < lo,
                hi < lo ==> i == lo,
                all == oracle_polys(oracle_index, lo as nat, hi as nat),
                r@ == all.take(i - lo),
            decreases hi - i,
        {
            r.push(FriPolynomialInfo { oracle_index, polynomial_index: i });
            i = i + 1;
            assert(r@ =~= all.take(i - lo));
        }
        assert(r@ =~= all);
        r
    }
}

/// A point and the polynomials that are opened there.
#[derive(Debug, PartialEq, Eq)]
#[verifier::reject_recursive_types(F)]
pub struct FriBatchInfo<F: RichField + Extendable<D>, const D: usize> {
    pub point: F::Extension,
    pub polynomials: Vec<FriPolynomialInfo>,
}

/// The oracles and the batches of openings.
#[derive(Debug, PartialEq, Eq)]
#[verifier::reject_recursive_types(F)]
pub struct FriInstanceInfo<F: RichField + Extendable<D>, const D: usize> {
    pub oracles: Vec<FriOracleInfo>,
    pub batches: Vec<FriBatchInfo<F, D>>,
}

/// A [`FriBatchInfo`] inside a recursive circuit.
#[derive(Debug, PartialEq, Eq)]
pub struct FriBatchInfoTarget<const D: usize> {
    pub point: ExtensionTarget<D>,
    pub polynomials: Vec<FriPolynomialInfo>,
}

/// A [`FriInstanceInfo`] inside a recursive circuit.
#[derive(Debug, PartialEq, Eq)]
pub struct FriInstanceInfoTarget<const D: usize> {
    pub oracles: Vec<FriOracleInfo>,
    pub batches: Vec<FriBatchInfoTarget<D>>,
}

impl CommonView {
    /// The four oracles.
    pub open spec fn fri_oracles(self) -> Seq<FriOracleInfo> {
        seq![
            FriOracleInfo { num_polys: self.num_preprocessed_polys() as usize, blinding: false },
            FriOracleInfo { num_polys: self.config.num_wires, blinding: true },
            FriOracleInfo {
                num_polys: (self.num_zs_partial_products_polys()
                    + self.num_all_lookup_polys()) as usize,
                blinding: true,
            },
            FriOracleInfo { num_polys: self.num_quotient_polys() as usize, blinding: true },
        ]
    }

    pub open spec fn fri_preprocessed_polys(self) -> Seq<FriPolynomialInfo> {
        oracle_polys(CONSTANTS_SIGMAS, 0, self.num_preprocessed_polys())
    }

    pub open spec fn fri_wire_polys(self) -> Seq<FriPolynomialInfo> {
        oracle_polys(WIRES, 0, self.config.num_wires as nat)
    }

    pub open spec fn fri_zs_partial_products_polys(self) -> Seq<FriPolynomialInfo> {
        oracle_polys(ZS_PARTIAL_PRODUCTS, 0, self.num_zs_partial_products_polys())
    }

    pub open spec fn fri_zs_polys(self) -> Seq<FriPolynomialInfo> {
        oracle_polys(ZS_PARTIAL_PRODUCTS, 0, self.config.num_challenges as nat)
    }

    pub open spec fn fri_quotient_polys(self) -> Seq<FriPolynomialInfo> {
        oracle_polys(QUOTIENT, 0, self.num_quotient_polys())
    }

    /// The lookup polynomials follow the `Z`s and partial products in their oracle.
    pub open spec fn fri_lookup_polys(self) -> Seq<FriPolynomialInfo> {
        oracle_polys(
            ZS_PARTIAL_PRODUCTS,
            self.num_zs_partial_products_polys(),
            self.num_zs_partial_products_polys() + self.num_all_lookup_polys(),
        )
    }

    /// What is opened at `zeta`.
    pub open spec fn fri_all_polys(self) -> Seq<FriPolynomialInfo> {
        self.fri_preprocessed_polys() + self.fri_wire_polys()
            + self.fri_zs_partial_products_polys() + self.fri_quotient_polys()
            + self.fri_lookup_polys()
    }

    /// What is also opened at `g * zeta`.
    pub open spec fn fri_next_batch_polys(self) -> Seq<FriPolynomialInfo> {
        self.fri_zs_polys() + self.fri_lookup_polys()
    }
}

impl<F: RichField + Extendable<D>, const D: usize> CommonCircuitData<F, D> {
    pub fn get_fri_instance(&self, zeta: F::Extension) -> (r: FriInstanceInfo<F, D>)
        requires
            self@.poly_counts_fit(),
            self.fri_params.degree_bits <= <F::Extension as Field>::TWO_ADICITY,
        ensures
            r.oracles@ == self@.fri_oracles(),
            r.batches@.len() == 2,
            r.batches@[0].point == zeta,
            r.batches@[0].polynomials@ == self@.fri_all_polys(),
            r.batches@[1].point.deep_view() == <F::Extension as FieldModel>::product(
                root_of_unity::<F::Extension>(self.fri_params.degree_bits as nat),
                zeta.deep_view(),
            ),
            r.batches@[1].polynomials@ == self@.fri_next_batch_polys(),
    {
        // All polynomials are opened at zeta.
        let zeta_batch = FriBatchInfo { point: zeta, polynomials: self.fri_all_polys() };

        // The Z polynomials are also opened at g * zeta.
        let g = <F::Extension as Field>::primitive_root_of_unity(self.degree_bits());
        let zeta_next = g.times(zeta);
        let zeta_next_batch = FriBatchInfo {
            point: zeta_next,
            polynomials: self.fri_next_batch_polys(),
        };

        let openings: Vec<FriBatchInfo<F, D>> = vec![zeta_batch, zeta_next_batch];
        FriInstanceInfo { oracles: self.fri_oracles(), batches: openings }
    }

    /// The same instance inside a recursive circuit. The circuit builder computes the second point,
    /// and is handed back as it is after that.
    pub fn get_fri_instance_target<B: ExtensionBuilder<F, D>>(
        &self,
        builder: B,
        zeta: ExtensionTarget<D>,
    ) -> (r: (FriInstanceInfoTarget<D>, B))
        requires
            self@.poly_counts_fit(),
            self.fri_params.degree_bits <= F::TWO_ADICITY,
        ensures
            r.0.oracles@ == self@.fri_oracles(),
            r.0.batches@.len() == 2,
            r.0.batches@[0].point == zeta,
            r.0.batches@[0].polynomials@ == self@.fri_all_polys(),
            exists|g: F|
                #![trigger g.deep_view()]
                g.deep_view() == root_of_unity::<F>(self.fri_params.degree_bits as nat)
                    && call_ensures(
                    B::mul_const_extension,
                    (builder, g, zeta),
                    (r.0.batches@[1].point, r.1),
                ),
            r.0.batches@[1].polynomials@ == self@.fri_next_batch_polys(),
    {
        // All polynomials are opened at zeta.
        let zeta_batch = FriBatchInfoTarget { point: zeta, polynomials: self.fri_all_polys() };

        // The Z polynomials are also opened at g * zeta.
        let g = F::primitive_root_of_unity(self.degree_bits());
        let (zeta_next, builder_after) = builder.mul_const_extension(g, zeta);
        let zeta_next_batch = FriBatchInfoTarget {
            point: zeta_next,
            polynomials: self.fri_next_batch_polys(),
        };

        let openings: Vec<FriBatchInfoTarget<D>> = vec![zeta_batch, zeta_next_batch];
        let instance = FriInstanceInfoTarget { oracles: self.fri_oracles(), batches: openings };
        assert(instance.batches@[1].point == zeta_next);
        (instance, builder_after)
    }

    pub fn fri_oracles(&self) -> (r: Vec<FriOracleInfo>)
        requires
            self@.poly_counts_fit(),
        ensures
            r@ == self@.fri_oracles(),
    {
        let r: Vec<FriOracleInfo> =
            vec![
            FriOracleInfo { num_polys: self.num_preprocessed_polys(), blinding: false },
            FriOracleInfo { num_polys: self.config.num_wires, blinding: true },
            FriOracleInfo {
                num_polys: self.num_zs_partial_products_polys() + self.num_all_lookup_polys(),
                blinding: true,
            },
            FriOracleInfo { num_polys: self.num_quotient_polys(), blinding: true },
        ];
        assert(r@ =~= self@.fri_oracles());
        r
    }

    fn fri_preprocessed_polys(&self) -> (r: Vec<FriPolynomialInfo>)
        requires
            self@.num_preprocessed_polys() <= usize::MAX,
        ensures
            r@ == self@.fri_preprocessed_polys(),
    {
        FriPolynomialInfo::from_range(CONSTANTS_SIGMAS, 0..self.num_preprocessed_polys())
    }

    fn fri_wire_polys(&self) -> (r: Vec<FriPolynomialInfo>)
        ensures
            r@ == self@.fri_wire_polys(),
    {
        let num_wire_polys = self.config.num_wires;
        FriPolynomialInfo::from_range(WIRES, 0..num_wire_polys)
    }

    fn fri_zs_partial_products_polys(&self) -> (r: Vec<FriPolynomialInfo>)
        requires
            self@.zs_partial_products_fit(),
        ensures
            r@ == self@.fri_zs_partial_products_polys(),
    {
        FriPolynomialInfo::from_range(ZS_PARTIAL_PRODUCTS, 0..self.num_zs_partial_products_polys())
    }

    fn fri_zs_polys(&self) -> (r: Vec<FriPolynomialInfo>)
        ensures
            r@ == self@.fri_zs_polys(),
    {
        FriPolynomialInfo::from_range(ZS_PARTIAL_PRODUCTS, self.zs_range())
    }

    /// Returns polynomials that require evaluation at `zeta` and `g * zeta`.
    pub fn fri_next_batch_polys(&self) -> (r: Vec<FriPolynomialInfo>)
        requires
            self@.zs_and_lookups_fit(),
        ensures
            r@ == self@.fri_next_batch_polys(),
    {
        let mut r = self.fri_zs_polys();
        let mut lookups = self.fri_lookup_polys();
        r.append(&mut lookups);
        r
    }

    fn fri_quotient_polys(&self) -> (r: Vec<FriPolynomialInfo>)
        requires
            self@.num_quotient_polys() <= usize::MAX,
        ensures
            r@ == self@.fri_quotient_polys(),
    {
        FriPolynomialInfo::from_range(QUOTIENT, 0..self.num_quotient_polys())
    }

    /// Returns the information for lookup polynomials, i.e. the index within the oracle and the
    /// indices of the polynomials within the commitment.
    fn fri_lookup_polys(&self) -> (r: Vec<FriPolynomialInfo>)
        requires
            self@.zs_and_lookups_fit(),
        ensures
            r@ == self@.fri_lookup_polys(),
    {
        let start = self.num_zs_partial_products_polys();
        FriPolynomialInfo::from_range(
            ZS_PARTIAL_PRODUCTS,
            start..start + self.num_all_lookup_polys(),
        )
    }

    pub fn fri_all_polys(&self) -> (r: Vec<FriPolynomialInfo>)
        requires
            self@.poly_counts_fit(),
        ensures
            r@ == self@.fri_all_polys(),
    {
        let mut r = self.fri_preprocessed_polys();
        let mut wires = self.fri_wire_polys();
        let mut zs_partial_products = self.fri_zs_partial_products_polys();
        let mut quotients = self.fri_quotient_polys();
        let mut lookups = self.fri_lookup_polys();
        r.append(&mut wires);
        r.append(&mut zs_partial_products);
        r.append(&mut quotients);
        r.append(&mut lookups);
        r
    }
}

/// Every opened polynomial is one of those that its oracle commits to.
pub proof fn law_openings_within_oracles(v: CommonView, p: FriPolynomialInfo)
    requires
        v.poly_counts_fit(),
        v.fri_all_polys().contains(p),
    ensures
        p.oracle_index < v.fri_oracles().len(),
        p.polynomial_index < v.fri_oracles()[p.oracle_index as int].num_polys,
{
    let i = choose|i: int| 0 <= i < v.fri_all_polys().len() && v.fri_all_polys()[i] == p;
    assert(v.fri_all_polys()[i] == p);
}

/// Every polynomial of every oracle is opened at `zeta`.
pub proof fn law_every_polynomial_opened(v: CommonView, p: FriPolynomialInfo)
    requires
        v.poly_counts_fit(),
        p.oracle_index < v.fri_oracles().len(),
        p.polynomial_index < v.fri_oracles()[p.oracle_index as int].num_polys,
    ensures
        v.fri_all_polys().contains(p),
{
    let (a, b, c, d) = (
        v.fri_preprocessed_polys().len() as int,
        v.fri_wire_polys().len() as int,
        v.fri_zs_partial_products_polys().len() as int,
        v.fri_quotient_polys().len() as int,
    );
    let k = p.polynomial_index as int;
    let at = if p.oracle_index == CONSTANTS_SIGMAS {
        k
    } else if p.oracle_index == WIRES {
        a + k
    } else if p.oracle_index == QUOTIENT {
        a + b + c + k
    } else if k < c {
        a + b + k
    } else {
        a + b + d + k
    };
    assert(v.fri_all_polys()[at] == p);
}

/// No polynomial is opened twice at `zeta`.
pub proof fn law_no_polynomial_opened_twice(v: CommonView, i: int, j: int)
    requires
        v.poly_counts_fit(),
        0 <= i < j < v.fri_all_polys().len(),
    ensures
        v.fri_all_polys()[i] != v.fri_all_polys()[j],
{
}

/// What is opened at `g * zeta` is also opened at `zeta`.
pub proof fn law_next_batch_also_at_zeta(v: CommonView, p: FriPolynomialInfo)
    requires
        v.poly_counts_fit(),
        v.fri_next_batch_polys().contains(p),
    ensures
        v.fri_all_polys().contains(p),
{
    let i = choose|i: int|
        0 <= i < v.fri_next_batch_polys().len() && v.fri_next_batch_polys()[i] == p;
    assert(v.config.num_challenges as nat <= v.num_zs_partial_products_polys())
        by (nonlinear_arith)
        requires
            v.num_zs_partial_products_polys() == v.config.num_challenges as nat * (1
                + v.num_partial_products as nat),
    ;
    law_every_polynomial_opened(v, p);
}

/// The factor between the two opening points is the same inside and outside a recursive circuit, and
/// its order is the degree of the circuit.
pub proof fn law_next_point_factor<F: RichField + Extendable<D>, const D: usize>(degree_bits: nat)
    requires
        degree_bits <= F::TWO_ADICITY,
    ensures
        root_of_unity::<F::Extension>(degree_bits) == F::embed(root_of_unity::<F>(degree_bits)),
        has_order_pow2::<F>(root_of_unity::<F>(degree_bits), degree_bits),
        has_order_pow2::<F::Extension>(root_of_unity::<F::Extension>(degree_bits), degree_bits),
{
    F::lemma_embed_generator();
    law_extension_root_of_unity::<F, D>(degree_bits);
    law_root_of_unity_order::<F>(degree_bits);
    law_root_of_unity_order::<F::Extension>(degree_bits);
}

/// The second opening point is the first one shifted by an element whose order is exactly the degree
/// of the circuit: the two points have the same power `2^degree_bits`, and unless the first is zero
/// they differ in the power `2^(degree_bits - 1)`.
pub proof fn law_next_point<F: RichField + Extendable<D>, const D: usize>(
    common: &CommonCircuitData<F, D>,
    zeta: F::Extension,
    r: FriInstanceInfo<F, D>,
)
    requires
        common@.poly_counts_fit(),
        common.fri_params.degree_bits <= <F::Extension as Field>::TWO_ADICITY,
        call_ensures(CommonCircuitData::<F, D>::get_fri_instance, (common, zeta), r),
    ensures
        ({
            let n = common.fri_params.degree_bits as nat;
            let (point, next) = (zeta.deep_view(), r.batches@[1].point.deep_view());
            &&& squared::<F::Extension>(next, n) == squared::<F::Extension>(point, n)
            &&& n > 0 && point != <F::Extension as FieldModel>::zero() ==> squared::<F::Extension>(
                next,
                (n - 1) as nat,
            ) != squared::<F::Extension>(point, (n - 1) as nat)
        }),
{
    zeta.lemma_contains();
    law_shifted_point::<F::Extension>(common.fri_params.degree_bits as nat, zeta.deep_view());
}

/// The bounds on the fields under which every polynomial can be numbered.
proof fn lemma_counts_fit<F: RichField + Extendable<D>, const D: usize>(
    common: &CommonCircuitData<F, D>,
)
    requires
        common.num_constants + common.config.num_routed_wires <= usize::MAX,
        common.num_partial_products < usize::MAX,
        common.config.num_challenges * (1 + common.num_partial_products)
            + common.config.num_challenges * common.num_lookup_polys <= usize::MAX,
        common.config.num_challenges * common.quotient_degree_factor <= usize::MAX,
    ensures
        common@.poly_counts_fit(),
        0 <= common.config.num_challenges * common.num_lookup_polys,
        0 <= common.config.num_challenges * common.quotient_degree_factor,
        common.config.num_challenges <= common.config.num_challenges * (1
            + common.num_partial_products),
{
    let (c, p, l, q) = (
        common.config.num_challenges as int,
        common.num_partial_products as int,
        common.num_lookup_polys as int,
        common.quotient_degree_factor as int,
    );
    assert(0 <= c * l && 0 <= c * q && c <= c * (1 + p)) by (nonlinear_arith)
        requires
            0 <= c,
            0 <= p,
            0 <= l,
            0 <= q,
    ;
}

/// The polynomials of a range are as many as it has indices, one for each, in order.
pub proof fn law_from_range(
    oracle_index: usize,
    polynomial_indices: Range<usize>,
    r: Vec<FriPolynomialInfo>,
)
    requires
        call_ensures(FriPolynomialInfo::from_range, (oracle_index, polynomial_indices), r),
    ensures
        polynomial_indices.start <= polynomial_indices.end ==> r@.len() == polynomial_indices.end
            - polynomial_indices.start,
        polynomial_indices.start > polynomial_indices.end ==> r@.len() == 0,
        forall|i: int|
            0 <= i < r@.len() ==> (#[trigger] r@[i]).oracle_index == oracle_index
                && r@[i].polynomial_index == polynomial_indices.start + i,
{
}

/// What each oracle commits to, in terms of the circuit: the constants and a sigma for each routed
/// wire; the wires; per challenge a `Z`, its partial products and the lookup polynomials; and per
/// challenge the chunks of the quotient. The preprocessed polynomials alone are not blinded.
pub proof fn law_oracles<F: RichField + Extendable<D>, const D: usize>(
    common: &CommonCircuitData<F, D>,
    r: Vec<FriOracleInfo>,
)
    requires
        common.num_constants + common.config.num_routed_wires <= usize::MAX,
        common.num_partial_products < usize::MAX,
        common.config.num_challenges * (1 + common.num_partial_products)
            + common.config.num_challenges * common.num_lookup_polys <= usize::MAX,
        common.config.num_challenges * common.quotient_degree_factor <= usize::MAX,
        call_ensures(CommonCircuitData::<F, D>::fri_oracles, (common,), r),
    ensures
        r@.len() == 4,
        r@[0].num_polys == common.num_constants + common.config.num_routed_wires,
        r@[1].num_polys == common.config.num_wires,
        r@[2].num_polys == common.config.num_challenges * (1 + common.num_partial_products
            + common.num_lookup_polys),
        r@[3].num_polys == common.config.num_challenges * common.quotient_degree_factor,
        forall|i: int| 0 <= i < 4 ==> ((#[trigger] r@[i]).blinding <==> i != 0),
{
    lemma_counts_fit(common);
    let (c, p, l) = (
        common.config.num_challenges as int,
        common.num_partial_products as int,
        common.num_lookup_polys as int,
    );
    assert(c * (1 + p + l) == c * (1 + p) + c * l) by (nonlinear_arith);
}

/// Where each polynomial stands among those that are opened at `zeta`: first the preprocessed
/// polynomials, then the wires, then the `Z`s and partial products, then the quotient, and last the
/// lookup polynomials, which lie behind the partial products in their oracle.
pub proof fn law_opened_at_zeta<F: RichField + Extendable<D>, const D: usize>(
    common: &CommonCircuitData<F, D>,
    r: Vec<FriPolynomialInfo>,
)
    requires
        common.num_constants + common.config.num_routed_wires <= usize::MAX,
        common.num_partial_products < usize::MAX,
        common.config.num_challenges * (1 + common.num_partial_products)
            + common.config.num_challenges * common.num_lookup_polys <= usize::MAX,
        common.config.num_challenges * common.quotient_degree_factor <= usize::MAX,
        call_ensures(CommonCircuitData::<F, D>::fri_all_polys, (common,), r),
    ensures
        ({
            let preprocessed = common.num_constants + common.config.num_routed_wires;
            let wires = common.config.num_wires as int;
            let zs = common.config.num_challenges * (1 + common.num_partial_products);
            let quotients = common.config.num_challenges * common.quotient_degree_factor;
            let lookups = common.config.num_challenges * common.num_lookup_polys;
            &&& r@.len() == preprocessed + wires + zs + quotients + lookups
            &&& forall|i: int|
                0 <= i < r@.len() ==> {
                    let (oracle, at) = if i < preprocessed {
                        (0int, i)
                    } else if i < preprocessed + wires {
                        (1int, i - preprocessed)
                    } else if i < preprocessed + wires + zs {
                        (2int, i - preprocessed - wires)
                    } else if i < preprocessed + wires + zs + quotients {
                        (3int, i - preprocessed - wires - zs)
                    } else {
                        (2int, i - preprocessed - wires - quotients)
                    };
                    (#[trigger] r@[i]).oracle_index == oracle && r@[i].polynomial_index == at
                }
        }),
{
    lemma_counts_fit(common);
}

/// What is opened again at `g * zeta`: the `Z` polynomial of every challenge and every lookup
/// polynomial, each of them once and in order, and nothing else.
pub proof fn law_opened_at_next<F: RichField + Extendable<D>, const D: usize>(
    common: &CommonCircuitData<F, D>,
    r: Vec<FriPolynomialInfo>,
)
    requires
        common.num_partial_products < usize::MAX,
        common.config.num_challenges * (1 + common.num_partial_products)
            + common.config.num_challenges * common.num_lookup_polys <= usize::MAX,
        call_ensures(CommonCircuitData::<F, D>::fri_next_batch_polys, (common,), r),
    ensures
        ({
            let challenges = common.config.num_challenges as int;
            let behind = common.config.num_challenges * (1 + common.num_partial_products);
            let lookups = common.config.num_challenges * common.num_lookup_polys;
            &&& r@.len() == challenges * (1 + common.num_lookup_polys)
            &&& forall|p: FriPolynomialInfo|
                #![trigger r@.contains(p)]
                r@.contains(p) <==> p.oracle_index == 2 && (p.polynomial_index < challenges
                    || behind <= p.polynomial_index < behind + lookups)
            &&& forall|i: int, j: int|
                0 <= i < j < r@.len() ==> (#[trigger] r@[i]).polynomial_index < (
                #[trigger] r@[j]).polynomial_index
        }),
{
    let (c, p, l) = (
        common.config.num_challenges as int,
        common.num_partial_products as int,
        common.num_lookup_polys as int,
    );
    assert(0 <= c * l && c <= c * (1 + p) && c * (1 + l) == c + c * l) by (nonlinear_arith)
        requires
            0 <= c,
            0 <= p,
            0 <= l,
    ;
    let (behind, lookups) = (c * (1 + p), c * l);
    assert(r@.len() == c + lookups);
    assert forall|i: int| 0 <= i < r@.len() implies (#[trigger] r@[i]).oracle_index == 2
        && r@[i].polynomial_index == (if i < c {
        i
    } else {
        behind + i - c
    }) by {}
    assert forall|q: FriPolynomialInfo| #[trigger] r@.contains(q) <==> q.oracle_index == 2 && (
    q.polynomial_index < c || behind <= q.polynomial_index < behind + lookups) by {
        if r@.contains(q) {
            let i = choose|i: int| 0 <= i < r@.len() && r@[i] == q;
            assert(r@[i] == q);
        }
        if q.oracle_index == 2 && q.polynomial_index < c {
            assert(r@[q.polynomial_index as int] == q);
        }
        if q.oracle_index == 2 && behind <= q.polynomial_index < behind + lookups {
            assert(r@[c + q.polynomial_index - behind] == q);
        }
    }
}

/// The instance is made of the oracles and the two lists of polynomials; the first list is opened at
/// `zeta`, and the second at `zeta` times the field's generator squared down to the degree of the
/// circuit.
pub proof fn law_instance<F: RichField + Extendable<D>, const D: usize>(
    common: &CommonCircuitData<F, D>,
    zeta: F::Extension,
    r: FriInstanceInfo<F, D>,
    oracles: Vec<FriOracleInfo>,
    all: Vec<FriPolynomialInfo>,
    next: Vec<FriPolynomialInfo>,
)
    requires
        common.num_constants + common.config.num_routed_wires <= usize::MAX,
        common.num_partial_products < usize::MAX,
        common.config.num_challenges * (1 + common.num_partial_products)
            + common.config.num_challenges * common.num_lookup_polys <= usize::MAX,
        common.config.num_challenges * common.quotient_degree_factor <= usize::MAX,
        common.fri_params.degree_bits <= <F::Extension as Field>::TWO_ADICITY,
        call_ensures(CommonCircuitData::<F, D>::get_fri_instance, (common, zeta), r),
        call_ensures(CommonCircuitData::<F, D>::fri_oracles, (common,), oracles),
        call_ensures(CommonCircuitData::<F, D>::fri_all_polys, (common,), all),
        call_ensures(CommonCircuitData::<F, D>::fri_next_batch_polys, (common,), next),
    ensures
        r.oracles@ == oracles@,
        r.batches@.len() == 2,
        r.batches@[0].point == zeta,
        r.batches@[0].polynomials@ == all@,
        r.batches@[1].point.deep_view() == <F::Extension as FieldModel>::product(
            squared::<F::Extension>(
                <F::Extension as FieldModel>::generator(),
                (<F::Extension as Field>::TWO_ADICITY - common.fri_params.degree_bits) as nat,
            ),
            zeta.deep_view(),
        ),
        r.batches@[1].polynomials@ == next@,
{
    lemma_counts_fit(common);
}

/// The instance inside a recursive circuit opens what the instance outside opens; its first point is
/// the given target, and its second point is what the builder gives for the product of that target with
/// the very factor that lies between the points outside.
pub proof fn law_instances_agree<
    F: RichField + Extendable<D>,
    B: ExtensionBuilder<F, D>,
    const D: usize,
>(
    common: &CommonCircuitData<F, D>,
    zeta: F::Extension,
    r: FriInstanceInfo<F, D>,
    builder: B,
    zeta_target: ExtensionTarget<D>,
    s: (FriInstanceInfoTarget<D>, B),
)
    requires
        common.num_constants + common.config.num_routed_wires <= usize::MAX,
        common.num_partial_products < usize::MAX,
        common.config.num_challenges * (1 + common.num_partial_products)
            + common.config.num_challenges * common.num_lookup_polys <= usize::MAX,
        common.config.num_challenges * common.quotient_degree_factor <= usize::MAX,
        common.fri_params.degree_bits <= F::TWO_ADICITY,
        call_ensures(CommonCircuitData::<F, D>::get_fri_instance, (common, zeta), r),
        call_ensures(
            CommonCircuitData::<F, D>::get_fri_instance_target::<B>,
            (common, builder, zeta_target),
            s,
        ),
    ensures
        s.0.oracles@ == r.oracles@,
        s.0.batches@.len() == r.batches@.len(),
        s.0.batches@[0].point == zeta_target,
        s.0.batches@[0].polynomials@ == r.batches@[0].polynomials@,
        s.0.batches@[1].polynomials@ == r.batches@[1].polynomials@,
        exists|g: F|
            #![trigger g.deep_view()]
            r.batches@[1].point.deep_view() == <F::Extension as FieldModel>::product(
                F::embed(g.deep_view()),
                zeta.deep_view(),
            ) && call_ensures(
                B::mul_const_extension,
                (builder, g, zeta_target),
                (s.0.batches@[1].point, s.1),
            ),
{
    lemma_counts_fit(common);
    F::lemma_embed_generator();
    law_extension_root_of_unity::<F, D>(common.fri_params.degree_bits as nat);
    let g = choose|g: F|
        #![trigger g.deep_view()]
        g.deep_view() == root_of_unity::<F>(common.fri_params.degree_bits as nat) && call_ensures(
            B::mul_const_extension,
            (builder, g, zeta_target),
            (s.0.batches@[1].point, s.1),
        );
    assert(g.deep_view() == root_of_unity::<F>(common.fri_params.degree_bits as nat));
}

} // verus!
