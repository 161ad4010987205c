//! The parameters of FRI, the low-degree test that proofs are checked with.

use vstd::arithmetic::power2::pow2;
use vstd::prelude::*;

use crate::wire::{Buffer, Codec, IoError, IoResult};

verus! {

/// How the arities of FRI's reduction steps are chosen.
#[derive(Debug)]
pub enum FriReductionStrategy {
    /// The given sequence of arities, as bit counts.
    Fixed(Vec<usize>),
    /// Steps of one arity, until the final polynomial is small enough.
    ConstantArityBits(usize, usize),
    /// The sequence that makes proofs smallest, with an optional cap on the arity.
    MinSize(Option<usize>),
}

/// The value of a [`FriReductionStrategy`].
pub enum ReductionStrategyView {
    Fixed(Seq<usize>),
    ConstantArityBits(usize, usize),
    MinSize(Option<usize>),
}

impl View for FriReductionStrategy {
    type V = ReductionStrategyView;

    open spec fn view(&self) -> ReductionStrategyView {
        match self {
            FriReductionStrategy::Fixed(seq) => ReductionStrategyView::Fixed(seq@),
            FriReductionStrategy::ConstantArityBits(arity_bits, final_poly_bits) =>
                ReductionStrategyView::ConstantArityBits(*arity_bits, *final_poly_bits),
            FriReductionStrategy::MinSize(max) => ReductionStrategyView::MinSize(*max),
        }
    }
}

impl DeepView for FriReductionStrategy {
    type V = ReductionStrategyView;

    open spec fn deep_view(&self) -> ReductionStrategyView {
        self@
    }
}

/// Whether two lists of sizes are equal.
fn same_sizes(a: &Vec<usize>, b: &Vec<usize>) -> (r: bool)
    ensures
        r == (a@ == b@),
{
    if a.len() != b.len() {
        return false;
    }
    let mut i: usize = 0;
    while i < a.len()
        invariant
            i <= a@.len() == b@.len(),
            forall|j: int| 0 <= j < i ==> a@[j] == b@[j],
        decreases a@.len() - i,
    {
        if a[i] != b[i] {
            assert(a@[i as int] != b@[i as int]);
            return false;
        }
        i = i + 1;
    }
    assert(a@ =~= b@);
    true
}

/// A copy of a list of sizes.
pub fn copy_sizes(a: &Vec<usize>) -> (r: Vec<usize>)
    ensures
        r@ == a@,
{
    let r = a.clone();
    assert(r@ =~= a@);
    r
}

impl PartialEq for FriReductionStrategy {
    fn eq(&self, other: &Self) -> (r: bool) {
        match (self, other) {
            (FriReductionStrategy::Fixed(a), FriReductionStrategy::Fixed(b)) => same_sizes(a, b),
            (
                FriReductionStrategy::ConstantArityBits(a, b),
                FriReductionStrategy::ConstantArityBits(c, d),
            ) => *a == *c && *b == *d,
            (FriReductionStrategy::MinSize(a), FriReductionStrategy::MinSize(b)) => match (a, b) {
                (Some(x), Some(y)) => *x == *y,
                (None, None) => true,
                _ => false,
            },
            _ => false,
        }
    }
}

impl vstd::std_specs::cmp::PartialEqSpecImpl for FriReductionStrategy {
    open spec fn obeys_eq_spec() -> bool {
        true
    }

    open spec fn eq_spec(&self, other: &Self) -> bool {
        self@ == other@
    }
}

impl Eq for FriReductionStrategy {

}

impl Clone for FriReductionStrategy {
    fn clone(&self) -> (r: Self)
        ensures
            r@ == self@,
    {
        match self {
            FriReductionStrategy::Fixed(seq) => FriReductionStrategy::Fixed(copy_sizes(seq)),
            FriReductionStrategy::ConstantArityBits(a, b) =>
                FriReductionStrategy::ConstantArityBits(*a, *b),
            FriReductionStrategy::MinSize(max) => FriReductionStrategy::MinSize(*max),
        }
    }
}

/// A strategy is a tag byte followed by its parameters.
impl Codec for FriReductionStrategy {
    open spec fn encodable(v: ReductionStrategyView) -> bool {
        v matches ReductionStrategyView::Fixed(seq) ==> Vec::<usize>::encodable(seq)
    }

    open spec fn encoding(v: ReductionStrategyView) -> Seq<u8> {
        match v {
            ReductionStrategyView::Fixed(seq) => u8::encoding(0) + Vec::<usize>::encoding(seq),
            ReductionStrategyView::ConstantArityBits(a, b) => u8::encoding(1) + <(
                usize,
                usize,
            )>::encoding((a, b)),
            ReductionStrategyView::MinSize(max) => u8::encoding(2) + Option::<usize>::encoding(max),
        }
    }

    proof fn lemma_encodable(&self) {
        if let FriReductionStrategy::Fixed(seq) = self {
            seq.lemma_encodable();
            assert(seq.deep_view() =~= seq@);
        }
    }

    proof fn lemma_prefix_free(a: ReductionStrategyView, b: ReductionStrategyView, s: Seq<u8>) {
        lemma_strategy_split(a, s);
        lemma_strategy_split(b, s);
        u8::lemma_prefix_free(strategy_tag(a), strategy_tag(b), s);
        let rest = s.skip(u8::encoding(strategy_tag(a)).len() as int);
        match (a, b) {
            (ReductionStrategyView::Fixed(x), ReductionStrategyView::Fixed(y)) => {
                Vec::<usize>::lemma_prefix_free(x, y, rest);
            },
            (
                ReductionStrategyView::ConstantArityBits(x, y),
                ReductionStrategyView::ConstantArityBits(z, w),
            ) => {
                <(usize, usize)>::lemma_prefix_free((x, y), (z, w), rest);
            },
            (ReductionStrategyView::MinSize(x), ReductionStrategyView::MinSize(y)) => {
                Option::<usize>::lemma_prefix_free(x, y, rest);
            },
            _ => {},
        }
    }

    fn write(&self, buf: &mut Vec<u8>) {
        match self {
            FriReductionStrategy::Fixed(seq) => {
                0u8.write(buf);
                seq.write(buf);
                assert(seq.deep_view() =~= seq@);
            },
            FriReductionStrategy::ConstantArityBits(arity_bits, final_poly_bits) => {
                1u8.write(buf);
                arity_bits.write(buf);
                final_poly_bits.write(buf);
            },
            FriReductionStrategy::MinSize(max) => {
                2u8.write(buf);
                max.write(buf);
            },
        }
        assert(buf@ =~= old(buf)@ + Self::encoding(self@));
    }

    fn read(buf: &mut Buffer<'_>) -> (r: IoResult<Self>) {
        let ghost before = buf@;
        proof {
            assert forall|v: ReductionStrategyView|
                #![trigger Self::encoding(v)]
                Self::encodable(v) && Self::encoding(v).is_prefix_of(before) implies u8::encoding(
                strategy_tag(v),
            ).is_prefix_of(before) && strategy_rest(v).is_prefix_of(
                before.skip(u8::encoding(strategy_tag(v)).len() as int),
            ) by {
                lemma_strategy_split(v, before);
            }
        }
        let tag = u8::read(buf)?;
        proof {
            assert forall|v: ReductionStrategyView|
                #![trigger Self::encoding(v)]
                Self::encodable(v) && Self::encoding(v).is_prefix_of(before) implies strategy_tag(v)
                == tag by {
                u8::lemma_prefix_free(strategy_tag(v), tag, before);
            }
        }
        let ghost rest = buf@;
        if tag == 0 {
            let seq = Vec::<usize>::read(buf)?;
            let r = FriReductionStrategy::Fixed(seq);
            proof {
                assert(seq.deep_view() =~= seq@);
                lemma_strategy_split(r@, before);
                assert(buf@ =~= before.skip(Self::encoding(r@).len() as int));
            }
            Ok(r)
        } else if tag == 1 {
            let (a, b) = <(usize, usize)>::read(buf)?;
            let r = FriReductionStrategy::ConstantArityBits(a, b);
            proof {
                lemma_strategy_split(r@, before);
                assert(buf@ =~= before.skip(Self::encoding(r@).len() as int));
            }
            Ok(r)
        } else if tag == 2 {
            let max = Option::<usize>::read(buf)?;
            let r = FriReductionStrategy::MinSize(max);
            proof {
                lemma_strategy_split(r@, before);
                assert(buf@ =~= before.skip(Self::encoding(r@).len() as int));
            }
            Ok(r)
        } else {
            Err(IoError)
        }
    }
}

spec fn strategy_tag(v: ReductionStrategyView) -> u8 {
    match v {
        ReductionStrategyView::Fixed(_) => 0,
        ReductionStrategyView::ConstantArityBits(..) => 1,
        ReductionStrategyView::MinSize(_) => 2,
    }
}

spec fn strategy_rest(v: ReductionStrategyView) -> Seq<u8> {
    match v {
        ReductionStrategyView::Fixed(seq) => Vec::<usize>::encoding(seq),
        ReductionStrategyView::ConstantArityBits(a, b) => <(usize, usize)>::encoding((a, b)),
        ReductionStrategyView::MinSize(max) => Option::<usize>::encoding(max),
    }
}

proof fn lemma_strategy_split(v: ReductionStrategyView, s: Seq<u8>)
    ensures
        FriReductionStrategy::encoding(v) == u8::encoding(strategy_tag(v)) + strategy_rest(v),
        FriReductionStrategy::encoding(v).is_prefix_of(s) <==> u8::encoding(
            strategy_tag(v),
        ).is_prefix_of(s) && strategy_rest(v).is_prefix_of(
            s.skip(u8::encoding(strategy_tag(v)).len() as int),
        ),
{
    crate::wire::lemma_prefix_concat(u8::encoding(strategy_tag(v)), strategy_rest(v), s);
}

/// The parameters of FRI that a circuit is configured with.
#[derive(Debug)]
pub struct FriConfig {
    /// The rate is `2^-rate_bits`.
    pub rate_bits: usize,
    /// The height of Merkle tree caps.
    pub cap_height: usize,
    /// The number of bits of grinding.
    pub proof_of_work_bits: u32,
    pub reduction_strategy: FriReductionStrategy,
    /// The number of query rounds.
    pub num_query_rounds: usize,
}

/// The value of a [`FriConfig`].
pub struct FriConfigView {
    pub rate_bits: usize,
    pub cap_height: usize,
    pub proof_of_work_bits: u32,
    pub reduction_strategy: ReductionStrategyView,
    pub num_query_rounds: usize,
}

impl View for FriConfig {
    type V = FriConfigView;

    open spec fn view(&self) -> FriConfigView {
        FriConfigView {
            rate_bits: self.rate_bits,
            cap_height: self.cap_height,
            proof_of_work_bits: self.proof_of_work_bits,
            reduction_strategy: self.reduction_strategy@,
            num_query_rounds: self.num_query_rounds,
        }
    }
}

impl DeepView for FriConfig {
    type V = FriConfigView;

    open spec fn deep_view(&self) -> FriConfigView {
        self@
    }
}

impl PartialEq for FriConfig {
    fn eq(&self, other: &Self) -> (r: bool) {
        self.rate_bits == other.rate_bits && self.cap_height == other.cap_height
            && self.proof_of_work_bits == other.proof_of_work_bits && self.reduction_strategy
            == other.reduction_strategy && self.num_query_rounds == other.num_query_rounds
    }
}

impl vstd::std_specs::cmp::PartialEqSpecImpl for FriConfig {
    open spec fn obeys_eq_spec() -> bool {
        true
    }

    open spec fn eq_spec(&self, other: &Self) -> bool {
        self@ == other@
    }
}

impl Eq for FriConfig {

}

impl Clone for FriConfig {
    fn clone(&self) -> (r: Self)
        ensures
            r@ == self@,
    {
        FriConfig {
            rate_bits: self.rate_bits,
            cap_height: self.cap_height,
            proof_of_work_bits: self.proof_of_work_bits,
            reduction_strategy: self.reduction_strategy.clone(),
            num_query_rounds: self.num_query_rounds,
        }
    }
}

/// The parts of a [`FriConfig`] in the order in which they are written.
pub type FriConfigParts = (usize, (usize, (usize, (u32, FriReductionStrategy))));

/// The values of those parts.
pub open spec fn fri_config_parts(v: FriConfigView) -> (
    usize,
    (usize, (usize, (u32, ReductionStrategyView))),
) {
    (
        v.rate_bits,
        (v.cap_height, (v.num_query_rounds, (v.proof_of_work_bits, v.reduction_strategy))),
    )
}

impl Codec for FriConfig {
    open spec fn encodable(v: FriConfigView) -> bool {
        FriConfigParts::encodable(fri_config_parts(v))
    }

    open spec fn encoding(v: FriConfigView) -> Seq<u8> {
        FriConfigParts::encoding(fri_config_parts(v))
    }

    proof fn lemma_encodable(&self) {
        self.reduction_strategy.lemma_encodable();
    }

    proof fn lemma_prefix_free(a: FriConfigView, b: FriConfigView, s: Seq<u8>) {
        FriConfigParts::lemma_prefix_free(fri_config_parts(a), fri_config_parts(b), s);
    }

    fn write(&self, buf: &mut Vec<u8>) {
        self.rate_bits.write(buf);
        self.cap_height.write(buf);
        self.num_query_rounds.write(buf);
        self.proof_of_work_bits.write(buf);
        self.reduction_strategy.write(buf);
        assert(buf@ =~= old(buf)@ + Self::encoding(self@));
    }

    fn read(buf: &mut Buffer<'_>) -> (r: IoResult<Self>) {
        let (
            rate_bits,
            (cap_height, (num_query_rounds, (proof_of_work_bits, reduction_strategy))),
        ) = FriConfigParts::read(buf)?;
        Ok(
            FriConfig {
                rate_bits,
                cap_height,
                proof_of_work_bits,
                reduction_strategy,
                num_query_rounds,
            },
        )
    }
}

/// The parameters of FRI for one circuit: those it was configured with and those that its size
/// determines.
#[derive(Debug)]
pub struct FriParams {
    /// User-specified configuration.
    pub config: FriConfig,
    /// Whether the polynomials are blinded.
    pub hiding: bool,
    /// The binary logarithm of the degree of the purported codeword.
    pub degree_bits: usize,
    /// The arity of each reduction step, as a bit count.
    pub reduction_arity_bits: Vec<usize>,
}

/// The value of a [`FriParams`].
pub struct FriParamsView {
    pub config: FriConfigView,
    pub hiding: bool,
    pub degree_bits: usize,
    pub reduction_arity_bits: Seq<usize>,
}

impl View for FriParams {
    type V = FriParamsView;

    open spec fn view(&self) -> FriParamsView {
        FriParamsView {
            config: self.config@,
            hiding: self.hiding,
            degree_bits: self.degree_bits,
            reduction_arity_bits: self.reduction_arity_bits@,
        }
    }
}

impl DeepView for FriParams {
    type V = FriParamsView;

    open spec fn deep_view(&self) -> FriParamsView {
        self@
    }
}

impl FriParamsView {
    /// The binary logarithm of the size of the low-degree extension's domain.
    pub open spec fn lde_bits(self) -> nat {
        self.degree_bits as nat + self.config.rate_bits as nat
    }
}

impl FriParams {
    pub fn lde_bits(&self) -> (r: usize)
        requires
            self@.lde_bits() <= usize::MAX,
        ensures
            r == self@.lde_bits(),
    {
        self.degree_bits + self.config.rate_bits
    }

    pub fn lde_size(&self) -> (r: usize)
        requires
            self@.lde_bits() < usize::BITS,
        ensures
            r == pow2(self@.lde_bits()),
    {
        power_of_two(self.lde_bits())
    }
}

/// `2^bits`.
pub fn power_of_two(bits: usize) -> (r: usize)
    requires
        bits < usize::BITS,
    ensures
        r == pow2(bits as nat),
{
    proof {
        lemma_pow2_fits(bits as nat);
        vstd::bits::lemma_usize_shl_is_mul(1, bits);
    }
    1usize << bits
}

/// A power of two below the word size fits into a word.
pub proof fn lemma_pow2_fits(bits: nat)
    requires
        bits < usize::BITS,
    ensures
        0 < pow2(bits) <= usize::MAX,
{
    vstd::layout::unsigned_int_max_values();
    vstd::arithmetic::power2::lemma_pow2_pos(bits);
    vstd::arithmetic::power2::lemma2_to64();
    vstd::arithmetic::power2::lemma2_to64_rest();
    if bits < usize::BITS - 1 {
        vstd::arithmetic::power2::lemma_pow2_strictly_increases(bits, (usize::BITS - 1) as nat);
    }
}

impl PartialEq for FriParams {
    fn eq(&self, other: &Self) -> (r: bool) {
        self.config == other.config && self.hiding == other.hiding && self.degree_bits
            == other.degree_bits && same_sizes(
            &self.reduction_arity_bits,
            &other.reduction_arity_bits,
        )
    }
}

impl vstd::std_specs::cmp::PartialEqSpecImpl for FriParams {
    open spec fn obeys_eq_spec() -> bool {
        true
    }

    open spec fn eq_spec(&self, other: &Self) -> bool {
        self@ == other@
    }
}

impl Eq for FriParams {

}

impl Clone for FriParams {
    fn clone(&self) -> (r: Self)
        ensures
            r@ == self@,
    {
        FriParams {
            config: self.config.clone(),
            hiding: self.hiding,
            degree_bits: self.degree_bits,
            reduction_arity_bits: copy_sizes(&self.reduction_arity_bits),
        }
    }
}

/// The parts of a [`FriParams`] in the order in which they are written.
pub type FriParamsParts = (FriConfig, (Vec<usize>, (usize, bool)));

/// The values of those parts.
pub open spec fn fri_params_parts(v: FriParamsView) -> (
    FriConfigView,
    (Seq<usize>, (usize, bool)),
) {
    (v.config, (v.reduction_arity_bits, (v.degree_bits, v.hiding)))
}

impl Codec for FriParams {
    open spec fn encodable(v: FriParamsView) -> bool {
        FriParamsParts::encodable(fri_params_parts(v))
    }

    open spec fn encoding(v: FriParamsView) -> Seq<u8> {
        FriParamsParts::encoding(fri_params_parts(v))
    }

    proof fn lemma_encodable(&self) {
        self.config.lemma_encodable();
        self.reduction_arity_bits.lemma_encodable();
        assert(self.reduction_arity_bits.deep_view() =~= self.reduction_arity_bits@);
    }

    proof fn lemma_prefix_free(a: FriParamsView, b: FriParamsView, s: Seq<u8>) {
        FriParamsParts::lemma_prefix_free(fri_params_parts(a), fri_params_parts(b), s);
    }

    fn write(&self, buf: &mut Vec<u8>) {
        self.config.write(buf);
        self.reduction_arity_bits.write(buf);
        self.degree_bits.write(buf);
        self.hiding.write(buf);
        assert(self.reduction_arity_bits.deep_view() =~= self.reduction_arity_bits@);
        assert(buf@ =~= old(buf)@ + Self::encoding(self@));
    }

    fn read(buf: &mut Buffer<'_>) -> (r: IoResult<Self>) {
        let (config, (reduction_arity_bits, (degree_bits, hiding))) = FriParamsParts::read(buf)?;
        assert(reduction_arity_bits.deep_view() =~= reduction_arity_bits@);
        Ok(FriParams { config, hiding, degree_bits, reduction_arity_bits })
    }
}

/// Strategies are equal exactly if they are of one kind with equal parameters.
pub proof fn law_strategy_equality(a: &FriReductionStrategy, b: &FriReductionStrategy, r: bool)
    requires
        call_ensures(<FriReductionStrategy as PartialEq>::eq, (a, b), r),
    ensures
        r <==> (match (*a, *b) {
            (FriReductionStrategy::Fixed(x), FriReductionStrategy::Fixed(y)) => x@ == y@,
            (
                FriReductionStrategy::ConstantArityBits(x, y),
                FriReductionStrategy::ConstantArityBits(z, w),
            ) => x == z && y == w,
            (FriReductionStrategy::MinSize(x), FriReductionStrategy::MinSize(y)) => x == y,
            _ => false,
        }),
        r <==> a@ == b@,
{
}

/// The parameters of FRI are equal exactly if they agree in every field.
pub proof fn law_fri_params_equality(a: &FriParams, b: &FriParams, r: bool)
    requires
        call_ensures(<FriParams as PartialEq>::eq, (a, b), r),
    ensures
        r <==> {
            &&& a.config.rate_bits == b.config.rate_bits
            &&& a.config.cap_height == b.config.cap_height
            &&& a.config.proof_of_work_bits == b.config.proof_of_work_bits
            &&& a.config.reduction_strategy@ == b.config.reduction_strategy@
            &&& a.config.num_query_rounds == b.config.num_query_rounds
            &&& a.hiding == b.hiding
            &&& a.degree_bits == b.degree_bits
            &&& a.reduction_arity_bits@ == b.reduction_arity_bits@
        },
        r <==> a@ == b@,
{
}

/// The domain of the low-degree extension has `2^(degree_bits + rate_bits)` elements.
pub proof fn law_lde_size(params: &FriParams, bits: usize, size: usize)
    ensures
        call_ensures(FriParams::lde_bits, (params,), bits) ==> bits == params.degree_bits
            + params.config.rate_bits,
        call_ensures(FriParams::lde_size, (params,), size) ==> size == pow2(
            params.degree_bits as nat + params.config.rate_bits as nat,
        ),
{
}

} // verus!
