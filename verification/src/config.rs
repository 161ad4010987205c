//! The configuration of a circuit: its shape, its security level and the parameters of FRI.

use vstd::prelude::*;

use crate::fri_params::{FriConfig, FriConfigView, FriReductionStrategy, ReductionStrategyView};
use crate::wire::{Buffer, Codec, IoResult};

verus! {

/// Configuration to be used when building a circuit. This defines the shape of the circuit
/// as well as its targeted security level and sub-protocol (e.g. FRI) parameters.
///
/// It supports a [`Default`] implementation tailored for recursion with Poseidon hash (of width 12)
/// as internal hash function and FRI rate of 1/8.
#[derive(Debug)]
pub struct CircuitConfig {
    /// The number of wires available at each row. This corresponds to the "width" of the circuit,
    /// and consists in the sum of routed wires and advice wires.
    pub num_wires: usize,
    /// The number of routed wires, i.e. wires that will be involved in Plonk's permutation argument.
    /// This allows copy constraints, i.e. enforcing that two distant values in a circuit are equal.
    /// Non-routed wires are called advice wires.
    pub num_routed_wires: usize,
    /// The number of constants that can be used per gate.
    pub num_constants: usize,
    /// Whether to use a dedicated gate for base field arithmetic, rather than using a single gate
    /// for both base field and extension field arithmetic.
    pub use_base_arithmetic_gate: bool,
    pub security_bits: usize,
    /// The number of challenge points to generate, for IOPs that have soundness errors of (roughly)
    /// `degree / |F|`.
    pub num_challenges: usize,
    /// A boolean to activate the zero-knowledge property. When this is set to `false`, proofs *may*
    /// leak additional information.
    pub zero_knowledge: bool,
    /// A cap on the quotient polynomial's degree factor. The actual degree factor is derived
    /// systematically, but will never exceed this value.
    pub max_quotient_degree_factor: usize,
    pub fri_config: FriConfig,
}

/// The value of a [`CircuitConfig`].
pub struct CircuitConfigView {
    pub num_wires: usize,
    pub num_routed_wires: usize,
    pub num_constants: usize,
    pub use_base_arithmetic_gate: bool,
    pub security_bits: usize,
    pub num_challenges: usize,
    pub zero_knowledge: bool,
    pub max_quotient_degree_factor: usize,
    pub fri_config: FriConfigView,
}

impl View for CircuitConfig {
    type V = CircuitConfigView;

    open spec fn view(&self) -> CircuitConfigView {
        CircuitConfigView {
            num_wires: self.num_wires,
            num_routed_wires: self.num_routed_wires,
            num_constants: self.num_constants,
            use_base_arithmetic_gate: self.use_base_arithmetic_gate,
            security_bits: self.security_bits,
            num_challenges: self.num_challenges,
            zero_knowledge: self.zero_knowledge,
            max_quotient_degree_factor: self.max_quotient_degree_factor,
            fri_config: self.fri_config@,
        }
    }
}

impl DeepView for CircuitConfig {
    type V = CircuitConfigView;

    open spec fn deep_view(&self) -> CircuitConfigView {
        self@
    }
}

/// The typical configuration for recursion.
pub open spec fn standard_recursion() -> CircuitConfigView {
    CircuitConfigView {
        num_wires: 135,
        num_routed_wires: 80,
        num_constants: 2,
        use_base_arithmetic_gate: true,
        security_bits: 100,
        num_challenges: 2,
        zero_knowledge: false,
        max_quotient_degree_factor: 8,
        fri_config: FriConfigView {
            rate_bits: 3,
            cap_height: 4,
            proof_of_work_bits: 16,
            reduction_strategy: ReductionStrategyView::ConstantArityBits(4, 5),
            num_query_rounds: 28,
        },
    }
}

impl Default for CircuitConfig {
    fn default() -> (r: Self)
        ensures
            r@ == standard_recursion(),
    {
        Self::standard_recursion_config()
    }
}

impl CircuitConfig {
    pub fn num_advice_wires(&self) -> (r: usize)
        requires
            self.num_routed_wires <= self.num_wires,
        ensures
            r == self.num_wires - self.num_routed_wires,
    {
        self.num_wires - self.num_routed_wires
    }

    /// A typical recursion config, without zero-knowledge, targeting ~100 bit security.
    pub fn standard_recursion_config() -> (r: Self)
        ensures
            r@ == standard_recursion(),
    {
        CircuitConfig {
            num_wires: 135,
            num_routed_wires: 80,
            num_constants: 2,
            use_base_arithmetic_gate: true,
            security_bits: 100,
            num_challenges: 2,
            zero_knowledge: false,
            max_quotient_degree_factor: 8,
            fri_config: FriConfig {
                rate_bits: 3,
                cap_height: 4,
                proof_of_work_bits: 16,
                reduction_strategy: FriReductionStrategy::ConstantArityBits(4, 5),
                num_query_rounds: 28,
            },
        }
    }

    pub fn standard_ecc_config() -> (r: Self)
        ensures
            r@ == (CircuitConfigView { num_wires: 136, ..standard_recursion() }),
    {
        CircuitConfig { num_wires: 136, ..Self::standard_recursion_config() }
    }

    pub fn wide_ecc_config() -> (r: Self)
        ensures
            r@ == (CircuitConfigView { num_wires: 234, ..standard_recursion() }),
    {
        CircuitConfig { num_wires: 234, ..Self::standard_recursion_config() }
    }

    pub fn standard_recursion_zk_config() -> (r: Self)
        ensures
            r@ == (CircuitConfigView { zero_knowledge: true, ..standard_recursion() }),
    {
        CircuitConfig { zero_knowledge: true, ..Self::standard_recursion_config() }
    }
}

impl PartialEq for CircuitConfig {
    fn eq(&self, other: &Self) -> (r: bool) {
        self.num_wires == other.num_wires && self.num_routed_wires == other.num_routed_wires
            && self.num_constants == other.num_constants && self.use_base_arithmetic_gate
            == other.use_base_arithmetic_gate && self.security_bits == other.security_bits
            && self.num_challenges == other.num_challenges && self.zero_knowledge
            == other.zero_knowledge && self.max_quotient_degree_factor
            == other.max_quotient_degree_factor && self.fri_config == other.fri_config
    }
}

impl vstd::std_specs::cmp::PartialEqSpecImpl for CircuitConfig {
    open spec fn obeys_eq_spec() -> bool {
        true
    }

    open spec fn eq_spec(&self, other: &Self) -> bool {
        self@ == other@
    }
}

impl Eq for CircuitConfig {

}

impl Clone for CircuitConfig {
    fn clone(&self) -> (r: Self)
        ensures
            r@ == self@,
    {
        CircuitConfig {
            num_wires: self.num_wires,
            num_routed_wires: self.num_routed_wires,
            num_constants: self.num_constants,
            use_base_arithmetic_gate: self.use_base_arithmetic_gate,
            security_bits: self.security_bits,
            num_challenges: self.num_challenges,
            zero_knowledge: self.zero_knowledge,
            max_quotient_degree_factor: self.max_quotient_degree_factor,
            fri_config: self.fri_config.clone(),
        }
    }
}

/// The parts of a [`CircuitConfig`] in the order in which they are written.
pub type CircuitConfigParts = (
    usize,
    (usize, (usize, (usize, (usize, (usize, (bool, (bool, FriConfig))))))),
);

/// The values of those parts.
pub open spec fn circuit_config_parts(v: CircuitConfigView) -> (
    usize,
    (usize, (usize, (usize, (usize, (usize, (bool, (bool, FriConfigView))))))),
) {
    (
        v.num_wires,
        (
            v.num_routed_wires,
            (
                v.num_constants,
                (
                    v.security_bits,
                    (
                        v.num_challenges,
                        (
                            v.max_quotient_degree_factor,
                            (v.use_base_arithmetic_gate, (v.zero_knowledge, v.fri_config)),
                        ),
                    ),
                ),
            ),
        ),
    )
}

impl Codec for CircuitConfig {
    open spec fn encodable(v: CircuitConfigView) -> bool {
        CircuitConfigParts::encodable(circuit_config_parts(v))
    }

    open spec fn encoding(v: CircuitConfigView) -> Seq<u8> {
        CircuitConfigParts::encoding(circuit_config_parts(v))
    }

    proof fn lemma_encodable(&self) {
        self.fri_config.lemma_encodable();
    }

    proof fn lemma_prefix_free(a: CircuitConfigView, b: CircuitConfigView, s: Seq<u8>) {
        CircuitConfigParts::lemma_prefix_free(circuit_config_parts(a), circuit_config_parts(b), s);
    }

    fn write(&self, buf: &mut Vec<u8>) {
        self.num_wires.write(buf);
        self.num_routed_wires.write(buf);
        self.num_constants.write(buf);
        self.security_bits.write(buf);
        self.num_challenges.write(buf);
        self.max_quotient_degree_factor.write(buf);
        self.use_base_arithmetic_gate.write(buf);
        self.zero_knowledge.write(buf);
        self.fri_config.write(buf);
        assert(buf@ =~= old(buf)@ + Self::encoding(self@));
    }

    fn read(buf: &mut Buffer<'_>) -> (r: IoResult<Self>) {
        let (
            num_wires,
            (
                num_routed_wires,
                (
                    num_constants,
                    (
                        security_bits,
                        (
                            num_challenges,
                            (
                                max_quotient_degree_factor,
                                (use_base_arithmetic_gate, (zero_knowledge, fri_config)),
                            ),
                        ),
                    ),
                ),
            ),
        ) = CircuitConfigParts::read(buf)?;
        Ok(
            CircuitConfig {
                num_wires,
                num_routed_wires,
                num_constants,
                use_base_arithmetic_gate,
                security_bits,
                num_challenges,
                zero_knowledge,
                max_quotient_degree_factor,
                fri_config,
            },
        )
    }
}

/// Configurations are equal exactly if they agree in every field.
pub proof fn law_config_equality(a: &CircuitConfig, b: &CircuitConfig, r: bool)
    requires
        call_ensures(<CircuitConfig as PartialEq>::eq, (a, b), r),
    ensures
        r <==> {
            &&& a.num_wires == b.num_wires
            &&& a.num_routed_wires == b.num_routed_wires
            &&& a.num_constants == b.num_constants
            &&& a.use_base_arithmetic_gate == b.use_base_arithmetic_gate
            &&& a.security_bits == b.security_bits
            &&& a.num_challenges == b.num_challenges
            &&& a.zero_knowledge == b.zero_knowledge
            &&& a.max_quotient_degree_factor == b.max_quotient_degree_factor
            &&& a.fri_config.rate_bits == b.fri_config.rate_bits
            &&& a.fri_config.cap_height == b.fri_config.cap_height
            &&& a.fri_config.proof_of_work_bits == b.fri_config.proof_of_work_bits
            &&& a.fri_config.reduction_strategy@ == b.fri_config.reduction_strategy@
            &&& a.fri_config.num_query_rounds == b.fri_config.num_query_rounds
        },
        r <==> a@ == b@,
{
}

/// Routed wires and advice wires together are all wires.
pub proof fn law_advice_wires(config: &CircuitConfig, r: usize)
    requires
        config.num_routed_wires <= config.num_wires,
        call_ensures(CircuitConfig::num_advice_wires, (config,), r),
    ensures
        config.num_routed_wires + r == config.num_wires,
{
}

/// The presets differ from the default in what they are named after and in nothing else: the ones for
/// elliptic curves have more wires, and the one with zero knowledge has zero knowledge. All of them
/// reach the security level that they claim: the query rounds at the rate of the code and the grinding
/// give that many bits.
pub proof fn law_presets(
    default: CircuitConfig,
    standard: CircuitConfig,
    ecc: CircuitConfig,
    wide: CircuitConfig,
    zk: CircuitConfig,
)
    requires
        call_ensures(<CircuitConfig as Default>::default, (), default),
        call_ensures(CircuitConfig::standard_recursion_config, (), standard),
        call_ensures(CircuitConfig::standard_ecc_config, (), ecc),
        call_ensures(CircuitConfig::wide_ecc_config, (), wide),
        call_ensures(CircuitConfig::standard_recursion_zk_config, (), zk),
    ensures
        default@ == standard@,
        standard.num_wires < ecc.num_wires < wide.num_wires,
        ecc@ == (CircuitConfigView { num_wires: ecc.num_wires, ..standard@ }),
        wide@ == (CircuitConfigView { num_wires: wide.num_wires, ..standard@ }),
        zk@ == (CircuitConfigView { zero_knowledge: true, ..standard@ }),
        !standard.zero_knowledge,
        standard.num_routed_wires <= standard.num_wires,
        standard.fri_config.num_query_rounds * standard.fri_config.rate_bits
            + standard.fri_config.proof_of_work_bits >= standard.security_bits == 100,
{
}

} // verus!
