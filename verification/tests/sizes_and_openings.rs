use circuit_data::common::CommonCircuitData;
use circuit_data::config::CircuitConfig;
use circuit_data::field::Field;
use circuit_data::fri_instance::{
    FriOracleInfo, FriPolynomialInfo, CONSTANTS_SIGMAS, QUOTIENT, WIRES, ZS_PARTIAL_PRODUCTS,
};
use circuit_data::fri_params::{FriConfig, FriParams, FriReductionStrategy};
use circuit_data::gates::{GateRef, SelectorsInfo};
use circuit_data::goldilocks::{GoldilocksField, QuadraticExtension};
use circuit_data::target::{ExtensionBuilder, ExtensionTarget, Target};

const D: usize = 2;

type F = GoldilocksField;

fn standard_fri_config() -> FriConfig {
    FriConfig {
        rate_bits: 3,
        cap_height: 4,
        proof_of_work_bits: 16,
        reduction_strategy: FriReductionStrategy::ConstantArityBits(4, 5),
        num_query_rounds: 28,
    }
}

/// A circuit with lookups: four lookup polynomials per challenge.
fn lookup_circuit() -> CommonCircuitData<F, D> {
    CommonCircuitData {
        config: CircuitConfig::standard_recursion_config(),
        fri_params: FriParams {
            config: standard_fri_config(),
            hiding: false,
            degree_bits: 5,
            reduction_arity_bits: vec![],
        },
        gates: vec![
            GateRef { id: "NoopGate".to_string(), degree: 0, num_constraints: 0 },
            GateRef { id: "PoseidonGate".to_string(), degree: 7, num_constraints: 123 },
            GateRef { id: "ArithmeticGate".to_string(), degree: 3, num_constraints: 20 },
        ],
        selectors_info: SelectorsInfo { selector_indices: vec![0, 0, 0], groups: vec![0..3] },
        quotient_degree_factor: 8,
        num_gate_constraints: 123,
        num_constants: 4,
        num_public_inputs: 4,
        k_is: vec![],
        num_partial_products: 9,
        num_lookup_polys: 4,
        num_lookup_selectors: 1,
        luts: vec![],
    }
}

#[test]
fn preset_configs() {
    let standard = CircuitConfig::standard_recursion_config();
    assert_eq!(
        standard,
        CircuitConfig {
            num_wires: 135,
            num_routed_wires: 80,
            num_constants: 2,
            use_base_arithmetic_gate: true,
            security_bits: 100,
            num_challenges: 2,
            zero_knowledge: false,
            max_quotient_degree_factor: 8,
            fri_config: standard_fri_config(),
        }
    );
    assert_eq!(CircuitConfig::default(), standard);
    assert_eq!(standard.num_advice_wires(), 55);

    let ecc = CircuitConfig::standard_ecc_config();
    assert_eq!(ecc, CircuitConfig { num_wires: 136, ..standard.clone() });
    assert_eq!(ecc.num_advice_wires(), 56);

    let wide = CircuitConfig::wide_ecc_config();
    assert_eq!(wide, CircuitConfig { num_wires: 234, ..standard.clone() });
    assert_eq!(wide.num_advice_wires(), 154);

    let zk = CircuitConfig::standard_recursion_zk_config();
    assert_ne!(zk, standard);
    assert_eq!(zk, CircuitConfig { zero_knowledge: true, ..standard });
}

#[test]
fn configs_differ_when_their_strategies_do() {
    let mut other = standard_fri_config();
    other.reduction_strategy = FriReductionStrategy::Fixed(vec![4, 5]);
    assert_ne!(other, standard_fri_config());
    let fixed = other.clone();
    assert_eq!(other, fixed);
    other.reduction_strategy = FriReductionStrategy::Fixed(vec![4, 6]);
    assert_ne!(other, fixed);
    other.reduction_strategy = FriReductionStrategy::Fixed(vec![4]);
    assert_ne!(other, fixed);
    other.reduction_strategy = FriReductionStrategy::MinSize(None);
    assert_ne!(
        other.reduction_strategy,
        FriReductionStrategy::MinSize(Some(0))
    );
}

#[test]
fn degrees_and_domain_sizes() {
    let common = lookup_circuit();
    assert_eq!(common.degree_bits(), 5);
    assert_eq!(common.degree(), 32);
    assert_eq!(common.fri_params.lde_bits(), 8);
    assert_eq!(common.lde_size(), 256);
    assert_eq!(common.constraint_degree(), 7);
    assert_eq!(common.quotient_degree(), 256);
}

#[test]
fn the_lde_generator_generates_the_lde_domain() {
    let common = lookup_circuit();
    let g = common.lde_generator();
    assert_eq!(g, GoldilocksField(13797081185216407910));
    assert_eq!(g.exp_power_of_2(8), GoldilocksField(1));
    assert_ne!(g.exp_power_of_2(7), GoldilocksField(1));
}

#[test]
fn polynomial_ranges_tile_the_commitments() {
    let common = lookup_circuit();
    assert_eq!(common.constants_range(), 0..4);
    assert_eq!(common.sigmas_range(), 4..84);
    assert_eq!(common.zs_range(), 0..2);
    assert_eq!(common.partial_products_range(), 2..20);
    assert_eq!(common.lookup_range(), 20..);
    assert_eq!(common.next_lookup_range(0), 20..22);
    assert_eq!(common.next_lookup_range(1), 24..26);
    assert_eq!(common.num_preprocessed_polys(), 84);
    assert_eq!(common.num_zs_partial_products_polys(), 20);
    assert_eq!(common.num_all_lookup_polys(), 8);
    assert_eq!(common.num_quotient_polys(), 16);
}

fn polys(oracle_index: usize, indices: std::ops::Range<usize>) -> Vec<FriPolynomialInfo> {
    indices.map(|polynomial_index| FriPolynomialInfo { oracle_index, polynomial_index }).collect()
}

#[test]
fn polynomials_of_a_range() {
    assert_eq!(
        FriPolynomialInfo::from_range(7, 3..5),
        vec![
            FriPolynomialInfo { oracle_index: 7, polynomial_index: 3 },
            FriPolynomialInfo { oracle_index: 7, polynomial_index: 4 },
        ]
    );
    assert_eq!(FriPolynomialInfo::from_range(7, 5..5), vec![]);
    assert_eq!(FriPolynomialInfo::from_range(7, 5..3), vec![]);
}

#[test]
fn oracles() {
    assert_eq!(
        lookup_circuit().fri_oracles(),
        vec![
            FriOracleInfo { num_polys: 84, blinding: false },
            FriOracleInfo { num_polys: 135, blinding: true },
            FriOracleInfo { num_polys: 28, blinding: true },
            FriOracleInfo { num_polys: 16, blinding: true },
        ]
    );
}

#[test]
fn opened_polynomials() {
    let common = lookup_circuit();
    let all = [
        polys(CONSTANTS_SIGMAS, 0..84),
        polys(WIRES, 0..135),
        polys(ZS_PARTIAL_PRODUCTS, 0..20),
        polys(QUOTIENT, 0..16),
        polys(ZS_PARTIAL_PRODUCTS, 20..28),
    ]
    .concat();
    assert_eq!(common.fri_all_polys(), all);
    let next = [polys(ZS_PARTIAL_PRODUCTS, 0..2), polys(ZS_PARTIAL_PRODUCTS, 20..28)].concat();
    assert_eq!(common.fri_next_batch_polys(), next);
}

#[test]
fn every_polynomial_is_opened_exactly_once_at_zeta() {
    let common = lookup_circuit();
    let oracles = common.fri_oracles();
    let all = common.fri_all_polys();
    let total: usize = oracles.iter().map(|o| o.num_polys).sum();
    assert_eq!(all.len(), total);
    for (oracle_index, oracle) in oracles.iter().enumerate() {
        for polynomial_index in 0..oracle.num_polys {
            let p = FriPolynomialInfo { oracle_index, polynomial_index };
            assert_eq!(all.iter().filter(|q| **q == p).count(), 1);
        }
    }
    for p in common.fri_next_batch_polys() {
        assert!(all.contains(&p));
    }
}

#[test]
fn the_second_point_is_the_next_row() {
    let common = lookup_circuit();
    let zeta = QuadraticExtension([GoldilocksField(3), GoldilocksField(5)]);
    let instance = common.get_fri_instance(zeta);
    assert_eq!(instance.oracles, common.fri_oracles());
    assert_eq!(instance.batches.len(), 2);
    assert_eq!(instance.batches[0].point, zeta);
    assert_eq!(instance.batches[0].polynomials, common.fri_all_polys());
    assert_eq!(instance.batches[1].polynomials, common.fri_next_batch_polys());
    let g = GoldilocksField::primitive_root_of_unity(5);
    let next = QuadraticExtension([g.times(GoldilocksField(3)), g.times(GoldilocksField(5))]);
    assert_eq!(instance.batches[1].point, next);
    assert_ne!(instance.batches[1].point, zeta);
}

#[test]
fn the_points_differ_by_an_element_of_the_order_of_the_circuit() {
    let common = lookup_circuit();
    let points = [
        QuadraticExtension([GoldilocksField(3), GoldilocksField(5)]),
        QuadraticExtension([GoldilocksField(0), GoldilocksField(1)]),
        QuadraticExtension([GoldilocksField(1), GoldilocksField(0)]),
    ];
    for zeta in points {
        let next = common.get_fri_instance(zeta).batches[1].point;
        assert_eq!(next.exp_power_of_2(5), zeta.exp_power_of_2(5));
        assert_ne!(next.exp_power_of_2(4), zeta.exp_power_of_2(4));
    }
    let zero = QuadraticExtension([GoldilocksField(0), GoldilocksField(0)]);
    assert_eq!(common.get_fri_instance(zero).batches[1].point, zero);
}

/// A builder that numbers the products it adds, and remembers the constants.
struct CountingBuilder {
    constants: Vec<GoldilocksField>,
}

impl ExtensionBuilder<F, D> for CountingBuilder {
    fn mul_const_extension(
        mut self,
        c: F,
        _multiplicand: ExtensionTarget<D>,
    ) -> (ExtensionTarget<D>, Self) {
        let index = self.constants.len();
        self.constants.push(c);
        let product = ExtensionTarget([
            Target::VirtualTarget { index: 100 + 2 * index },
            Target::VirtualTarget { index: 101 + 2 * index },
        ]);
        (product, self)
    }
}

#[test]
fn the_instance_inside_a_circuit_opens_the_same_polynomials() {
    let common = lookup_circuit();
    let zeta = ExtensionTarget([Target::Wire { row: 1, column: 2 }; D]);
    let builder = CountingBuilder { constants: vec![] };
    let (instance, builder) = common.get_fri_instance_target(builder, zeta);
    assert_eq!(builder.constants, vec![GoldilocksField::primitive_root_of_unity(5)]);
    assert_eq!(instance.oracles, common.fri_oracles());
    assert_eq!(instance.batches.len(), 2);
    assert_eq!(instance.batches[0].point, zeta);
    assert_eq!(instance.batches[0].polynomials, common.fri_all_polys());
    assert_eq!(
        instance.batches[1].point,
        ExtensionTarget([
            Target::VirtualTarget { index: 100 },
            Target::VirtualTarget { index: 101 },
        ])
    );
    assert_eq!(instance.batches[1].polynomials, common.fri_next_batch_polys());
}

#[test]
fn goldilocks_arithmetic() {
    assert_eq!(GoldilocksField(18446744069414584321), GoldilocksField(0));
    assert_eq!(GoldilocksField(u64::MAX).to_canonical_u64(), 4294967294);
    assert_eq!(GoldilocksField::from_u64(u64::MAX), GoldilocksField(4294967294));
    let minus_one = GoldilocksField(18446744069414584320);
    assert_eq!(minus_one.times(minus_one), GoldilocksField(1));
    assert_eq!(GoldilocksField(1 << 32).times(GoldilocksField(1 << 32)).0, (1 << 32) - 1);
    assert_eq!(GoldilocksField(3).exp_power_of_2(3), GoldilocksField(6561));
}

#[test]
fn extension_arithmetic() {
    let x = QuadraticExtension([GoldilocksField(2), GoldilocksField(3)]);
    let y = QuadraticExtension([GoldilocksField(5), GoldilocksField(7)]);
    let product = QuadraticExtension([GoldilocksField(157), GoldilocksField(29)]);
    assert_eq!(x.times(y), product);
    let u = QuadraticExtension([GoldilocksField(0), GoldilocksField(1)]);
    assert_eq!(u.times(u), QuadraticExtension([GoldilocksField(7), GoldilocksField(0)]));
}

#[test]
fn roots_of_unity_have_their_order() {
    assert_eq!(GoldilocksField::TWO_ADICITY, 32);
    assert_eq!(QuadraticExtension::TWO_ADICITY, 33);
    let one = QuadraticExtension([GoldilocksField(1), GoldilocksField(0)]);
    for n in 0..33 {
        let g = GoldilocksField::primitive_root_of_unity(n);
        assert_eq!(g.exp_power_of_2(n), GoldilocksField(1));
        if n > 0 {
            assert_ne!(g.exp_power_of_2(n - 1), GoldilocksField(1));
        }
        let h = QuadraticExtension::primitive_root_of_unity(n);
        assert_eq!(h, QuadraticExtension([g, GoldilocksField(0)]));
    }
    let h = QuadraticExtension::primitive_root_of_unity(33);
    assert_eq!(h.exp_power_of_2(33), one);
    assert_ne!(h.exp_power_of_2(32), one);
}

#[test]
fn the_non_residue_of_the_extension_is_no_square() {
    // The order of the field less one is 2^32 (2^32 - 1).
    for (x, half_power) in [(7, 18446744069414584320), (49, 1)] {
        let mut square = GoldilocksField(x);
        let mut power = GoldilocksField(1);
        for _ in 0..32 {
            power = power.times(square);
            square = square.times(square);
        }
        assert_eq!(power.exp_power_of_2(31), GoldilocksField(half_power));
        assert_eq!(power.exp_power_of_2(32), GoldilocksField(1));
    }
}
