//! The check that circuit data could have been produced by building a circuit.

use core::ops::Range;

use vstd::prelude::*;

use crate::common::{CommonCircuitData, CommonView};
use crate::config::CircuitConfigView;
use crate::field::{Extendable, RichField};
use crate::fri_params::FriParamsView;
use crate::gates::{
    gate_less, lemma_gate_less_distinct, lemma_gate_less_transitive, GateRef, GateView,
};

verus! {

/// Why circuit data was rejected.
#[derive(Clone, Copy, Debug, PartialEq, Eq, Structural)]
pub enum ValidationError {
    GatesNotSorted,
    SelectorIndexCount,
    GroupsNotContiguous,
    EmptyGroup,
    GroupTooLarge,
    GroupsDoNotCover,
    SelectorIndexOutsideGroup,
    TooManySelectors,
    TooManyGateConstraints,
    QuotientDegreeFactor,
    LdeDomain,
    FriParamsMismatch,
}

impl ValidationError {
    /// A sentence for the reader of an error report.
    pub fn message(&self) -> (r: &'static str)
        ensures
            r@ == (match self {
                ValidationError::GatesNotSorted =>
                    "Gate types must be sorted by (degree, id), without duplicates."@,
                ValidationError::SelectorIndexCount =>
                    "There must be exactly one selector index per gate type."@,
                ValidationError::GroupsNotContiguous =>
                    "Selector groups must be contiguous and index into the list of gates."@,
                ValidationError::EmptyGroup => "Selector groups must be non-empty."@,
                ValidationError::GroupTooLarge =>
                    "Selector group is too large for the quotient degree budget."@,
                ValidationError::GroupsDoNotCover =>
                    "Selector groups must cover every gate type."@,
                ValidationError::SelectorIndexOutsideGroup =>
                    "A gate's selector index does not point to the group containing that gate."@,
                ValidationError::TooManySelectors =>
                    "There are more selector polynomials than constant polynomials."@,
                ValidationError::TooManyGateConstraints =>
                    "A gate imposes more constraints than num_gate_constraints."@,
                ValidationError::QuotientDegreeFactor =>
                    "quotient_degree_factor does not match the configured maximum."@,
                ValidationError::LdeDomain => "The LDE domain does not exist in this field."@,
                ValidationError::FriParamsMismatch =>
                    "The FRI parameters do not match the circuit config."@,
            }),
    {
        match self {
            ValidationError::GatesNotSorted =>
                "Gate types must be sorted by (degree, id), without duplicates.",
            ValidationError::SelectorIndexCount =>
                "There must be exactly one selector index per gate type.",
            ValidationError::GroupsNotContiguous =>
                "Selector groups must be contiguous and index into the list of gates.",
            ValidationError::EmptyGroup => "Selector groups must be non-empty.",
            ValidationError::GroupTooLarge =>
                "Selector group is too large for the quotient degree budget.",
            ValidationError::GroupsDoNotCover => "Selector groups must cover every gate type.",
            ValidationError::SelectorIndexOutsideGroup =>
                "A gate's selector index does not point to the group containing that gate.",
            ValidationError::TooManySelectors =>
                "There are more selector polynomials than constant polynomials.",
            ValidationError::TooManyGateConstraints =>
                "A gate imposes more constraints than num_gate_constraints.",
            ValidationError::QuotientDegreeFactor =>
                "quotient_degree_factor does not match the configured maximum.",
            ValidationError::LdeDomain => "The LDE domain does not exist in this field.",
            ValidationError::FriParamsMismatch =>
                "The FRI parameters do not match the circuit config.",
        }
    }
}

impl CommonView {
    /// Every gate type comes before the next one.
    pub open spec fn gates_sorted(self) -> bool {
        forall|i: int, j: int|
            0 <= i && j == i + 1 && j < self.gates.len() ==> gate_less(
                #[trigger] self.gates[i],
                #[trigger] self.gates[j],
            )
    }

    pub open spec fn one_selector_index_per_gate(self) -> bool {
        self.selectors_info.selector_indices.len() == self.gates.len()
    }

    /// Where the groups before the `k`-th one end.
    pub open spec fn group_boundary(self, k: int) -> usize {
        if k == 0 {
            0
        } else {
            self.selectors_info.groups[k - 1].end
        }
    }

    /// The `k`-th group starts where the one before it ends, and lies within the list of gates.
    pub open spec fn group_contiguous(self, k: int) -> bool {
        let group = self.selectors_info.groups[k];
        group.start == self.group_boundary(k) && group.end <= self.gates.len()
    }

    pub open spec fn group_nonempty(self, k: int) -> bool {
        self.selectors_info.groups[k].start < self.selectors_info.groups[k].end
    }

    /// A gate of the `k`-th group, multiplied by the group's filter, stays within the degree of the
    /// quotient: the size of the group plus the degree of each gate is at most
    /// `quotient_degree_factor + 2`.
    pub open spec fn group_within_degree(self, k: int) -> bool {
        let group = self.selectors_info.groups[k];
        forall|i: int|
            group.start <= i < group.end ==> group.end - group.start + (
            #[trigger] self.gates[i]).degree <= self.quotient_degree_factor + 2
    }

    pub open spec fn group_ok(self, k: int) -> bool {
        self.group_contiguous(k) && self.group_nonempty(k) && self.group_within_degree(k)
    }

    pub open spec fn groups_ok_before(self, k: int) -> bool {
        forall|j: int| 0 <= j < k ==> #[trigger] self.group_ok(j)
    }

    pub open spec fn groups_cover(self) -> bool {
        self.group_boundary(self.selectors_info.groups.len() as int) == self.gates.len()
    }

    /// The selector index of the `i`-th gate type points to the group that contains it.
    pub open spec fn selector_ok(self, i: int) -> bool {
        let k = self.selectors_info.selector_indices[i];
        &&& k < self.selectors_info.groups.len()
        &&& self.selectors_info.groups[k as int].start <= i
            < self.selectors_info.groups[k as int].end
    }

    pub open spec fn selectors_ok(self) -> bool {
        forall|i: int|
            0 <= i < self.selectors_info.selector_indices.len() ==> #[trigger] self.selector_ok(i)
    }

    /// The selector polynomials are among the constant polynomials.
    pub open spec fn selectors_fit(self) -> bool {
        self.selectors_info.groups.len() + self.num_lookup_selectors <= self.num_constants
    }

    pub open spec fn gate_constraints_fit(self) -> bool {
        forall|i: int|
            0 <= i < self.gates.len() ==> (#[trigger] self.gates[i]).num_constraints
                <= self.num_gate_constraints
    }

    pub open spec fn quotient_degree_ok(self) -> bool {
        self.quotient_degree_factor == self.config.max_quotient_degree_factor
    }

    /// The field has a domain of the size of the low-degree extension.
    pub open spec fn lde_domain_exists(self, two_adicity: nat) -> bool {
        self.fri_params.degree_bits + self.config.fri_config.rate_bits <= two_adicity
    }

    /// The two copies of the parameters of FRI agree.
    pub open spec fn fri_params_match(self) -> bool {
        self.fri_params.config == self.config.fri_config && self.fri_params.hiding
            == self.config.zero_knowledge
    }

    /// Everything that [`CommonCircuitData::validate`] checks.
    pub open spec fn valid(self, two_adicity: nat) -> bool {
        &&& self.gates_sorted()
        &&& self.one_selector_index_per_gate()
        &&& self.groups_ok_before(self.selectors_info.groups.len() as int)
        &&& self.groups_cover()
        &&& self.selectors_ok()
        &&& self.selectors_fit()
        &&& self.gate_constraints_fit()
        &&& self.quotient_degree_ok()
        &&& self.lde_domain_exists(two_adicity)
        &&& self.fri_params_match()
    }

    /// `e` is what the first failing check reports.
    pub open spec fn fails_with(self, e: ValidationError, two_adicity: nat) -> bool {
        let n = self.selectors_info.groups.len() as int;
        let ordered = self.gates_sorted();
        let indexed = ordered && self.one_selector_index_per_gate();
        let grouped = indexed && self.groups_ok_before(n);
        let covered = grouped && self.groups_cover();
        let selected = covered && self.selectors_ok();
        let fitting = selected && self.selectors_fit();
        let constrained = fitting && self.gate_constraints_fit();
        let bounded = constrained && self.quotient_degree_ok();
        match e {
            ValidationError::GatesNotSorted => !self.gates_sorted(),
            ValidationError::SelectorIndexCount => ordered && !self.one_selector_index_per_gate(),
            ValidationError::GroupsNotContiguous => indexed && exists|k: int|
                0 <= k < n && #[trigger] self.groups_ok_before(k) && !self.group_contiguous(k),
            ValidationError::EmptyGroup => indexed && exists|k: int|
                0 <= k < n && #[trigger] self.groups_ok_before(k) && self.group_contiguous(k)
                    && !self.group_nonempty(k),
            ValidationError::GroupTooLarge => indexed && exists|k: int|
                0 <= k < n && #[trigger] self.groups_ok_before(k) && self.group_contiguous(k)
                    && self.group_nonempty(k) && !self.group_within_degree(k),
            ValidationError::GroupsDoNotCover => grouped && !self.groups_cover(),
            ValidationError::SelectorIndexOutsideGroup => covered && !self.selectors_ok(),
            ValidationError::TooManySelectors => selected && !self.selectors_fit(),
            ValidationError::TooManyGateConstraints => fitting && !self.gate_constraints_fit(),
            ValidationError::QuotientDegreeFactor => constrained && !self.quotient_degree_ok(),
            ValidationError::LdeDomain => bounded && !self.lde_domain_exists(two_adicity),
            ValidationError::FriParamsMismatch => bounded && self.lde_domain_exists(two_adicity)
                && !self.fri_params_match(),
        }
    }
}

/// `m` is the largest degree among the gates from `lo` to `hi`.
pub open spec fn is_max_degree(gates: Seq<GateView>, lo: int, hi: int, m: usize) -> bool {
    &&& exists|i: int| lo <= i < hi && (#[trigger] gates[i]).degree == m
    &&& forall|i: int| lo <= i < hi ==> (#[trigger] gates[i]).degree <= m
}

/// The largest degree among the gates from `lo` to `hi`.
pub fn max_degree(gates: &Vec<GateRef>, lo: usize, hi: usize) -> (m: usize)
    requires
        lo < hi <= gates@.len(),
    ensures
        is_max_degree(gates.deep_view(), lo as int, hi as int, m),
{
    let ghost views = gates.deep_view();
    let mut m: usize = gates[lo].degree;
    let mut i: usize = lo + 1;
    assert(views[lo as int].degree == m);
    while i < hi
        invariant
            lo < i <= hi <= gates@.len(),
            views == gates.deep_view(),
            is_max_degree(views, lo as int, i as int, m),
        decreases hi - i,
    {
        assert(views[i as int].degree == gates@[i as int].degree);
        if gates[i].degree > m {
            m = gates[i].degree;
        }
        i = i + 1;
    }
    m
}

impl<F: RichField + Extendable<D>, const D: usize> CommonCircuitData<F, D> {
    /// Checks that this data could have been produced by building a circuit.
    ///
    /// The verifier uses these fields as indices and loop bounds before looking at any proof data.
    pub fn validate(&self) -> (r: Result<(), ValidationError>)
        ensures
            r is Ok <==> self@.valid(F::TWO_ADICITY as nat),
            forall|e: ValidationError|
                r == Err::<(), _>(e) <==> #[trigger] self@.fails_with(e, F::TWO_ADICITY as nat),
    {
        let r = self.run_checks();
        proof {
            assert forall|e: ValidationError| #[trigger]
                self@.fails_with(e, F::TWO_ADICITY as nat) implies r == Err::<(), _>(e) by {
                law_one_verdict(self@, e, F::TWO_ADICITY as nat);
            }
            if let Err(e) = r {
                law_one_verdict(self@, e, F::TWO_ADICITY as nat);
            }
        }
        r
    }

    /// Runs the checks one after the other and reports the first that fails.
    fn run_checks(&self) -> (r: Result<(), ValidationError>)
        ensures
            match r {
                Ok(()) => self@.valid(F::TWO_ADICITY as nat),
                Err(e) => self@.fails_with(e, F::TWO_ADICITY as nat),
            },
    {
        let ghost v = self@;
        let num_gates = self.gates.len();
        let selector_indices = &self.selectors_info.selector_indices;
        let groups = &self.selectors_info.groups;

        // Gate types are sorted by degree and name. This also rules out repeated gate types, which
        // multiply the verifier's work.
        let mut i: usize = 1;
        while i < num_gates
            invariant
                v == self@,
                num_gates == self.gates@.len(),
                1 <= i,
                i <= num_gates || num_gates == 0,
                forall|a: int, b: int|
                    0 <= a && b == a + 1 && b < i && b < num_gates ==> gate_less(
                        #[trigger] v.gates[a],
                        #[trigger] v.gates[b],
                    ),
            decreases num_gates - i,
        {
            assert(v.gates[i - 1] == self.gates@[i - 1]@ && v.gates[i as int]
                == self.gates@[i as int]@);
            if !self.gates[i - 1].precedes(&self.gates[i]) {
                return Err(ValidationError::GatesNotSorted);
            }
            i = i + 1;
        }

        if selector_indices.len() != num_gates {
            return Err(ValidationError::SelectorIndexCount);
        }

        // The groups partition all gate types into contiguous, non-empty ranges.
        let mut expected_start: usize = 0;
        let mut k: usize = 0;
        while k < groups.len()
            invariant
                v == self@,
                num_gates == self.gates@.len(),
                groups@ == v.selectors_info.groups,
                v.gates_sorted(),
                v.one_selector_index_per_gate(),
                k <= groups@.len(),
                v.groups_ok_before(k as int),
                expected_start == v.group_boundary(k as int),
            decreases groups@.len() - k,
        {
            let (start, end) = (groups[k].start, groups[k].end);
            // Checked before the gates of the group are looked at.
            if start != expected_start || end > num_gates {
                assert(v.groups_ok_before(k as int) && !v.group_contiguous(k as int));
                return Err(ValidationError::GroupsNotContiguous);
            }
            if start >= end {
                assert(v.groups_ok_before(k as int) && !v.group_nonempty(k as int));
                return Err(ValidationError::EmptyGroup);
            }

            // A group of size `s` whose largest gate has degree `d` stays within the quotient's
            // degree budget when `s + d <= quotient_degree_factor + 2`.
            let max_degree_in_group = max_degree(&self.gates, start, end);
            if (end - start) as u128 + max_degree_in_group as u128
                > self.quotient_degree_factor as u128 + 2 {
                assert(v.groups_ok_before(k as int) && !v.group_within_degree(k as int));
                return Err(ValidationError::GroupTooLarge);
            }
            assert(v.group_ok(k as int));
            expected_start = end;
            k = k + 1;
        }
        if expected_start != num_gates {
            return Err(ValidationError::GroupsDoNotCover);
        }

        let mut i: usize = 0;
        while i < num_gates
            invariant
                v == self@,
                num_gates == self.gates@.len() == selector_indices@.len(),
                selector_indices@ == v.selectors_info.selector_indices,
                groups@ == v.selectors_info.groups,
                v.gates_sorted(),
                v.one_selector_index_per_gate(),
                v.groups_ok_before(groups@.len() as int),
                v.groups_cover(),
                i <= num_gates,
                forall|j: int| 0 <= j < i ==> #[trigger] v.selector_ok(j),
            decreases num_gates - i,
        {
            let selector_index = selector_indices[i];
            if selector_index >= groups.len() || i < groups[selector_index].start || i
                >= groups[selector_index].end {
                assert(!v.selector_ok(i as int));
                return Err(ValidationError::SelectorIndexOutsideGroup);
            }
            assert(v.selector_ok(i as int));
            i = i + 1;
        }

        // The selector polynomials are the first constant polynomials, and the verifier indexes the
        // constants with a selector index.
        if groups.len() as u128 + self.num_lookup_selectors as u128 > self.num_constants as u128 {
            return Err(ValidationError::TooManySelectors);
        }

        // The verifier keeps a buffer of this many constraint evaluations.
        let mut i: usize = 0;
        while i < num_gates
            invariant
                v == self@,
                num_gates == self.gates@.len(),
                v.gates_sorted(),
                v.one_selector_index_per_gate(),
                v.groups_ok_before(v.selectors_info.groups.len() as int),
                v.groups_cover(),
                v.selectors_ok(),
                v.selectors_fit(),
                i <= num_gates,
                forall|j: int|
                    0 <= j < i ==> (#[trigger] v.gates[j]).num_constraints
                        <= v.num_gate_constraints,
            decreases num_gates - i,
        {
            assert(v.gates[i as int] == self.gates@[i as int]@);
            if self.gates[i].num_constraints > self.num_gate_constraints {
                return Err(ValidationError::TooManyGateConstraints);
            }
            i = i + 1;
        }
        if self.quotient_degree_factor != self.config.max_quotient_degree_factor {
            return Err(ValidationError::QuotientDegreeFactor);
        }

        // The root of unity of the low-degree extension exists, and the verifier raises a challenge
        // to the power `2^degree_bits` one squaring at a time.
        if self.fri_params.degree_bits as u128 + self.config.fri_config.rate_bits as u128
            > F::TWO_ADICITY as u128 {
            return Err(ValidationError::LdeDomain);
        }

        // The challenger and the verifier of FRI read different copies of these parameters.
        if self.fri_params.config != self.config.fri_config || self.fri_params.hiding
            != self.config.zero_knowledge {
            return Err(ValidationError::FriParamsMismatch);
        }
        Ok(())
    }
}

/// The `k`-th group fails, and none before it.
spec fn first_bad_group(v: CommonView, k: int) -> bool {
    0 <= k < v.selectors_info.groups.len() && v.groups_ok_before(k) && !v.group_ok(k)
}

/// The first group that fails is one and the same.
proof fn lemma_first_bad_group(v: CommonView, j: int, k: int)
    requires
        first_bad_group(v, j),
        first_bad_group(v, k),
    ensures
        j == k,
{
}

/// Data is rejected for one reason at most, and never when it is valid.
pub proof fn law_one_verdict(v: CommonView, e: ValidationError, two_adicity: nat)
    requires
        v.fails_with(e, two_adicity),
    ensures
        !v.valid(two_adicity),
        forall|f: ValidationError| #[trigger] v.fails_with(f, two_adicity) ==> f == e,
{
    let n = v.selectors_info.groups.len() as int;
    if exists|k: int| first_bad_group(v, k) {
        let k = choose|k: int| first_bad_group(v, k);
        assert(!v.groups_ok_before(n)) by {
            assert(!v.group_ok(k));
        }
        assert forall|j: int| 0 <= j < n && #[trigger] v.groups_ok_before(j) && !v.group_ok(
            j,
        ) implies j == k by {
            lemma_first_bad_group(v, j, k);
        }
    } else {
        assert forall|j: int| 0 <= j < n && #[trigger] v.groups_ok_before(j) implies v.group_ok(
            j,
        ) by {
            assert(!first_bad_group(v, j));
        }
    }
}

/// Data that is not valid is rejected for some reason.
pub proof fn law_some_verdict(v: CommonView, two_adicity: nat)
    ensures
        v.valid(two_adicity) || exists|e: ValidationError| #[trigger] v.fails_with(e, two_adicity),
{
    let n = v.selectors_info.groups.len() as int;
    if v.gates_sorted() && v.one_selector_index_per_gate() && !v.groups_ok_before(n) {
        let j = choose|j: int| 0 <= j < n && !#[trigger] v.group_ok(j);
        let k = lemma_find_first_bad_group(v, j);
        assert(v.groups_ok_before(k));
    }
    assert(v.valid(two_adicity) || v.fails_with(ValidationError::GatesNotSorted, two_adicity)
        || v.fails_with(ValidationError::SelectorIndexCount, two_adicity) || v.fails_with(
        ValidationError::GroupsNotContiguous,
        two_adicity,
    ) || v.fails_with(ValidationError::EmptyGroup, two_adicity) || v.fails_with(
        ValidationError::GroupTooLarge,
        two_adicity,
    ) || v.fails_with(ValidationError::GroupsDoNotCover, two_adicity) || v.fails_with(
        ValidationError::SelectorIndexOutsideGroup,
        two_adicity,
    ) || v.fails_with(ValidationError::TooManySelectors, two_adicity) || v.fails_with(
        ValidationError::TooManyGateConstraints,
        two_adicity,
    ) || v.fails_with(ValidationError::QuotientDegreeFactor, two_adicity) || v.fails_with(
        ValidationError::LdeDomain,
        two_adicity,
    ) || v.fails_with(ValidationError::FriParamsMismatch, two_adicity));
}

/// Among the groups up to a failing one there is a first that fails.
proof fn lemma_find_first_bad_group(v: CommonView, j: int) -> (k: int)
    requires
        0 <= j < v.selectors_info.groups.len(),
        !v.group_ok(j),
    ensures
        first_bad_group(v, k),
    decreases j,
{
    if v.groups_ok_before(j) {
        j
    } else {
        let i = choose|i: int| 0 <= i < j && !#[trigger] v.group_ok(i);
        lemma_find_first_bad_group(v, i)
    }
}

/// Gate types of valid data are all in order, and no two of them agree in degree and name.
pub proof fn law_gate_types_distinct(v: CommonView, two_adicity: nat, i: int, j: int)
    requires
        v.valid(two_adicity),
        0 <= i < j < v.gates.len(),
    ensures
        gate_less(v.gates[i], v.gates[j]),
        v.gates[i].degree != v.gates[j].degree || v.gates[i].id != v.gates[j].id,
    decreases j - i,
{
    if i + 1 < j {
        law_gate_types_distinct(v, two_adicity, i, j - 1);
        assert(gate_less(v.gates[j - 1], v.gates[j]));
        lemma_gate_less_transitive(v.gates[i], v.gates[j - 1], v.gates[j]);
    }
    lemma_gate_less_distinct(v.gates[i], v.gates[j]);
}

/// The ends of contiguous groups grow.
proof fn lemma_group_ends_grow(v: CommonView, j: int, k: int)
    requires
        0 <= j <= k < v.selectors_info.groups.len(),
        v.groups_ok_before(v.selectors_info.groups.len() as int),
    ensures
        v.selectors_info.groups[j].end <= v.selectors_info.groups[k].end,
        k + 1 <= v.selectors_info.groups[k].end,
        j < k ==> v.selectors_info.groups[j].end <= v.selectors_info.groups[k].start,
    decreases k,
{
    assert(v.group_ok(k));
    if j < k {
        lemma_group_ends_grow(v, j, k - 1);
    } else if k > 0 {
        lemma_group_ends_grow(v, k - 1, k - 1);
    }
}

/// The groups of valid data partition all gate types: a gate type lies in the group that its
/// selector index names and in no other.
pub proof fn law_groups_partition_gates(v: CommonView, two_adicity: nat, i: int, k: int)
    requires
        v.valid(two_adicity),
        0 <= i < v.gates.len(),
        0 <= k < v.selectors_info.groups.len(),
    ensures
        v.selectors_info.groups[k].start <= i < v.selectors_info.groups[k].end <==> k
            == v.selectors_info.selector_indices[i],
{
    assert(v.selector_ok(i));
    let s = v.selectors_info.selector_indices[i] as int;
    if k < s {
        lemma_group_ends_grow(v, k, s);
    }
    if s < k {
        lemma_group_ends_grow(v, s, k);
    }
}

/// Whatever the verifier takes from valid data as an index or a loop bound stays within what is
/// there: no group reaches beyond the list of gates, there are no more groups than gate types, and a
/// selector index names a constant polynomial that is no lookup selector.
pub proof fn law_indices_in_bounds(v: CommonView, two_adicity: nat, i: int, k: int)
    requires
        v.valid(two_adicity),
        0 <= i < v.gates.len(),
        0 <= k < v.selectors_info.groups.len(),
    ensures
        v.selectors_info.groups[k].start < v.selectors_info.groups[k].end <= v.gates.len(),
        v.selectors_info.groups.len() <= v.gates.len(),
        v.selectors_info.selector_indices[i] + v.num_lookup_selectors < v.num_constants,
        v.gates[i].num_constraints <= v.num_gate_constraints,
{
    assert(v.group_ok(k));
    assert(v.selector_ok(i));
    let last = v.selectors_info.groups.len() - 1;
    lemma_group_ends_grow(v, last, last);
    assert(v.group_ok(last));
}

/// The gates of valid data have at most the degree that the quotient leaves room for.
pub proof fn law_constraint_degree_bounded(v: CommonView, two_adicity: nat, m: usize)
    requires
        v.valid(two_adicity),
        is_max_degree(v.gates, 0, v.gates.len() as int, m),
    ensures
        m <= v.quotient_degree_factor + 1,
{
    let i = choose|i: int| 0 <= i < v.gates.len() && (#[trigger] v.gates[i]).degree == m;
    assert(v.selector_ok(i));
    assert(v.group_ok(v.selectors_info.selector_indices[i] as int));
}

/// Groups that are non-empty and in order, and of which one holds every gate type, leave no gap.
proof fn lemma_no_gaps(v: CommonView, k: int)
    requires
        0 <= k <= v.selectors_info.groups.len(),
        v.one_selector_index_per_gate(),
        forall|j: int|
            0 <= j < v.selectors_info.groups.len() ==> (
            #[trigger] v.selectors_info.groups[j]).start < v.selectors_info.groups[j].end
                <= v.gates.len(),
        forall|i: int, j: int|
            0 <= i < j < v.selectors_info.groups.len() ==> (
            #[trigger] v.selectors_info.groups[i]).end <= (
            #[trigger] v.selectors_info.groups[j]).start,
        v.selectors_ok(),
    ensures
        k < v.selectors_info.groups.len() ==> v.selectors_info.groups[k].start
            == v.group_boundary(k),
        k == v.selectors_info.groups.len() ==> v.group_boundary(k) == v.gates.len(),
{
    let groups = v.selectors_info.groups;
    let i = v.group_boundary(k) as int;
    if k > 0 {
        assert(groups[k - 1].start < groups[k - 1].end <= v.gates.len());
    }
    if k < groups.len() {
        assert(groups[k].start < groups[k].end <= v.gates.len());
        if k > 0 {
            assert(groups[k - 1].end <= groups[k].start);
        }
    }
    if i < v.gates.len() && (k == groups.len() || i < groups[k].start) {
        // What stands right behind the groups before the `k`-th one lies in no group.
        assert(v.selector_ok(i));
        let s = v.selectors_info.selector_indices[i] as int;
        if s < k - 1 {
            assert(groups[s].end <= groups[k - 1].start);
        } else if s > k {
            assert(groups[k].end <= groups[s].start);
        }
        assert(false);
    }
}

/// Which data [`CommonCircuitData::validate`] accepts, in terms of its fields: all gate types are in
/// order; the groups are non-empty stretches of them, one behind the other; a gate type lies in the
/// group that its selector index names and in no other; the size of a group and the degree of each of
/// its gate types leave room in the quotient; the selectors, the constraints and the domain fit; and
/// the two copies of the parameters of FRI agree, with zero knowledge or without.
pub proof fn law_accepts_exactly<F: RichField + Extendable<D>, const D: usize>(
    common: &CommonCircuitData<F, D>,
    r: Result<(), ValidationError>,
)
    requires
        call_ensures(CommonCircuitData::<F, D>::validate, (common,), r),
    ensures
        ({
            let (gates, n) = (common.gates@, common.gates@.len());
            let selectors = common.selectors_info.selector_indices@;
            let (groups, m) = (common.selectors_info.groups@, common.selectors_info.groups@.len());
            r is Ok <==> {
                &&& forall|i: int, j: int|
                    0 <= i < j < n ==> gate_less((#[trigger] gates[i])@, (#[trigger] gates[j])@)
                &&& selectors.len() == n
                &&& forall|k: int|
                    0 <= k < m ==> (#[trigger] groups[k]).start < groups[k].end <= n
                &&& forall|j: int, k: int|
                    0 <= j < k < m ==> (#[trigger] groups[j]).end <= (#[trigger] groups[k]).start
                &&& forall|i: int| 0 <= i < n ==> #[trigger] selectors[i] < m
                &&& forall|i: int, k: int|
                    0 <= i < n && 0 <= k < m ==> ((#[trigger] groups[k]).start <= i < groups[k].end
                        <==> (#[trigger] selectors[i]) == k)
                &&& forall|i: int|
                    0 <= i < n ==> groups[selectors[i] as int].end
                        - groups[selectors[i] as int].start + (#[trigger] gates[i]).degree
                        <= common.quotient_degree_factor + 2
                &&& forall|i: int|
                    0 <= i < n ==> (#[trigger] gates[i]).num_constraints
                        <= common.num_gate_constraints
                &&& m + common.num_lookup_selectors <= common.num_constants
                &&& common.quotient_degree_factor == common.config.max_quotient_degree_factor
                &&& common.fri_params.degree_bits + common.config.fri_config.rate_bits
                    <= F::TWO_ADICITY
                &&& common.fri_params.config.rate_bits == common.config.fri_config.rate_bits
                &&& common.fri_params.config.cap_height == common.config.fri_config.cap_height
                &&& common.fri_params.config.proof_of_work_bits
                    == common.config.fri_config.proof_of_work_bits
                &&& common.fri_params.config.reduction_strategy@
                    == common.config.fri_config.reduction_strategy@
                &&& common.fri_params.config.num_query_rounds
                    == common.config.fri_config.num_query_rounds
                &&& common.fri_params.hiding == common.config.zero_knowledge
            }
        }),
{
    let v = common@;
    let t = F::TWO_ADICITY as nat;
    let (gates, n) = (common.gates@, common.gates@.len());
    let selectors = common.selectors_info.selector_indices@;
    let (groups, m) = (common.selectors_info.groups@, common.selectors_info.groups@.len());
    assert forall|i: int| 0 <= i < n implies #[trigger] v.gates[i] == gates[i]@ by {}
    assert(v.selectors_info.groups == groups && v.selectors_info.selector_indices == selectors);
    if r is Ok {
        assert(v.valid(t));
        assert forall|i: int, j: int| 0 <= i < j < n implies gate_less(
            (#[trigger] gates[i])@,
            (#[trigger] gates[j])@,
        ) by {
            law_gate_types_distinct(v, t, i, j);
            assert(v.gates[i] == gates[i]@ && v.gates[j] == gates[j]@);
        }
        assert forall|k: int| 0 <= k < m implies (#[trigger] groups[k]).start < groups[k].end
            <= n by {
            assert(v.group_ok(k));
        }
        assert forall|j: int, k: int| 0 <= j < k < m implies (#[trigger] groups[j]).end <= (
        #[trigger] groups[k]).start by {
            lemma_group_ends_grow(v, j, k);
        }
        assert forall|i: int| 0 <= i < n implies #[trigger] selectors[i] < m by {
            assert(v.selector_ok(i));
        }
        assert forall|i: int, k: int| 0 <= i < n && 0 <= k < m implies ((
        #[trigger] groups[k]).start <= i < groups[k].end <==> (#[trigger] selectors[i]) == k) by {
            law_groups_partition_gates(v, t, i, k);
        }
        assert forall|i: int| 0 <= i < n implies groups[selectors[i] as int].end
            - groups[selectors[i] as int].start + (#[trigger] gates[i]).degree
            <= common.quotient_degree_factor + 2 by {
            assert(v.selector_ok(i));
            assert(v.group_ok(selectors[i] as int));
            assert(v.gates[i] == gates[i]@);
        }
        assert forall|i: int| 0 <= i < n implies (#[trigger] gates[i]).num_constraints
            <= common.num_gate_constraints by {
            assert(v.gates[i] == gates[i]@);
        }
    }
    if {
        &&& forall|i: int, j: int|
            0 <= i < j < n ==> gate_less((#[trigger] gates[i])@, (#[trigger] gates[j])@)
        &&& selectors.len() == n
        &&& forall|k: int| 0 <= k < m ==> (#[trigger] groups[k]).start < groups[k].end <= n
        &&& forall|j: int, k: int|
            0 <= j < k < m ==> (#[trigger] groups[j]).end <= (#[trigger] groups[k]).start
        &&& forall|i: int| 0 <= i < n ==> #[trigger] selectors[i] < m
        &&& forall|i: int, k: int|
            0 <= i < n && 0 <= k < m ==> ((#[trigger] groups[k]).start <= i < groups[k].end <==> (
            #[trigger] selectors[i]) == k)
        &&& forall|i: int|
            0 <= i < n ==> groups[selectors[i] as int].end - groups[selectors[i] as int].start + (
            #[trigger] gates[i]).degree <= common.quotient_degree_factor + 2
    } {
        assert forall|i: int, j: int| 0 <= i && j == i + 1 && j < v.gates.len() implies gate_less(
            #[trigger] v.gates[i],
            #[trigger] v.gates[j],
        ) by {
            assert(v.gates[i] == gates[i]@ && v.gates[j] == gates[j]@);
        }
        assert forall|i: int| 0 <= i < n implies #[trigger] v.selector_ok(i) by {
            let k = selectors[i] as int;
            assert(groups[k].start <= i < groups[k].end <==> selectors[i] == k);
        }
        assert forall|k: int| 0 <= k < m implies #[trigger] v.group_ok(k) by {
            lemma_no_gaps(v, k);
            assert(groups[k].start < groups[k].end <= n);
            assert forall|i: int| groups[k].start <= i < groups[k].end implies groups[k].end
                - groups[k].start + (#[trigger] v.gates[i]).degree <= v.quotient_degree_factor
                + 2 by {
                assert(selectors[i] == k);
                assert(v.gates[i] == gates[i]@);
            }
        }
        lemma_no_gaps(v, m as int);
        if (forall|i: int|
            0 <= i < n ==> (#[trigger] gates[i]).num_constraints <= common.num_gate_constraints) {
            assert forall|i: int| 0 <= i < n implies (#[trigger] v.gates[i]).num_constraints
                <= v.num_gate_constraints by {
                assert(v.gates[i] == gates[i]@);
            }
        }
    }
}

/// Zero knowledge is a free choice: data that is accepted is accepted with zero knowledge on and with
/// zero knowledge off, as long as both copies of the flag say so.
pub proof fn law_zero_knowledge_free<F: RichField + Extendable<D>, const D: usize>(
    a: &CommonCircuitData<F, D>,
    r: Result<(), ValidationError>,
    b: &CommonCircuitData<F, D>,
    s: Result<(), ValidationError>,
    zero_knowledge: bool,
)
    requires
        call_ensures(CommonCircuitData::<F, D>::validate, (a,), r),
        call_ensures(CommonCircuitData::<F, D>::validate, (b,), s),
        b@ == (CommonView {
            config: CircuitConfigView { zero_knowledge, ..a@.config },
            fri_params: FriParamsView { hiding: zero_knowledge, ..a@.fri_params },
            ..a@
        }),
        r is Ok,
    ensures
        s is Ok,
        a.fri_params.hiding == a.config.zero_knowledge,
        b.fri_params.hiding == zero_knowledge,
        b.config.zero_knowledge == zero_knowledge,
{
    let (v, w) = (a@, b@);
    lemma_same_checks(v, w);
}

/// [`CommonCircuitData::validate`] looks at these fields and at no others: data that agree in their gate types, their
/// selectors, the four bounds, the sizes of the domains, and in whether the two copies of the
/// parameters of FRI agree, are treated alike, down to the reason for a rejection.
pub proof fn law_checked_fields<F: RichField + Extendable<D>, const D: usize>(
    a: &CommonCircuitData<F, D>,
    r: Result<(), ValidationError>,
    b: &CommonCircuitData<F, D>,
    s: Result<(), ValidationError>,
)
    requires
        call_ensures(CommonCircuitData::<F, D>::validate, (a,), r),
        call_ensures(CommonCircuitData::<F, D>::validate, (b,), s),
        a.gates.deep_view() == b.gates.deep_view(),
        a.selectors_info.selector_indices@ == b.selectors_info.selector_indices@,
        a.selectors_info.groups@ == b.selectors_info.groups@,
        a.quotient_degree_factor == b.quotient_degree_factor,
        a.num_gate_constraints == b.num_gate_constraints,
        a.num_constants == b.num_constants,
        a.num_lookup_selectors == b.num_lookup_selectors,
        a.config.max_quotient_degree_factor == b.config.max_quotient_degree_factor,
        a.fri_params.degree_bits == b.fri_params.degree_bits,
        a.config.fri_config.rate_bits == b.config.fri_config.rate_bits,
        (a.fri_params.config@ == a.config.fri_config@ && a.fri_params.hiding
            == a.config.zero_knowledge) <==> (b.fri_params.config@ == b.config.fri_config@
            && b.fri_params.hiding == b.config.zero_knowledge),
    ensures
        r == s,
{
    let (v, w) = (a@, b@);
    let t = F::TWO_ADICITY as nat;
    lemma_same_checks(v, w);
    if let Err(e) = r {
        assert(v.fails_with(e, t));
        assert(w.fails_with(e, t));
    } else {
        assert(r is Ok && r->Ok_0 == () && s is Ok && s->Ok_0 == ());
    }
}

proof fn lemma_same_checks(v: CommonView, w: CommonView)
    requires
        v.gates == w.gates,
        v.selectors_info == w.selectors_info,
        v.quotient_degree_factor == w.quotient_degree_factor,
        v.num_gate_constraints == w.num_gate_constraints,
        v.num_constants == w.num_constants,
        v.num_lookup_selectors == w.num_lookup_selectors,
        v.config.max_quotient_degree_factor == w.config.max_quotient_degree_factor,
        v.fri_params.degree_bits == w.fri_params.degree_bits,
        v.config.fri_config.rate_bits == w.config.fri_config.rate_bits,
        v.fri_params_match() <==> w.fri_params_match(),
    ensures
        forall|t: nat| #[trigger] v.valid(t) <==> w.valid(t),
        forall|e: ValidationError, t: nat| #[trigger] v.fails_with(e, t) <==> w.fails_with(e, t),
{
    assert(v.gates_sorted() == w.gates_sorted());
    assert forall|k: int| #[trigger] v.group_ok(k) == w.group_ok(k) by {}
    assert forall|k: int| #[trigger] v.groups_ok_before(k) == w.groups_ok_before(k) by {
        if v.groups_ok_before(k) {
            assert forall|j: int| 0 <= j < k implies #[trigger] w.group_ok(j) by {
                assert(v.group_ok(j));
            }
        }
        if w.groups_ok_before(k) {
            assert forall|j: int| 0 <= j < k implies #[trigger] v.group_ok(j) by {
                assert(w.group_ok(j));
            }
        }
    }
    assert forall|k: int| #[trigger] w.groups_ok_before(k) == v.groups_ok_before(k) by {
        assert(v.groups_ok_before(k) == w.groups_ok_before(k));
    }
    assert forall|i: int| #[trigger] v.selector_ok(i) == w.selector_ok(i) by {}
    assert(v.selectors_ok() == w.selectors_ok()) by {
        assert forall|i: int| #[trigger] w.selector_ok(i) == v.selector_ok(i) by {}
    }
    assert(v.gate_constraints_fit() == w.gate_constraints_fit());
}

/// The `k`-th group begins where the one before it ends, and does not reach beyond the `n` gate types.
pub open spec fn follows(groups: Seq<Range<usize>>, n: int, k: int) -> bool {
    &&& groups[k].end <= n
    &&& k == 0 ==> groups[k].start == 0
    &&& k > 0 ==> groups[k].start == groups[k - 1].end
}

/// The `k`-th group and each of its gate types leave room in the quotient.
pub open spec fn has_room<F: RichField + Extendable<D>, const D: usize>(
    common: &CommonCircuitData<F, D>,
    k: int,
) -> bool {
    let group = common.selectors_info.groups@[k];
    forall|i: int|
        group.start <= i < group.end ==> group.end - group.start + (
        #[trigger] common.gates@[i]).degree <= common.quotient_degree_factor + 2
}

/// The groups before the `k`-th one follow each other, none is empty, and all leave room.
pub open spec fn no_fault_before<F: RichField + Extendable<D>, const D: usize>(
    common: &CommonCircuitData<F, D>,
    k: int,
) -> bool {
    let groups = common.selectors_info.groups@;
    forall|j: int|
        0 <= j < k ==> follows(groups, common.gates@.len() as int, j) && (
        #[trigger] groups[j]).start < groups[j].end && has_room(common, j)
}

proof fn lemma_no_fault_before<F: RichField + Extendable<D>, const D: usize>(
    common: &CommonCircuitData<F, D>,
    k: int,
)
    requires
        0 <= k <= common.selectors_info.groups@.len(),
        common@.groups_ok_before(k),
    ensures
        no_fault_before(common, k),
{
    let v = common@;
    let groups = common.selectors_info.groups@;
    assert forall|j: int| 0 <= j < k implies follows(groups, common.gates@.len() as int, j) && (
    #[trigger] groups[j]).start < groups[j].end && has_room(common, j) by {
        assert(v.group_ok(j));
        assert forall|i: int| groups[j].start <= i < groups[j].end implies groups[j].end
            - groups[j].start + (#[trigger] common.gates@[i]).degree
            <= common.quotient_degree_factor + 2 by {
            assert(v.gates[i] == common.gates@[i]@);
        }
    }
}

/// A rejection names a fault that is there: what each reason says of the fields of the data. A fault
/// of a group is that of the first group with a fault, and of its faults the first.
pub proof fn law_rejection_names_a_fault<F: RichField + Extendable<D>, const D: usize>(
    common: &CommonCircuitData<F, D>,
    e: ValidationError,
)
    requires
        call_ensures(
            CommonCircuitData::<F, D>::validate,
            (common,),
            Err::<(), ValidationError>(e),
        ),
    ensures
        ({
            let (gates, n) = (common.gates@, common.gates@.len() as int);
            let selectors = common.selectors_info.selector_indices@;
            let (groups, m) = (
                common.selectors_info.groups@,
                common.selectors_info.groups@.len() as int,
            );
            match e {
                ValidationError::GatesNotSorted => exists|i: int, j: int|
                    0 <= i && j == i + 1 && j < n && !gate_less(
                        (#[trigger] gates[i])@,
                        (#[trigger] gates[j])@,
                    ),
                ValidationError::SelectorIndexCount => selectors.len() != n,
                ValidationError::GroupsNotContiguous => exists|k: int|
                    0 <= k < m && #[trigger] no_fault_before(common, k) && !follows(groups, n, k),
                ValidationError::EmptyGroup => exists|k: int|
                    0 <= k < m && #[trigger] no_fault_before(common, k) && follows(groups, n, k)
                        && groups[k].start >= groups[k].end,
                ValidationError::GroupTooLarge => exists|k: int|
                    0 <= k < m && #[trigger] no_fault_before(common, k) && follows(groups, n, k)
                        && groups[k].start < groups[k].end && !has_room(common, k),
                ValidationError::GroupsDoNotCover => exists|i: int|
                    0 <= i < n && #[trigger] in_no_group(groups, i),
                ValidationError::SelectorIndexOutsideGroup => exists|i: int|
                    0 <= i < n && ((#[trigger] selectors[i]) >= m || !(
                    groups[selectors[i] as int].start <= i < groups[selectors[i] as int].end)),
                ValidationError::TooManySelectors => m + common.num_lookup_selectors
                    > common.num_constants,
                ValidationError::TooManyGateConstraints => exists|i: int|
                    0 <= i < n && (#[trigger] gates[i]).num_constraints
                        > common.num_gate_constraints,
                ValidationError::QuotientDegreeFactor => common.quotient_degree_factor
                    != common.config.max_quotient_degree_factor,
                ValidationError::LdeDomain => common.fri_params.degree_bits
                    + common.config.fri_config.rate_bits > F::TWO_ADICITY,
                ValidationError::FriParamsMismatch => common.fri_params.hiding
                    != common.config.zero_knowledge || common.fri_params.config@
                    != common.config.fri_config@,
            }
        }),
{
    let v = common@;
    let t = F::TWO_ADICITY as nat;
    let (gates, n) = (common.gates@, common.gates@.len() as int);
    let selectors = common.selectors_info.selector_indices@;
    let (groups, m) = (
        common.selectors_info.groups@,
        common.selectors_info.groups@.len() as int,
    );
    assert forall|i: int| 0 <= i < n implies #[trigger] v.gates[i] == gates[i]@ by {}
    assert(v.selectors_info.groups == groups && v.selectors_info.selector_indices == selectors);
    assert(v.fails_with(e, t));
    match e {
        ValidationError::GatesNotSorted => {
            let (i, j) = choose|i: int, j: int|
                0 <= i && j == i + 1 && j < v.gates.len() && !gate_less(
                    #[trigger] v.gates[i],
                    #[trigger] v.gates[j],
                );
            assert(!gate_less(gates[i]@, gates[j]@));
        },
        ValidationError::GroupsNotContiguous => {
            let k = choose|k: int|
                0 <= k < m && #[trigger] v.groups_ok_before(k) && !v.group_contiguous(k);
            lemma_no_fault_before(common, k);
            assert(!follows(groups, n, k));
        },
        ValidationError::EmptyGroup => {
            let k = choose|k: int|
                0 <= k < m && #[trigger] v.groups_ok_before(k) && v.group_contiguous(k)
                    && !v.group_nonempty(k);
            lemma_no_fault_before(common, k);
            assert(follows(groups, n, k));
        },
        ValidationError::GroupTooLarge => {
            let k = choose|k: int|
                0 <= k < m && #[trigger] v.groups_ok_before(k) && v.group_contiguous(k)
                    && v.group_nonempty(k) && !v.group_within_degree(k);
            lemma_no_fault_before(common, k);
            let i = choose|i: int|
                groups[k].start <= i < groups[k].end && groups[k].end - groups[k].start + (
                #[trigger] v.gates[i]).degree > v.quotient_degree_factor + 2;
            assert(v.gates[i] == gates[i]@);
            assert(!has_room(common, k));
        },
        ValidationError::GroupsDoNotCover => {
            let i = v.group_boundary(m) as int;
            assert(i < n) by {
                if m > 0 {
                    assert(v.group_ok(m - 1));
                }
            }
            assert forall|k: int| 0 <= k < m implies !((#[trigger] groups[k]).start <= i
                < groups[k].end) by {
                lemma_group_ends_grow(v, k, m - 1);
            }
            assert(in_no_group(groups, i));
        },
        ValidationError::SelectorIndexOutsideGroup => {
            let i = choose|i: int| 0 <= i < selectors.len() && !#[trigger] v.selector_ok(i);
            assert(selectors[i] >= m || !(groups[selectors[i] as int].start <= i
                < groups[selectors[i] as int].end));
        },
        ValidationError::TooManyGateConstraints => {
            let i = choose|i: int|
                0 <= i < n && (#[trigger] v.gates[i]).num_constraints > v.num_gate_constraints;
            assert(gates[i].num_constraints > common.num_gate_constraints);
        },
        _ => {},
    }
}

/// A rejection names the first fault: the checks that come before the one that it names find nothing
/// wrong.
pub proof fn law_rejection_names_the_first_fault<F: RichField + Extendable<D>, const D: usize>(
    common: &CommonCircuitData<F, D>,
    e: ValidationError,
)
    requires
        call_ensures(
            CommonCircuitData::<F, D>::validate,
            (common,),
            Err::<(), ValidationError>(e),
        ),
    ensures
        ({
            let (gates, n) = (common.gates@, common.gates@.len());
            let selectors = common.selectors_info.selector_indices@;
            let (groups, m) = (common.selectors_info.groups@, common.selectors_info.groups@.len());
            let stage: int = match e {
                ValidationError::GatesNotSorted => 1,
                ValidationError::SelectorIndexCount => 2,
                ValidationError::GroupsNotContiguous => 3,
                ValidationError::EmptyGroup => 3,
                ValidationError::GroupTooLarge => 3,
                ValidationError::GroupsDoNotCover => 4,
                ValidationError::SelectorIndexOutsideGroup => 5,
                ValidationError::TooManySelectors => 6,
                ValidationError::TooManyGateConstraints => 7,
                ValidationError::QuotientDegreeFactor => 8,
                ValidationError::LdeDomain => 9,
                ValidationError::FriParamsMismatch => 10,
            };
            &&& stage > 1 ==> forall|i: int, j: int|
                0 <= i && j == i + 1 && j < n ==> gate_less(
                    (#[trigger] gates[i])@,
                    (#[trigger] gates[j])@,
                )
            &&& stage > 2 ==> selectors.len() == n
            &&& stage > 3 ==> forall|k: int|
                0 <= k < m ==> (#[trigger] groups[k]).start < groups[k].end <= n
                    && groups[k].start == (if k == 0 {
                    0
                } else {
                    groups[k - 1].end as int
                })
            &&& stage > 3 ==> forall|k: int, i: int|
                0 <= k < m && (#[trigger] groups[k]).start <= i < groups[k].end
                    ==> groups[k].end - groups[k].start + (#[trigger] gates[i]).degree
                    <= common.quotient_degree_factor + 2
            &&& stage > 4 ==> n == (if m == 0 {
                0
            } else {
                groups[m - 1].end as int
            })
            &&& stage > 5 ==> forall|i: int|
                0 <= i < n ==> (#[trigger] selectors[i]) < m && groups[selectors[i] as int].start
                    <= i < groups[selectors[i] as int].end
            &&& stage > 6 ==> m + common.num_lookup_selectors <= common.num_constants
            &&& stage > 7 ==> forall|i: int|
                0 <= i < n ==> (#[trigger] gates[i]).num_constraints <= common.num_gate_constraints
            &&& stage > 8 ==> common.quotient_degree_factor
                == common.config.max_quotient_degree_factor
            &&& stage > 9 ==> common.fri_params.degree_bits + common.config.fri_config.rate_bits
                <= F::TWO_ADICITY
        }),
{
    let v = common@;
    let t = F::TWO_ADICITY as nat;
    let (gates, n) = (common.gates@, common.gates@.len());
    let selectors = common.selectors_info.selector_indices@;
    let (groups, m) = (common.selectors_info.groups@, common.selectors_info.groups@.len());
    assert forall|i: int| 0 <= i < n implies #[trigger] v.gates[i] == gates[i]@ by {}
    assert forall|i: int| 0 <= i < n implies (#[trigger] gates[i])@ == v.gates[i] by {}
    assert(v.selectors_info.groups == groups && v.selectors_info.selector_indices == selectors);
    assert(v.fails_with(e, t));
    if v.groups_ok_before(m as int) {
        assert forall|k: int| 0 <= k < m implies (#[trigger] groups[k]).start < groups[k].end <= n
            && groups[k].start == (if k == 0 {
            0
        } else {
            groups[k - 1].end as int
        }) by {
            assert(v.group_ok(k));
        }
        assert forall|k: int, i: int|
            0 <= k < m && (#[trigger] groups[k]).start <= i < groups[k].end implies groups[k].end
            - groups[k].start + (#[trigger] gates[i]).degree <= common.quotient_degree_factor
            + 2 by {
            assert(v.group_ok(k));
            assert(v.gates[i] == gates[i]@);
        }
    }
    if v.selectors_ok() && selectors.len() == n {
        assert forall|i: int| 0 <= i < n implies (#[trigger] selectors[i]) < m
            && groups[selectors[i] as int].start <= i < groups[selectors[i] as int].end by {
            assert(v.selector_ok(i));
        }
    }
}

/// The sentence that each reason is reported with.
pub proof fn law_messages(e: ValidationError, r: &'static str)
    requires
        call_ensures(ValidationError::message, (&e,), r),
    ensures
        e is GatesNotSorted ==> r@
            == "Gate types must be sorted by (degree, id), without duplicates."@,
        e is SelectorIndexCount ==> r@
            == "There must be exactly one selector index per gate type."@,
        e is GroupsNotContiguous ==> r@
            == "Selector groups must be contiguous and index into the list of gates."@,
        e is EmptyGroup ==> r@ == "Selector groups must be non-empty."@,
        e is GroupTooLarge ==> r@
            == "Selector group is too large for the quotient degree budget."@,
        e is GroupsDoNotCover ==> r@ == "Selector groups must cover every gate type."@,
        e is SelectorIndexOutsideGroup ==> r@
            == "A gate's selector index does not point to the group containing that gate."@,
        e is TooManySelectors ==> r@
            == "There are more selector polynomials than constant polynomials."@,
        e is TooManyGateConstraints ==> r@
            == "A gate imposes more constraints than num_gate_constraints."@,
        e is QuotientDegreeFactor ==> r@
            == "quotient_degree_factor does not match the configured maximum."@,
        e is LdeDomain ==> r@ == "The LDE domain does not exist in this field."@,
        e is FriParamsMismatch ==> r@ == "The FRI parameters do not match the circuit config."@,
{
}

/// The largest degree among some gate types is reached by one of them and exceeded by none.
pub proof fn law_max_degree(gates: &Vec<GateRef>, lo: usize, hi: usize, m: usize)
    requires
        lo < hi <= gates@.len(),
        call_ensures(max_degree, (gates, lo, hi), m),
    ensures
        forall|i: int| lo <= i < hi ==> (#[trigger] gates@[i]).degree <= m,
        exists|i: int| lo <= i < hi && (#[trigger] gates@[i]).degree == m,
{
    let v = gates.deep_view();
    let i = choose|i: int| lo <= i < hi && (#[trigger] v[i]).degree == m;
    assert(gates@[i].degree == m);
    assert forall|j: int| lo <= j < hi implies (#[trigger] gates@[j]).degree <= m by {
        assert(v[j] == gates@[j]@);
    }
}

/// The `i`-th gate type lies in none of the groups.
pub open spec fn in_no_group(groups: Seq<Range<usize>>, i: int) -> bool {
    forall|k: int|
        0 <= k < groups.len() ==> !((#[trigger] groups[k]).start <= i < groups[k].end)
}

} // verus!
