//! The fields a circuit works over: a base field with a large power of two dividing the order of
//! its multiplicative group, and an extension of degree `D` of it.

use core::fmt::Debug;

use vstd::prelude::*;

use crate::wire::Codec;

verus! {

/// The arithmetic of a field, over the values that its elements stand for.
pub trait FieldModel: DeepView + Sized {
    /// The values that elements stand for.
    spec fn contains(v: Self::V) -> bool;

    spec fn zero() -> Self::V;

    spec fn one() -> Self::V;

    spec fn product(a: Self::V, b: Self::V) -> Self::V;

    /// A generator of the subgroup of order `2^TWO_ADICITY`.
    spec fn generator() -> Self::V;
}

/// `a` squared `k` times, that is `a^(2^k)`.
pub open spec fn squared<F: FieldModel>(a: F::V, k: nat) -> F::V
    decreases k,
{
    if k == 0 {
        a
    } else {
        let half = squared::<F>(a, (k - 1) as nat);
        F::product(half, half)
    }
}

/// `a^(2^n)` is one and `a^(2^(n-1))` is not: the order of `a` is exactly `2^n`.
pub open spec fn has_order_pow2<F: FieldModel>(a: F::V, n: nat) -> bool {
    &&& squared::<F>(a, n) == F::one()
    &&& n > 0 ==> squared::<F>(a, (n - 1) as nat) != F::one()
}

/// Squaring `j` times and then `k` times is squaring `j + k` times.
pub proof fn lemma_squared_twice<F: FieldModel>(a: F::V, j: nat, k: nat)
    ensures
        squared::<F>(squared::<F>(a, j), k) == squared::<F>(a, j + k),
    decreases k,
{
    if k > 0 {
        lemma_squared_twice::<F>(a, j, (k - 1) as nat);
        assert((j + k - 1) as nat == j + (k - 1) as nat);
    }
}

/// A finite field whose multiplicative group has a subgroup of order `2^TWO_ADICITY`.
pub trait Field: FieldModel + Copy + Eq + Debug {
    /// The largest `n` for which the field has a primitive `2^n`-th root of unity.
    const TWO_ADICITY: usize;

    /// Whatever the type holds stands for a value of the field.
    proof fn lemma_contains(&self)
        ensures
            Self::contains(self.deep_view()),
    ;

    /// Products are commutative and associative, and stay in the field.
    proof fn lemma_product(a: Self::V, b: Self::V, c: Self::V)
        ensures
            Self::contains(Self::product(a, b)),
            Self::product(a, b) == Self::product(b, a),
            Self::product(Self::product(a, b), c) == Self::product(a, Self::product(b, c)),
    ;

    /// The one is neutral, and is not zero.
    proof fn lemma_one(a: Self::V)
        requires
            Self::contains(a),
        ensures
            Self::product(Self::one(), a) == a,
            Self::contains(Self::one()),
            Self::one() != Self::zero(),
    ;

    /// Every element but zero has an inverse.
    proof fn lemma_inverse(a: Self::V) -> (w: Self::V)
        requires
            Self::contains(a),
            a != Self::zero(),
        ensures
            Self::contains(w),
            Self::product(a, w) == Self::one(),
    ;

    /// The generator of the two-adic subgroup has order exactly `2^TWO_ADICITY`.
    proof fn lemma_generator_order()
        ensures
            Self::contains(Self::generator()),
            has_order_pow2::<Self>(Self::generator(), Self::TWO_ADICITY as nat),
    ;

    fn power_of_two_generator() -> (r: Self)
        ensures
            r.deep_view() == Self::generator(),
    ;

    fn times(self, rhs: Self) -> (r: Self)
        ensures
            r.deep_view() == Self::product(self.deep_view(), rhs.deep_view()),
    ;

    /// `self^(2^power_log)`.
    fn exp_power_of_2(self, power_log: usize) -> (r: Self)
        ensures
            r.deep_view() == squared::<Self>(self.deep_view(), power_log as nat),
    {
        let mut r: Self = self;
        let mut i: usize = 0;
        while i < power_log
            invariant
                i <= power_log,
                r.deep_view() == squared::<Self>(self.deep_view(), i as nat),
            decreases power_log - i,
        {
            r = r.times(r);
            i = i + 1;
        }
        r
    }

    /// A primitive `2^n_log`-th root of unity: the generator of the two-adic subgroup, squared down
    /// to that order.
    fn primitive_root_of_unity(n_log: usize) -> (r: Self)
        requires
            n_log <= Self::TWO_ADICITY,
        ensures
            r.deep_view() == squared::<Self>(
                Self::generator(),
                (Self::TWO_ADICITY - n_log) as nat,
            ),
    {
        Self::power_of_two_generator().exp_power_of_2(Self::TWO_ADICITY - n_log)
    }
}

/// The value of [`Field::primitive_root_of_unity`].
pub open spec fn root_of_unity<F: Field>(n_log: nat) -> F::V {
    squared::<F>(F::generator(), (F::TWO_ADICITY - n_log) as nat)
}

/// The root of unity for `n_log` has order exactly `2^n_log`.
pub proof fn law_root_of_unity_order<F: Field>(n_log: nat)
    requires
        n_log <= F::TWO_ADICITY,
    ensures
        has_order_pow2::<F>(root_of_unity::<F>(n_log), n_log),
{
    let t = F::TWO_ADICITY as nat;
    F::lemma_generator_order();
    lemma_squared_twice::<F>(F::generator(), (t - n_log) as nat, n_log);
    if n_log > 0 {
        lemma_squared_twice::<F>(F::generator(), (t - n_log) as nat, (n_log - 1) as nat);
    }
}

/// Repeated squares stay in the field, and those of the one are one.
proof fn lemma_squared_contained<F: Field>(a: F::V, k: nat)
    requires
        F::contains(a),
    ensures
        F::contains(squared::<F>(a, k)),
        a == F::one() ==> squared::<F>(a, k) == F::one(),
    decreases k,
{
    if k > 0 {
        lemma_squared_contained::<F>(a, (k - 1) as nat);
        let half = squared::<F>(a, (k - 1) as nat);
        F::lemma_product(half, half, half);
        F::lemma_one(half);
    }
}

/// Repeated squares of a product are the product of the repeated squares.
proof fn lemma_squared_product<F: Field>(a: F::V, b: F::V, k: nat)
    ensures
        squared::<F>(F::product(a, b), k) == F::product(squared::<F>(a, k), squared::<F>(b, k)),
    decreases k,
{
    if k > 0 {
        lemma_squared_product::<F>(a, b, (k - 1) as nat);
        let (x, y) = (squared::<F>(a, (k - 1) as nat), squared::<F>(b, (k - 1) as nat));
        // (x y) (x y) = x (y (x y)) = x ((x y) y) = x (x (y y)) = (x x) (y y)
        let xy = F::product(x, y);
        F::lemma_product(x, y, xy);
        F::lemma_product(y, xy, x);
        F::lemma_product(x, y, y);
        F::lemma_product(x, x, F::product(y, y));
    }
}

/// Shifting a point by the root of unity for `n` keeps its `2^n`-th power, and if the point is not
/// zero it keeps no smaller power of that form: the shift has order exactly `2^n`.
pub proof fn law_shifted_point<F: Field>(n: nat, point: F::V)
    requires
        n <= F::TWO_ADICITY,
        F::contains(point),
    ensures
        squared::<F>(F::product(root_of_unity::<F>(n), point), n) == squared::<F>(point, n),
        n > 0 && point != F::zero() ==> squared::<F>(
            F::product(root_of_unity::<F>(n), point),
            (n - 1) as nat,
        ) != squared::<F>(point, (n - 1) as nat),
{
    let g = root_of_unity::<F>(n);
    law_root_of_unity_order::<F>(n);
    lemma_squared_product::<F>(g, point, n);
    lemma_squared_contained::<F>(point, n);
    F::lemma_one(squared::<F>(point, n));
    if n > 0 && point != F::zero() {
        let k = (n - 1) as nat;
        lemma_squared_product::<F>(g, point, k);
        let (h, z) = (squared::<F>(g, k), squared::<F>(point, k));
        F::lemma_generator_order();
        lemma_squared_contained::<F>(F::generator(), (F::TWO_ADICITY - n) as nat);
        lemma_squared_contained::<F>(g, k);
        // The inverse of the power is the power of the inverse.
        let w = F::lemma_inverse(point);
        let v = squared::<F>(w, k);
        lemma_squared_product::<F>(point, w, k);
        F::lemma_one(h);
        lemma_squared_contained::<F>(F::one(), k);
        if F::product(h, z) == z {
            F::lemma_product(h, z, v);
            F::lemma_product(h, F::one(), h);
        }
    }
}

/// The field of a circuit: its elements stand for natural numbers, and can be written and read.
pub trait RichField: Field + Codec + DeepView<V = nat> {

}

/// A field with an extension of degree `D`.
pub trait Extendable<const D: usize>: Field {
    type Extension: Field;

    /// The extension's value for a value of the base field.
    spec fn embed(v: Self::V) -> <Self::Extension as DeepView>::V;

    /// The embedding keeps products and the one.
    proof fn lemma_embed(a: Self::V, b: Self::V)
        ensures
            Self::embed(Self::product(a, b)) == <Self::Extension as FieldModel>::product(
                Self::embed(a),
                Self::embed(b),
            ),
            Self::embed(Self::one()) == <Self::Extension as FieldModel>::one(),
    ;

    /// The generators of the two fields agree: squaring the extension's down to the order of the
    /// base field's gives the base field's.
    proof fn lemma_embed_generator()
        ensures
            Self::TWO_ADICITY <= <Self::Extension as Field>::TWO_ADICITY,
            Self::embed(Self::generator()) == squared::<Self::Extension>(
                <Self::Extension as FieldModel>::generator(),
                (<Self::Extension as Field>::TWO_ADICITY - Self::TWO_ADICITY) as nat,
            ),
    ;
}

/// The embedding keeps repeated squares.
pub proof fn lemma_embed_squared<F: Extendable<D>, const D: usize>(a: F::V, k: nat)
    ensures
        F::embed(squared::<F>(a, k)) == squared::<F::Extension>(F::embed(a), k),
    decreases k,
{
    if k > 0 {
        lemma_embed_squared::<F, D>(a, (k - 1) as nat);
        let half = squared::<F>(a, (k - 1) as nat);
        F::lemma_embed(half, half);
    }
}

/// The extension's root of unity is the base field's, wherever the base field has one.
pub proof fn law_extension_root_of_unity<F: Extendable<D>, const D: usize>(n_log: nat)
    requires
        n_log <= F::TWO_ADICITY,
    ensures
        root_of_unity::<F::Extension>(n_log) == F::embed(root_of_unity::<F>(n_log)),
{
    F::lemma_embed_generator();
    let t = F::TWO_ADICITY as nat;
    let u = <F::Extension as Field>::TWO_ADICITY as nat;
    lemma_embed_squared::<F, D>(F::generator(), (t - n_log) as nat);
    lemma_squared_twice::<F::Extension>(
        <F::Extension as FieldModel>::generator(),
        (u - t) as nat,
        (t - n_log) as nat,
    );
    assert((u - n_log) as nat == (u - t) as nat + (t - n_log) as nat);
}

/// The roots of unity form a chain that starts at the generator: the root for the largest order is the
/// generator, each root is the square of the next, and each has exactly its order.
pub proof fn law_roots_of_unity<F: Field>(n: usize, r: F, s: F, top: F)
    requires
        n < F::TWO_ADICITY,
        call_ensures(F::primitive_root_of_unity, (n,), r),
        call_ensures(F::primitive_root_of_unity, ((n + 1) as usize,), s),
        call_ensures(F::primitive_root_of_unity, (F::TWO_ADICITY,), top),
    ensures
        top.deep_view() == F::generator(),
        F::product(s.deep_view(), s.deep_view()) == r.deep_view(),
        has_order_pow2::<F>(r.deep_view(), n as nat),
        has_order_pow2::<F>(s.deep_view(), n as nat + 1),
{
    law_root_of_unity_order::<F>(n as nat);
    law_root_of_unity_order::<F>(n as nat + 1);
    let k = (F::TWO_ADICITY - n) as nat;
    assert((k - 1) as nat == (F::TWO_ADICITY - (n + 1)) as nat);
}

} // verus!
