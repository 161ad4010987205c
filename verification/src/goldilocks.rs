//! The Goldilocks field, of order `2^64 - 2^32 + 1`, and its quadratic extension.

use vstd::arithmetic::div_mod::{
    lemma_fundamental_div_mod, lemma_mod_bound, lemma_mod_equivalence, lemma_mod_twice,
    lemma_mul_mod_noop, lemma_small_mod,
};
use vstd::arithmetic::mul::{lemma_mul_is_associative, lemma_mul_is_commutative};
use vstd::arithmetic::power::{lemma_pow1, lemma_pow_adds, pow};
use vstd::arithmetic::power2::{lemma2_to64, lemma_pow2_unfold, pow2};
use vstd::prelude::*;

use crate::field::{squared, Extendable, Field, FieldModel, RichField};
use crate::modular::{
    lemma_congruent, lemma_congruent_products, lemma_not_a_square, lemma_prime,
    lemma_prime_inverse, lemma_prime_product, prime,
};
use crate::wire::{le_bytes, write_le, Buffer, Codec, IoError, IoResult};

verus! {

/// The order of the Goldilocks field.
pub const ORDER: u64 = 0xFFFF_FFFF_0000_0001;

/// The non-residue `W` of the extension `F[X] / (X^2 - W)`.
pub const W: u64 = 7;

/// An element of the Goldilocks field, given by any representative of its residue class.
#[derive(Clone, Copy, Debug)]
pub struct GoldilocksField(pub u64);

impl DeepView for GoldilocksField {
    type V = nat;

    /// The canonical representative.
    open spec fn deep_view(&self) -> nat {
        self.0 as nat % ORDER as nat
    }
}

impl GoldilocksField {
    /// The element that `n` stands for.
    pub fn from_u64(n: u64) -> (r: Self)
        ensures
            r.deep_view() == n as nat % ORDER as nat,
    {
        GoldilocksField(n)
    }

    /// The canonical representative, below the order of the field.
    pub fn to_canonical_u64(&self) -> (r: u64)
        ensures
            r < ORDER,
            r == self.deep_view(),
    {
        self.0 % ORDER
    }
}

impl PartialEq for GoldilocksField {
    fn eq(&self, other: &Self) -> (r: bool) {
        self.to_canonical_u64() == other.to_canonical_u64()
    }
}

impl vstd::std_specs::cmp::PartialEqSpecImpl for GoldilocksField {
    open spec fn obeys_eq_spec() -> bool {
        true
    }

    open spec fn eq_spec(&self, other: &Self) -> bool {
        self.deep_view() == other.deep_view()
    }
}

impl Eq for GoldilocksField {

}

impl FieldModel for GoldilocksField {
    open spec fn contains(v: nat) -> bool {
        v < ORDER
    }

    open spec fn zero() -> nat {
        0
    }

    open spec fn one() -> nat {
        1
    }

    open spec fn product(a: nat, b: nat) -> nat {
        (a * b) % ORDER as nat
    }

    open spec fn generator() -> nat {
        1753635133440165772
    }
}

/// One step of a chain of squarings.
proof fn lemma_square(g: nat, k: nat, a: nat, b: nat)
    requires
        squared::<GoldilocksField>(g, k) == a,
        (a * a) % ORDER as nat == b,
    ensures
        squared::<GoldilocksField>(g, k + 1) == b,
{
}

/// The last steps of squaring the generator.
proof fn lemma_generator_chain()
    ensures
        squared::<GoldilocksField>(GoldilocksField::generator(), 31) == ORDER - 1,
        squared::<GoldilocksField>(GoldilocksField::generator(), 32) == 1,
{
    let g = GoldilocksField::generator();
    lemma_square(g, 0, 1753635133440165772, 4614640910117430873);
    lemma_square(g, 1, 4614640910117430873, 9123114210336311365);
    lemma_square(g, 2, 9123114210336311365, 16116352524544190054);
    lemma_square(g, 3, 16116352524544190054, 6414415596519834757);
    lemma_square(g, 4, 6414415596519834757, 1213594585890690845);
    lemma_square(g, 5, 1213594585890690845, 17096174751763063430);
    lemma_square(g, 6, 17096174751763063430, 5456943929260765144);
    lemma_square(g, 7, 5456943929260765144, 9713644485405565297);
    lemma_square(g, 8, 9713644485405565297, 16905767614792059275);
    lemma_square(g, 9, 16905767614792059275, 5416168637041100469);
    lemma_square(g, 10, 5416168637041100469, 17654865857378133588);
    lemma_square(g, 11, 17654865857378133588, 3511170319078647661);
    lemma_square(g, 12, 3511170319078647661, 18146160046829613826);
    lemma_square(g, 13, 18146160046829613826, 9306717745644682924);
    lemma_square(g, 14, 9306717745644682924, 12380578893860276750);
    lemma_square(g, 15, 12380578893860276750, 6115771955107415310);
    lemma_square(g, 16, 6115771955107415310, 17776499369601055404);
    lemma_square(g, 17, 17776499369601055404, 16207902636198568418);
    lemma_square(g, 18, 16207902636198568418, 1532612707718625687);
    lemma_square(g, 19, 1532612707718625687, 17492915097719143606);
    lemma_square(g, 20, 17492915097719143606, 455906449640507599);
    lemma_square(g, 21, 455906449640507599, 11353340290879379826);
    lemma_square(g, 22, 11353340290879379826, 1803076106186727246);
    lemma_square(g, 23, 1803076106186727246, 13797081185216407910);
    lemma_square(g, 24, 13797081185216407910, 17870292113338400769);
    lemma_square(g, 25, 17870292113338400769, 549755813888);
    lemma_square(g, 26, 549755813888, 70368744161280);
    lemma_square(g, 27, 70368744161280, 17293822564807737345);
    lemma_square(g, 28, 17293822564807737345, 18446744069397807105);
    lemma_square(g, 29, 18446744069397807105, 281474976710656);
    lemma_square(g, 30, 281474976710656, 18446744069414584320);
    lemma_square(g, 31, 18446744069414584320, 1);
}

/// Repeated squares are powers.
proof fn lemma_squared_is_power(a: nat, k: nat)
    requires
        a < ORDER,
    ensures
        squared::<GoldilocksField>(a, k) as int == pow(a as int, pow2(k)) % ORDER as int,
    decreases k,
{
    let p = ORDER as int;
    if k == 0 {
        lemma2_to64();
        lemma_pow1(a as int);
        lemma_small_mod(a, ORDER as nat);
    } else {
        lemma_squared_is_power(a, (k - 1) as nat);
        let e = pow2((k - 1) as nat);
        lemma_pow2_unfold(k);
        lemma_pow_adds(a as int, e, e);
        lemma_mul_mod_noop(pow(a as int, e), pow(a as int, e), p);
    }
}

/// The order of the field is a prime.
pub proof fn law_order_prime()
    ensures
        prime(ORDER as int),
{
    lemma_minus_one();
    lemma2_to64();
    assert((ORDER as int) < 0x1_0000_0000int * 0x1_0000_0000int);
    lemma_prime(GoldilocksField::generator() as int, 31, ORDER as int);
}

/// The generator raised to `2^31` is minus one.
proof fn lemma_minus_one()
    ensures
        pow(GoldilocksField::generator() as int, pow2(31)) % ORDER as int == ORDER - 1,
{
    lemma_generator_chain();
    lemma_squared_is_power(GoldilocksField::generator(), 31);
}

/// Products of residues are commutative and associative.
proof fn lemma_product_laws(a: int, b: int, c: int)
    ensures
        (a * b) % ORDER as int == (b * a) % ORDER as int,
        (((a * b) % ORDER as int) * c) % ORDER as int == (a * ((b * c) % ORDER as int))
            % ORDER as int,
{
    let p = ORDER as int;
    assert(a * b == b * a && (a * b) * c == a * (b * c)) by (nonlinear_arith);
    lemma_mod_twice(a * b, p);
    lemma_mod_twice(b * c, p);
    lemma_congruent_products((a * b) % p, a * b, c, c, p);
    lemma_congruent_products(a, a, (b * c) % p, b * c, p);
}

impl Field for GoldilocksField {
    const TWO_ADICITY: usize = 32;

    proof fn lemma_contains(&self) {
    }

    proof fn lemma_product(a: nat, b: nat, c: nat) {
        lemma_product_laws(a as int, b as int, c as int);
    }

    proof fn lemma_one(a: nat) {
        lemma_small_mod(a, ORDER as nat);
    }

    proof fn lemma_inverse(a: nat) -> (w: nat) {
        law_order_prime();
        lemma_prime_inverse(a as int, ORDER as int) as nat
    }

    proof fn lemma_generator_order() {
        lemma_generator_chain();
    }

    fn power_of_two_generator() -> (r: Self) {
        GoldilocksField(1753635133440165772)
    }

    fn times(self, rhs: Self) -> (r: Self) {
        let (a, b) = (self.0 as u128, rhs.0 as u128);
        assert(0 <= a * b <= u128::MAX) by (nonlinear_arith)
            requires
                0 <= a <= u64::MAX,
                0 <= b <= u64::MAX,
        ;
        proof {
            lemma_mul_mod_noop(a as int, b as int, ORDER as int);
        }
        GoldilocksField((a * b % (ORDER as u128)) as u64)
    }
}

impl Codec for GoldilocksField {
    open spec fn encodable(v: nat) -> bool {
        v < ORDER
    }

    open spec fn encoding(v: nat) -> Seq<u8> {
        le_bytes(v, 8)
    }

    proof fn lemma_encodable(&self) {
    }

    proof fn lemma_prefix_free(a: nat, b: nat, s: Seq<u8>) {
        crate::wire::lemma_pow256_values();
        crate::wire::lemma_le_bytes_prefix_free(a, b, 8, s);
    }

    fn write(&self, buf: &mut Vec<u8>) {
        write_le(buf, self.to_canonical_u64(), 8);
    }

    fn read(buf: &mut Buffer<'_>) -> (r: IoResult<Self>) {
        proof {
            crate::wire::lemma_pow256_values();
        }
        let ghost before = buf@;
        match buf.read_le(8) {
            Ok(x) => {
                if x >= ORDER {
                    proof {
                        assert forall|v: nat| Self::encodable(v) implies !(
                        #[trigger] Self::encoding(v)).is_prefix_of(before) by {
                            if Self::encoding(v).is_prefix_of(before) {
                                crate::wire::lemma_le_bytes_prefix_free(v, x as nat, 8, before);
                            }
                        }
                    }
                    return Err(IoError);
                }
                proof {
                    crate::wire::lemma_le_bytes_len(x as nat, 8);
                }
                Ok(GoldilocksField(x))
            },
            Err(e) => {
                proof {
                    assert forall|v: nat| Self::encodable(v) implies !(
                    #[trigger] Self::encoding(v)).is_prefix_of(before) by {
                        crate::wire::lemma_le_bytes_len(v, 8);
                    }
                }
                Err(e)
            },
        }
    }
}

impl RichField for GoldilocksField {

}

/// An element `a + b X` of the quadratic extension, as the pair `[a, b]`.
#[derive(Clone, Copy, Debug)]
pub struct QuadraticExtension(pub [GoldilocksField; 2]);

impl DeepView for QuadraticExtension {
    type V = (nat, nat);

    open spec fn deep_view(&self) -> (nat, nat) {
        (self.0[0].deep_view(), self.0[1].deep_view())
    }
}

impl PartialEq for QuadraticExtension {
    fn eq(&self, other: &Self) -> (r: bool) {
        self.0[0] == other.0[0] && self.0[1] == other.0[1]
    }
}

impl vstd::std_specs::cmp::PartialEqSpecImpl for QuadraticExtension {
    open spec fn obeys_eq_spec() -> bool {
        true
    }

    open spec fn eq_spec(&self, other: &Self) -> bool {
        self.deep_view() == other.deep_view()
    }
}

impl Eq for QuadraticExtension {

}

impl FieldModel for QuadraticExtension {
    open spec fn contains(v: (nat, nat)) -> bool {
        v.0 < ORDER && v.1 < ORDER
    }

    open spec fn zero() -> (nat, nat) {
        (0, 0)
    }

    open spec fn one() -> (nat, nat) {
        (1, 0)
    }

    /// `(a + b X)(c + d X) = (a c + W b d) + (a d + b c) X`.
    open spec fn product(x: (nat, nat), y: (nat, nat)) -> (nat, nat) {
        (
            (x.0 * y.0 + W as nat * (x.1 * y.1)) % ORDER as nat,
            (x.0 * y.1 + x.1 * y.0) % ORDER as nat,
        )
    }

    open spec fn generator() -> (nat, nat) {
        (0, 15659105665374529263)
    }
}

proof fn lemma_extension_commutative(x: (nat, nat), y: (nat, nat))
    ensures
        QuadraticExtension::product(x, y) == QuadraticExtension::product(y, x),
{
    assert(x.0 * y.0 == y.0 * x.0 && x.1 * y.1 == y.1 * x.1 && x.0 * y.1 == y.1 * x.0 && x.1 * y.0
        == y.0 * x.1) by (nonlinear_arith);
}

proof fn lemma_seven_inside(x: int, y: int)
    ensures
        7 * (x * y) == (7 * x) * y,
        7 * (x * y) == (7 * y) * x,
{
    assert(7 * (x * y) == (7 * x) * y && 7 * (x * y) == (7 * y) * x) by (nonlinear_arith);
}

proof fn lemma_reduced_factor(u: int, v: int, p: int)
    requires
        p > 0,
    ensures
        u * v == u * (v % p) + p * (u * (v / p)),
{
    lemma_fundamental_div_mod(v, p);
    let (i, k) = (v / p, v % p);
    assert(u * (p * i + k) == u * k + p * (u * i)) by (nonlinear_arith);
}

/// `u (v mod p) + s (t mod p)` is congruent to `u v + s t`.
proof fn lemma_reduced_terms(u: int, v: int, s: int, t: int, p: int)
    requires
        p > 0,
    ensures
        (u * (v % p) + s * (t % p)) % p == (u * v + s * t) % p,
{
    lemma_reduced_factor(u, v, p);
    lemma_reduced_factor(s, t, p);
    let (i, j) = (u * (v / p), s * (t / p));
    assert(p * (i + j) == p * i + p * j) by (nonlinear_arith);
    lemma_congruent(u * v + s * t, u * (v % p) + s * (t % p), i + j, p);
}

proof fn lemma_extension_associative(x: (nat, nat), y: (nat, nat), z: (nat, nat))
    ensures
        QuadraticExtension::product(QuadraticExtension::product(x, y), z)
            == QuadraticExtension::product(x, QuadraticExtension::product(y, z)),
{
    let p = ORDER as int;
    let (a, b, c, d, e, f) = (
        x.0 as int,
        x.1 as int,
        y.0 as int,
        y.1 as int,
        z.0 as int,
        z.1 as int,
    );
    // The coefficients of the two inner products, not reduced.
    let (r, s) = (a * c + 7 * (b * d), a * d + b * c);
    let (t, u) = (c * e + 7 * (d * f), c * f + d * e);
    lemma_reduced_terms(e, r, 7 * f, s, p);
    lemma_reduced_terms(f, r, e, s, p);
    lemma_reduced_terms(a, t, 7 * b, u, p);
    lemma_reduced_terms(a, u, b, t, p);
    lemma_seven_inside(s % p, f);
    lemma_seven_inside(b, u % p);
    lemma_mul_is_commutative(r % p, e);
    lemma_mul_is_commutative(r % p, f);
    lemma_mul_is_commutative(s % p, e);
    // Both sides of each coefficient have the same terms.
    lemma_expand(e, a, c, 7, b, d);
    lemma_expand(7 * f, a, d, 1, b, c);
    lemma_expand(a, c, e, 7, d, f);
    lemma_expand(7 * b, c, f, 1, d, e);
    lemma_expand(f, a, c, 7, b, d);
    lemma_expand(e, a, d, 1, b, c);
    lemma_expand(a, c, f, 1, d, e);
    lemma_expand(b, c, e, 7, d, f);
    lemma_reorder(a, c, e);
    lemma_reorder(b, d, e);
    lemma_reorder(a, d, f);
    lemma_reorder(b, c, f);
    lemma_reorder(a, c, f);
    lemma_reorder(b, d, f);
    lemma_reorder(a, d, e);
    lemma_reorder(b, c, e);
}

proof fn lemma_expand(x: int, p: int, q: int, k: int, r: int, s: int)
    ensures
        x * (p * q + k * (r * s)) == x * (p * q) + k * (x * (r * s)),
{
    let (u, v) = (p * q, r * s);
    assert(x * (u + k * v) == x * u + k * (x * v)) by (nonlinear_arith);
}

/// The ways in which a product of three factors is written, with and without a seven in front.
proof fn lemma_reorder(x: int, y: int, z: int)
    ensures
        z * (x * y) == x * (y * z),
        (7 * z) * (x * y) == 7 * (x * (y * z)),
        (7 * x) * (y * z) == 7 * (x * (y * z)),
        x * (z * y) == x * (y * z),
        (7 * x) * (z * y) == 7 * (x * (y * z)),
{
    assert(z * (x * y) == x * (y * z)) by (nonlinear_arith);
    assert(z * y == y * z) by (nonlinear_arith);
    let (u, v) = (x * y, y * z);
    assert((7 * z) * u == 7 * (z * u)) by (nonlinear_arith);
    assert((7 * x) * v == 7 * (x * v)) by (nonlinear_arith);
}

proof fn lemma_product_of_squares(x: int, y: int)
    ensures
        (x * x) * (y * y) == (x * y) * (x * y),
{
    assert((x * x) * (y * y) == (x * y) * (x * y)) by (nonlinear_arith);
}

/// The norm `a^2 - W b^2` of an element other than zero is not zero, because `W` is no square.
proof fn lemma_norm(a: int, b: int)
    requires
        0 <= a < ORDER,
        0 <= b < ORDER,
        a != 0 || b != 0,
    ensures
        (a * a - 7 * (b * b)) % ORDER as int != 0,
{
    let p = ORDER as int;
    law_order_prime();
    if (a * a - 7 * (b * b)) % p == 0 {
        lemma_mod_equivalence(a * a, 7 * (b * b), p);
        if b == 0 {
            lemma_prime_product(a, a, p);
        } else {
            let w = lemma_prime_inverse(b, p);
            let t = 15659105665374529263int;
            let g = GoldilocksField::generator() as int;
            lemma_small_mod(1, ORDER as nat);
            lemma_congruent_products(b * w, 1, b * w, 1, p);
            // With `s = w t`, `(a s)^2 = 7 (b w)^2 t^2 = 7 t^2 = g`.
            let s = w * t;
            lemma_congruent_products(a * a, 7 * (b * b), s * s, s * s, p);
            lemma_congruent_products((b * w) * (b * w), 1, 7 * (t * t), 7 * (t * t), p);
            lemma_product_of_squares(a, s);
            lemma_product_of_squares(b, s);
            lemma_product_of_squares(b * w, t);
            lemma_mul_is_associative(b, w, t);
            lemma_mul_is_associative(7, b * b, s * s);
            lemma_seven_inside((b * w) * (b * w), t * t);
            lemma_mul_is_commutative((b * w) * (b * w), 7 * (t * t));
            assert((7 * (t * t)) % p == g);
            let u = (a * s) % p;
            lemma_mod_bound(a * s, p);
            lemma_mod_twice(a * s, p);
            lemma_congruent_products(u, a * s, u, a * s, p);
            lemma_small_mod(g as nat, ORDER as nat);
            lemma_small_mod(0, ORDER as nat);
            assert((u * u) % p == g);
            assert(u != 0) by {
                if u == 0 {
                    assert(u * u == 0);
                }
            }
            lemma_minus_one();
            lemma2_to64();
            assert(pow2(32) * (2 * 0x7FFF_FFFFnat + 1) == p - 1) by (nonlinear_arith)
                requires
                    pow2(32) == 0x1_0000_0000,
                    p == 0xFFFF_FFFF_0000_0001,
            ;
            lemma_not_a_square(u, g, 31, 0x7FFF_FFFF, p);
        }
    }
}

/// The inverse of `a + b X` is `(a - b X) / (a^2 - W b^2)`.
proof fn lemma_extension_inverse(x: (nat, nat)) -> (w: (nat, nat))
    requires
        QuadraticExtension::contains(x),
        x != QuadraticExtension::zero(),
    ensures
        QuadraticExtension::contains(w),
        QuadraticExtension::product(x, w) == QuadraticExtension::one(),
{
    let p = ORDER as int;
    let (a, b) = (x.0 as int, x.1 as int);
    let norm = a * a - 7 * (b * b);
    law_order_prime();
    lemma_norm(a, b);
    lemma_mod_bound(norm, p);
    let n = lemma_prime_inverse(norm % p, p);
    let (c, d) = (a * n, -b * n);
    lemma_mod_bound(c, p);
    lemma_mod_bound(d, p);
    let w = ((c % p) as nat, (d % p) as nat);
    lemma_reduced_terms(a, c, 7 * b, d, p);
    lemma_reduced_terms(a, d, b, c, p);
    lemma_mod_twice(norm, p);
    lemma_congruent_products(norm % p, norm, n, n, p);
    assert(a * c + (7 * b) * d == norm * n && a * d + b * c == 0) by (nonlinear_arith)
        requires
            c == a * n,
            d == -b * n,
            norm == a * a - 7 * (b * b),
    ;
    lemma_seven_inside(b, d % p);
    lemma_small_mod(0, ORDER as nat);
    w
}

impl Field for QuadraticExtension {
    const TWO_ADICITY: usize = 33;

    proof fn lemma_contains(&self) {
    }

    proof fn lemma_product(x: (nat, nat), y: (nat, nat), z: (nat, nat)) {
        lemma_extension_commutative(x, y);
        lemma_extension_associative(x, y, z);
    }

    proof fn lemma_one(x: (nat, nat)) {
        assert(1 * x.0 + W as nat * (0nat * x.1) == x.0 && 1 * x.1 + 0nat * x.0 == x.1)
            by (nonlinear_arith);
        lemma_small_mod(x.0, ORDER as nat);
        lemma_small_mod(x.1, ORDER as nat);
    }

    proof fn lemma_inverse(x: (nat, nat)) -> (w: (nat, nat)) {
        lemma_extension_inverse(x)
    }

    proof fn lemma_generator_order() {
        let g = Self::generator();
        GoldilocksField::lemma_generator_order();
        <GoldilocksField as Extendable<2>>::lemma_embed_generator();
        <GoldilocksField as Extendable<2>>::lemma_embed(1, 1);
        let b = GoldilocksField::generator();
        crate::field::lemma_embed_squared::<GoldilocksField, 2>(b, 32);
        crate::field::lemma_embed_squared::<GoldilocksField, 2>(b, 31);
        crate::field::lemma_squared_twice::<QuadraticExtension>(g, 1, 32);
        crate::field::lemma_squared_twice::<QuadraticExtension>(g, 1, 31);
    }

    fn power_of_two_generator() -> (r: Self) {
        QuadraticExtension([GoldilocksField(0), GoldilocksField(15659105665374529263)])
    }

    fn times(self, rhs: Self) -> (r: Self) {
        let (a, b) = (self.0[0].to_canonical_u64() as u128, self.0[1].to_canonical_u64() as u128);
        let (c, d) = (rhs.0[0].to_canonical_u64() as u128, rhs.0[1].to_canonical_u64() as u128);
        let p: u128 = ORDER as u128;
        proof {
            lemma_product_fits(a as int, c as int);
            lemma_product_fits(b as int, d as int);
            lemma_product_fits(a as int, d as int);
            lemma_product_fits(b as int, c as int);
            lemma_reduced_sum(a as int * c as int, W as int * (b as int * d as int), p as int);
            lemma_reduced_sum(a as int * d as int, b as int * c as int, p as int);
            lemma_mul_mod_noop(W as int, b as int * d as int, p as int);
            lemma_mul_mod_noop(W as int, (b as int * d as int) % p as int, p as int);
            lemma_mod_twice(b as int * d as int, p as int);
        }
        let r0: u128 = (a * c % p + (W as u128) * (b * d % p) % p) % p;
        let r1: u128 = (a * d % p + b * c % p) % p;
        QuadraticExtension([GoldilocksField(r0 as u64), GoldilocksField(r1 as u64)])
    }
}

proof fn lemma_product_fits(a: int, b: int)
    requires
        0 <= a <= u64::MAX,
        0 <= b <= u64::MAX,
    ensures
        0 <= a * b <= u128::MAX,
{
    assert(0 <= a * b <= u128::MAX) by (nonlinear_arith)
        requires
            0 <= a <= u64::MAX,
            0 <= b <= u64::MAX,
    ;
}

proof fn lemma_reduced_sum(a: int, b: int, m: int)
    requires
        m > 0,
    ensures
        (a % m + b % m) % m == (a + b) % m,
{
    vstd::arithmetic::div_mod::lemma_add_mod_noop(a, b, m);
}

impl Extendable<2> for GoldilocksField {
    type Extension = QuadraticExtension;

    open spec fn embed(v: nat) -> (nat, nat) {
        (v, 0)
    }

    proof fn lemma_embed(a: nat, b: nat) {
        assert(W as nat * (0nat * 0nat) == 0 && a * 0 + 0 * b == 0) by (nonlinear_arith);
    }

    proof fn lemma_embed_generator() {
        let g = <QuadraticExtension as FieldModel>::generator();
        assert(squared::<QuadraticExtension>(g, 0) == g);
        assert((0nat * 0nat + 7nat * (15659105665374529263nat * 15659105665374529263nat))
            % 0xFFFF_FFFF_0000_0001nat == 1753635133440165772nat);
        assert((0nat * 15659105665374529263nat + 15659105665374529263nat * 0nat)
            % 0xFFFF_FFFF_0000_0001nat == 0);
        assert(squared::<QuadraticExtension>(g, 1) == QuadraticExtension::product(g, g));
        assert(squared::<QuadraticExtension>(g, 1) == (1753635133440165772nat, 0nat));
    }
}

/// How many times two divides the orders of the two multiplicative groups.
pub proof fn law_two_adicity()
    ensures
        <GoldilocksField as Field>::TWO_ADICITY == 32,
        <QuadraticExtension as Field>::TWO_ADICITY == 33,
{
}

/// Elements are numbers modulo the order of the field: they are equal if their representatives are
/// congruent, and multiply as their representatives do.
pub proof fn law_goldilocks_arithmetic(
    a: GoldilocksField,
    b: GoldilocksField,
    equal: bool,
    product: GoldilocksField,
    canonical: u64,
    n: u64,
    from: GoldilocksField,
)
    requires
        call_ensures(<GoldilocksField as PartialEq>::eq, (&a, &b), equal),
        call_ensures(<GoldilocksField as Field>::times, (a, b), product),
        call_ensures(GoldilocksField::to_canonical_u64, (&a,), canonical),
        call_ensures(GoldilocksField::from_u64, (n,), from),
    ensures
        equal <==> (a.0 - b.0) % ORDER as int == 0,
        (product.0 - a.0 * b.0) % ORDER as int == 0,
        canonical < ORDER,
        (canonical - a.0) % ORDER as int == 0,
        (from.0 - n) % ORDER as int == 0,
{
    let p = ORDER as int;
    let (x, y) = (a.0 as int, b.0 as int);
    lemma_mod_equivalence(x, y, p);
    lemma_mul_mod_noop(x, y, p);
    lemma_mod_equivalence(product.0 as int, x * y, p);
    lemma_small_mod(canonical as nat, ORDER as nat);
    lemma_mod_equivalence(canonical as int, x, p);
    lemma_mod_equivalence(from.0 as int, n as int, p);
}

/// Elements of the extension multiply as polynomials in `X` with `X^2 = 7`.
pub proof fn law_extension_arithmetic(
    x: QuadraticExtension,
    y: QuadraticExtension,
    product: QuadraticExtension,
)
    requires
        call_ensures(<QuadraticExtension as Field>::times, (x, y), product),
    ensures
        ({
            let (a, b) = (x.0[0].deep_view() as int, x.0[1].deep_view() as int);
            let (c, d) = (y.0[0].deep_view() as int, y.0[1].deep_view() as int);
            &&& product.0[0].deep_view() as int == (a * c + 7 * (b * d)) % ORDER as int
            &&& product.0[1].deep_view() as int == (a * d + b * c) % ORDER as int
        }),
{
}

/// Elements of the extension are equal exactly if both their coefficients are.
pub proof fn law_extension_equality(x: QuadraticExtension, y: QuadraticExtension, r: bool)
    requires
        call_ensures(<QuadraticExtension as PartialEq>::eq, (&x, &y), r),
    ensures
        r <==> x.0[0].deep_view() == y.0[0].deep_view() && x.0[1].deep_view()
            == y.0[1].deep_view(),
{
}

/// Squaring `k` times is raising to the power `2^k`.
pub proof fn law_squared_is_power(a: GoldilocksField, k: usize, r: GoldilocksField)
    requires
        call_ensures(<GoldilocksField as Field>::exp_power_of_2, (a, k), r),
    ensures
        r.deep_view() as int == pow(a.deep_view() as int, pow2(k as nat)) % ORDER as int,
{
    lemma_squared_is_power(a.deep_view(), k as nat);
}

} // verus!
