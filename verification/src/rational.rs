//! Exact rational scalars: the coordinate arithmetic of the library.
//!
//! A coordinate is a fraction of two machine integers. Results of the
//! arithmetic operations are reduced by the greatest common divisor and
//! reported as `None` when the reduced fraction does not fit the machine
//! representation, so every operation either returns the exact mathematical
//! value or says that it cannot.

use vstd::prelude::*;
use vstd::arithmetic::div_mod::*;
use vstd::arithmetic::mul::*;

verus! {

/// A mathematical rational number, kept as an unreduced pair of integers
/// (numerator `n`, denominator `d`). Purely a specification-level value.
#[verifier::ext_equal]
pub ghost struct Rat {
    pub n: int,
    pub d: int,
}

/// Two rational pairs denote the same number (cross multiplication).
pub open spec fn rat_eq(a: Rat, b: Rat) -> bool {
    a.n * b.d == b.n * a.d
}

pub open spec fn rat_add(a: Rat, b: Rat) -> Rat {
    Rat { n: a.n * b.d + b.n * a.d, d: a.d * b.d }
}

pub open spec fn rat_sub(a: Rat, b: Rat) -> Rat {
    Rat { n: a.n * b.d - b.n * a.d, d: a.d * b.d }
}

pub open spec fn rat_mul(a: Rat, b: Rat) -> Rat {
    Rat { n: a.n * b.n, d: a.d * b.d }
}

pub open spec fn rat_div(a: Rat, b: Rat) -> Rat {
    Rat { n: a.n * b.d, d: a.d * b.n }
}

pub open spec fn rat_int(v: int) -> Rat {
    Rat { n: v, d: 1 }
}

/// Euclid's greatest common divisor.
pub open spec fn gcd(a: nat, b: nat) -> nat
    decreases b,
{
    if b == 0 {
        a
    } else {
        gcd(b, a % b)
    }
}

/// The greatest common divisor is positive and divides both arguments.
pub proof fn lemma_gcd_divides(a: nat, b: nat)
    requires
        a > 0 || b > 0,
    ensures
        gcd(a, b) > 0,
        a as int % (gcd(a, b) as int) == 0,
        b as int % (gcd(a, b) as int) == 0,
    decreases b,
{
    if b == 0 {
        assert(gcd(a, b) == a);
        lemma_mod_self_0(a as int);
        assert(0int % (a as int) == 0) by {
            lemma_small_mod(0, a);
        }
    } else {
        let r = a % b;
        lemma_gcd_divides(b, r);
        let g = gcd(b, r) as int;
        assert(gcd(a, b) == g);
        lemma_fundamental_div_mod(a as int, b as int);
        lemma_fundamental_div_mod(b as int, g);
        // a == b * (a / b) + r and b == g * (b / g), so a is a multiple of g plus r
        assert(a as int == g * ((b as int / g) * (a as int / b as int)) + r) by {
            lemma_mul_is_associative(g, b as int / g, a as int / b as int);
        }
        assert(a as int % g == r as int % g) by {
            lemma_mod_multiples_vanish((b as int / g) * (a as int / b as int), r as int, g);
        }
    }
}

/// The canonical reduced form of a rational pair: positive denominator,
/// numerator and denominator divided by their greatest common divisor.
pub open spec fn rat_norm(q: Rat) -> Rat
    recommends
        q.d != 0,
{
    let n = if q.d < 0 { -q.n } else { q.n };
    let d = if q.d < 0 { -q.d } else { q.d };
    let m = if n < 0 { -n } else { n };
    let g = gcd(m as nat, d as nat) as int;
    Rat { n: n / g, d: d / g }
}

/// Whether a rational pair fits the machine representation of a `Scalar`.
pub open spec fn rat_fits(q: Rat) -> bool {
    &&& -0x7fff_ffff_ffff_ffff <= q.n <= 0x7fff_ffff_ffff_ffff
    &&& 1 <= q.d <= 0x7fff_ffff_ffff_ffff
}

/// Reduction does not change the denoted number, and yields a positive
/// denominator.
pub proof fn lemma_norm(q: Rat)
    requires
        q.d != 0,
    ensures
        rat_eq(rat_norm(q), q),
        1 <= rat_norm(q).d,
{
    let n = if q.d < 0 { -q.n } else { q.n };
    let d = if q.d < 0 { -q.d } else { q.d };
    let m = if n < 0 { -n } else { n };
    lemma_gcd_divides(m as nat, d as nat);
    let g = gcd(m as nat, d as nat) as int;
    lemma_fundamental_div_mod(d, g);
    let dq = d / g;
    assert(d == g * dq);
    assert(1 <= dq) by (nonlinear_arith)
        requires
            d == g * dq,
            1 <= d,
            1 <= g,
    ;
    let nq = n / g;
    if n >= 0 {
        lemma_fundamental_div_mod(n, g);
        assert(n == g * nq);
    } else {
        // m == g * (m / g), so n == -m == g * (-(m / g))
        lemma_fundamental_div_mod(m, g);
        let k = m / g;
        lemma_mul_unary_negation(g, k);
        assert(n == g * (-k));
        lemma_div_multiples_vanish(-k, g);
        assert(nq == -k);
        assert(n == g * nq);
    }
    // (n / g) * d == n * (d / g), by substituting the factorizations
    assert(nq * d == n * dq) by (nonlinear_arith)
        requires
            n == g * nq,
            d == g * dq,
    ;
    if q.d < 0 {
        assert(nq * q.d == q.n * dq) by (nonlinear_arith)
            requires
                nq * d == n * dq,
                n == -q.n,
                d == -q.d,
        ;
    }
}

/// A coordinate scalar: the exact fraction `num / den`, with `den >= 1`.
#[derive(Clone, Copy, PartialEq, Eq, Structural, Debug)]
pub struct Scalar {
    num: i64,
    den: i64,
}

impl View for Scalar {
    type V = Rat;

    closed spec fn view(&self) -> Rat {
        Rat { n: self.num as int, d: self.den as int }
    }
}

impl Scalar {
    pub open spec fn wf(self) -> bool {
        1 <= self@.d
    }

    /// The fraction `num / den`.
    pub fn new(num: i64, den: i64) -> (r: Scalar)
        requires
            1 <= den,
        ensures
            r.wf(),
            r@ == (Rat { n: num as int, d: den as int }),
    {
        Scalar { num, den }
    }

    /// The whole number `v`.
    pub fn from_int(v: i64) -> (r: Scalar)
        ensures
            r.wf(),
            r@ == rat_int(v as int),
    {
        Scalar { num: v, den: 1 }
    }

    /// The numerator as stored.
    pub fn num(&self) -> (r: i64)
        ensures
            r as int == self@.n,
    {
        self.num
    }

    /// The denominator as stored.
    pub fn den(&self) -> (r: i64)
        ensures
            r as int == self@.d,
    {
        self.den
    }
}

/// Bound on a product of a numerator (full machine range) and a denominator
/// (positive machine range): it stays strictly inside half the wide range.
proof fn lemma_prod_bound(x: int, y: int)
    by (nonlinear_arith)
    requires
        -0x8000_0000_0000_0000 <= x <= 0x7fff_ffff_ffff_ffff,
        -0x8000_0000_0000_0000 <= y <= 0x7fff_ffff_ffff_ffff,
    ensures
        -0x4000_0000_0000_0000_0000_0000_0000_0000 <= x * y
            <= 0x4000_0000_0000_0000_0000_0000_0000_0000,
{
}

/// Tighter bound for a product of a numerator and a positive denominator:
/// two such products can be added without leaving the wide range.
proof fn lemma_prod_num_den_bound(x: int, y: int)
    by (nonlinear_arith)
    requires
        -0x8000_0000_0000_0000 <= x <= 0x7fff_ffff_ffff_ffff,
        1 <= y <= 0x7fff_ffff_ffff_ffff,
    ensures
        -0x3fff_ffff_ffff_ffff_8000_0000_0000_0000 <= x * y
            <= 0x3fff_ffff_ffff_ffff_8000_0000_0000_0000,
{
}

impl Scalar {
    /// Exact sum, reduced; `None` when the reduced sum leaves machine range.
    pub fn checked_add(self, other: Scalar) -> (r: Option<Scalar>)
        requires
            self.wf(),
            other.wf(),
        ensures
            r is Some <==> rat_fits(rat_norm(rat_add(self@, other@))),
            r matches Some(v) ==> v.wf() && v@ == rat_norm(rat_add(self@, other@)),
    {
        proof {
            lemma_prod_num_den_bound(self@.n, other@.d);
            lemma_prod_num_den_bound(other@.n, self@.d);
            lemma_prod_bound(self@.d, other@.d);
        }
        let n: i128 = (self.num as i128) * (other.den as i128) + (other.num as i128) * (self.den
            as i128);
        let d: i128 = (self.den as i128) * (other.den as i128);
        proof {
            assert(1 <= d) by (nonlinear_arith)
                requires
                    d == self@.d * other@.d,
                    1 <= self@.d,
                    1 <= other@.d,
            ;
            assert(i128::MIN < n) by (nonlinear_arith)
                requires
                    n == self@.n * other@.d + other@.n * self@.d,
                    -0x8000_0000_0000_0000 <= self@.n <= 0x7fff_ffff_ffff_ffff,
                    -0x8000_0000_0000_0000 <= other@.n <= 0x7fff_ffff_ffff_ffff,
                    1 <= self@.d <= 0x7fff_ffff_ffff_ffff,
                    1 <= other@.d <= 0x7fff_ffff_ffff_ffff,
            ;
        }
        reduce(n, d)
    }

    /// Exact difference, reduced; `None` when it leaves machine range.
    pub fn checked_sub(self, other: Scalar) -> (r: Option<Scalar>)
        requires
            self.wf(),
            other.wf(),
        ensures
            r is Some <==> rat_fits(rat_norm(rat_sub(self@, other@))),
            r matches Some(v) ==> v.wf() && v@ == rat_norm(rat_sub(self@, other@)),
    {
        proof {
            lemma_prod_num_den_bound(self@.n, other@.d);
            lemma_prod_num_den_bound(other@.n, self@.d);
            lemma_prod_bound(self@.d, other@.d);
        }
        let n: i128 = (self.num as i128) * (other.den as i128) - (other.num as i128) * (self.den
            as i128);
        let d: i128 = (self.den as i128) * (other.den as i128);
        proof {
            assert(1 <= d) by (nonlinear_arith)
                requires
                    d == self@.d * other@.d,
                    1 <= self@.d,
                    1 <= other@.d,
            ;
            assert(i128::MIN < n) by (nonlinear_arith)
                requires
                    n == self@.n * other@.d - other@.n * self@.d,
                    -0x8000_0000_0000_0000 <= self@.n <= 0x7fff_ffff_ffff_ffff,
                    -0x8000_0000_0000_0000 <= other@.n <= 0x7fff_ffff_ffff_ffff,
                    1 <= self@.d <= 0x7fff_ffff_ffff_ffff,
                    1 <= other@.d <= 0x7fff_ffff_ffff_ffff,
            ;
        }
        reduce(n, d)
    }

    /// Exact product, reduced; `None` when it leaves machine range.
    pub fn checked_mul(self, other: Scalar) -> (r: Option<Scalar>)
        requires
            self.wf(),
            other.wf(),
        ensures
            r is Some <==> rat_fits(rat_norm(rat_mul(self@, other@))),
            r matches Some(v) ==> v.wf() && v@ == rat_norm(rat_mul(self@, other@)),
    {
        proof {
            lemma_prod_bound(self@.n, other@.n);
            lemma_prod_bound(self@.d, other@.d);
        }
        let n: i128 = (self.num as i128) * (other.num as i128);
        let d: i128 = (self.den as i128) * (other.den as i128);
        proof {
            assert(1 <= d) by (nonlinear_arith)
                requires
                    d == self@.d * other@.d,
                    1 <= self@.d,
                    1 <= other@.d,
            ;
            assert(i128::MIN < n) by (nonlinear_arith)
                requires
                    n == self@.n * other@.n,
                    -0x8000_0000_0000_0000 <= self@.n <= 0x7fff_ffff_ffff_ffff,
                    -0x8000_0000_0000_0000 <= other@.n <= 0x7fff_ffff_ffff_ffff,
            ;
        }
        reduce(n, d)
    }

    /// Exact quotient, reduced; the divisor must denote a non-zero number;
    /// `None` when the reduced quotient leaves machine range.
    pub fn checked_div(self, other: Scalar) -> (r: Option<Scalar>)
        requires
            self.wf(),
            other.wf(),
            other@.n != 0,
        ensures
            r is Some <==> rat_fits(rat_norm(rat_div(self@, other@))),
            r matches Some(v) ==> v.wf() && v@ == rat_norm(rat_div(self@, other@)),
    {
        proof {
            lemma_prod_bound(self@.n, other@.d);
            lemma_prod_bound(self@.d, other@.n);
        }
        let n: i128 = (self.num as i128) * (other.den as i128);
        let d: i128 = (self.den as i128) * (other.num as i128);
        proof {
            assert(d != 0) by (nonlinear_arith)
                requires
                    d == self@.d * other@.n,
                    1 <= self@.d,
                    other@.n != 0,
            ;
        }
        if d < 0 {
            proof {
                assert(rat_norm(rat_div(self@, other@)) == rat_norm(
                    Rat { n: -(n as int), d: -(d as int) },
                ));
            }
            reduce(-n, -d)
        } else {
            reduce(n, d)
        }
    }
}

/// A zero numerator reduces to the canonical zero.
pub proof fn lemma_norm_zero(d: int)
    requires
        1 <= d,
    ensures
        rat_norm(Rat { n: 0, d }) == (Rat { n: 0, d: 1 }),
{
    assert(0int % d == 0) by {
        lemma_small_mod(0, d as nat);
    }
    assert(gcd(0, d as nat) == gcd(d as nat, 0));
    assert(gcd(d as nat, 0) == d as nat);
    lemma_div_of0(d);
    lemma_div_by_self(d);
}

/// `rat_eq` is transitive when the middle pair has a non-zero denominator.
pub proof fn lemma_rat_eq_trans(a: Rat, b: Rat, c: Rat)
    by (nonlinear_arith)
    requires
        b.d != 0,
        rat_eq(a, b),
        rat_eq(b, c),
    ensures
        rat_eq(a, c),
{
}

/// Adding equal numbers to equal numbers gives equal numbers.
pub proof fn lemma_add_congr(a: Rat, b: Rat, a2: Rat, b2: Rat)
    requires
        rat_eq(a, a2),
        rat_eq(b, b2),
    ensures
        rat_eq(rat_add(a, b), rat_add(a2, b2)),
{
    lemma_mul_is_distributive_add_other_way(a2.d * b2.d, a.n * b.d, b.n * a.d);
    lemma_mul_is_distributive_add_other_way(a.d * b.d, a2.n * b2.d, b2.n * a2.d);
    lemma_shuffle4(a.n, b.d, a2.d, b2.d);
    lemma_shuffle4(b.n, a.d, a2.d, b2.d);
    lemma_shuffle4(a2.n, b2.d, a.d, b.d);
    lemma_shuffle4(b2.n, a2.d, a.d, b.d);
    lemma_mul_is_commutative(b2.d, b.d);
    lemma_mul_is_commutative(a2.d, a.d);
}

/// Rearrangements of a product of four factors.
proof fn lemma_shuffle4(p: int, q: int, r: int, s: int)
    by (nonlinear_arith)
    ensures
        (p * q) * (r * s) == (p * r) * (q * s),
        (p * q) * (r * s) == (p * s) * (q * r),
{
}

/// Pulling a squared factor across a product.
proof fn lemma_shuffle_scale(u: int, t: int, c: int, e: int)
    by (nonlinear_arith)
    ensures
        (u * (t * t)) * (c * e) == u * ((c * t) * (e * t)),
{
}

/// Rearrangement used when distributing a ratio over a difference.
proof fn lemma_prod_rearrange_a(x: int, y: int, z: int, c: int, w: int)
    by (nonlinear_arith)
    ensures
        ((x * y) * z) * ((c * w) * (y * w)) == ((x * z) * (y * w)) * ((c * y) * w),
{
}

/// Companion rearrangement to `lemma_prod_rearrange_a`.
proof fn lemma_prod_rearrange_b(x: int, y: int, z: int, c: int, w: int)
    by (nonlinear_arith)
    ensures
        ((x * c) * z) * ((c * w) * (y * w)) == ((x * z) * (c * w)) * ((c * y) * w),
{
}

/// Subtracting equal numbers from equal numbers gives equal numbers.
pub proof fn lemma_sub_congr(a: Rat, b: Rat, a2: Rat, b2: Rat)
    requires
        rat_eq(a, a2),
        rat_eq(b, b2),
    ensures
        rat_eq(rat_sub(a, b), rat_sub(a2, b2)),
{
    lemma_mul_is_distributive_sub_other_way(a2.d * b2.d, a.n * b.d, b.n * a.d);
    lemma_mul_is_distributive_sub_other_way(a.d * b.d, a2.n * b2.d, b2.n * a2.d);
    lemma_shuffle4(a.n, b.d, a2.d, b2.d);
    lemma_shuffle4(b.n, a.d, a2.d, b2.d);
    lemma_shuffle4(a2.n, b2.d, a.d, b.d);
    lemma_shuffle4(b2.n, a2.d, a.d, b.d);
    lemma_mul_is_commutative(b2.d, b.d);
    lemma_mul_is_commutative(a2.d, a.d);
}

/// Multiplying equal numbers by equal numbers gives equal numbers.
pub proof fn lemma_mul_congr(a: Rat, b: Rat, a2: Rat, b2: Rat)
    requires
        rat_eq(a, a2),
        rat_eq(b, b2),
    ensures
        rat_eq(rat_mul(a, b), rat_mul(a2, b2)),
{
    lemma_shuffle4(a.n, b.n, a2.d, b2.d);
    lemma_shuffle4(a2.n, b2.n, a.d, b.d);
}

/// Adding and then subtracting the same number is the identity.
pub proof fn lemma_add_sub_cancel(a: Rat, t: Rat)
    by (nonlinear_arith)
    ensures
        rat_eq(rat_sub(rat_add(a, t), t), a),
{
}

/// Subtracting the first summand from a sum leaves the second summand.
pub proof fn lemma_add_sub_cancel_left(p: Rat, delta: Rat)
    by (nonlinear_arith)
    ensures
        rat_eq(rat_sub(rat_add(p, delta), p), delta),
{
}

/// The difference of two sums with the same second summand is the
/// difference of the first summands.
pub proof fn lemma_sub_adds_cancel(a: Rat, b: Rat, t: Rat)
    ensures
        rat_eq(rat_sub(rat_add(a, t), rat_add(b, t)), rat_sub(a, b)),
{
    lemma_mul_is_distributive_add_other_way(b.d * t.d, a.n * t.d, t.n * a.d);
    lemma_mul_is_distributive_add_other_way(a.d * t.d, b.n * t.d, t.n * b.d);
    lemma_shuffle4(a.n, t.d, b.d, t.d);
    lemma_shuffle4(t.n, a.d, b.d, t.d);
    lemma_shuffle4(b.n, t.d, a.d, t.d);
    lemma_shuffle4(t.n, b.d, a.d, t.d);
    lemma_mul_is_commutative(b.d, a.d);
    lemma_mul_is_distributive_sub_other_way(t.d * t.d, a.n * b.d, b.n * a.d);
    lemma_shuffle_scale(a.n * b.d - b.n * a.d, t.d, a.d, b.d);
}

/// Multiplying by a ratio and then by the inverse ratio is the identity.
pub proof fn lemma_mul_div_cancel(x: Rat, e1: Rat, e2: Rat)
    by (nonlinear_arith)
    ensures
        rat_eq(rat_mul(rat_mul(x, rat_div(e2, e1)), rat_div(e1, e2)), x),
{
}

/// Multiplication distributes over subtraction.
pub proof fn lemma_mul_distrib_sub(a: Rat, b: Rat, r: Rat)
    ensures
        rat_eq(rat_mul(rat_sub(a, b), r), rat_sub(rat_mul(a, r), rat_mul(b, r))),
{
    lemma_mul_is_distributive_sub_other_way(r.n, a.n * b.d, b.n * a.d);
    lemma_mul_is_distributive_sub_other_way(
        (a.d * r.d) * (b.d * r.d),
        (a.n * b.d) * r.n,
        (b.n * a.d) * r.n,
    );
    lemma_mul_is_distributive_sub_other_way(
        (a.d * b.d) * r.d,
        (a.n * r.n) * (b.d * r.d),
        (b.n * r.n) * (a.d * r.d),
    );
    lemma_prod_rearrange_a(a.n, b.d, r.n, a.d, r.d);
    lemma_prod_rearrange_b(b.n, b.d, r.n, a.d, r.d);
}

/// Euclid's algorithm, executable form.
fn gcd_u128(a0: u128, b0: u128) -> (g: u128)
    ensures
        g as nat == gcd(a0 as nat, b0 as nat),
{
    let mut a = a0;
    let mut b = b0;
    while b != 0
        invariant
            gcd(a as nat, b as nat) == gcd(a0 as nat, b0 as nat),
        decreases b,
    {
        let r = a % b;
        assert(gcd(a as nat, b as nat) == gcd(b as nat, r as nat));
        a = b;
        b = r;
    }
    a
}

/// Reduces the fraction `n / d` and packs it into a `Scalar` when it fits.
fn reduce(n: i128, d: i128) -> (r: Option<Scalar>)
    requires
        i128::MIN < n,
        1 <= d,
    ensures
        r is Some <==> rat_fits(rat_norm(Rat { n: n as int, d: d as int })),
        r matches Some(v) ==> v.wf() && v@ == rat_norm(Rat { n: n as int, d: d as int }),
{
    let ghost q = Rat { n: n as int, d: d as int };
    let neg = n < 0;
    let m: u128 = if neg {
        (-n) as u128
    } else {
        n as u128
    };
    proof {
        lemma_gcd_divides(m as nat, d as nat);
    }
    let g: u128 = gcd_u128(m, d as u128);
    let nm: u128 = m / g;
    let dm: u128 = (d as u128) / g;
    proof {
        let gi = g as int;
        lemma_fundamental_div_mod(d as int, gi);
        assert(1 <= dm) by (nonlinear_arith)
            requires
                d as int == gi * (dm as int),
                1 <= d as int,
                1 <= gi,
        ;
        if neg {
            lemma_fundamental_div_mod(m as int, gi);
            lemma_mul_unary_negation(gi, nm as int);
            lemma_div_multiples_vanish(-(nm as int), gi);
            assert(n as int / gi == -(nm as int));
        }
        assert(rat_norm(q) == Rat { n: n as int / gi, d: d as int / gi });
    }
    if nm <= 0x7fff_ffff_ffff_ffff && dm <= 0x7fff_ffff_ffff_ffff {
        let num: i64 = if neg {
            -(nm as i64)
        } else {
            nm as i64
        };
        Some(Scalar { num, den: dm as i64 })
    } else {
        None
    }
}

} // verus!
