//! Exact rational arithmetic.
//!
//! A [`Rat`] holds a numerator and a positive denominator, both `i64`.
//! Specifications model a rational as a pair `(int, int)` of unbounded
//! integers with a positive second component; two pairs denote the same
//! number exactly when they cross-multiply equally ([`qeq`]).
//!
//! Arithmetic is performed in `i128` (where no intermediate product of two
//! `i64` values can overflow), the result is reduced by the greatest common
//! divisor, and the operation reports failure exactly when the reduced
//! result does not fit back into `i64` components.

use vstd::arithmetic::div_mod::*;
use vstd::math::abs;
use vstd::prelude::*;

verus! {

// ---------------------------------------------------------------------------
// The specification-level model: pairs of unbounded integers.
// ---------------------------------------------------------------------------

/// A well-formed pair has a positive denominator.
pub open spec fn qwf(a: (int, int)) -> bool {
    a.1 > 0
}

/// The pairs `a` and `b` denote the same rational number.
pub open spec fn qeq(a: (int, int), b: (int, int)) -> bool {
    a.0 * b.1 == b.0 * a.1
}

/// The sum of the rationals denoted by `a` and `b`.
pub open spec fn qadd(a: (int, int), b: (int, int)) -> (int, int) {
    (a.0 * b.1 + b.0 * a.1, a.1 * b.1)
}

/// The difference of the rationals denoted by `a` and `b`.
pub open spec fn qsub(a: (int, int), b: (int, int)) -> (int, int) {
    (a.0 * b.1 - b.0 * a.1, a.1 * b.1)
}

/// The product of the rationals denoted by `a` and `b`.
pub open spec fn qmul(a: (int, int), b: (int, int)) -> (int, int) {
    (a.0 * b.0, a.1 * b.1)
}

/// The quotient of the rationals denoted by `a` and `b`.
/// Meaningful only when `b` denotes a non-zero number.
pub open spec fn qdiv(a: (int, int), b: (int, int)) -> (int, int) {
    (a.0 * b.1, a.1 * b.0)
}

/// `a < b`, for well-formed pairs.
pub open spec fn qlt(a: (int, int), b: (int, int)) -> bool {
    a.0 * b.1 < b.0 * a.1
}

/// `a <= b`, for well-formed pairs.
pub open spec fn qle(a: (int, int), b: (int, int)) -> bool {
    a.0 * b.1 <= b.0 * a.1
}

/// The pair denoting the integer `n`.
pub open spec fn qint(n: int) -> (int, int) {
    (n, 1int)
}

/// The well-formed pair `a` denotes a strictly positive number.
pub open spec fn qpos(a: (int, int)) -> bool {
    a.0 > 0
}

/// The well-formed pair `a` denotes a non-negative number.
pub open spec fn qnonneg(a: (int, int)) -> bool {
    a.0 >= 0
}

/// Greatest common divisor, by Euclid's algorithm.
pub open spec fn gcd(a: nat, b: nat) -> nat
    decreases b,
{
    if b == 0 {
        a
    } else {
        gcd(b, a % b)
    }
}

/// The canonical reduced form of a pair: the sign is moved onto the
/// numerator, and both components are divided by their greatest common
/// divisor. Meaningful only when the denominator is non-zero.
pub open spec fn qnorm(a: (int, int)) -> (int, int) {
    let n: int = if a.1 < 0 { -a.0 } else { a.0 };
    let d: int = if a.1 < 0 { -a.1 } else { a.1 };
    if n == 0 {
        (0int, 1int)
    } else {
        let g: int = gcd(abs(n), d as nat) as int;
        (n / g, d / g)
    }
}

/// Both components of the pair fit in `i64`, with a positive denominator.
pub open spec fn fits_i64(a: (int, int)) -> bool {
    i64::MIN <= a.0 <= i64::MAX && 1 <= a.1 <= i64::MAX
}

/// The reduced form of the sum: what [`Rat::add`] returns when it succeeds.
pub open spec fn nadd(a: (int, int), b: (int, int)) -> (int, int) {
    qnorm(qadd(a, b))
}

/// The reduced form of the difference: what [`Rat::sub`] returns when it
/// succeeds.
pub open spec fn nsub(a: (int, int), b: (int, int)) -> (int, int) {
    qnorm(qsub(a, b))
}

/// The reduced form of the product: what [`Rat::mul`] returns when it
/// succeeds.
pub open spec fn nmul(a: (int, int), b: (int, int)) -> (int, int) {
    qnorm(qmul(a, b))
}

/// The reduced form of the quotient: what [`Rat::div`] returns when it
/// succeeds.
pub open spec fn ndiv(a: (int, int), b: (int, int)) -> (int, int) {
    qnorm(qdiv(a, b))
}

/// The `Rat` whose components are the pair's; faithful exactly when the
/// pair fits in `i64`.
pub open spec fn rat_of(a: (int, int)) -> Rat {
    Rat { num: a.0 as i64, den: a.1 as i64 }
}

/// A well-formed `Rat` that denotes a fitting pair exactly is that pair,
/// packed.
pub proof fn lemma_rat_of_exact(r: Rat, a: (int, int))
    requires
        fits_i64(a),
        r.v() == a,
    ensures
        r == rat_of(a),
{
}

// ---------------------------------------------------------------------------
// Lemmas about gcd and normalization.
// ---------------------------------------------------------------------------

/// Euclid's algorithm yields a positive common divisor of its arguments.
pub proof fn lemma_gcd_divides(a: nat, b: nat)
    requires
        a > 0,
    ensures
        gcd(a, b) > 0,
        a as int % (gcd(a, b) as int) == 0,
        b as int % (gcd(a, b) as int) == 0,
    decreases b,
{
    if b == 0 {
        lemma_mod_self_0(a as int);
        lemma_small_mod(0nat, a);
    } else {
        lemma_mod_division_less_than_divisor(a as int, b as int);
        lemma_gcd_divides(b, a % b);
        let g: int = gcd(b, a % b) as int;
        lemma_fundamental_div_mod(a as int, b as int);
        lemma_fundamental_div_mod(b as int, g);
        let k: int = a as int / b as int;
        let m: int = b as int / g;
        assert(b as int == g * m);
        assert((b as int) * k == g * (m * k)) by (nonlinear_arith)
            requires
                b as int == g * m,
        ;
        lemma_mod_multiples_vanish(m * k, (a % b) as int, g);
        assert(a as int % g == 0);
    }
}

/// Dividing both components by a positive common divisor preserves the
/// denoted rational.
proof fn lemma_reduce_preserves(n: int, d: int, g: int)
    requires
        d > 0,
        g > 0,
        n % g == 0,
        d % g == 0,
    ensures
        qeq((n / g, d / g), (n, d)),
        d / g >= 1,
{
    lemma_fundamental_div_mod(n, g);
    lemma_fundamental_div_mod(d, g);
    let nq: int = n / g;
    let dq: int = d / g;
    assert(n == g * nq);
    assert(d == g * dq);
    assert(dq >= 1) by (nonlinear_arith)
        requires
            d == g * dq,
            d > 0,
            g > 0,
    ;
    assert(nq * (g * dq) == (g * nq) * dq) by (nonlinear_arith);
}

/// A negative multiple of `g` also has remainder zero.
proof fn lemma_neg_mod_zero(n: int, g: int)
    requires
        n < 0,
        g > 0,
        (-n) % g == 0,
    ensures
        n % g == 0,
{
    lemma_fundamental_div_mod(-n, g);
    let k: int = (-n) / g;
    assert(n == g * (-k)) by (nonlinear_arith)
        requires
            -n == g * k,
    ;
    lemma_mod_multiples_vanish(-k, 0int, g);
    lemma_small_mod(0nat, g as nat);
}

/// The reduced form of a pair denotes the same rational as the pair itself,
/// and is well formed.
pub proof fn lemma_qnorm_qeq(a: (int, int))
    requires
        a.1 != 0,
    ensures
        qwf(qnorm(a)),
        qeq(qnorm(a), a),
{
    let n: int = if a.1 < 0 { -a.0 } else { a.0 };
    let d: int = if a.1 < 0 { -a.1 } else { a.1 };
    if n == 0 {
        assert(a.0 == 0);
        assert(0int * a.1 == 0) by (nonlinear_arith);
        assert(a.0 * 1int == 0) by (nonlinear_arith)
            requires
                a.0 == 0,
        ;
    } else {
        let g: int = gcd(abs(n), d as nat) as int;
        lemma_gcd_divides(abs(n), d as nat);
        if n < 0 {
            lemma_neg_mod_zero(n, g);
        }
        lemma_reduce_preserves(n, d, g);
        if a.1 < 0 {
            assert(qeq((n, d), a)) by (nonlinear_arith)
                requires
                    n == -a.0,
                    d == -a.1,
            ;
            lemma_qeq_trans(qnorm(a), (n, d), a);
        }
    }
}

/// Transitivity of `qeq` through a pair with a non-zero denominator.
pub proof fn lemma_qeq_trans(a: (int, int), b: (int, int), c: (int, int))
    requires
        b.1 != 0,
        qeq(a, b),
        qeq(b, c),
    ensures
        qeq(a, c),
{
    assert(a.0 * c.1 == c.0 * a.1) by (nonlinear_arith)
        requires
            a.0 * b.1 == b.0 * a.1,
            b.0 * c.1 == c.0 * b.1,
            b.1 != 0,
    ;
}

/// `qeq` is a congruence for addition.
pub proof fn lemma_qadd_cong(a: (int, int), a2: (int, int), b: (int, int), b2: (int, int))
    requires
        qeq(a, a2),
        qeq(b, b2),
    ensures
        qeq(qadd(a, b), qadd(a2, b2)),
{
    vstd::arithmetic::mul::lemma_mul_is_distributive_add_other_way(
        a2.1 * b2.1,
        a.0 * b.1,
        b.0 * a.1,
    );
    vstd::arithmetic::mul::lemma_mul_is_distributive_add_other_way(
        a.1 * b.1,
        a2.0 * b2.1,
        b2.0 * a2.1,
    );
    assert((a.0 * b.1) * (a2.1 * b2.1) == (a.0 * a2.1) * (b.1 * b2.1)) by (nonlinear_arith);
    assert((b.0 * a.1) * (a2.1 * b2.1) == (b.0 * b2.1) * (a.1 * a2.1)) by (nonlinear_arith);
    assert((a2.0 * b2.1) * (a.1 * b.1) == (a2.0 * a.1) * (b.1 * b2.1)) by (nonlinear_arith);
    assert((b2.0 * a2.1) * (a.1 * b.1) == (b2.0 * b.1) * (a.1 * a2.1)) by (nonlinear_arith);
}

/// `qeq` is a congruence for subtraction.
pub proof fn lemma_qsub_cong(a: (int, int), a2: (int, int), b: (int, int), b2: (int, int))
    requires
        qeq(a, a2),
        qeq(b, b2),
    ensures
        qeq(qsub(a, b), qsub(a2, b2)),
{
    vstd::arithmetic::mul::lemma_mul_is_distributive_sub_other_way(
        a2.1 * b2.1,
        a.0 * b.1,
        b.0 * a.1,
    );
    vstd::arithmetic::mul::lemma_mul_is_distributive_sub_other_way(
        a.1 * b.1,
        a2.0 * b2.1,
        b2.0 * a2.1,
    );
    assert((a.0 * b.1) * (a2.1 * b2.1) == (a.0 * a2.1) * (b.1 * b2.1)) by (nonlinear_arith);
    assert((b.0 * a.1) * (a2.1 * b2.1) == (b.0 * b2.1) * (a.1 * a2.1)) by (nonlinear_arith);
    assert((a2.0 * b2.1) * (a.1 * b.1) == (a2.0 * a.1) * (b.1 * b2.1)) by (nonlinear_arith);
    assert((b2.0 * a2.1) * (a.1 * b.1) == (b2.0 * b.1) * (a.1 * a2.1)) by (nonlinear_arith);
}

/// `qeq` is a congruence for multiplication.
pub proof fn lemma_qmul_cong(a: (int, int), a2: (int, int), b: (int, int), b2: (int, int))
    requires
        qeq(a, a2),
        qeq(b, b2),
    ensures
        qeq(qmul(a, b), qmul(a2, b2)),
{
    assert((a.0 * b.0) * (a2.1 * b2.1) == (a2.0 * b2.0) * (a.1 * b.1)) by (nonlinear_arith)
        requires
            a.0 * a2.1 == a2.0 * a.1,
            b.0 * b2.1 == b2.0 * b.1,
    ;
}

/// `qeq` is a congruence for division.
pub proof fn lemma_qdiv_cong(a: (int, int), a2: (int, int), b: (int, int), b2: (int, int))
    requires
        qeq(a, a2),
        qeq(b, b2),
    ensures
        qeq(qdiv(a, b), qdiv(a2, b2)),
{
    assert((a.0 * b.1) * (a2.1 * b2.0) == (a2.0 * b2.1) * (a.1 * b.0)) by (nonlinear_arith)
        requires
            a.0 * a2.1 == a2.0 * a.1,
            b.0 * b2.1 == b2.0 * b.1,
    ;
}

/// Pairs denoting the same number agree on their sign.
pub proof fn lemma_qeq_sign(a: (int, int), b: (int, int))
    requires
        qwf(a),
        qwf(b),
        qeq(a, b),
    ensures
        qpos(a) == qpos(b),
        qnonneg(a) == qnonneg(b),
{
    assert(((a.0 > 0) == (b.0 > 0)) && ((a.0 >= 0) == (b.0 >= 0))) by (nonlinear_arith)
        requires
            a.0 * b.1 == b.0 * a.1,
            a.1 > 0,
            b.1 > 0,
    ;
}

// ---------------------------------------------------------------------------
// The executable type.
// ---------------------------------------------------------------------------

/// An exact rational number: `num / den` with `den > 0`.
#[derive(Clone, Copy, Debug)]
pub struct Rat {
    pub num: i64,
    pub den: i64,
}

impl Rat {
    /// The pair of unbounded integers this value denotes.
    pub open spec fn v(self) -> (int, int) {
        (self.num as int, self.den as int)
    }

    /// Well-formedness: the denominator is positive.
    pub open spec fn wf(self) -> bool {
        self.den > 0
    }

    /// Builds the rational `num / den`.
    pub fn new(num: i64, den: i64) -> (r: Rat)
        requires
            den > 0,
        ensures
            r.wf(),
            r.v() == (num as int, den as int),
    {
        Rat { num, den }
    }

    /// Builds the rational denoting the integer `n`.
    pub fn from_int(n: i64) -> (r: Rat)
        ensures
            r.wf(),
            r.v() == qint(n as int),
    {
        Rat { num: n, den: 1 }
    }

    /// Exact equality of the denoted numbers.
    pub fn equals(&self, other: &Rat) -> (b: bool)
        requires
            self.wf(),
            other.wf(),
        ensures
            b == qeq(self.v(), other.v()),
    {
        proof {
            lemma_prod_i64_full(self.num as int, other.den as int);
            lemma_prod_i64_full(other.num as int, self.den as int);
        }
        (self.num as i128) * (other.den as i128) == (other.num as i128) * (self.den as i128)
    }

    /// `self < other` on the denoted numbers.
    pub fn lt(&self, other: &Rat) -> (b: bool)
        requires
            self.wf(),
            other.wf(),
        ensures
            b == qlt(self.v(), other.v()),
    {
        proof {
            lemma_prod_i64_full(self.num as int, other.den as int);
            lemma_prod_i64_full(other.num as int, self.den as int);
        }
        (self.num as i128) * (other.den as i128) < (other.num as i128) * (self.den as i128)
    }

    /// `self <= other` on the denoted numbers.
    pub fn le(&self, other: &Rat) -> (b: bool)
        requires
            self.wf(),
            other.wf(),
        ensures
            b == qle(self.v(), other.v()),
    {
        proof {
            lemma_prod_i64_full(self.num as int, other.den as int);
            lemma_prod_i64_full(other.num as int, self.den as int);
        }
        (self.num as i128) * (other.den as i128) <= (other.num as i128) * (self.den as i128)
    }

    /// The denoted number is strictly positive.
    pub fn is_positive(&self) -> (b: bool)
        requires
            self.wf(),
        ensures
            b == qpos(self.v()),
    {
        self.num > 0
    }

    /// The denoted number is non-negative.
    pub fn is_nonneg(&self) -> (b: bool)
        requires
            self.wf(),
        ensures
            b == qnonneg(self.v()),
    {
        self.num >= 0
    }

    /// The denoted number is zero.
    pub fn is_zero(&self) -> (b: bool)
        requires
            self.wf(),
        ensures
            b == (self.v().0 == 0),
    {
        self.num == 0
    }

    /// Exact sum; `None` exactly when the reduced result leaves `i64`.
    pub fn add(&self, other: &Rat) -> (r: Option<Rat>)
        requires
            self.wf(),
            other.wf(),
        ensures
            r is Some <==> fits_i64(qnorm(qadd(self.v(), other.v()))),
            r matches Some(q) ==> q.wf() && q.v() == qnorm(qadd(self.v(), other.v())) && qeq(
                q.v(),
                qadd(self.v(), other.v()),
            ),
    {
        proof {
            lemma_prod_i64_den(self.num as int, other.den as int);
            lemma_prod_i64_den(other.num as int, self.den as int);
            lemma_pos_product(self.den as int, other.den as int);
            lemma_prod_i64_den(self.den as int, other.den as int);
            lemma_qnorm_qeq(qadd(self.v(), other.v()));
        }
        let n: i128 = (self.num as i128) * (other.den as i128) + (other.num as i128) * (
        self.den as i128);
        let d: i128 = (self.den as i128) * (other.den as i128);
        normalize(n, d)
    }

    /// Exact difference; `None` exactly when the reduced result leaves `i64`.
    pub fn sub(&self, other: &Rat) -> (r: Option<Rat>)
        requires
            self.wf(),
            other.wf(),
        ensures
            r is Some <==> fits_i64(qnorm(qsub(self.v(), other.v()))),
            r matches Some(q) ==> q.wf() && q.v() == qnorm(qsub(self.v(), other.v())) && qeq(
                q.v(),
                qsub(self.v(), other.v()),
            ),
    {
        proof {
            lemma_prod_i64_den(self.num as int, other.den as int);
            lemma_prod_i64_den(other.num as int, self.den as int);
            lemma_pos_product(self.den as int, other.den as int);
            lemma_prod_i64_den(self.den as int, other.den as int);
            lemma_qnorm_qeq(qsub(self.v(), other.v()));
        }
        let n: i128 = (self.num as i128) * (other.den as i128) - (other.num as i128) * (
        self.den as i128);
        let d: i128 = (self.den as i128) * (other.den as i128);
        normalize(n, d)
    }

    /// Exact product; `None` exactly when the reduced result leaves `i64`.
    pub fn mul(&self, other: &Rat) -> (r: Option<Rat>)
        requires
            self.wf(),
            other.wf(),
        ensures
            r is Some <==> fits_i64(qnorm(qmul(self.v(), other.v()))),
            r matches Some(q) ==> q.wf() && q.v() == qnorm(qmul(self.v(), other.v())) && qeq(
                q.v(),
                qmul(self.v(), other.v()),
            ),
    {
        proof {
            lemma_prod_i64_full(self.num as int, other.num as int);
            lemma_pos_product(self.den as int, other.den as int);
            lemma_prod_i64_den(self.den as int, other.den as int);
            lemma_qnorm_qeq(qmul(self.v(), other.v()));
        }
        let n: i128 = (self.num as i128) * (other.num as i128);
        let d: i128 = (self.den as i128) * (other.den as i128);
        normalize(n, d)
    }

    /// Exact quotient; `None` exactly when the reduced result leaves `i64`.
    /// The divisor must denote a non-zero number.
    pub fn div(&self, other: &Rat) -> (r: Option<Rat>)
        requires
            self.wf(),
            other.wf(),
            other.v().0 != 0,
        ensures
            r is Some <==> fits_i64(qnorm(qdiv(self.v(), other.v()))),
            r matches Some(q) ==> q.wf() && q.v() == qnorm(qdiv(self.v(), other.v())) && qeq(
                q.v(),
                qdiv(self.v(), other.v()),
            ),
    {
        proof {
            lemma_prod_i64_den(self.num as int, other.den as int);
            lemma_prod_i64_full(self.den as int, other.num as int);
            lemma_nonzero_product(self.den as int, other.num as int);
            lemma_qnorm_qeq(qdiv(self.v(), other.v()));
        }
        let n: i128 = (self.num as i128) * (other.den as i128);
        let d: i128 = (self.den as i128) * (other.num as i128);
        normalize(n, d)
    }
}

// ---------------------------------------------------------------------------
// Internal helpers.
// ---------------------------------------------------------------------------

/// Bound on the product of an `i64` value and a positive `i64` value.
proof fn lemma_prod_i64_den(x: int, y: int)
    by (nonlinear_arith)
    requires
        i64::MIN <= x <= i64::MAX,
        1 <= y <= i64::MAX,
    ensures
        -0x3fff_ffff_ffff_ffff_8000_0000_0000_0000 <= x * y
            <= 0x3fff_ffff_ffff_ffff_8000_0000_0000_0000,
{
}

/// Bound on the product of two arbitrary `i64` values.
proof fn lemma_prod_i64_full(x: int, y: int)
    by (nonlinear_arith)
    requires
        i64::MIN <= x <= i64::MAX,
        i64::MIN <= y <= i64::MAX,
    ensures
        -0x4000_0000_0000_0000_0000_0000_0000_0000 <= x * y
            <= 0x4000_0000_0000_0000_0000_0000_0000_0000,
{
}

/// The product of two positive values is positive.
pub proof fn lemma_pos_product(x: int, y: int)
    by (nonlinear_arith)
    requires
        x > 0,
        y > 0,
    ensures
        x * y > 0,
{
}

/// The product of two non-zero values is non-zero.
pub proof fn lemma_nonzero_product(x: int, y: int)
    by (nonlinear_arith)
    requires
        x != 0,
        y != 0,
    ensures
        x * y != 0,
{
}

/// Euclid's algorithm on positive `i128` values.
fn gcd_exec(a: i128, b: i128) -> (g: i128)
    requires
        a > 0,
        b >= 0,
    ensures
        g as nat == gcd(a as nat, b as nat),
        g >= 1,
    decreases b,
{
    proof {
        lemma_gcd_divides(a as nat, b as nat);
    }
    if b == 0 {
        a
    } else {
        proof {
            lemma_mod_division_less_than_divisor(a as int, b as int);
        }
        let r: i128 = a % b;
        gcd_exec(b, r)
    }
}

/// Reduces `n / d` (with `d != 0`) to lowest terms with a positive
/// denominator and packs it into `i64` components if it fits.
fn normalize(n: i128, d: i128) -> (r: Option<Rat>)
    requires
        d != 0,
        i128::MIN < n,
        i128::MIN < d,
    ensures
        r is Some <==> fits_i64(qnorm((n as int, d as int))),
        r matches Some(q) ==> q.wf() && q.v() == qnorm((n as int, d as int)),
{
    let (n2, d2): (i128, i128) = if d < 0 {
        (-n, -d)
    } else {
        (n, d)
    };
    if n2 == 0 {
        return Some(Rat { num: 0, den: 1 });
    }
    let a: i128 = if n2 < 0 {
        -n2
    } else {
        n2
    };
    let g: i128 = gcd_exec(a, d2);
    proof {
        lemma_gcd_divides(a as nat, d2 as nat);
        lemma_reduce_bounds(a as int, d2 as int, g as int);
        if n2 < 0 {
            lemma_neg_div(a as int, g as int);
        }
    }
    let rn: i128 = a / g;
    let rd: i128 = d2 / g;
    let sn: i128 = if n2 < 0 {
        -rn
    } else {
        rn
    };
    if -0x8000_0000_0000_0000i128 <= sn && sn <= 0x7fff_ffff_ffff_ffffi128 && rd
        <= 0x7fff_ffff_ffff_ffffi128 {
        Some(Rat { num: sn as i64, den: rd as i64 })
    } else {
        None
    }
}

/// Reducing positive values by a positive common divisor keeps them
/// positive and no larger.
proof fn lemma_reduce_bounds(a: int, d: int, g: int)
    requires
        a > 0,
        d > 0,
        g >= 1,
        a % g == 0,
        d % g == 0,
    ensures
        1 <= a / g <= a,
        1 <= d / g <= d,
{
    lemma_fundamental_div_mod(a, g);
    lemma_fundamental_div_mod(d, g);
    assert(1 <= a / g <= a) by (nonlinear_arith)
        requires
            a == g * (a / g),
            a > 0,
            g >= 1,
    ;
    assert(1 <= d / g <= d) by (nonlinear_arith)
        requires
            d == g * (d / g),
            d > 0,
            g >= 1,
    ;
}

/// Exact division of the negation: `(-a) / g == -(a / g)` when `g` divides `a`.
proof fn lemma_neg_div(a: int, g: int)
    requires
        a > 0,
        g >= 1,
        a % g == 0,
    ensures
        (-a) / g == -(a / g),
{
    lemma_fundamental_div_mod(a, g);
    assert(a == g * (a / g));
    assert(-a == g * (-(a / g))) by (nonlinear_arith)
        requires
            a == g * (a / g),
    ;
    lemma_div_multiples_vanish(-(a / g), g);
}

} // verus!
