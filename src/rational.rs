use vstd::prelude::*;

verus! {

/// A fraction `(numerator, denominator)` denotes a real number when its
/// denominator is positive.
pub open spec fn frac_valid(a: (int, int)) -> bool {
    a.1 > 0
}

/// The fraction standing for zero.
pub open spec fn frac_zero() -> (int, int) {
    (0, 1)
}

/// `a <= b` as real numbers (both denominators positive).
pub open spec fn frac_le(a: (int, int), b: (int, int)) -> bool {
    a.0 * b.1 <= b.0 * a.1
}

/// `a < b` as real numbers (both denominators positive).
pub open spec fn frac_lt(a: (int, int), b: (int, int)) -> bool {
    a.0 * b.1 < b.0 * a.1
}

/// `a` and `b` denote the same real number (both denominators positive).
pub open spec fn frac_eq(a: (int, int), b: (int, int)) -> bool {
    a.0 * b.1 == b.0 * a.1
}

/// The product `a * b`, with no reduction of terms.
pub open spec fn frac_mul(a: (int, int), b: (int, int)) -> (int, int) {
    (a.0 * b.0, a.1 * b.1)
}

/// The quotient `a / b` for `b > 0`, with no reduction of terms.
pub open spec fn frac_div(a: (int, int), b: (int, int)) -> (int, int) {
    (a.0 * b.1, a.1 * b.0)
}

/// The smaller of `a` and `b`; `a` when they are equal.
pub open spec fn frac_min(a: (int, int), b: (int, int)) -> (int, int) {
    if frac_le(a, b) {
        a
    } else {
        b
    }
}

/// Both components lie in the range of `i64`.
pub open spec fn frac_fits(a: (int, int)) -> bool {
    i64::MIN <= a.0 <= i64::MAX && i64::MIN <= a.1 <= i64::MAX
}

/// The product of two valid fractions is valid.
pub proof fn lemma_mul_valid(a: (int, int), b: (int, int))
    requires
        frac_valid(a),
        frac_valid(b),
    ensures
        frac_valid(frac_mul(a, b)),
{
    assert(a.1 * b.1 > 0) by (nonlinear_arith)
        requires
            a.1 > 0,
            b.1 > 0,
    ;
}

/// `<=` is transitive on valid fractions.
pub proof fn lemma_le_trans(a: (int, int), b: (int, int), c: (int, int))
    requires
        frac_valid(a),
        frac_valid(b),
        frac_valid(c),
        frac_le(a, b),
        frac_le(b, c),
    ensures
        frac_le(a, c),
{
    let (a0, a1, b0, b1, c0, c1) = (a.0, a.1, b.0, b.1, c.0, c.1);
    assert(a0 * c1 * b1 <= c0 * a1 * b1) by (nonlinear_arith)
        requires
            a1 > 0,
            c1 > 0,
            a0 * b1 <= b0 * a1,
            b0 * c1 <= c0 * b1,
    ;
    assert(a0 * c1 <= c0 * a1) by (nonlinear_arith)
        requires
            b1 > 0,
            a0 * c1 * b1 <= c0 * a1 * b1,
    ;
}

/// `a <= b < c` gives `a < c` on valid fractions.
pub proof fn lemma_le_lt_trans(a: (int, int), b: (int, int), c: (int, int))
    requires
        frac_valid(a),
        frac_valid(b),
        frac_valid(c),
        frac_le(a, b),
        frac_lt(b, c),
    ensures
        frac_lt(a, c),
{
    let (a0, a1, b0, b1, c0, c1) = (a.0, a.1, b.0, b.1, c.0, c.1);
    assert(a0 * c1 * b1 < c0 * a1 * b1) by (nonlinear_arith)
        requires
            a1 > 0,
            c1 > 0,
            a0 * b1 <= b0 * a1,
            b0 * c1 < c0 * b1,
    ;
    assert(a0 * c1 < c0 * a1) by (nonlinear_arith)
        requires
            b1 > 0,
            a0 * c1 * b1 < c0 * a1 * b1,
    ;
}

/// Multiplying by a non-negative fraction keeps `<=`.
pub proof fn lemma_mul_le_mono(r: (int, int), a: (int, int), b: (int, int))
    requires
        frac_valid(r),
        frac_valid(a),
        frac_valid(b),
        frac_le(frac_zero(), r),
        frac_le(a, b),
    ensures
        frac_valid(frac_mul(r, a)),
        frac_valid(frac_mul(r, b)),
        frac_le(frac_mul(r, a), frac_mul(r, b)),
{
    lemma_mul_valid(r, a);
    lemma_mul_valid(r, b);
    let (r0, r1, a0, a1, b0, b1) = (r.0, r.1, a.0, a.1, b.0, b.1);
    assert((r0 * a0) * (r1 * b1) <= (r0 * b0) * (r1 * a1)) by (nonlinear_arith)
        requires
            r0 >= 0,
            r1 > 0,
            a0 * b1 <= b0 * a1,
    ;
}

/// An exact rational number `num / den`. It is well formed when `den > 0`.
///
/// Equality (`==`) compares the numbers denoted, so `6/2 == 3/1`.
#[derive(Clone, Copy, Debug)]
pub struct Rational {
    pub num: i64,
    pub den: i64,
}

impl View for Rational {
    type V = (int, int);

    open spec fn view(&self) -> (int, int) {
        (self.num as int, self.den as int)
    }
}

proof fn lemma_product_fits_i128(a: i64, b: i64)
    ensures
        i128::MIN <= a * b <= i128::MAX,
{
    assert(-0x4000_0000_0000_0000_0000_0000_0000_0000 <= a * b <= 0x4000_0000_0000_0000_0000_0000_0000_0000)
        by (nonlinear_arith)
        requires
            -0x8000_0000_0000_0000 <= a <= 0x7fff_ffff_ffff_ffff,
            -0x8000_0000_0000_0000 <= b <= 0x7fff_ffff_ffff_ffff,
    ;
}

impl Rational {
    pub open spec fn wf(&self) -> bool {
        frac_valid(self@)
    }

    /// The number `num / den`.
    pub fn new(num: i64, den: i64) -> (q: Rational)
        requires
            den > 0,
        ensures
            q@ == (num as int, den as int),
            q.wf(),
    {
        Rational { num, den }
    }

    /// The integer `n`, as `n / 1`.
    pub fn from_int(n: i64) -> (q: Rational)
        ensures
            q@ == (n as int, 1int),
            q.wf(),
    {
        Rational { num: n, den: 1 }
    }

    /// Zero, as `0 / 1`.
    pub fn zero() -> (q: Rational)
        ensures
            q@ == frac_zero(),
            q.wf(),
    {
        Rational { num: 0, den: 1 }
    }

    pub fn is_zero(&self) -> (b: bool)
        requires
            self.wf(),
        ensures
            b == frac_eq(self@, frac_zero()),
    {
        self.num == 0
    }

    pub fn is_negative(&self) -> (b: bool)
        requires
            self.wf(),
        ensures
            b == frac_lt(self@, frac_zero()),
    {
        self.num < 0
    }

    /// `self <= o` as numbers.
    pub fn le(&self, o: &Rational) -> (b: bool)
        ensures
            b == frac_le(self@, o@),
    {
        proof {
            lemma_product_fits_i128(self.num, o.den);
            lemma_product_fits_i128(o.num, self.den);
        }
        (self.num as i128) * (o.den as i128) <= (o.num as i128) * (self.den as i128)
    }

    /// `self < o` as numbers.
    pub fn lt(&self, o: &Rational) -> (b: bool)
        ensures
            b == frac_lt(self@, o@),
    {
        proof {
            lemma_product_fits_i128(self.num, o.den);
            lemma_product_fits_i128(o.num, self.den);
        }
        (self.num as i128) * (o.den as i128) < (o.num as i128) * (self.den as i128)
    }

    /// The smaller of `self` and `o`; `self` when they are equal.
    pub fn min(&self, o: &Rational) -> (q: Rational)
        ensures
            q@ == frac_min(self@, o@),
    {
        if self.le(o) {
            *self
        } else {
            *o
        }
    }

    /// The product `self * o`, with no reduction of terms.
    pub fn times(&self, o: &Rational) -> (q: Rational)
        requires
            frac_fits(frac_mul(self@, o@)),
        ensures
            q@ == frac_mul(self@, o@),
    {
        Rational { num: self.num * o.num, den: self.den * o.den }
    }

    /// The quotient `self / o` of a number by a positive number, with no
    /// reduction of terms.
    pub fn divided_by(&self, o: &Rational) -> (q: Rational)
        requires
            o.num > 0,
            frac_fits(frac_div(self@, o@)),
        ensures
            q@ == frac_div(self@, o@),
    {
        Rational { num: self.num * o.den, den: self.den * o.num }
    }
}

impl PartialEq for Rational {
    fn eq(&self, o: &Rational) -> (b: bool) {
        proof {
            lemma_product_fits_i128(self.num, o.den);
            lemma_product_fits_i128(o.num, self.den);
        }
        (self.num as i128) * (o.den as i128) == (o.num as i128) * (self.den as i128)
    }
}

impl vstd::std_specs::cmp::PartialEqSpecImpl for Rational {
    open spec fn obeys_eq_spec() -> bool {
        true
    }

    open spec fn eq_spec(&self, o: &Rational) -> bool {
        frac_eq(self@, o@)
    }
}

} // verus!
