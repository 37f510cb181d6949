use vstd::prelude::*;
use vstd::arithmetic::div_mod::{lemma_div_basics_4, lemma_div_basics_5, lemma_div_non_zero};

verus! {

/// An exact rational number `num / den`, the numeric value of the language.
///
/// Numbers are exact fractions rather than binary floating point: `0.1 + 0.2 == 0.3`
/// holds, results are kept in lowest terms, and where a float would round, overflow to
/// infinity or divide by zero, an operation here fails instead (`ArithError`), as does
/// a literal whose digits do not fit in 64 bits.
#[derive(Debug, Clone, Copy, PartialEq, Eq, Structural)]
pub struct Num {
    pub num: i64,
    pub den: i64,
}

/// Why an arithmetic operation on numbers gave no number.
#[derive(Debug, Clone, Copy, PartialEq, Eq, Structural)]
pub enum ArithError {
    DivisionByZero,
    /// The exact result needs a numerator or denominator beyond 64 bits.
    Overflow,
}

pub open spec fn fits(x: int) -> bool {
    i64::MIN <= x <= i64::MAX
}

/// The number `p / q`, where both fit in 64 bits.
pub open spec fn exact(p: int, q: int) -> Result<Num, ArithError> {
    if fits(p) && fits(q) {
        Ok(Num { num: p as i64, den: q as i64 })
    } else {
        Err(ArithError::Overflow)
    }
}

/// The greatest common divisor, by Euclid's algorithm.
pub open spec fn gcd(a: nat, b: nat) -> nat
    decreases b,
{
    if b == 0 {
        a
    } else {
        gcd(b, a % b)
    }
}

pub open spec fn abs_int(p: int) -> nat {
    if p < 0 { (-p) as nat } else { p as nat }
}

/// `p / q` (with `q > 0`) in lowest terms, where both fit in 64 bits.
pub open spec fn lowest(p: int, q: int) -> Result<Num, ArithError> {
    let g = gcd(abs_int(p), q as nat) as int;
    exact(if p < 0 { -(abs_int(p) as int / g) } else { p / g }, q / g)
}

pub open spec fn add_spec(a: Num, b: Num) -> Result<Num, ArithError> {
    lowest(a.num * b.den + b.num * a.den, a.den * b.den)
}

pub open spec fn sub_spec(a: Num, b: Num) -> Result<Num, ArithError> {
    lowest(a.num * b.den - b.num * a.den, a.den * b.den)
}

pub open spec fn mul_spec(a: Num, b: Num) -> Result<Num, ArithError> {
    lowest(a.num * b.num, a.den * b.den)
}

/// The quotient, with the sign carried by the numerator.
pub open spec fn div_spec(a: Num, b: Num) -> Result<Num, ArithError> {
    if b.num == 0 {
        Err(ArithError::DivisionByZero)
    } else if b.num > 0 {
        lowest(a.num * b.den, a.den * b.num)
    } else {
        lowest(-(a.num * b.den), -(a.den * b.num))
    }
}

/// A positive second argument gives a divisor between one and that argument.
proof fn lemma_gcd_bounds(a: nat, b: nat)
    requires
        b > 0,
    ensures
        1 <= gcd(a, b) <= b,
    decreases b,
{
    if a % b > 0 {
        lemma_gcd_bounds(b, a % b);
    } else {
        assert(gcd(b, 0) == b);
    }
}

fn gcd_u128(a: u128, b: u128) -> (r: u128)
    ensures
        r == gcd(a as nat, b as nat),
{
    let mut x = a;
    let mut y = b;
    while y != 0
        invariant
            gcd(x as nat, y as nat) == gcd(a as nat, b as nat),
        decreases y,
    {
        let t = x % y;
        x = y;
        y = t;
    }
    x
}

/// `p / q` in lowest terms as a number, where both fit in 64 bits.
fn narrow_lowest(p: i128, q: i128) -> (r: Result<Num, ArithError>)
    requires
        q > 0,
        p > i128::MIN,
    ensures
        r == lowest(p as int, q as int),
        r matches Ok(n) ==> n.wf(),
{
    let a: u128 = if p < 0 { (-p) as u128 } else { p as u128 };
    let g = gcd_u128(a, q as u128);
    proof {
        lemma_gcd_bounds(a as nat, q as nat);
        lemma_div_basics_4(a as int, g as int);
        lemma_div_basics_5(a as int, g as int);
        lemma_div_basics_5(q as int, g as int);
        lemma_div_non_zero(q as int, g as int);
    }
    let n: u128 = a / g;
    let d: u128 = (q as u128) / g;
    let num: i128 = if p < 0 { -(n as i128) } else { n as i128 };
    narrow(num, d as i128)
}

/// The sign of `a - b`: -1, 0 or 1.
pub open spec fn compare_spec(a: Num, b: Num) -> int {
    let l = a.num * b.den;
    let r = b.num * a.den;
    if l < r {
        -1
    } else if l == r {
        0
    } else {
        1
    }
}

pub open spec fn abs_spec(a: Num) -> Result<Num, ArithError> {
    exact(if a.num < 0 { -a.num } else { a.num as int }, a.den as int)
}

proof fn lemma_products_fit(a: Num, b: Num)
    ensures
        a.num * b.den <= 0x4000_0000_0000_0000_0000_0000_0000_0000,
        a.num * b.den >= -0x4000_0000_0000_0000_0000_0000_0000_0000,
        b.num * a.den <= 0x4000_0000_0000_0000_0000_0000_0000_0000,
        b.num * a.den >= -0x4000_0000_0000_0000_0000_0000_0000_0000,
        a.num * b.num <= 0x4000_0000_0000_0000_0000_0000_0000_0000,
        a.num * b.num >= -0x4000_0000_0000_0000_0000_0000_0000_0000,
        a.den * b.den <= 0x4000_0000_0000_0000_0000_0000_0000_0000,
        a.den * b.den >= -0x4000_0000_0000_0000_0000_0000_0000_0000,
        a.den * b.num <= 0x4000_0000_0000_0000_0000_0000_0000_0000,
        a.den * b.num >= -0x4000_0000_0000_0000_0000_0000_0000_0000,
{
    lemma_product_bound(a.num as int, b.den as int);
    lemma_product_bound(b.num as int, a.den as int);
    lemma_product_bound(a.num as int, b.num as int);
    lemma_product_bound(a.den as int, b.den as int);
    lemma_product_bound(a.den as int, b.num as int);
}

proof fn lemma_product_bound(x: int, y: int)
    requires
        fits(x),
        fits(y),
    ensures
        -0x4000_0000_0000_0000_0000_0000_0000_0000 <= x * y <= 0x4000_0000_0000_0000_0000_0000_0000_0000,
{
    assert(-0x8000_0000_0000_0000 <= x <= 0x8000_0000_0000_0000);
    assert(-0x8000_0000_0000_0000 <= y <= 0x8000_0000_0000_0000);
    assert(-0x4000_0000_0000_0000_0000_0000_0000_0000 <= x * y <= 0x4000_0000_0000_0000_0000_0000_0000_0000)
        by (nonlinear_arith)
        requires
            -0x8000_0000_0000_0000 <= x <= 0x8000_0000_0000_0000,
            -0x8000_0000_0000_0000 <= y <= 0x8000_0000_0000_0000,
    ;
}

proof fn lemma_cross_products_fit(a: Num, b: Num)
    requires
        a.wf(),
        b.wf(),
    ensures
        -0x3fff_ffff_ffff_ffff_8000_0000_0000_0000 <= a.num * b.den <= 0x3fff_ffff_ffff_ffff_8000_0000_0000_0000,
        -0x3fff_ffff_ffff_ffff_8000_0000_0000_0000 <= b.num * a.den <= 0x3fff_ffff_ffff_ffff_8000_0000_0000_0000,
{
    lemma_scaled_bound(a.num as int, b.den as int);
    lemma_scaled_bound(b.num as int, a.den as int);
}

proof fn lemma_scaled_bound(x: int, y: int)
    requires
        fits(x),
        0 < y <= i64::MAX,
    ensures
        -0x3fff_ffff_ffff_ffff_8000_0000_0000_0000 <= x * y <= 0x3fff_ffff_ffff_ffff_8000_0000_0000_0000,
{
    assert(-0x3fff_ffff_ffff_ffff_8000_0000_0000_0000 <= x * y <= 0x3fff_ffff_ffff_ffff_8000_0000_0000_0000)
        by (nonlinear_arith)
        requires
            -0x8000_0000_0000_0000 <= x <= 0x8000_0000_0000_0000,
            0 < y <= 0x7fff_ffff_ffff_ffff,
    ;
}

/// `p / q` as a number, where both fit in 64 bits.
fn narrow(p: i128, q: i128) -> (r: Result<Num, ArithError>)
    ensures
        r == exact(p as int, q as int),
{
    if p < i64::MIN as i128 || p > i64::MAX as i128 || q < i64::MIN as i128 || q > i64::MAX as i128 {
        Err(ArithError::Overflow)
    } else {
        Ok(Num { num: p as i64, den: q as i64 })
    }
}

impl Num {
    /// The denominator is positive.
    pub open spec fn wf(self) -> bool {
        self.den > 0
    }

    pub fn from_parts(num: i64, den: i64) -> (r: Num)
        requires
            den > 0,
        ensures
            r.num == num,
            r.den == den,
            r.wf(),
    {
        Num { num, den }
    }

    pub fn integer(n: i64) -> (r: Num)
        ensures
            r.num == n,
            r.den == 1,
    {
        Num { num: n, den: 1 }
    }

    pub fn add(self, b: Num) -> (r: Result<Num, ArithError>)
        requires
            self.wf(),
            b.wf(),
        ensures
            r == add_spec(self, b),
            r matches Ok(n) ==> n.wf(),
    {
        proof {
            lemma_products_fit(self, b);
            lemma_cross_products_fit(self, b);
            assert(self.den * b.den > 0) by (nonlinear_arith)
                requires
                    self.den > 0,
                    b.den > 0,
            ;
        }
        narrow_lowest(self.num as i128 * b.den as i128 + b.num as i128 * self.den as i128, self.den as i128 * b.den as i128)
    }

    pub fn sub(self, b: Num) -> (r: Result<Num, ArithError>)
        requires
            self.wf(),
            b.wf(),
        ensures
            r == sub_spec(self, b),
            r matches Ok(n) ==> n.wf(),
    {
        proof {
            lemma_products_fit(self, b);
            lemma_cross_products_fit(self, b);
            assert(self.den * b.den > 0) by (nonlinear_arith)
                requires
                    self.den > 0,
                    b.den > 0,
            ;
        }
        narrow_lowest(self.num as i128 * b.den as i128 - b.num as i128 * self.den as i128, self.den as i128 * b.den as i128)
    }

    pub fn mul(self, b: Num) -> (r: Result<Num, ArithError>)
        requires
            self.wf(),
            b.wf(),
        ensures
            r == mul_spec(self, b),
            r matches Ok(n) ==> n.wf(),
    {
        proof {
            lemma_products_fit(self, b);
            assert(self.den * b.den > 0) by (nonlinear_arith)
                requires
                    self.den > 0,
                    b.den > 0,
            ;
        }
        narrow_lowest(self.num as i128 * b.num as i128, self.den as i128 * b.den as i128)
    }

    pub fn div(self, b: Num) -> (r: Result<Num, ArithError>)
        requires
            self.wf(),
            b.wf(),
        ensures
            r == div_spec(self, b),
            r matches Ok(n) ==> n.wf(),
    {
        if b.num == 0 {
            return Err(ArithError::DivisionByZero);
        }
        proof {
            lemma_products_fit(self, b);
            assert(b.num > 0 ==> self.den * b.num > 0) by (nonlinear_arith)
                requires
                    self.den > 0,
            ;
            assert(b.num < 0 ==> self.den * b.num < 0) by (nonlinear_arith)
                requires
                    self.den > 0,
            ;
        }
        let p = self.num as i128 * b.den as i128;
        let q = self.den as i128 * b.num as i128;
        if b.num > 0 {
            narrow_lowest(p, q)
        } else {
            narrow_lowest(-p, -q)
        }
    }

    /// The sign of `self - b`: -1, 0 or 1.
    pub fn compare(self, b: Num) -> (r: i8)
        requires
            self.wf(),
            b.wf(),
        ensures
            r as int == compare_spec(self, b),
    {
        proof {
            lemma_products_fit(self, b);
        }
        let l = self.num as i128 * b.den as i128;
        let r = b.num as i128 * self.den as i128;
        if l < r {
            -1
        } else if l == r {
            0
        } else {
            1
        }
    }

    pub fn abs(self) -> (r: Result<Num, ArithError>)
        requires
            self.wf(),
        ensures
            r == abs_spec(self),
            r matches Ok(n) ==> n.wf(),
    {
        if self.num == i64::MIN {
            Err(ArithError::Overflow)
        } else if self.num < 0 {
            Ok(Num { num: -self.num, den: self.den })
        } else {
            Ok(self)
        }
    }
}

} // verus!
