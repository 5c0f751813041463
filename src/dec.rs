//! Fixed point decimal numbers: an `i64` mantissa and a decimal exponent.
//!
//! `NP_Dec { num, exp }` stands for `num / 10^exp`. One value has many forms:
//! `2039.756` is `{num: 2039756, exp: 3}` and also `{num: 203975600, exp: 5}`.
//! A larger `exp` buys decimal places at the cost of range.
//!
//! Arithmetic between two decimals first rewrites the right operand for the
//! left operand's exponent, which drops digits when that exponent is the
//! smaller one. Align both operands first where that matters.
use vstd::prelude::*;
use vstd::arithmetic::div_mod::lemma_div_denominator;
use core::cmp::Ordering;

verus! {

/// `10` raised to `n`.
pub open spec fn pow10(n: nat) -> nat
    decreases n,
{
    if n == 0 {
        1
    } else {
        10 * pow10((n - 1) as nat)
    }
}

/// Integer division of `a` by a positive `d`, rounding toward zero.
pub open spec fn trunc_div(a: int, d: int) -> int {
    if a >= 0 {
        a / d
    } else {
        -((-a) / d)
    }
}

/// The mantissa that stands for `num / 10^from` at exponent `to`: scaled up
/// exactly, or scaled down with the dropped digits truncated.
pub open spec fn shifted(num: int, from: nat, to: nat) -> int {
    if to >= from {
        num * pow10((to - from) as nat)
    } else {
        trunc_div(num, pow10((from - to) as nat) as int)
    }
}

pub open spec fn fits_i64(v: int) -> bool {
    i64::MIN <= v <= i64::MAX
}

/// The three-way comparison of two integers.
pub open spec fn int_cmp(a: int, b: int) -> Ordering {
    if a < b {
        Ordering::Less
    } else if a == b {
        Ordering::Equal
    } else {
        Ordering::Greater
    }
}

/// A fixed point decimal: `num / 10^exp`.
#[derive(Clone, Copy, Debug)]
pub struct NP_Dec {
    /// The digits of the number, without the decimal point.
    pub num: i64,
    /// How many of those digits stand right of the decimal point.
    pub exp: u8,
}

impl NP_Dec {
    /// The mantissa of `other` rewritten for this value's exponent.
    pub open spec fn aligned(self, other: NP_Dec) -> int {
        shifted(other.num as int, other.exp as nat, self.exp as nat)
    }

    /// The two values are the same number: their mantissas agree once both
    /// are scaled up to the larger exponent.
    pub open spec fn same_value(self, other: NP_Dec) -> bool {
        let m: nat = if self.exp >= other.exp { self.exp as nat } else { other.exp as nat };
        self.num * pow10((m - self.exp) as nat) == other.num * pow10((m - other.exp) as nat)
    }

    /// Builds `num / 10^exp`.
    pub fn new(num: i64, exp: u8) -> (r: Self)
        ensures
            r.num == num,
            r.exp == exp,
    {
        NP_Dec { num, exp }
    }

    /// The mantissa and the exponent.
    pub fn export(&self) -> (r: (i64, u8))
        ensures
            r == (self.num, self.exp),
    {
        (self.num, self.exp)
    }

    /// Rewrites this value for exponent `new_exp` and returns the result.
    ///
    /// A larger exponent multiplies the mantissa, which must still fit an
    /// `i64`; a smaller one divides it, dropping digits toward zero.
    pub fn shift_exp(&mut self, new_exp: u8) -> (r: NP_Dec)
        requires
            fits_i64(shifted(old(self).num as int, old(self).exp as nat, new_exp as nat)),
        ensures
            final(self).num == shifted(old(self).num as int, old(self).exp as nat, new_exp as nat),
            final(self).exp == new_exp,
            r == *final(self),
    {
        let ghost orig = self.num as int;
        proof {
            lemma_pow10_zero(orig);
        }
        if self.exp == new_exp {
            return *self;
        }
        if self.exp < new_exp {
            let steps: u8 = new_exp - self.exp;
            let ghost total = steps as nat;
            let mut i: u8 = 0;
            while i < steps
                invariant
                    i <= steps,
                    self.num == orig * pow10(i as nat),
                    fits_i64(orig * pow10(total)),
                    total == steps,
                decreases steps - i,
            {
                proof {
                    lemma_pow10_mono((i + 1) as nat, total);
                    lemma_abs_mul_mono(orig, pow10((i + 1) as nat), pow10(total));
                    assert(orig * pow10((i + 1) as nat) == (orig * pow10(i as nat)) * 10) by (nonlinear_arith)
                        requires
                            pow10((i + 1) as nat) == 10 * pow10(i as nat),
                    ;
                }
                self.num = self.num * 10;
                i = i + 1;
            }
        } else {
            let steps: u8 = self.exp - new_exp;
            let mut i: u8 = 0;
            proof {
                assert(trunc_div(orig, 1) == orig);
            }
            while i < steps
                invariant
                    i <= steps,
                    self.num == trunc_div(orig, pow10(i as nat) as int),
                decreases steps - i,
            {
                proof {
                    lemma_pow10_positive(i as nat);
                    lemma_trunc_div_step(orig, pow10(i as nat) as int);
                }
                self.num = self.num / 10;
                i = i + 1;
            }
        }
        self.exp = new_exp;
        *self
    }

    /// A copy of `other` rewritten for this value's exponent.
    pub fn match_exp(&self, other: &NP_Dec) -> (r: NP_Dec)
        requires
            fits_i64(self.aligned(*other)),
        ensures
            r.num == self.aligned(*other),
            r.exp == self.exp,
    {
        let mut other_copy = *other;
        proof {
            lemma_pow10_zero(other.num as int);
        }
        if other_copy.exp == self.exp {
            return other_copy;
        }
        other_copy.shift_exp(self.exp);
        other_copy
    }

    /// Whether the two values are the same number.
    pub fn equals(&self, other: &NP_Dec) -> (r: bool)
        ensures
            r == self.same_value(*other),
    {
        if self.exp <= other.exp {
            let o = cmp_scaled(self.num, other.exp - self.exp, other.num);
            proof {
                lemma_pow10_zero(other.num as int);
            }
            matches!(o, Ordering::Equal)
        } else {
            let o = cmp_scaled(other.num, self.exp - other.exp, self.num);
            proof {
                lemma_pow10_zero(self.num as int);
            }
            matches!(o, Ordering::Equal)
        }
    }

    /// Compares this mantissa with `other`'s rewritten for this value's
    /// exponent.
    pub fn compare(&self, other: &NP_Dec) -> (r: Ordering)
        ensures
            r == int_cmp(self.num as int, self.aligned(*other)),
    {
        if self.exp >= other.exp {
            let o = cmp_scaled(other.num, self.exp - other.exp, self.num);
            match o {
                Ordering::Less => Ordering::Greater,
                Ordering::Equal => Ordering::Equal,
                Ordering::Greater => Ordering::Less,
            }
        } else {
            let mut o = *other;
            proof {
                lemma_pow10_positive((other.exp - self.exp) as nat);
                lemma_trunc_div_bound(other.num as int, pow10((other.exp - self.exp) as nat) as int);
            }
            o.shift_exp(self.exp);
            if self.num < o.num {
                Ordering::Less
            } else if self.num == o.num {
                Ordering::Equal
            } else {
                Ordering::Greater
            }
        }
    }
}

impl NP_Dec {
    /// The sum, at this value's exponent.
    pub fn add(self, other: NP_Dec) -> (r: NP_Dec)
        requires
            fits_i64(self.aligned(other)),
            fits_i64(self.num + self.aligned(other)),
        ensures
            r.num == self.num + self.aligned(other),
            r.exp == self.exp,
    {
        let o = self.match_exp(&other);
        NP_Dec { num: self.num + o.num, exp: self.exp }
    }

    /// The difference, at this value's exponent.
    pub fn sub(self, other: NP_Dec) -> (r: NP_Dec)
        requires
            fits_i64(self.aligned(other)),
            fits_i64(self.num - self.aligned(other)),
        ensures
            r.num == self.num - self.aligned(other),
            r.exp == self.exp,
    {
        let o = self.match_exp(&other);
        NP_Dec { num: self.num - o.num, exp: self.exp }
    }

    /// The product of the mantissas, at this value's exponent.
    pub fn mul(self, other: NP_Dec) -> (r: NP_Dec)
        requires
            fits_i64(self.aligned(other)),
            fits_i64(self.num * self.aligned(other)),
        ensures
            r.num == self.num * self.aligned(other),
            r.exp == self.exp,
    {
        let o = self.match_exp(&other);
        NP_Dec { num: self.num * o.num, exp: self.exp }
    }

    /// The truncated quotient of the mantissas, at this value's exponent.
    ///
    /// The mantissas are divided as they stand, so `1 / 2` at exponent `0`
    /// is `0`; scale the left operand first to keep digits.
    pub fn div(self, other: NP_Dec) -> (r: NP_Dec)
        requires
            fits_i64(self.aligned(other)),
            self.aligned(other) != 0,
            !(self.num == i64::MIN && self.aligned(other) == -1),
        ensures
            r.num == quotient(self.num as int, self.aligned(other)),
            r.exp == self.exp,
    {
        let o = self.match_exp(&other);
        let a = self.num;
        let b = o.num;
        let q: i64 = if b > 0 {
            a / b
        } else if b == i64::MIN {
            if a == i64::MIN {
                1
            } else {
                0
            }
        } else {
            let nb: i64 = -b;
            let q0 = a / nb;
            proof {
                let ai = a as int;
                let d = nb as int;
                if nb == 1 {
                    assert(a != i64::MIN);
                } else if ai >= 0 {
                    assert(q0 == ai / d);
                    assert(ai / d <= ai) by (nonlinear_arith)
                        requires
                            ai >= 0,
                            d >= 1,
                    ;
                } else {
                    assert(q0 == -((-ai) / d));
                    assert((-ai) / d <= (-ai) / 2) by (nonlinear_arith)
                        requires
                            -ai >= 0,
                            d >= 2,
                    ;
                }
            }
            -q0
        };
        proof {
            let ai = a as int;
            if b > 0 {
                if ai >= 0 {
                    assert(q == ai / (b as int));
                } else {
                    assert(q == -((-ai) / (b as int)));
                }
            } else if b == i64::MIN {
                let d = -(b as int);
                if a == i64::MIN {
                    assert((-ai) / d == 1);
                } else if ai >= 0 {
                    assert(ai / d == 0);
                } else {
                    assert((-ai) / d == 0);
                }
            }
        }
        NP_Dec { num: q, exp: self.exp }
    }

    /// Adds `other` in place.
    pub fn add_assign(&mut self, other: NP_Dec)
        requires
            fits_i64(old(self).aligned(other)),
            fits_i64(old(self).num + old(self).aligned(other)),
        ensures
            final(self).num == old(self).num + old(self).aligned(other),
            final(self).exp == old(self).exp,
    {
        *self = self.add(other);
    }

    /// Subtracts `other` in place.
    pub fn sub_assign(&mut self, other: NP_Dec)
        requires
            fits_i64(old(self).aligned(other)),
            fits_i64(old(self).num - old(self).aligned(other)),
        ensures
            final(self).num == old(self).num - old(self).aligned(other),
            final(self).exp == old(self).exp,
    {
        *self = self.sub(other);
    }

    /// Multiplies by `other` in place.
    pub fn mul_assign(&mut self, other: NP_Dec)
        requires
            fits_i64(old(self).aligned(other)),
            fits_i64(old(self).num * old(self).aligned(other)),
        ensures
            final(self).num == old(self).num * old(self).aligned(other),
            final(self).exp == old(self).exp,
    {
        *self = self.mul(other);
    }

    /// Divides by `other` in place.
    pub fn div_assign(&mut self, other: NP_Dec)
        requires
            fits_i64(old(self).aligned(other)),
            old(self).aligned(other) != 0,
            !(old(self).num == i64::MIN && old(self).aligned(other) == -1),
        ensures
            final(self).num == quotient(old(self).num as int, old(self).aligned(other)),
            final(self).exp == old(self).exp,
    {
        *self = self.div(other);
    }

    /// The whole part, with the fraction dropped toward zero.
    pub fn to_i64(&self) -> (r: i64)
        ensures
            r == trunc_div(self.num as int, pow10(self.exp as nat) as int),
    {
        let mut d = *self;
        proof {
            lemma_pow10_positive(self.exp as nat);
            lemma_trunc_div_bound(self.num as int, pow10(self.exp as nat) as int);
            lemma_pow10_zero(self.num as int);
        }
        d.shift_exp(0);
        d.num
    }

    /// The whole part, with the fraction dropped toward zero, cut to its
    /// low 32 bits as `as` does.
    pub fn to_i32(&self) -> (r: i32)
        ensures
            r == trunc_div(self.num as int, pow10(self.exp as nat) as int) as i32,
    {
        self.to_i64() as i32
    }

    /// The whole number `v`, at exponent `0`.
    pub fn from_i64(v: i64) -> (r: NP_Dec)
        ensures
            r.num == v,
            r.exp == 0,
    {
        NP_Dec::new(v, 0)
    }

    /// The whole number `v`, at exponent `0`.
    pub fn from_i32(v: i32) -> (r: NP_Dec)
        ensures
            r.num == v,
            r.exp == 0,
    {
        NP_Dec::new(v as i64, 0)
    }
}

/// Integer division rounding toward zero, for any nonzero divisor.
pub open spec fn quotient(a: int, b: int) -> int {
    if b > 0 {
        trunc_div(a, b)
    } else {
        -trunc_div(a, -b)
    }
}

impl Default for NP_Dec {
    fn default() -> (r: NP_Dec)
        ensures
            r.num == 0 && r.exp == 0,
    {
        NP_Dec::new(0, 0)
    }
}

/// Two decimals are equal when they are the same number once aligned to the
/// larger exponent.
impl PartialEq for NP_Dec {
    fn eq(&self, other: &NP_Dec) -> (r: bool) {
        self.equals(other)
    }
}

impl vstd::std_specs::cmp::PartialEqSpecImpl for NP_Dec {
    open spec fn obeys_eq_spec() -> bool {
        true
    }

    open spec fn eq_spec(&self, other: &NP_Dec) -> bool {
        self.same_value(*other)
    }
}

/// Ordering compares this mantissa with the other one rewritten for this
/// value's exponent.
impl PartialOrd for NP_Dec {
    fn partial_cmp(&self, other: &NP_Dec) -> (r: Option<Ordering>) {
        Some(self.compare(other))
    }
}

impl vstd::std_specs::cmp::PartialOrdSpecImpl for NP_Dec {
    open spec fn obeys_partial_cmp_spec() -> bool {
        true
    }

    open spec fn partial_cmp_spec(&self, other: &NP_Dec) -> Option<Ordering> {
        Some(int_cmp(self.num as int, self.aligned(*other)))
    }
}

/// Compares `x * 10^k` with `y` exactly, also where the product leaves the
/// range of `i64`.
fn cmp_scaled(x: i64, k: u8, y: i64) -> (r: Ordering)
    ensures
        r == int_cmp(x * pow10(k as nat), y as int),
{
    let mut cur: i64 = x;
    let mut i: u8 = 0;
    proof {
        lemma_pow10_zero(x as int);
    }
    while i < k
        invariant
            i <= k,
            cur == x * pow10(i as nat),
        decreases k - i,
    {
        proof {
            lemma_pow10_split(i as nat, (k - i) as nat);
            lemma_pow10_positive((k - i - 1) as nat);
            assert(pow10((k - i) as nat) == 10 * pow10((k - i - 1) as nat));
            assert(x * pow10(k as nat) == cur * pow10((k - i) as nat)) by (nonlinear_arith)
                requires
                    cur == x * pow10(i as nat),
                    pow10(k as nat) == pow10(i as nat) * pow10((k - i) as nat),
            ;
        }
        if cur > i64::MAX / 10 {
            proof {
                let p = pow10((k - i) as nat);
                assert(cur * p >= cur * 10) by (nonlinear_arith)
                    requires
                        cur > 0,
                        p >= 10,
                ;
            }
            return Ordering::Greater;
        }
        if cur < i64::MIN / 10 {
            proof {
                let p = pow10((k - i) as nat);
                assert(cur * p <= cur * 10) by (nonlinear_arith)
                    requires
                        cur < 0,
                        p >= 10,
                ;
            }
            return Ordering::Less;
        }
        proof {
            assert(x * pow10((i + 1) as nat) == cur * 10) by (nonlinear_arith)
                requires
                    cur == x * pow10(i as nat),
                    pow10((i + 1) as nat) == 10 * pow10(i as nat),
            ;
        }
        cur = cur * 10;
        i = i + 1;
    }
    if cur < y {
        Ordering::Less
    } else if cur == y {
        Ordering::Equal
    } else {
        Ordering::Greater
    }
}

pub proof fn lemma_pow10_zero(x: int)
    ensures
        pow10(0) == 1,
        x * pow10(0) == x,
        trunc_div(x, 1) == x,
{
    assert(pow10(0) == 1);
    assert(x * 1 == x);
}

pub proof fn lemma_pow10_positive(n: nat)
    ensures
        pow10(n) >= 1,
        n >= 1 ==> pow10(n) >= 10,
    decreases n,
{
    if n > 0 {
        lemma_pow10_positive((n - 1) as nat);
    }
}

pub proof fn lemma_pow10_mono(a: nat, b: nat)
    requires
        a <= b,
    ensures
        pow10(a) <= pow10(b),
    decreases b,
{
    if a < b {
        lemma_pow10_mono(a, (b - 1) as nat);
        lemma_pow10_positive((b - 1) as nat);
    }
}

pub proof fn lemma_pow10_split(a: nat, b: nat)
    ensures
        pow10(a + b) == pow10(a) * pow10(b),
    decreases a,
{
    if a > 0 {
        lemma_pow10_split((a - 1) as nat, b);
        let p = pow10((a - 1) as nat);
        let q = pow10(b);
        assert(((a + b) - 1) as nat == (a - 1 + b) as nat);
        assert(pow10(a + b) == 10 * pow10((a - 1 + b) as nat));
        assert(pow10(a) == 10 * p);
        assert(10 * (p * q) == (10 * p) * q) by (nonlinear_arith);
    } else {
        lemma_pow10_zero(pow10(b) as int);
        assert(a + b == b);
    }
}

proof fn lemma_abs_mul_mono(x: int, p: nat, q: nat)
    requires
        p <= q,
    ensures
        x >= 0 ==> 0 <= x * p <= x * q,
        x < 0 ==> x * q <= x * p <= 0,
{
    if x >= 0 {
        assert(0 <= x * p <= x * q) by (nonlinear_arith)
            requires
                x >= 0,
                p <= q,
        ;
    } else {
        assert(x * q <= x * p <= 0) by (nonlinear_arith)
            requires
                x < 0,
                p <= q,
        ;
    }
}

/// Truncating by `d` and then by `10` is truncating by `10 * d`.
proof fn lemma_trunc_div_step(a: int, d: int)
    requires
        d > 0,
    ensures
        trunc_div(trunc_div(a, d), 10) == trunc_div(a, d * 10),
{
    if a >= 0 {
        lemma_div_denominator(a, d, 10);
        assert(a / d >= 0) by (nonlinear_arith)
            requires
                a >= 0,
                d > 0,
        ;
    } else {
        lemma_div_denominator(-a, d, 10);
        assert((-a) / d >= 0) by (nonlinear_arith)
            requires
                -a >= 0,
                d > 0,
        ;
        if (-a) / d == 0 {
            assert((-a) / (d * 10) == 0);
        }
    }
}

/// Truncating division never moves away from zero.
pub proof fn lemma_trunc_div_bound(a: int, d: int)
    requires
        d >= 1,
    ensures
        a >= 0 ==> 0 <= trunc_div(a, d) <= a,
        a < 0 ==> a <= trunc_div(a, d) <= 0,
{
    if a >= 0 {
        assert(0 <= a / d <= a) by (nonlinear_arith)
            requires
                a >= 0,
                d >= 1,
        ;
    } else {
        assert(0 <= (-a) / d <= -a) by (nonlinear_arith)
            requires
                -a >= 0,
                d >= 1,
        ;
    }
}

} // verus!
