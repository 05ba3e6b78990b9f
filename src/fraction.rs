use vstd::prelude::*;
use vstd::arithmetic::div_mod::{lemma_fundamental_div_mod, lemma_fundamental_div_mod_converse};
use crate::errors::LendingError;

verus! {

/// The scaled representation of `1`: a fraction holds `value * 2^60` in its bits.
pub const FRACTION_ONE_SCALED: u128 = 0x1000_0000_0000_0000;

/// `2^60` as a mathematical integer.
pub open spec fn one_scaled() -> int {
    FRACTION_ONE_SCALED as int
}

/// Bits of the exact product of two fractions, rounded down.
pub open spec fn mul_bits(a: int, b: int) -> int {
    a * b / one_scaled()
}

/// Bits of the exact quotient of two fractions, rounded down.
pub open spec fn div_bits(a: int, b: int) -> int {
    a * one_scaled() / b
}

/// Bits of the fraction `p / 100`, rounded down.
pub open spec fn percent_bits(p: int) -> int {
    p * one_scaled() / 100
}

/// Bits of the fraction `b / 10_000`, rounded down.
pub open spec fn bps_bits(b: int) -> int {
    b * one_scaled() / 10_000
}

/// The integer part of a fraction.
pub open spec fn floor_of(a: int) -> int {
    a / one_scaled()
}

/// The smallest integer not below a fraction.
pub open spec fn ceil_of(a: int) -> int {
    (a + one_scaled() - 1) / one_scaled()
}

/// The nearest integer to a fraction, halves rounded up.
pub open spec fn round_of(a: int) -> int {
    (a + one_scaled() / 2) / one_scaled()
}

/// The outcome of a fallible computation on scaled values.
pub type Outcome = Result<int, LendingError>;

/// A scaled value, or an overflow when it does not fit in 128 bits.
pub open spec fn s_fit(x: int) -> Outcome {
    if 0 <= x <= u128::MAX {
        Ok(x)
    } else {
        Err(LendingError::MathOverflow)
    }
}

/// Checked sum; the first failure wins.
pub open spec fn s_add(a: Outcome, b: Outcome) -> Outcome {
    match a {
        Err(e) => Err(e),
        Ok(x) => match b {
            Err(e) => Err(e),
            Ok(y) => s_fit(x + y),
        },
    }
}

/// Checked difference; a negative result is an overflow.
pub open spec fn s_sub(a: Outcome, b: Outcome) -> Outcome {
    match a {
        Err(e) => Err(e),
        Ok(x) => match b {
            Err(e) => Err(e),
            Ok(y) => if x >= y {
                Ok(x - y)
            } else {
                Err(LendingError::MathOverflow)
            },
        },
    }
}

/// Checked product, rounded down.
pub open spec fn s_mul(a: Outcome, b: Outcome) -> Outcome {
    match a {
        Err(e) => Err(e),
        Ok(x) => match b {
            Err(e) => Err(e),
            Ok(y) => s_fit(mul_bits(x, y)),
        },
    }
}

/// Checked quotient, rounded down; a zero divisor is an overflow.
pub open spec fn s_div(a: Outcome, b: Outcome) -> Outcome {
    match a {
        Err(e) => Err(e),
        Ok(x) => match b {
            Err(e) => Err(e),
            Ok(y) => if y == 0 {
                Err(LendingError::MathOverflow)
            } else {
                s_fit(div_bits(x, y))
            },
        },
    }
}

/// The smaller value.
pub open spec fn s_min(a: Outcome, b: Outcome) -> Outcome {
    match a {
        Err(e) => Err(e),
        Ok(x) => match b {
            Err(e) => Err(e),
            Ok(y) => Ok(if x <= y { x } else { y }),
        },
    }
}

/// The larger value.
pub open spec fn s_max(a: Outcome, b: Outcome) -> Outcome {
    match a {
        Err(e) => Err(e),
        Ok(x) => match b {
            Err(e) => Err(e),
            Ok(y) => Ok(if x >= y { x } else { y }),
        },
    }
}

/// An integer result, or an integer overflow past `u64::MAX`.
pub open spec fn s_u64(x: int) -> Outcome {
    if x <= u64::MAX {
        Ok(x)
    } else {
        Err(LendingError::IntegerOverflow)
    }
}

/// The integer part as an amount.
pub open spec fn s_floor(a: Outcome) -> Outcome {
    match a {
        Err(e) => Err(e),
        Ok(x) => s_u64(floor_of(x)),
    }
}

/// The ceiling as an amount.
pub open spec fn s_ceil(a: Outcome) -> Outcome {
    match a {
        Err(e) => Err(e),
        Ok(x) => s_u64(ceil_of(x)),
    }
}

/// The rounded value as an amount.
pub open spec fn s_round(a: Outcome) -> Outcome {
    match a {
        Err(e) => Err(e),
        Ok(x) => s_u64(round_of(x)),
    }
}

/// Whether an executable fraction result is the outcome `s`.
pub open spec fn is_frac(r: Result<Fraction, LendingError>, s: Outcome) -> bool {
    match r {
        Ok(f) => s == Ok::<int, LendingError>(f.bits as int),
        Err(e) => s == Err::<int, LendingError>(e),
    }
}

/// Whether an executable amount result is the outcome `s`.
pub open spec fn is_amount(r: Result<u64, LendingError>, s: Outcome) -> bool {
    match r {
        Ok(v) => s == Ok::<int, LendingError>(v as int),
        Err(e) => s == Err::<int, LendingError>(e),
    }
}

/// The scaled value of a whole amount.
pub open spec fn whole(n: int) -> int {
    n * one_scaled()
}

/// A non-negative fixed-point number with 60 fractional bits. Every operation
/// is exact up to rounding toward zero and reports overflow instead of wrapping.
#[derive(Clone, Copy, Debug, PartialEq, Eq, Structural)]
pub struct Fraction {
    pub bits: u128,
}

proof fn lemma_expand(x: int, y: int, z: int, w: int)
    ensures
        (x + y) * (z + w) == x * z + x * w + y * z + y * w,
{
    assert((x + y) * (z + w) == x * z + x * w + y * z + y * w) by (nonlinear_arith);
}

proof fn lemma_mul3(x: int, y: int, z: int)
    ensures
        (x * y) * z == (y * z) * x,
        x * (y * z) == (y * z) * x,
        (x * y) * z == (y * x) * z,
{
    assert((x * y) * z == (y * z) * x) by (nonlinear_arith);
    assert(x * (y * z) == (y * z) * x) by (nonlinear_arith);
    assert((x * y) * z == (y * x) * z) by (nonlinear_arith);
}

proof fn lemma_mul4(x: int, y: int, z: int, w: int)
    ensures
        (x * y) * (z * w) == y * w * x * z,
{
    assert((x * y) * (z * w) == y * w * x * z) by (nonlinear_arith);
}

proof fn lemma_sum_times(p: int, q: int, r: int, s: int, d: int)
    ensures
        (p + q + r + s) * d == p * d + q * d + r * d + s * d,
{
    assert((p + q + r + s) * d == p * d + q * d + r * d + s * d) by (nonlinear_arith);
}

proof fn lemma_mul_split(a: int, b: int, d: int)
    requires
        0 <= a,
        0 <= b,
        0 < d,
    ensures
        a * b / d == (a / d) * (b / d) * d + (a / d) * (b % d) + (a % d) * (b / d) + (a % d) * (b
            % d) / d,
        0 <= (a % d) * (b % d) < d * d,
        0 <= a / d,
        0 <= b / d,
{
    let qa = a / d;
    let ra = a % d;
    let qb = b / d;
    let rb = b % d;
    lemma_fundamental_div_mod(a, d);
    lemma_fundamental_div_mod(b, d);
    let s = ra * rb;
    assert(0 <= ra < d && 0 <= rb < d);
    assert(0 <= s < d * d) by (nonlinear_arith)
        requires
            s == ra * rb,
            0 <= ra < d,
            0 <= rb < d,
    ;
    lemma_fundamental_div_mod(s, d);
    let q0 = s / d;
    let r0 = s % d;
    assert(0 <= qa && 0 <= qb) by {
        vstd::arithmetic::div_mod::lemma_div_pos_is_pos(a, d);
        vstd::arithmetic::div_mod::lemma_div_pos_is_pos(b, d);
    }
    assert(a * b == (d * qa + ra) * (d * qb + rb));
    lemma_expand(d * qa, ra, d * qb, rb);
    lemma_mul4(d, qa, d, qb);
    assert((d * qa) * rb == (qa * rb) * d) by (nonlinear_arith);
    assert(ra * (d * qb) == (ra * qb) * d) by (nonlinear_arith);
    lemma_sum_times(qa * qb * d, qa * rb, ra * qb, q0, d);
    assert(d * q0 == q0 * d) by (nonlinear_arith);
    lemma_fundamental_div_mod_converse(a * b, d, qa * qb * d + qa * rb + ra * qb + q0, r0);
}

proof fn lemma_div_split(a: int, b: int, d: int, q: int)
    requires
        0 <= a,
        0 < b,
        0 < d,
        q == (a % b) * d / b,
    ensures
        a * d / b == (a / b) * d + q,
{
    lemma_fundamental_div_mod(a, b);
    let qa = a / b;
    let ra = a % b;
    let s = ra * d;
    lemma_fundamental_div_mod(s, b);
    let r0 = s % b;
    assert(a * d == (b * qa + ra) * d);
    lemma_expand(b * qa, ra, d, 0);
    lemma_mul3(b, qa, d);
    lemma_expand(qa * d, q, b, 0);
    assert(b * q == q * b) by (nonlinear_arith);
    lemma_fundamental_div_mod_converse(a * d, b, qa * d + q, r0);
}

/// `floor(ra * 2^60 / b)` for `ra < b`, by binary long division.
fn scaled_quotient(ra: u128, b: u128) -> (q: u128)
    requires
        ra < b,
    ensures
        q as int == ra as int * one_scaled() / b as int,
        (q as int) < one_scaled(),
{
    let mut q: u128 = 0;
    let mut rem: u128 = ra;
    let mut pw: u128 = 1;
    let mut i: u32 = 0;
    assert(1u128 << 0u32 == 1u128) by (bit_vector);
    while i < 60
        invariant
            i <= 60,
            pw == 1u128 << i,
            rem < b,
            q < pw,
            ra as int * pw as int == q as int * b as int + rem as int,
        decreases 60 - i,
    {
        assert(pw * 2 == 1u128 << ((i + 1) as u32) && pw <= 0x800_0000_0000_0000) by (bit_vector)
            requires
                pw == 1u128 << i,
                i < 60,
        ;
        let ghost old_q = q as int;
        let ghost old_rem = rem as int;
        if rem >= b - rem {
            q = 2 * q + 1;
            rem = rem - (b - rem);
        } else {
            q = 2 * q;
            rem = rem * 2;
        }
        assert(ra as int * (pw as int * 2) == (ra as int * pw as int) * 2) by (nonlinear_arith);
        assert(ra as int * (pw as int * 2) == q as int * b as int + rem as int) by (nonlinear_arith)
            requires
                ra as int * pw as int == old_q * b as int + old_rem,
                (q == 2 * old_q + 1 && rem == 2 * old_rem - b) || (q == 2 * old_q && rem == 2
                    * old_rem),
        ;
        pw = pw * 2;
        i = i + 1;
    }
    assert(pw == FRACTION_ONE_SCALED) by (bit_vector)
        requires
            pw == 1u128 << i,
            i == 60,
    ;
    proof {
        lemma_fundamental_div_mod_converse(ra as int * one_scaled(), b as int, q as int, rem as int);
    }
    q
}

impl Fraction {
    /// The fraction `0`.
    pub fn zero() -> (r: Fraction)
        ensures
            r.bits == 0,
    {
        Fraction { bits: 0 }
    }

    /// The fraction `1`.
    pub fn one() -> (r: Fraction)
        ensures
            r.bits == one_scaled(),
    {
        Fraction { bits: FRACTION_ONE_SCALED }
    }

    /// A fraction from its raw scaled representation.
    pub fn from_bits(bits: u128) -> (r: Fraction)
        ensures
            r.bits == bits,
    {
        Fraction { bits }
    }

    /// The fraction equal to an integer amount.
    pub fn from_u64(n: u64) -> (r: Fraction)
        ensures
            r.bits == n as int * one_scaled(),
    {
        assert(n as int * one_scaled() <= u128::MAX) by (nonlinear_arith)
            requires
                n <= u64::MAX,
                one_scaled() == 0x1000_0000_0000_0000int,
        ;
        Fraction { bits: (n as u128) * FRACTION_ONE_SCALED }
    }

    /// The fraction `p / 100`.
    pub fn from_percent(p: u64) -> (r: Fraction)
        ensures
            r.bits == percent_bits(p as int),
    {
        assert(p as int * one_scaled() <= u128::MAX) by (nonlinear_arith)
            requires
                p <= u64::MAX,
                one_scaled() == 0x1000_0000_0000_0000int,
        ;
        Fraction { bits: (p as u128) * FRACTION_ONE_SCALED / 100 }
    }

    /// The fraction `b / 10_000`.
    pub fn from_bps(b: u64) -> (r: Fraction)
        ensures
            r.bits == bps_bits(b as int),
    {
        assert(b as int * one_scaled() <= u128::MAX) by (nonlinear_arith)
            requires
                b <= u64::MAX,
                one_scaled() == 0x1000_0000_0000_0000int,
        ;
        Fraction { bits: (b as u128) * FRACTION_ONE_SCALED / 10_000 }
    }

    /// Exact sum.
    pub fn add(self, other: Fraction) -> (r: Result<Fraction, LendingError>)
        ensures
            match r {
                Ok(f) => f.bits == self.bits + other.bits,
                Err(e) => e == LendingError::MathOverflow && self.bits + other.bits > u128::MAX,
            },
            is_frac(r, s_add(Ok(self.bits as int), Ok(other.bits as int))),
    {
        match self.bits.checked_add(other.bits) {
            Some(bits) => Ok(Fraction { bits }),
            None => Err(LendingError::MathOverflow),
        }
    }

    /// Exact difference; fails when `other` is larger.
    pub fn sub(self, other: Fraction) -> (r: Result<Fraction, LendingError>)
        ensures
            match r {
                Ok(f) => f.bits == self.bits - other.bits,
                Err(e) => e == LendingError::MathOverflow && self.bits < other.bits,
            },
            is_frac(r, s_sub(Ok(self.bits as int), Ok(other.bits as int))),
    {
        if other.bits > self.bits {
            Err(LendingError::MathOverflow)
        } else {
            Ok(Fraction { bits: self.bits - other.bits })
        }
    }

    /// Difference clamped at zero.
    pub fn saturating_sub(self, other: Fraction) -> (r: Fraction)
        ensures
            r.bits == if self.bits >= other.bits {
                self.bits - other.bits
            } else {
                0
            },
    {
        if other.bits > self.bits {
            Fraction { bits: 0 }
        } else {
            Fraction { bits: self.bits - other.bits }
        }
    }

    /// Product, rounded down.
    pub fn mul(self, other: Fraction) -> (r: Result<Fraction, LendingError>)
        ensures
            match r {
                Ok(f) => f.bits == mul_bits(self.bits as int, other.bits as int),
                Err(e) => e == LendingError::MathOverflow && mul_bits(
                    self.bits as int,
                    other.bits as int,
                ) > u128::MAX,
            },
            is_frac(r, s_mul(Ok(self.bits as int), Ok(other.bits as int))),
    {
        let a = self.bits;
        let b = other.bits;
        let qa = a / FRACTION_ONE_SCALED;
        let ra = a % FRACTION_ONE_SCALED;
        let qb = b / FRACTION_ONE_SCALED;
        let rb = b % FRACTION_ONE_SCALED;
        proof {
            lemma_mul_split(a as int, b as int, one_scaled());
        }
        let ghost total = mul_bits(a as int, b as int);
        assert(one_scaled() * one_scaled() <= u128::MAX) by (nonlinear_arith)
            requires
                one_scaled() == 0x1000_0000_0000_0000int,
        ;
        let low = (ra * rb) / FRACTION_ONE_SCALED;
        let t1 = match qa.checked_mul(qb) {
            Some(v) => v,
            None => {
                assert(qa as int * qb as int <= qa as int * qb as int * one_scaled())
                    by (nonlinear_arith)
                    requires
                        qa >= 0,
                        qb >= 0,
                        one_scaled() >= 1,
                ;
                assert(qa as int * rb as int >= 0 && ra as int * qb as int >= 0 && low >= 0)
                    by (nonlinear_arith)
                    requires
                        qa >= 0,
                        qb >= 0,
                        ra >= 0,
                        rb >= 0,
                ;
                return Err(LendingError::MathOverflow);
            },
        };
        assert(qa as int * rb as int >= 0 && ra as int * qb as int >= 0) by (nonlinear_arith)
            requires
                qa >= 0,
                qb >= 0,
                ra >= 0,
                rb >= 0,
        ;
        let t1 = match t1.checked_mul(FRACTION_ONE_SCALED) {
            Some(v) => v,
            None => return Err(LendingError::MathOverflow),
        };
        let t2 = match qa.checked_mul(rb) {
            Some(v) => v,
            None => return Err(LendingError::MathOverflow),
        };
        let t3 = match ra.checked_mul(qb) {
            Some(v) => v,
            None => return Err(LendingError::MathOverflow),
        };
        let s = match t1.checked_add(t2) {
            Some(v) => v,
            None => return Err(LendingError::MathOverflow),
        };
        let s = match s.checked_add(t3) {
            Some(v) => v,
            None => return Err(LendingError::MathOverflow),
        };
        match s.checked_add(low) {
            Some(v) => Ok(Fraction { bits: v }),
            None => Err(LendingError::MathOverflow),
        }
    }

    /// Quotient, rounded down; dividing by zero is an overflow.
    pub fn div(self, other: Fraction) -> (r: Result<Fraction, LendingError>)
        ensures
            match r {
                Ok(f) => other.bits != 0 && f.bits == div_bits(self.bits as int, other.bits as int),
                Err(e) => e == LendingError::MathOverflow && (other.bits == 0 || div_bits(
                    self.bits as int,
                    other.bits as int,
                ) > u128::MAX),
            },
            is_frac(r, s_div(Ok(self.bits as int), Ok(other.bits as int))),
    {
        let a = self.bits;
        let b = other.bits;
        if b == 0 {
            return Err(LendingError::MathOverflow);
        }
        let qa = a / b;
        let ra = a % b;
        let q = scaled_quotient(ra, b);
        proof {
            lemma_div_split(a as int, b as int, one_scaled(), q as int);
        }
        let t = match qa.checked_mul(FRACTION_ONE_SCALED) {
            Some(v) => v,
            None => return Err(LendingError::MathOverflow),
        };
        match t.checked_add(q) {
            Some(v) => Ok(Fraction { bits: v }),
            None => Err(LendingError::MathOverflow),
        }
    }

    /// Product with an integer; exact.
    pub fn mul_int(self, n: u64) -> (r: Result<Fraction, LendingError>)
        ensures
            match r {
                Ok(f) => f.bits == self.bits * n,
                Err(e) => e == LendingError::MathOverflow && self.bits * n > u128::MAX,
            },
    {
        match self.bits.checked_mul(n as u128) {
            Some(bits) => Ok(Fraction { bits }),
            None => Err(LendingError::MathOverflow),
        }
    }

    /// Quotient by a positive integer, rounded down.
    pub fn div_int(self, n: u64) -> (r: Fraction)
        requires
            n > 0,
        ensures
            r.bits == self.bits as int / n as int,
    {
        Fraction { bits: self.bits / (n as u128) }
    }

    /// The integer part.
    pub fn to_floor(self) -> (r: Result<u64, LendingError>)
        ensures
            match r {
                Ok(v) => v == floor_of(self.bits as int),
                Err(e) => e == LendingError::IntegerOverflow && floor_of(self.bits as int)
                    > u64::MAX,
            },
            is_amount(r, s_floor(Ok(self.bits as int))),
    {
        let v = self.bits / FRACTION_ONE_SCALED;
        if v > u64::MAX as u128 {
            Err(LendingError::IntegerOverflow)
        } else {
            Ok(v as u64)
        }
    }

    /// The smallest integer not below the fraction.
    pub fn to_ceil(self) -> (r: Result<u64, LendingError>)
        ensures
            match r {
                Ok(v) => v == ceil_of(self.bits as int),
                Err(e) => e == LendingError::IntegerOverflow && ceil_of(self.bits as int)
                    > u64::MAX,
            },
            is_amount(r, s_ceil(Ok(self.bits as int))),
    {
        let q = self.bits / FRACTION_ONE_SCALED;
        let v = if self.bits % FRACTION_ONE_SCALED == 0 {
            q
        } else {
            q + 1
        };
        proof {
            lemma_fundamental_div_mod(self.bits as int, one_scaled());
            let r = self.bits as int % one_scaled();
            if r == 0 {
                lemma_fundamental_div_mod_converse(
                    self.bits as int + one_scaled() - 1,
                    one_scaled(),
                    q as int,
                    one_scaled() - 1,
                );
            } else {
                lemma_fundamental_div_mod_converse(
                    self.bits as int + one_scaled() - 1,
                    one_scaled(),
                    q as int + 1,
                    r - 1,
                );
            }
        }
        if v > u64::MAX as u128 {
            Err(LendingError::IntegerOverflow)
        } else {
            Ok(v as u64)
        }
    }

    /// The nearest integer, halves rounded up.
    pub fn to_round(self) -> (r: Result<u64, LendingError>)
        ensures
            match r {
                Ok(v) => v == round_of(self.bits as int),
                Err(e) => e == LendingError::IntegerOverflow && round_of(self.bits as int)
                    > u64::MAX,
            },
            is_amount(r, s_round(Ok(self.bits as int))),
    {
        let q = self.bits / FRACTION_ONE_SCALED;
        let v = if self.bits % FRACTION_ONE_SCALED >= FRACTION_ONE_SCALED / 2 {
            q + 1
        } else {
            q
        };
        proof {
            lemma_fundamental_div_mod(self.bits as int, one_scaled());
            let r = self.bits as int % one_scaled();
            let h = one_scaled() / 2;
            if r >= h {
                lemma_fundamental_div_mod_converse(
                    self.bits as int + h,
                    one_scaled(),
                    q as int + 1,
                    r - h,
                );
            } else {
                lemma_fundamental_div_mod_converse(self.bits as int + h, one_scaled(), q as int, r + h);
            }
        }
        if v > u64::MAX as u128 {
            Err(LendingError::IntegerOverflow)
        } else {
            Ok(v as u64)
        }
    }

    /// The smaller of two fractions.
    pub fn min(self, other: Fraction) -> (r: Fraction)
        ensures
            r.bits == if self.bits <= other.bits {
                self.bits
            } else {
                other.bits
            },
    {
        if self.bits <= other.bits {
            self
        } else {
            other
        }
    }

    /// The larger of two fractions.
    pub fn max(self, other: Fraction) -> (r: Fraction)
        ensures
            r.bits == if self.bits >= other.bits {
                self.bits
            } else {
                other.bits
            },
    {
        if self.bits >= other.bits {
            self
        } else {
            other
        }
    }
}

} // verus!
