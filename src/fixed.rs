//! Fixed-point real numbers.
//!
//! A `Fixed` holds the real number `raw / SCALE`. Every operation is total:
//! results are rounded toward zero and then saturate at the bounds of `i64`,
//! which play the part of the infinities. Division by zero saturates with the
//! sign of the dividend (zero over zero is zero), and the square root of a
//! number that is not positive is zero. No operation panics.
use vstd::prelude::*;

verus! {

/// Number of raw units in one.
pub const SCALE: i64 = 1048576;

/// A real number held as `raw / SCALE`.
#[derive(Clone, Copy, Debug, PartialEq, Eq, Structural)]
pub struct Fixed {
    pub raw: i64,
}

/// Clips a mathematical integer to the range of `i64`.
pub open spec fn clip(v: int) -> i64 {
    if v > i64::MAX {
        i64::MAX
    } else if v < i64::MIN {
        i64::MIN
    } else {
        v as i64
    }
}

pub open spec fn mag(v: int) -> int {
    if v < 0 {
        -v
    } else {
        v
    }
}

/// The quotient `n / d` rounded toward zero.
pub open spec fn div_trunc(n: int, d: int) -> int {
    if (n >= 0) == (d > 0) {
        mag(n) / mag(d)
    } else {
        -(mag(n) / mag(d))
    }
}

/// `r` is the integer square root of `n`.
pub open spec fn is_isqrt(r: int, n: int) -> bool {
    0 <= r && r * r <= n && n < (r + 1) * (r + 1)
}

/// The integer square root of `n`, rounded down.
pub open spec fn isqrt(n: int) -> int {
    choose|r: int| is_isqrt(r, n)
}

/// The number one.
pub open spec fn one() -> Fixed {
    Fixed { raw: SCALE }
}

/// The number zero.
pub open spec fn zero() -> Fixed {
    Fixed { raw: 0 }
}

impl Fixed {
    pub open spec fn of(raw: int) -> Fixed {
        Fixed { raw: clip(raw) }
    }

    pub open spec fn plus(self, o: Fixed) -> Fixed {
        Fixed::of(self.raw + o.raw)
    }

    pub open spec fn minus(self, o: Fixed) -> Fixed {
        Fixed::of(self.raw - o.raw)
    }

    pub open spec fn negated(self) -> Fixed {
        Fixed::of(-self.raw)
    }

    pub open spec fn times(self, o: Fixed) -> Fixed {
        Fixed::of(div_trunc(self.raw * o.raw, SCALE as int))
    }

    pub open spec fn over(self, o: Fixed) -> Fixed {
        if o.raw == 0 {
            if self.raw > 0 {
                Fixed { raw: i64::MAX }
            } else if self.raw < 0 {
                Fixed { raw: i64::MIN }
            } else {
                Fixed { raw: 0 }
            }
        } else {
            Fixed::of(div_trunc(self.raw * SCALE, o.raw as int))
        }
    }

    pub open spec fn root(self) -> Fixed {
        if self.raw <= 0 {
            Fixed { raw: 0 }
        } else {
            Fixed { raw: isqrt(self.raw * SCALE) as i64 }
        }
    }

    /// `self` raised to the power `n`, by repeated squaring.
    pub open spec fn power(self, n: nat) -> Fixed
        decreases n,
    {
        if n == 0 {
            Fixed { raw: SCALE }
        } else {
            let h = self.power(n / 2);
            if n % 2 == 0 {
                h.times(h)
            } else {
                h.times(h).times(self)
            }
        }
    }

    /// `self` clipped to the interval `[0, 1]`.
    pub open spec fn unit_clamped(self) -> Fixed {
        if self.raw < 0 {
            Fixed { raw: 0 }
        } else if self.raw > SCALE {
            Fixed { raw: SCALE }
        } else {
            self
        }
    }

    pub open spec fn int_value(n: int) -> Fixed {
        Fixed::of(n * SCALE)
    }

    /// The number whose raw representation is `raw`.
    pub fn from_raw(raw: i64) -> (r: Fixed)
        ensures
            r.raw == raw,
    {
        Fixed { raw }
    }

    /// The integer `n`, saturated.
    pub fn from_int(n: i64) -> (r: Fixed)
        ensures
            r == Fixed::int_value(n as int),
    {
        proof {
            lemma_product_bound(n as int, SCALE as int);
        }
        Fixed { raw: clip_wide(n as i128 * SCALE as i128) }
    }

    /// The fraction `num / den`.
    pub fn from_ratio(num: i64, den: i64) -> (r: Fixed)
        ensures
            r == Fixed::int_value(num as int).over(Fixed::int_value(den as int)),
    {
        Fixed::from_int(num) / Fixed::from_int(den)
    }

    /// The square root, rounded down; zero where `self` is not positive.
    pub fn sqrt(self) -> (r: Fixed)
        ensures
            r == self.root(),
    {
        if self.raw <= 0 {
            Fixed { raw: 0 }
        } else {
            let n: u128 = self.raw as u128 * SCALE as u128;
            assert(n <= 0x8_0000_0000_0000_0000_0000) by (nonlinear_arith)
                requires
                    n == self.raw * SCALE,
                    self.raw <= i64::MAX,
                    SCALE == 1048576,
            ;
            let r = isqrt_exec(n);
            proof {
                lemma_isqrt_unique(r as int, n as int);
            }
            Fixed { raw: r as i64 }
        }
    }

    /// `self` raised to the power `n`.
    pub fn pow(self, n: u32) -> (r: Fixed)
        ensures
            r == self.power(n as nat),
        decreases n,
    {
        if n == 0 {
            Fixed { raw: SCALE }
        } else {
            let h = self.pow(n / 2);
            if n % 2 == 0 {
                h * h
            } else {
                h * h * self
            }
        }
    }
}

proof fn lemma_square_monotone(a: int, b: int)
    requires
        0 <= a <= b,
    ensures
        a * a <= b * b,
{
    assert(a * a <= b * b) by (nonlinear_arith)
        requires
            0 <= a <= b,
    ;
}

/// There is one integer square root.
proof fn lemma_isqrt_unique(r: int, n: int)
    requires
        is_isqrt(r, n),
    ensures
        isqrt(n) == r,
{
    let s = isqrt(n);
    assert(is_isqrt(s, n));
    if s < r {
        lemma_square_monotone(s + 1, r);
    } else if r < s {
        lemma_square_monotone(r + 1, s);
    }
}

/// Every natural number has an integer square root.
proof fn lemma_isqrt_exists(n: int)
    requires
        n >= 0,
    ensures
        is_isqrt(isqrt(n), n),
    decreases n,
{
    if n == 0 {
        lemma_isqrt_unique(0, 0);
    } else {
        lemma_isqrt_exists(n - 1);
        let r = isqrt(n - 1);
        if (r + 1) * (r + 1) <= n {
            assert(n < (r + 2) * (r + 2)) by (nonlinear_arith)
                requires
                    n - 1 < (r + 1) * (r + 1),
                    r >= 0,
            ;
            lemma_isqrt_unique(r + 1, n);
        } else {
            lemma_isqrt_unique(r, n);
        }
    }
}

/// The square root of a positive number whose raw value times `SCALE` is at
/// most `m * m` is at most `m` in raw units.
pub(crate) proof fn lemma_root_bounded(f: Fixed, m: int)
    requires
        f.raw > 0,
        0 <= m <= i64::MAX,
        f.raw * SCALE <= m * m,
    ensures
        0 <= f.root().raw <= m,
{
    let n = f.raw * SCALE;
    lemma_isqrt_exists(n);
    let r = isqrt(n);
    if r > m {
        lemma_square_monotone(m + 1, r);
        lemma_square_monotone(m, m + 1);
        assert((m + 1) * (m + 1) > m * m) by (nonlinear_arith)
            requires
                m >= 0,
        ;
    }
}

/// A product of two numbers that are not negative is not negative.
pub(crate) proof fn lemma_times_nonneg(a: Fixed, b: Fixed)
    requires
        a.raw >= 0,
        b.raw >= 0,
    ensures
        a.times(b).raw >= 0,
{
    assert(a.raw * b.raw >= 0) by (nonlinear_arith)
        requires
            a.raw >= 0,
            b.raw >= 0,
    ;
    vstd::arithmetic::div_mod::lemma_div_pos_is_pos(a.raw * b.raw, SCALE as int);
}

/// A square is not negative, and rounding it down loses nothing upward:
/// `(b * b).raw * SCALE <= b.raw * b.raw`.
pub(crate) proof fn lemma_square_below(b: Fixed)
    ensures
        b.times(b).raw >= 0,
        b.times(b).raw * SCALE <= b.raw * b.raw,
{
    let x = b.raw * b.raw;
    assert(x >= 0) by (nonlinear_arith)
        requires
            x == b.raw * b.raw,
    ;
    vstd::arithmetic::div_mod::lemma_div_pos_is_pos(x, SCALE as int);
    vstd::arithmetic::div_mod::lemma_fundamental_div_mod(x, SCALE as int);
    vstd::arithmetic::div_mod::lemma_mod_pos_bound(x, SCALE as int);
}

fn isqrt_exec(n: u128) -> (r: u64)
    requires
        n <= 0x8_0000_0000_0000_0000_0000,
    ensures
        is_isqrt(r as int, n as int),
        r < 0x400_0000_0000,
{
    let mut lo: u128 = 0;
    let mut hi: u128 = 0x400_0000_0000;
    assert(n < hi * hi) by (nonlinear_arith)
        requires
            hi == 0x400_0000_0000,
            n <= 0x8_0000_0000_0000_0000_0000,
    ;
    while hi - lo > 1
        invariant
            lo < hi <= 0x400_0000_0000,
            lo * lo <= n,
            n < hi * hi,
        decreases hi - lo,
    {
        let mid: u128 = lo + (hi - lo) / 2;
        assert(mid * mid < 0x1000_0000_0000_0000_0000_0000) by (nonlinear_arith)
            requires
                mid < 0x400_0000_0000,
        ;
        if mid * mid <= n {
            lo = mid;
        } else {
            hi = mid;
        }
    }
    lo as u64
}

fn clip_wide(v: i128) -> (r: i64)
    ensures
        r == clip(v as int),
{
    if v > i64::MAX as i128 {
        i64::MAX
    } else if v < i64::MIN as i128 {
        i64::MIN
    } else {
        v as i64
    }
}

/// The quotient `n / d` rounded toward zero.
fn div_toward_zero(n: i128, d: i128) -> (q: i128)
    requires
        d != 0,
        n > i128::MIN,
        d > i128::MIN,
    ensures
        q == div_trunc(n as int, d as int),
{
    let nm: u128 = if n < 0 {
        (-n) as u128
    } else {
        n as u128
    };
    let dm: u128 = if d < 0 {
        (-d) as u128
    } else {
        d as u128
    };
    let qm: u128 = nm / dm;
    proof {
        vstd::arithmetic::div_mod::lemma_div_nonincreasing(nm as int, dm as int);
    }
    if (n >= 0) == (d > 0) {
        qm as i128
    } else {
        -(qm as i128)
    }
}

proof fn lemma_product_bound(a: int, b: int)
    requires
        i64::MIN <= a <= i64::MAX,
        i64::MIN <= b <= i64::MAX,
    ensures
        -0x4000_0000_0000_0000_0000_0000_0000_0000 <= a * b <= 0x4000_0000_0000_0000_0000_0000_0000_0000,
{
    assert(-0x4000_0000_0000_0000_0000_0000_0000_0000 <= a * b <= 0x4000_0000_0000_0000_0000_0000_0000_0000)
        by (nonlinear_arith)
        requires
            -0x8000_0000_0000_0000 <= a <= 0x8000_0000_0000_0000,
            -0x8000_0000_0000_0000 <= b <= 0x8000_0000_0000_0000,
    ;
}

impl core::ops::Add for Fixed {
    type Output = Fixed;

    fn add(self, o: Fixed) -> (r: Fixed) {
        Fixed { raw: clip_wide(self.raw as i128 + o.raw as i128) }
    }
}

impl vstd::std_specs::ops::AddSpecImpl for Fixed {
    open spec fn obeys_add_spec() -> bool {
        true
    }

    open spec fn add_req(self, o: Fixed) -> bool {
        true
    }

    open spec fn add_spec(self, o: Fixed) -> Fixed {
        self.plus(o)
    }
}

impl core::ops::Sub for Fixed {
    type Output = Fixed;

    fn sub(self, o: Fixed) -> (r: Fixed) {
        Fixed { raw: clip_wide(self.raw as i128 - o.raw as i128) }
    }
}

impl vstd::std_specs::ops::SubSpecImpl for Fixed {
    open spec fn obeys_sub_spec() -> bool {
        true
    }

    open spec fn sub_req(self, o: Fixed) -> bool {
        true
    }

    open spec fn sub_spec(self, o: Fixed) -> Fixed {
        self.minus(o)
    }
}

impl core::ops::Neg for Fixed {
    type Output = Fixed;

    fn neg(self) -> (r: Fixed) {
        Fixed { raw: clip_wide(-(self.raw as i128)) }
    }
}

impl vstd::std_specs::ops::NegSpecImpl for Fixed {
    open spec fn obeys_neg_spec() -> bool {
        true
    }

    open spec fn neg_req(self) -> bool {
        true
    }

    open spec fn neg_spec(self) -> Fixed {
        self.negated()
    }
}

impl core::ops::Mul for Fixed {
    type Output = Fixed;

    fn mul(self, o: Fixed) -> (r: Fixed) {
        proof {
            lemma_product_bound(self.raw as int, o.raw as int);
        }
        let p: i128 = self.raw as i128 * o.raw as i128;
        Fixed { raw: clip_wide(div_toward_zero(p, SCALE as i128)) }
    }
}

impl vstd::std_specs::ops::MulSpecImpl for Fixed {
    open spec fn obeys_mul_spec() -> bool {
        true
    }

    open spec fn mul_req(self, o: Fixed) -> bool {
        true
    }

    open spec fn mul_spec(self, o: Fixed) -> Fixed {
        self.times(o)
    }
}

impl core::ops::Div for Fixed {
    type Output = Fixed;

    fn div(self, o: Fixed) -> (r: Fixed) {
        if o.raw == 0 {
            if self.raw > 0 {
                Fixed { raw: i64::MAX }
            } else if self.raw < 0 {
                Fixed { raw: i64::MIN }
            } else {
                Fixed { raw: 0 }
            }
        } else {
            proof {
                lemma_product_bound(self.raw as int, SCALE as int);
            }
            let p: i128 = self.raw as i128 * SCALE as i128;
            Fixed { raw: clip_wide(div_toward_zero(p, o.raw as i128)) }
        }
    }
}

impl vstd::std_specs::ops::DivSpecImpl for Fixed {
    open spec fn obeys_div_spec() -> bool {
        true
    }

    open spec fn div_req(self, o: Fixed) -> bool {
        true
    }

    open spec fn div_spec(self, o: Fixed) -> Fixed {
        self.over(o)
    }
}

} // verus!
