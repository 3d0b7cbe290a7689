//! Fixed-point scalar arithmetic.
//!
//! Every coordinate, color channel and ray parameter in this crate is a
//! `Fix`: a signed value held as an integer count of millionths.  All
//! operations are exact integer computations (multiplication and division
//! truncate toward zero, like hardware rounding toward zero), and every
//! result is saturated into the range `[-MAX_RAW, MAX_RAW]`, so the type is
//! closed under its own arithmetic and no operation can overflow or panic.

use vstd::arithmetic::div_mod::{lemma_div_by_multiple, lemma_fundamental_div_mod, lemma_mod_bound};
use vstd::prelude::*;

verus! {

/// Number of raw units in 1.0: values are counts of millionths.
pub const SCALE: i128 = 1_000_000;

/// Saturation bound on the raw representation (a quintillion millionths).
pub const MAX_RAW: i128 = 1_000_000_000_000_000_000;

/// Saturate an unbounded integer into the representable raw range.
pub open spec fn clip(x: int) -> int {
    if x > MAX_RAW {
        MAX_RAW as int
    } else if x < -MAX_RAW {
        -MAX_RAW as int
    } else {
        x
    }
}

/// Integer division truncating toward zero, as the hardware divides.
pub open spec fn tdiv(a: int, b: int) -> int
    recommends
        b != 0,
{
    if a >= 0 {
        a / b
    } else {
        -((-a) / b)
    }
}

/// Raw result of fixed-point multiplication.
pub open spec fn mul_raw(a: int, b: int) -> int {
    clip(tdiv(a * b, SCALE as int))
}

/// Raw result of fixed-point division.
pub open spec fn div_raw(a: int, b: int) -> int {
    if b == 0 {
        0
    } else {
        clip(tdiv(a * SCALE, b))
    }
}

/// Raw result of the fused multiply-add `x * y + z` with a single rounding.
pub open spec fn fma_raw(x: int, y: int, z: int) -> int {
    clip(tdiv(x * y + z * SCALE, SCALE as int))
}

/// Largest nonnegative integer whose square does not exceed `n`.
pub open spec fn sqrt_floor(n: int) -> int
    decreases n,
{
    if n <= 0 {
        0
    } else {
        let r = 2 * sqrt_floor(n / 4);
        if (r + 1) * (r + 1) <= n {
            r + 1
        } else {
            r
        }
    }
}

/// Raw result of the fixed-point square root (0 on negative input).
pub open spec fn sqrt_raw(a: int) -> int {
    if a <= 0 {
        0
    } else {
        sqrt_floor(a * SCALE)
    }
}

/// `sqrt_floor` is the floor of the square root.
pub proof fn lemma_sqrt_floor(n: int)
    ensures
        0 <= sqrt_floor(n),
        sqrt_floor(n) * sqrt_floor(n) <= n || n < 0,
        n < (sqrt_floor(n) + 1) * (sqrt_floor(n) + 1) || n < 0,
    decreases n,
{
    if n <= 0 {
    } else {
        let q = n / 4;
        lemma_sqrt_floor(q);
        let r0 = sqrt_floor(q);
        let r = 2 * r0;
        lemma_fundamental_div_mod(n as int, 4);
        lemma_mod_bound(n as int, 4);
        assert(4 * q <= n && n < 4 * q + 4);
        assert(r * r == 4 * (r0 * r0)) by (nonlinear_arith)
            requires r == 2 * r0;
        assert((r + 2) * (r + 2) == 4 * ((r0 + 1) * (r0 + 1))) by (nonlinear_arith)
            requires r == 2 * r0;
        assert(r * r <= n);
        assert(n < (r + 2) * (r + 2));
        let s = sqrt_floor(n);
        if (r + 1) * (r + 1) <= n {
            assert(s == r + 1);
            assert(s * s <= n);
            assert((s + 1) * (s + 1) == (r + 2) * (r + 2)) by (nonlinear_arith)
                requires s == r + 1;
            assert(n < (s + 1) * (s + 1));
        } else {
            assert(s == r);
            assert(s * s <= n);
            assert(n < (s + 1) * (s + 1));
        }
    }
}

/// Any nonnegative integer bracketed by the same pair of squares is `sqrt_floor`.
pub proof fn lemma_sqrt_unique(n: int, r: int)
    requires
        0 <= n,
        0 <= r,
        r * r <= n,
        n < (r + 1) * (r + 1),
    ensures
        r == sqrt_floor(n),
{
    let s = sqrt_floor(n);
    lemma_sqrt_floor(n);
    if r < s {
        assert((r + 1) * (r + 1) <= s * s) by {
            assert((r + 1) * (r + 1) <= (r + 1) * s) by (nonlinear_arith)
                requires r + 1 <= s, 0 <= r + 1;
            assert((r + 1) * s <= s * s) by (nonlinear_arith)
                requires r + 1 <= s, 0 <= s;
        }
    }
    if s < r {
        assert((s + 1) * (s + 1) <= r * r) by {
            assert((s + 1) * (s + 1) <= (s + 1) * r) by (nonlinear_arith)
                requires s + 1 <= r, 0 <= s + 1;
            assert((s + 1) * r <= r * r) by (nonlinear_arith)
                requires s + 1 <= r, 0 <= r;
        }
    }
}

/// Floor of the square root, by bisection.
fn isqrt_u128(n: u128) -> (r: u128)
    requires
        n <= 1_000_000_000_000_000_000_000_000u128,
    ensures
        r as int == sqrt_floor(n as int),
        r <= 1_000_000_000_000u128,
{
    let mut lo: u128 = 0;
    let mut hi: u128 = 1_000_000_000_001;
    proof {
        assert(hi * hi > 1_000_000_000_000_000_000_000_000) by (nonlinear_arith)
            requires hi == 1_000_000_000_001int;
    }
    while lo + 1 < hi
        invariant
            lo < hi,
            hi <= 1_000_000_000_001,
            lo * lo <= n,
            n < hi * hi,
        decreases hi - lo,
    {
        let mid = lo + (hi - lo) / 2;
        assert(lo < mid && mid < hi);
        proof {
            assert(mid * mid <= 1_000_000_000_001 * 1_000_000_000_001) by (nonlinear_arith)
                requires 0 <= mid <= 1_000_000_000_001int;
        }
        if mid * mid <= n {
            lo = mid;
        } else {
            hi = mid;
        }
    }
    proof {
        lemma_sqrt_unique(n as int, lo as int);
    }
    lo
}

/// A fixed-point scalar: `raw` millionths, always within `[-MAX_RAW, MAX_RAW]`.
#[derive(Clone, Copy, Debug, PartialEq, Eq, Structural)]
pub struct Fix {
    raw: i128,
}

impl View for Fix {
    type V = int;

    closed spec fn view(&self) -> int {
        self.raw as int
    }
}

impl Fix {
    #[verifier::type_invariant]
    spec fn bounded(self) -> bool {
        -MAX_RAW <= self.raw <= MAX_RAW
    }

    /// The raw count of millionths behind this value.
    pub fn to_micros(&self) -> (r: i64)
        ensures
            r as int == self@,
    {
        proof {
            use_type_invariant(self);
        }
        self.raw as i64
    }

    /// The value `m / 1_000_000`, saturated into range.
    pub fn from_micros(m: i64) -> (r: Fix)
        ensures
            r@ == clip(m as int),
    {
        if m > 0 && m as i128 > MAX_RAW {
            Fix { raw: MAX_RAW }
        } else if m < 0 && (m as i128) < -MAX_RAW {
            Fix { raw: -MAX_RAW }
        } else {
            Fix { raw: m as i128 }
        }
    }

    /// The integer `n` as a fixed-point value (always exact).
    pub fn from_int(n: i32) -> (r: Fix)
        ensures
            r@ == n * SCALE,
    {
        Fix { raw: (n as i128) * SCALE }
    }

    /// Zero.
    pub fn zero() -> (r: Fix)
        ensures
            r@ == 0,
    {
        Fix { raw: 0 }
    }

    /// One.
    pub fn one() -> (r: Fix)
        ensures
            r@ == SCALE,
    {
        Fix { raw: SCALE }
    }

    /// Saturating addition.
    pub fn add(self, other: Fix) -> (r: Fix)
        ensures
            r@ == clip(self@ + other@),
    {
        proof {
            use_type_invariant(&self);
            use_type_invariant(&other);
        }
        let s = self.raw + other.raw;
        Fix { raw: clip_exec(s) }
    }

    /// Saturating subtraction.
    pub fn sub(self, other: Fix) -> (r: Fix)
        ensures
            r@ == clip(self@ - other@),
    {
        proof {
            use_type_invariant(&self);
            use_type_invariant(&other);
        }
        let s = self.raw - other.raw;
        Fix { raw: clip_exec(s) }
    }

    /// Negation (exact: the range is symmetric).
    pub fn neg(self) -> (r: Fix)
        ensures
            r@ == -self@,
    {
        proof {
            use_type_invariant(&self);
        }
        Fix { raw: -self.raw }
    }

    /// Saturating multiplication, truncating toward zero.
    pub fn mul(self, other: Fix) -> (r: Fix)
        ensures
            r@ == mul_raw(self@, other@),
    {
        proof {
            use_type_invariant(&self);
            use_type_invariant(&other);
            lemma_product_bound(self.raw as int, other.raw as int, MAX_RAW as int);
        }
        let p = self.raw * other.raw;
        let q = p / SCALE;
        Fix { raw: clip_exec(q) }
    }

    /// Saturating division, truncating toward zero; the divisor must not be zero.
    pub fn div(self, other: Fix) -> (r: Fix)
        requires
            other@ != 0,
        ensures
            r@ == div_raw(self@, other@),
    {
        proof {
            use_type_invariant(&self);
            use_type_invariant(&other);
        }
        let p = self.raw * SCALE;
        let q = p / other.raw;
        proof {
            lemma_tdiv_bound(p as int, other.raw as int);
        }
        Fix { raw: clip_exec(q) }
    }

    /// Fused multiply-add `self * a + b` with a single truncation.
    pub fn mul_add(self, a: Fix, b: Fix) -> (r: Fix)
        ensures
            r@ == fma_raw(self@, a@, b@),
    {
        proof {
            use_type_invariant(&self);
            use_type_invariant(&a);
            use_type_invariant(&b);
            lemma_product_bound(self.raw as int, a.raw as int, MAX_RAW as int);
        }
        let p = self.raw * a.raw + b.raw * SCALE;
        let q = p / SCALE;
        Fix { raw: clip_exec(q) }
    }

    /// Square root, truncated toward zero; 0 on negative input.
    pub fn sqrt(self) -> (r: Fix)
        ensures
            r@ == sqrt_raw(self@),
    {
        proof {
            use_type_invariant(&self);
        }
        if self.raw <= 0 {
            Fix { raw: 0 }
        } else {
            let n = (self.raw as u128) * (SCALE as u128);
            let r = isqrt_u128(n);
            proof {
                lemma_sqrt_floor(n as int);
            }
            Fix { raw: r as i128 }
        }
    }

    /// Absolute value.
    pub fn abs(self) -> (r: Fix)
        ensures
            r@ == if self@ >= 0 { self@ } else { -self@ },
    {
        proof {
            use_type_invariant(&self);
        }
        if self.raw < 0 {
            Fix { raw: -self.raw }
        } else {
            self
        }
    }

    /// Exact-zero test.
    pub fn is_zero(&self) -> (r: bool)
        ensures
            r == (self@ == 0),
    {
        self.raw == 0
    }

    /// Strictly less.
    pub fn lt(self, other: Fix) -> (r: bool)
        ensures
            r == (self@ < other@),
    {
        self.raw < other.raw
    }

    /// Less or equal.
    pub fn le(self, other: Fix) -> (r: bool)
        ensures
            r == (self@ <= other@),
    {
        self.raw <= other.raw
    }

    /// The smaller of the two values.
    pub fn min_with(self, other: Fix) -> (r: Fix)
        ensures
            r@ == if self@ <= other@ { self@ } else { other@ },
    {
        if self.raw <= other.raw {
            self
        } else {
            other
        }
    }

    /// The value forced into `[lo, hi]` (callers pass `lo <= hi`).
    pub fn clamp(self, lo: Fix, hi: Fix) -> (r: Fix)
        requires
            lo@ <= hi@,
        ensures
            r@ == if self@ < lo@ { lo@ } else if self@ > hi@ { hi@ } else { self@ },
    {
        if self.raw < lo.raw {
            lo
        } else if self.raw > hi.raw {
            hi
        } else {
            self
        }
    }
}

impl Default for Fix {
    /// Zero.
    fn default() -> (r: Fix)
        ensures
            r@ == 0,
    {
        Fix { raw: 0 }
    }
}

/// Dividing an exact multiple of the divisor truncates nothing.
pub proof fn lemma_tdiv_mult_exact(x: int, b: int)
    requires
        b > 0,
    ensures
        tdiv(x * b, b) == x,
{
    if x >= 0 {
        lemma_div_by_multiple(x, b);
        assert(x * b >= 0) by (nonlinear_arith)
            requires x >= 0, b > 0;
    } else {
        assert(-(x * b) == (-x) * b) by (nonlinear_arith);
        assert((-x) * b > 0) by (nonlinear_arith)
            requires -x > 0, b > 0;
        lemma_div_by_multiple(-x, b);
    }
}

/// Dividing an exact multiple of the scale truncates nothing.
pub proof fn lemma_tdiv_scale_exact(x: int)
    ensures
        tdiv(x * SCALE, SCALE as int) == x,
{
    lemma_tdiv_mult_exact(x, SCALE as int);
}

/// Truncating division flips sign with its dividend.
pub proof fn lemma_tdiv_neg_left(a: int, b: int)
    requires
        b > 0,
    ensures
        tdiv(-a, b) == -tdiv(a, b),
{
    if a == 0 {
    } else if a > 0 {
        assert(tdiv(-a, b) == -((a) / b));
    } else {
        assert(tdiv(a, b) == -((-a) / b));
    }
}

/// Truncating division flips sign with its divisor.
pub proof fn lemma_tdiv_neg_right(a: int, b: int)
    requires
        b != 0,
    ensures
        tdiv(a, -b) == -tdiv(a, b),
{
    if a >= 0 {
        if b > 0 {
            lemma_div_neg_divisor(a, -b);
        } else {
            lemma_div_neg_divisor(a, b);
        }
    } else {
        if b > 0 {
            lemma_div_neg_divisor(-a, -b);
        } else {
            lemma_div_neg_divisor(-a, b);
        }
    }
}

/// Saturation flips sign with its argument.
pub proof fn lemma_clip_neg(x: int)
    ensures
        clip(-x) == -clip(x),
{
}

/// Multiplication flips sign with either factor.
pub proof fn lemma_mul_raw_neg(a: int, b: int)
    ensures
        mul_raw(-a, b) == -mul_raw(a, b),
        mul_raw(a, -b) == -mul_raw(a, b),
{
    assert((-a) * b == -(a * b)) by (nonlinear_arith);
    assert(a * (-b) == -(a * b)) by (nonlinear_arith);
    lemma_tdiv_neg_left(a * b, SCALE as int);
    lemma_clip_neg(tdiv(a * b, SCALE as int));
}

/// Multiplying a representable value by one changes nothing.
pub proof fn lemma_mul_raw_one(x: int)
    requires
        -MAX_RAW <= x <= MAX_RAW,
    ensures
        mul_raw(x, SCALE as int) == x,
{
    lemma_tdiv_scale_exact(x);
}

/// Multiplication of exact multiples of the scale loses nothing.
pub proof fn lemma_mul_raw_ints(a: int, b: int)
    requires
        -1_000_000_000_000 <= a * b <= 1_000_000_000_000,
    ensures
        mul_raw(a * SCALE, b * SCALE) == (a * b) * SCALE,
{
    assert((a * SCALE) * (b * SCALE) == ((a * b) * SCALE) * SCALE) by (nonlinear_arith);
    lemma_tdiv_scale_exact((a * b) * SCALE);
    assert(-MAX_RAW <= (a * b) * SCALE <= MAX_RAW) by (nonlinear_arith)
        requires -1_000_000_000_000 <= a * b <= 1_000_000_000_000,
            SCALE == 1_000_000int, MAX_RAW == 1_000_000_000_000_000_000int;
}

/// The fused multiply-add of exact multiples of the scale loses nothing.
pub proof fn lemma_fma_raw_ints(a: int, b: int, c: int)
    requires
        -1_000_000_000_000 <= a * b + c <= 1_000_000_000_000,
    ensures
        fma_raw(a * SCALE, b * SCALE, c * SCALE) == (a * b + c) * SCALE,
{
    assert((a * SCALE) * (b * SCALE) + (c * SCALE) * SCALE == ((a * b + c) * SCALE) * SCALE)
        by (nonlinear_arith);
    lemma_tdiv_scale_exact((a * b + c) * SCALE);
    assert(-MAX_RAW <= (a * b + c) * SCALE <= MAX_RAW) by (nonlinear_arith)
        requires -1_000_000_000_000 <= a * b + c <= 1_000_000_000_000,
            SCALE == 1_000_000int, MAX_RAW == 1_000_000_000_000_000_000int;
}

/// The square root of an exact even power of the scale: integers map to
/// integers.
pub proof fn lemma_sqrt_raw_square(k: int)
    requires
        0 <= k <= 1_000_000,
    ensures
        sqrt_raw((k * k) * SCALE) == k * SCALE,
{
    if k == 0 {
        assert(sqrt_raw(0) == 0);
    } else {
        let n = ((k * k) * SCALE) * SCALE;
        assert(((k * k) * SCALE) * SCALE == (k * SCALE) * (k * SCALE)) by (nonlinear_arith);
        assert(k * SCALE > 0) by (nonlinear_arith)
            requires k > 0, SCALE > 0;
        assert((k * k) * SCALE > 0) by (nonlinear_arith)
            requires k > 0, SCALE > 0;
        assert(n >= 0) by (nonlinear_arith)
            requires n == (k * SCALE) * (k * SCALE);
        assert(n < (k * SCALE + 1) * (k * SCALE + 1)) by (nonlinear_arith)
            requires n == (k * SCALE) * (k * SCALE), k * SCALE > 0;
        lemma_sqrt_unique(n, k * SCALE);
    }
}

/// Dividing by the scale moves the value by less than one scale unit.
pub proof fn lemma_tdiv_scale_close(a: int)
    ensures
        abs_int(tdiv(a, SCALE as int) * SCALE - a) < SCALE,
{
    if a >= 0 {
        lemma_fundamental_div_mod(a, SCALE as int);
        lemma_mod_bound(a, SCALE as int);
        let q = a / (SCALE as int);
        assert(SCALE as int * q == q * SCALE) by (nonlinear_arith);
    } else {
        lemma_fundamental_div_mod(-a, SCALE as int);
        lemma_mod_bound(-a, SCALE as int);
        let q = (-a) / (SCALE as int);
        assert(SCALE as int * q == q * SCALE) by (nonlinear_arith);
        assert((-q) * SCALE == -(q * SCALE)) by (nonlinear_arith);
    }
}

/// Truncating division moves the value by less than one divisor.
pub proof fn lemma_tdiv_close(a: int, b: int)
    requires
        b > 0,
    ensures
        abs_int(tdiv(a, b) * b - a) < b,
{
    if a >= 0 {
        lemma_fundamental_div_mod(a, b);
        lemma_mod_bound(a, b);
        let q = a / b;
        assert(b * q == q * b) by (nonlinear_arith);
    } else {
        lemma_fundamental_div_mod(-a, b);
        lemma_mod_bound(-a, b);
        let q = (-a) / b;
        assert(b * q == q * b) by (nonlinear_arith);
        assert((-q) * b == -(q * b)) by (nonlinear_arith);
    }
}

/// The fused multiply-add lands within one scale unit of the exact
/// `x * y + z * SCALE`, for inputs that stay inside the representable
/// range.
pub proof fn lemma_fma_raw_close(x: int, y: int, z: int)
    requires
        abs_int(x * y + z * SCALE) <= 1_000_000_000_000_000_000_000_000,
    ensures
        abs_int(fma_raw(x, y, z) * SCALE - (x * y + z * SCALE)) < SCALE,
{
    let a = x * y + z * SCALE;
    lemma_tdiv_scale_close(a);
    lemma_no_clip_after_scale(a);
}

/// The product lands within one scale unit of the exact `a * b / SCALE`,
/// for inputs that stay inside the representable range.
pub proof fn lemma_mul_raw_close(a: int, b: int)
    requires
        abs_int(a * b) <= 1_000_000_000_000_000_000_000_000,
    ensures
        abs_int(mul_raw(a, b) * SCALE - a * b) < SCALE,
{
    let p = a * b;
    lemma_tdiv_scale_close(p);
    lemma_no_clip_after_scale(p);
}

/// A quotient that stays within one unit of a representable-range value
/// is itself representable, so the saturation does nothing.
proof fn lemma_no_clip_after_scale(a: int)
    requires
        abs_int(a) <= 1_000_000_000_000_000_000_000_000,
        abs_int(tdiv(a, SCALE as int) * SCALE - a) < SCALE,
    ensures
        clip(tdiv(a, SCALE as int)) == tdiv(a, SCALE as int),
        abs_int(clip(tdiv(a, SCALE as int)) * SCALE - a) < SCALE,
{
    let q = tdiv(a, SCALE as int);
    if q > MAX_RAW {
        assert(q * SCALE >= (MAX_RAW + 1) * SCALE) by (nonlinear_arith)
            requires q >= MAX_RAW + 1, SCALE > 0;
        assert((MAX_RAW + 1) * SCALE == 1_000_000_000_000_000_000_000_000 + 1_000_000)
            by (nonlinear_arith)
            requires MAX_RAW == 1_000_000_000_000_000_000int, SCALE == 1_000_000int;
    }
    if q < -MAX_RAW {
        assert(q * SCALE <= (-MAX_RAW - 1) * SCALE) by (nonlinear_arith)
            requires q <= -MAX_RAW - 1, SCALE > 0;
        assert((-MAX_RAW - 1) * SCALE == -1_000_000_000_000_000_000_000_000 - 1_000_000)
            by (nonlinear_arith)
            requires MAX_RAW == 1_000_000_000_000_000_000int, SCALE == 1_000_000int;
    }
}

/// A product of two values bounded by `m` lies within `[-m * m, m * m]`.
proof fn lemma_product_bound(a: int, b: int, m: int)
    requires
        -m <= a <= m,
        -m <= b <= m,
        0 <= m,
    ensures
        -(m * m) <= a * b <= m * m,
{
    assert(-(m * m) <= a * b <= m * m) by (nonlinear_arith)
        requires -m <= a <= m, -m <= b <= m, 0 <= m;
}

/// Saturate a machine integer into the raw range.
fn clip_exec(x: i128) -> (r: i128)
    ensures
        r as int == clip(x as int),
{
    if x > MAX_RAW {
        MAX_RAW
    } else if x < -MAX_RAW {
        -MAX_RAW
    } else {
        x
    }
}

/// Truncating division shrinks the magnitude when the divisor is nonzero.
proof fn lemma_tdiv_bound(a: int, b: int)
    requires
        b != 0,
    ensures
        tdiv(a, b) <= abs_int(a),
        -abs_int(a) <= tdiv(a, b),
{
    lemma_tdiv_nonneg_bound(abs_int(a), b);
    if a < 0 {
        lemma_tdiv_nonneg_bound(-a, b);
    }
}

/// Magnitude of an integer.
pub open spec fn abs_int(a: int) -> int {
    if a >= 0 {
        a
    } else {
        -a
    }
}

proof fn lemma_tdiv_nonneg_bound(a: int, b: int)
    requires
        a >= 0,
        b != 0,
    ensures
        -a <= tdiv(a, b) <= a,
{
    if b > 0 {
        lemma_div_is_ordered_upper(a, b);
        assert(a / b >= 0) by {
            lemma_div_nonneg(a, b);
        }
    } else {
        let m = -b;
        assert(a / b == -(a / m)) by {
            lemma_div_neg_divisor(a, b);
        }
        lemma_div_is_ordered_upper(a, m);
        assert(a / m >= 0) by {
            lemma_div_nonneg(a, m);
        }
    }
}

proof fn lemma_div_nonneg(a: int, b: int)
    requires
        a >= 0,
        b > 0,
    ensures
        a / b >= 0,
{
    lemma_fundamental_div_mod(a, b);
    if a / b < 0 {
        assert(b * (a / b) <= -b) by (nonlinear_arith)
            requires b > 0, a / b < 0;
    }
}

proof fn lemma_div_is_ordered_upper(a: int, b: int)
    requires
        a >= 0,
        b > 0,
    ensures
        a / b <= a,
{
    lemma_fundamental_div_mod(a, b);
    assert(a / b <= b * (a / b)) by (nonlinear_arith)
        requires b > 0, 0 <= a / b || b * (a / b) + (a % b) >= 0, a % b < b;
}

/// Euclidean division by a negative divisor mirrors division by its magnitude.
proof fn lemma_div_neg_divisor(a: int, b: int)
    requires
        a >= 0,
        b < 0,
    ensures
        a / b == -(a / (-b)),
{
    let m = -b;
    lemma_fundamental_div_mod(a, m);
    let q = a / m;
    let r = a % m;
    assert(m * q + r == a);
    assert(b * (-q) + r == a) by (nonlinear_arith)
        requires b == -m, m * q + r == a;
    lemma_euclid_unique(a, b, -q, r);
}

/// The Euclidean quotient-remainder pair is unique.
proof fn lemma_euclid_unique(a: int, b: int, q: int, r: int)
    requires
        b != 0,
        a == b * q + r,
        0 <= r < abs_int(b),
    ensures
        q == a / b,
        r == a % b,
{
    lemma_fundamental_div_mod(a, b);
    let q2 = a / b;
    let r2 = a % b;
    assert(0 <= r2 < abs_int(b)) by {
        lemma_mod_bound(a, abs_int(b));
        assert(a % b == a % abs_int(b)) by (nonlinear_arith)
            requires b != 0;
    }
    assert(b * q + r == b * q2 + r2);
    assert(q == q2 && r == r2) by (nonlinear_arith)
        requires
            b != 0,
            b * q + r == b * q2 + r2,
            0 <= r < abs_int(b),
            0 <= r2 < abs_int(b),
            abs_int(b) == if b >= 0 { b } else { -b },
    ;
}

} // verus!
