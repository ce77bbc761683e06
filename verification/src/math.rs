//! Integer arithmetic of the scorer, the range bridge and the fixed-point
//! helpers, as the chain computes it. All amounts are scaled by 1e9 and every
//! division truncates; the order of multiplications and divisions is part of
//! the result, so none of these formulas may be rearranged.

use vstd::arithmetic::div_mod::{
    lemma_div_is_ordered, lemma_div_is_ordered_by_denominator, lemma_fundamental_div_mod,
};
use vstd::arithmetic::mul::lemma_mul_is_commutative;
use vstd::prelude::*;

verus! {

/// One, in the 1e9 fixed-point scale.
pub const FLOAT_SCALING: u64 = 1_000_000_000;

pub const FLOAT_SCALING_U128: u128 = 1_000_000_000;

/// The bonus of a commit made at pool open: 2.5.
pub const MAX_TIME_BONUS: u64 = 2_500_000_000;

pub const SECONDS_PER_YEAR: u64 = 31_536_000;

/// Why a strike range cannot be formed.
#[derive(Debug, Clone, Copy, PartialEq, Eq, Structural)]
pub enum MathError {
    /// The half-width is smaller than one tick of the oracle grid.
    DeltaTooSmall,
    /// The snapped range leaves the strike grid.
    BoundsExceeded,
    /// The smile parameters give a negative implied variance.
    NegativeVariance,
}

impl MathError {
    pub open spec fn text(self) -> Seq<char> {
        match self {
            MathError::DeltaTooSmall => "delta is smaller than the oracle tick size"@,
            MathError::BoundsExceeded => "snapped range exceeds the oracle strike grid"@,
            MathError::NegativeVariance => "SVI params yield negative implied variance"@,
        }
    }

    /// The message shown to a client.
    pub fn message(&self) -> (s: &'static str)
        ensures
            s@ == self.text(),
    {
        match self {
            MathError::DeltaTooSmall => "delta is smaller than the oracle tick size",
            MathError::BoundsExceeded => "snapped range exceeds the oracle strike grid",
            MathError::NegativeVariance => "SVI params yield negative implied variance",
        }
    }
}

/// A product of two `u64` values fits in a `u128`.
proof fn lemma_product_fits(a: u64, b: u64)
    ensures
        0 <= a as int * b as int <= 0xffff_ffff_ffff_fffe_0000_0000_0000_0001,
{
    assert(0 <= a as int * b as int <= 0xffff_ffff_ffff_fffe_0000_0000_0000_0001)
        by (nonlinear_arith)
        requires
            0 <= a <= 0xffff_ffff_ffff_ffff,
            0 <= b <= 0xffff_ffff_ffff_ffff,
    ;
}

/// A product in the 1e9 scale: `a * b / 1e9`, truncating.
pub open spec fn scaled(a: int, b: int) -> int {
    a * b / 1_000_000_000
}

fn scaled_product(a: u64, b: u64) -> (r: u128)
    ensures
        r == scaled(a as int, b as int),
{
    proof {
        lemma_product_fits(a, b);
    }
    (a as u128) * (b as u128) / FLOAT_SCALING_U128
}

// ---------------------------------------------------------------------------
// Signed fixed point
// ---------------------------------------------------------------------------

/// A signed value as a magnitude and a sign, scaled by 1e9.
#[derive(Debug, Clone, Copy, PartialEq, Eq, Structural)]
pub struct I64Fp {
    pub magnitude: u64,
    pub is_negative: bool,
}

impl I64Fp {
    /// The integer it stands for. Zero has two forms.
    pub open spec fn value(self) -> int {
        if self.is_negative {
            -(self.magnitude as int)
        } else {
            self.magnitude as int
        }
    }

    /// The magnitude of a product.
    pub open spec fn product_magnitude(self, other: I64Fp) -> int {
        scaled(self.magnitude as int, other.magnitude as int)
    }

    /// The product in the 1e9 scale: truncated on the magnitudes, with the sign that
    /// the signs give.
    pub open spec fn product(self, other: I64Fp) -> int {
        if self.is_negative == other.is_negative {
            self.product_magnitude(other)
        } else {
            -self.product_magnitude(other)
        }
    }

    /// The square in the 1e9 scale.
    pub open spec fn square(self) -> int {
        self.product_magnitude(self)
    }

    pub open spec fn negated(self) -> I64Fp {
        I64Fp { magnitude: self.magnitude, is_negative: !self.is_negative && self.magnitude != 0 }
    }

    pub fn new(magnitude: u64, is_negative: bool) -> (r: Self)
        ensures
            r == (I64Fp { magnitude, is_negative }),
    {
        I64Fp { magnitude, is_negative }
    }

    pub fn to_i128(self) -> (r: i128)
        ensures
            r == self.value(),
    {
        if self.is_negative {
            -(self.magnitude as i128)
        } else {
            self.magnitude as i128
        }
    }

    /// `(a * b) / 1e9` on the magnitudes, truncating; the signs decide the sign, and
    /// zero is not negative.
    pub fn mul_scaled(self, other: I64Fp) -> (r: I64Fp)
        requires
            self.product_magnitude(other) <= u64::MAX,
        ensures
            r.magnitude == self.product_magnitude(other),
            r.is_negative == (r.magnitude != 0 && self.is_negative != other.is_negative),
            r.value() == self.product(other),
    {
        let mag: u64 = scaled_product(self.magnitude, other.magnitude) as u64;
        let neg = mag != 0 && (self.is_negative != other.is_negative);
        I64Fp::new(mag, neg)
    }

    /// `m * m / 1e9`, never negative.
    pub fn square_scaled(self) -> (r: u64)
        requires
            self.square() <= u64::MAX,
        ensures
            r == self.square(),
    {
        scaled_product(self.magnitude, self.magnitude) as u64
    }

    pub fn neg(self) -> (r: I64Fp)
        ensures
            r == self.negated(),
    {
        I64Fp::new(self.magnitude, !self.is_negative && self.magnitude != 0)
    }
}

/// Negation changes the sign of the value and leaves its magnitude alone.
pub proof fn law_negation(x: I64Fp)
    ensures
        x.negated().value() == -x.value(),
        x.negated().negated().value() == x.value(),
{
}

// ---------------------------------------------------------------------------
// Accuracy and time
// ---------------------------------------------------------------------------

pub open spec fn abs_diff(v: int, r: int) -> int {
    if v >= r {
        v - r
    } else {
        r - v
    }
}

/// The relative error of a prediction in basis points of the result.
pub open spec fn error_bps(v: int, r: int) -> int {
    abs_diff(v, r) * 10_000 / r
}

/// 0 outside the tolerance, else `1e18 / (1e9 + error_bps * 1e6)`.
pub open spec fn accuracy(v: int, r: int, epsilon_bps: int) -> int {
    if error_bps(v, r) > epsilon_bps {
        0
    } else {
        1_000_000_000_000_000_000int / (1_000_000_000 + error_bps(v, r) * 1_000_000)
    }
}

/// Accuracy score in `[0, 1e9]` of the prediction `v` against the result `r`.
pub fn acc_score(v: u64, r: u64, epsilon_bps: u64) -> (score: u64)
    requires
        r != 0,
    ensures
        score == accuracy(v as int, r as int, epsilon_bps as int),
        score <= FLOAT_SCALING,
{
    let diff: u64 = if v >= r {
        v - r
    } else {
        r - v
    };
    let error: u128 = (diff as u128) * 10_000 / (r as u128);
    proof {
        law_accuracy_bounds(v as int, r as int, epsilon_bps as int);
    }
    if error > epsilon_bps as u128 {
        return 0;
    }
    let denom: u128 = FLOAT_SCALING_U128 + error * 1_000_000;
    (1_000_000_000_000_000_000u128 / denom) as u64
}

/// An accuracy score lies in `[0, 1e9]`.
pub proof fn law_accuracy_bounds(v: int, r: int, epsilon_bps: int)
    requires
        0 <= v,
        0 < r,
    ensures
        0 <= error_bps(v, r),
        0 <= accuracy(v, r, epsilon_bps) <= 1_000_000_000,
{
    let e = error_bps(v, r);
    assert(0 <= abs_diff(v, r) * 10_000);
    assert(e >= 0) by (nonlinear_arith)
        requires
            e == (abs_diff(v, r) * 10_000) / r,
            0 <= abs_diff(v, r) * 10_000,
            0 < r,
    ;
    lemma_div_is_ordered_by_denominator(
        1_000_000_000_000_000_000,
        1_000_000_000,
        1_000_000_000 + e * 1_000_000,
    );
    assert(0 <= 1_000_000_000_000_000_000int / (1_000_000_000 + e * 1_000_000)) by (nonlinear_arith)
        requires
            e >= 0,
    ;
}

/// An exact prediction is perfect, whatever the tolerance.
pub proof fn law_exact_prediction_is_perfect(r: int, epsilon_bps: int)
    requires
        0 < r,
        0 <= epsilon_bps,
    ensures
        accuracy(r, r, epsilon_bps) == 1_000_000_000,
{
    assert(0int / r == 0) by (nonlinear_arith)
        requires
            0 < r,
    ;
    assert(error_bps(r, r) == 0);
    assert(1_000_000_000_000_000_000int / 1_000_000_000 == 1_000_000_000);
}

/// A prediction nearer to the result never scores lower.
pub proof fn law_nearer_is_no_worse(v: int, w: int, r: int, epsilon_bps: int)
    requires
        0 <= v,
        0 <= w,
        0 < r,
        abs_diff(v, r) <= abs_diff(w, r),
    ensures
        accuracy(v, r, epsilon_bps) >= accuracy(w, r, epsilon_bps),
{
    law_accuracy_bounds(v, r, epsilon_bps);
    law_accuracy_bounds(w, r, epsilon_bps);
    lemma_div_is_ordered(abs_diff(v, r) * 10_000, abs_diff(w, r) * 10_000, r);
    lemma_div_is_ordered_by_denominator(
        1_000_000_000_000_000_000,
        1_000_000_000 + error_bps(v, r) * 1_000_000,
        1_000_000_000 + error_bps(w, r) * 1_000_000,
    );
}

/// What is left of the commit window at the time of a commit.
pub open spec fn remaining_window(t_commit: int, t_open: int, t_cutoff: int) -> int {
    if t_commit <= t_open {
        t_cutoff - t_open
    } else if t_commit >= t_cutoff {
        0
    } else {
        t_cutoff - t_commit
    }
}

/// `1 + 1.5 * T^2`, where `T` is the fraction of the window that is left; 1 when
/// there is no window.
pub open spec fn bonus(t_commit: int, t_open: int, t_cutoff: int) -> int {
    if t_cutoff <= t_open {
        1_000_000_000
    } else {
        let t = remaining_window(t_commit, t_open, t_cutoff) * 1_000_000_000 / (t_cutoff - t_open);
        1_000_000_000 + 1_500_000_000 * (t * t / 1_000_000_000) / 1_000_000_000
    }
}

/// Time bonus in `[1e9, 2.5e9]`. Earlier commits score higher.
pub fn time_bonus(t_commit: u64, t_open: u64, t_cutoff: u64) -> (r: u64)
    ensures
        r == bonus(t_commit as int, t_open as int, t_cutoff as int),
        FLOAT_SCALING <= r <= MAX_TIME_BONUS,
{
    if t_cutoff <= t_open {
        return FLOAT_SCALING;
    }
    let window: u64 = t_cutoff - t_open;
    let remaining: u64 = if t_commit <= t_open {
        window
    } else if t_commit >= t_cutoff {
        0
    } else {
        t_cutoff - t_commit
    };
    proof {
        lemma_window_fraction(t_commit as int, t_open as int, t_cutoff as int);
    }
    let t_scaled: u128 = (remaining as u128) * FLOAT_SCALING_U128 / (window as u128);
    let t_sq: u128 = t_scaled * t_scaled / FLOAT_SCALING_U128;
    let total: u128 = FLOAT_SCALING_U128 + 1_500_000_000u128 * t_sq / FLOAT_SCALING_U128;
    if total > MAX_TIME_BONUS as u128 {
        MAX_TIME_BONUS
    } else {
        total as u64
    }
}

/// The scaled fraction of the window lies in `[0, 1e9]`, and so does its square.
proof fn lemma_window_fraction(t_commit: int, t_open: int, t_cutoff: int)
    requires
        0 <= t_open < t_cutoff,
    ensures
        ({
            let t = remaining_window(t_commit, t_open, t_cutoff) * 1_000_000_000 / (t_cutoff
                - t_open);
            &&& 0 <= t <= 1_000_000_000
            &&& 0 <= t * t <= 1_000_000_000_000_000_000
        }),
        1_000_000_000 <= bonus(t_commit, t_open, t_cutoff) <= 2_500_000_000,
{
    let w = t_cutoff - t_open;
    let x = remaining_window(t_commit, t_open, t_cutoff);
    let t = x * 1_000_000_000 / w;
    assert(0 <= t <= 1_000_000_000) by (nonlinear_arith)
        requires
            0 <= x <= w,
            0 < w,
            t == (x * 1_000_000_000) / w,
    ;
    assert(0 <= t * t <= 1_000_000_000_000_000_000) by (nonlinear_arith)
        requires
            0 <= t <= 1_000_000_000,
    ;
}

/// A time bonus lies in `[1e9, 2.5e9]`: all of it at open or before, none of it
/// from the cutoff on.
pub proof fn law_time_bonus_bounds(t_commit: int, t_open: int, t_cutoff: int)
    requires
        0 <= t_open,
    ensures
        1_000_000_000 <= bonus(t_commit, t_open, t_cutoff) <= 2_500_000_000,
        t_open < t_cutoff && t_commit <= t_open ==> bonus(t_commit, t_open, t_cutoff)
            == 2_500_000_000,
        t_commit >= t_cutoff ==> bonus(t_commit, t_open, t_cutoff) == 1_000_000_000,
{
    if t_open < t_cutoff {
        lemma_window_fraction(t_commit, t_open, t_cutoff);
        let w = t_cutoff - t_open;
        assert(w * 1_000_000_000 / w == 1_000_000_000) by (nonlinear_arith)
            requires
                0 < w,
        ;
        assert(0int * 1_000_000_000 / w == 0) by (nonlinear_arith)
            requires
                0 < w,
        ;
    }
}

/// An earlier commit never earns a smaller bonus.
pub proof fn law_earlier_is_no_worse(t_early: int, t_late: int, t_open: int, t_cutoff: int)
    requires
        0 <= t_open,
        t_early <= t_late,
    ensures
        bonus(t_early, t_open, t_cutoff) >= bonus(t_late, t_open, t_cutoff),
{
    if t_open < t_cutoff {
        lemma_window_fraction(t_early, t_open, t_cutoff);
        lemma_window_fraction(t_late, t_open, t_cutoff);
        let w = t_cutoff - t_open;
        let a = remaining_window(t_early, t_open, t_cutoff);
        let b = remaining_window(t_late, t_open, t_cutoff);
        lemma_div_is_ordered(b * 1_000_000_000, a * 1_000_000_000, w);
        let ta = a * 1_000_000_000 / w;
        let tb = b * 1_000_000_000 / w;
        assert(tb * tb <= ta * ta) by (nonlinear_arith)
            requires
                0 <= tb <= ta,
        ;
    }
}

/// `entry_fee * acc / 1e9`, truncated, then `* time / 1e9`, truncated.
pub open spec fn weight(entry_fee: int, acc: int, time: int) -> int {
    (entry_fee * acc / 1_000_000_000) * time / 1_000_000_000
}

/// Composite weight of an entry. The two divisions truncate one after the other.
pub fn composite_weight(entry_fee: u64, acc: u64, time: u64) -> (r: u128)
    requires
        (entry_fee * acc / 1_000_000_000) * time <= u128::MAX,
    ensures
        r == weight(entry_fee as int, acc as int, time as int),
{
    proof {
        lemma_product_fits(entry_fee, acc);
    }
    let w1: u128 = (entry_fee as u128) * (acc as u128) / FLOAT_SCALING_U128;
    assert(0 <= w1 * time) by (nonlinear_arith)
        requires
            w1 >= 0,
            time >= 0,
    ;
    w1 * (time as u128) / FLOAT_SCALING_U128
}

/// With an accuracy and a bonus in their ranges the weight is within two and a
/// half times the fee, and its computation stays in range.
pub proof fn law_weight_bounds(entry_fee: u64, acc: int, time: int)
    requires
        0 <= acc <= 1_000_000_000,
        0 <= time <= 2_500_000_000,
    ensures
        0 <= (entry_fee * acc / 1_000_000_000) * time <= u128::MAX,
        0 <= weight(entry_fee as int, acc, time) * 2 <= entry_fee * 5,
{
    let w1 = entry_fee * acc / 1_000_000_000;
    assert(0 <= entry_fee * acc <= entry_fee * 1_000_000_000) by (nonlinear_arith)
        requires
            0 <= acc <= 1_000_000_000,
            0 <= entry_fee,
    ;
    assert(0 <= w1 <= entry_fee);
    assert(0 <= w1 * time <= entry_fee * 2_500_000_000) by (nonlinear_arith)
        requires
            0 <= time <= 2_500_000_000,
            0 <= w1 <= entry_fee,
    ;
}

// ---------------------------------------------------------------------------
// Square roots
// ---------------------------------------------------------------------------

pub open spec fn is_floor_sqrt(s: int, a: int) -> bool {
    0 <= s && s * s <= a < (s + 1) * (s + 1)
}

/// The largest integer whose square does not exceed `a`.
pub open spec fn floor_sqrt(a: int) -> int {
    choose|s: int| is_floor_sqrt(s, a)
}

/// There is only one floor square root.
pub proof fn lemma_floor_sqrt_unique(s: int, a: int)
    requires
        is_floor_sqrt(s, a),
    ensures
        floor_sqrt(a) == s,
{
    let t = floor_sqrt(a);
    assert(is_floor_sqrt(t, a));
    assert(s == t) by (nonlinear_arith)
        requires
            0 <= s,
            0 <= t,
            s * s <= a < (s + 1) * (s + 1),
            t * t <= a < (t + 1) * (t + 1),
    ;
}

/// Every natural number has a floor square root.
pub proof fn lemma_floor_sqrt_exists(a: int)
    requires
        0 <= a,
    ensures
        is_floor_sqrt(floor_sqrt(a), a),
    decreases a,
{
    if a == 0 {
        assert(is_floor_sqrt(0, 0)) by (nonlinear_arith);
    } else {
        lemma_floor_sqrt_exists(a - 1);
        let s = floor_sqrt(a - 1);
        if a < (s + 1) * (s + 1) {
            assert(is_floor_sqrt(s, a));
        } else {
            assert(a < (s + 2) * (s + 2)) by (nonlinear_arith)
                requires
                    0 <= s,
                    a - 1 < (s + 1) * (s + 1),
            ;
            assert(is_floor_sqrt(s + 1, a));
        }
    }
}

/// One Newton step from above does not fall below the floor square root.
proof fn lemma_newton_step(x: int, a: int)
    requires
        0 < x,
        0 <= a,
    ensures
        a < ((x + a / x) / 2 + 1) * ((x + a / x) / 2 + 1),
{
    let q = a / x;
    let n = (x + q) / 2;
    lemma_fundamental_div_mod(a, x);
    assert(a < x * (q + 1)) by (nonlinear_arith)
        requires
            a == x * q + a % x,
            0 <= a % x < x,
    ;
    assert(0 <= q) by (nonlinear_arith)
        requires
            q == a / x,
            0 <= a,
            0 < x,
    ;
    assert(2 * (n + 1) >= x + q + 1);
    assert(4 * ((n + 1) * (n + 1)) >= (x + q + 1) * (x + q + 1)) by (nonlinear_arith)
        requires
            2 * (n + 1) >= x + q + 1,
            x + q + 1 >= 0,
    ;
    assert((x + q + 1) * (x + q + 1) >= 4 * (x * (q + 1))) by (nonlinear_arith);
}

/// Integer floor square root: Newton's method from a power of two that is not
/// below the root, so that the iterates fall to it and stop.
pub fn sqrt_floor(a: u128) -> (s: u128)
    ensures
        is_floor_sqrt(s as int, a as int),
        s == floor_sqrt(a as int),
{
    if a <= 1 {
        assert(is_floor_sqrt(0, 0) && is_floor_sqrt(1, 1)) by (nonlinear_arith);
        proof {
            lemma_floor_sqrt_unique(a as int, a as int);
        }
        return a;
    }
    let mut xn: u128 = 1;
    while xn < 0x1_0000_0000_0000_0000 && xn * xn <= a
        invariant
            1 <= xn <= 0x2_0000_0000_0000_0000,
            xn < 0x1_0000_0000_0000_0000 ==> xn * xn <= 0xffff_ffff_ffff_fffe_0000_0000_0000_0001,
        decreases 0x2_0000_0000_0000_0000 - xn,
    {
        xn = xn * 2;
        assert(xn < 0x1_0000_0000_0000_0000 ==> xn * xn
            <= 0xffff_ffff_ffff_fffe_0000_0000_0000_0001) by (nonlinear_arith)
            requires
                1 <= xn <= 0x2_0000_0000_0000_0000,
        ;
    }
    assert(a < (xn + 1) * (xn + 1)) by (nonlinear_arith)
        requires
            xn >= 0x1_0000_0000_0000_0000 || a < xn * xn,
            1 <= xn,
            a <= 0xffff_ffff_ffff_ffff_ffff_ffff_ffff_ffff,
    ;
    loop
        invariant
            2 <= a,
            1 <= xn <= 0x2_0000_0000_0000_0000,
            a < (xn + 1) * (xn + 1),
        ensures
            1 <= xn,
            a < (xn + 1) * (xn + 1),
            xn <= a / xn,
        decreases xn,
    {
        proof {
            lemma_newton_step(xn as int, a as int);
            assert(a as int / xn as int <= a) by (nonlinear_arith)
                requires
                    1 <= xn,
                    0 <= a,
            ;
            assert(a / xn <= xn + 2) by (nonlinear_arith)
                requires
                    a < (xn + 1) * (xn + 1),
                    1 <= xn,
            ;
        }
        let next: u128 = (xn + a / xn) / 2;
        if next >= xn {
            break;
        }
        assert(1 <= next) by (nonlinear_arith)
            requires
                2 <= a,
                a < (next + 1) * (next + 1),
                0 <= next,
        ;
        xn = next;
    }
    assert(xn * xn <= a) by (nonlinear_arith)
        requires
            1 <= xn,
            xn <= a / xn,
    ;
    proof {
        lemma_floor_sqrt_unique(xn as int, a as int);
    }
    xn
}

/// The square root in the 1e9 scale.
pub open spec fn fp_sqrt(x: int) -> int {
    floor_sqrt(x * 1_000_000_000)
}

/// Fixed-point square root: argument and result are scaled by 1e9.
pub fn sqrt_fp(x: u64) -> (r: u64)
    ensures
        r == fp_sqrt(x as int),
        is_floor_sqrt(r as int, x * 1_000_000_000),
        r <= 0x8000_0000_0000,
{
    let s = sqrt_floor((x as u128) * FLOAT_SCALING_U128);
    assert(s <= 0x8000_0000_0000) by (nonlinear_arith)
        requires
            0 <= s,
            s * s <= x * 1_000_000_000,
            x <= 0xffff_ffff_ffff_ffff,
    ;
    s as u64
}

/// A larger argument never has a smaller root.
pub proof fn law_sqrt_is_monotone(a: int, b: int)
    requires
        0 <= a <= b,
    ensures
        floor_sqrt(a) <= floor_sqrt(b),
{
    lemma_floor_sqrt_exists(a);
    lemma_floor_sqrt_exists(b);
    let s = floor_sqrt(a);
    let t = floor_sqrt(b);
    assert(s <= t) by (nonlinear_arith)
        requires
            0 <= s,
            0 <= t,
            s * s <= a,
            a <= b,
            b < (t + 1) * (t + 1),
    ;
}

/// The root of a perfect square is exact.
pub proof fn law_sqrt_of_square(s: int)
    requires
        0 <= s,
    ensures
        floor_sqrt(s * s) == s,
{
    assert(s * s < (s + 1) * (s + 1)) by (nonlinear_arith)
        requires
            0 <= s,
    ;
    lemma_floor_sqrt_unique(s, s * s);
}

// ---------------------------------------------------------------------------
// Implied volatility and strike ranges
// ---------------------------------------------------------------------------

/// A strike range snapped to the oracle grid.
#[derive(Debug, Clone, Copy, PartialEq, Eq, Structural)]
pub struct RangeParams {
    pub lower_snapped: u64,
    pub upper_snapped: u64,
    pub atm_iv: u64,
    pub delta: u64,
}

/// `m^2 + sigma^2`.
pub open spec fn svi_radicand(m: I64Fp, sigma: u64) -> int {
    m.square() + scaled(sigma as int, sigma as int)
}

/// `-rho * m + sqrt(m^2 + sigma^2)`.
pub open spec fn svi_inner(rho: I64Fp, m: I64Fp, sigma: u64) -> int {
    -rho.product(m) + fp_sqrt(svi_radicand(m, sigma))
}

/// The total variance at the money: `a + b * inner`.
pub open spec fn svi_variance(a: u64, b: u64, rho: I64Fp, m: I64Fp, sigma: u64) -> int {
    a + scaled(b as int, svi_inner(rho, m, sigma))
}

/// No value of the evaluation leaves 64 bits.
pub open spec fn svi_in_range(a: u64, b: u64, rho: I64Fp, m: I64Fp, sigma: u64) -> bool {
    &&& rho.product_magnitude(m) <= u64::MAX
    &&& svi_radicand(m, sigma) <= u64::MAX
    &&& svi_inner(rho, m, sigma) >= 0 ==> svi_variance(a, b, rho, m, sigma) <= u64::MAX
}

/// The smile evaluated at log-moneyness zero: the implied volatility at the
/// money, or an error when the variance would be negative.
pub fn svi_atm_iv(a: u64, b: u64, rho: I64Fp, m: I64Fp, sigma: u64) -> (r: Result<u64, MathError>)
    requires
        svi_in_range(a, b, rho, m, sigma),
    ensures
        svi_inner(rho, m, sigma) < 0 <==> r is Err,
        r matches Err(e) ==> e == MathError::NegativeVariance,
        r matches Ok(iv) ==> iv == fp_sqrt(svi_variance(a, b, rho, m, sigma)),
{
    proof {
        lemma_product_fits(m.magnitude, m.magnitude);
        lemma_product_fits(sigma, sigma);
    }
    let neg_rho_m = rho.mul_scaled(m).neg();
    let m_sq = m.square_scaled();
    let sigma_sq: u64 = scaled_product(sigma, sigma) as u64;
    let sqrt_result = sqrt_fp(m_sq + sigma_sq);

    let inner: i128 = neg_rho_m.to_i128() + sqrt_result as i128;
    if inner < 0 {
        return Err(MathError::NegativeVariance);
    }
    assert(0 <= b * inner) by (nonlinear_arith)
        requires
            0 <= inner,
            0 <= b,
    ;
    let b_x_inner: u64 = ((b as u128) * (inner as u128) / FLOAT_SCALING_U128) as u64;
    Ok(sqrt_fp(a + b_x_inner))
}

/// Whether [`svi_atm_iv`] can evaluate these parameters.
pub fn svi_evaluates(a: u64, b: u64, rho: I64Fp, m: I64Fp, sigma: u64) -> (r: bool)
    ensures
        r == svi_in_range(a, b, rho, m, sigma),
{
    proof {
        lemma_product_fits(m.magnitude, m.magnitude);
        lemma_product_fits(sigma, sigma);
    }
    if scaled_product(rho.magnitude, m.magnitude) > u64::MAX as u128 {
        return false;
    }
    let radicand: u128 = scaled_product(m.magnitude, m.magnitude) + scaled_product(sigma, sigma);
    if radicand > u64::MAX as u128 {
        return false;
    }
    let inner: i128 = rho.mul_scaled(m).neg().to_i128() + sqrt_fp(radicand as u64) as i128;
    if inner < 0 {
        return true;
    }
    assert(0 <= b * inner) by (nonlinear_arith)
        requires
            0 <= inner,
            0 <= b,
    ;
    match (b as u128).checked_mul(inner as u128) {
        None => false,
        Some(product) => product / FLOAT_SCALING_U128 <= (u64::MAX - a) as u128,
    }
}

/// `sqrt(T / year)`, in the 1e9 scale.
pub open spec fn year_root(t_secs: u64) -> int {
    fp_sqrt(t_secs * 1_000_000_000 / 31_536_000)
}

/// `atm_iv * sqrt(T / year) / 1e9 * v`.
pub open spec fn delta_product(atm_iv: u64, t_secs: u64, v: u64) -> int {
    scaled(atm_iv as int, year_root(t_secs)) * v
}

/// `atm_iv * sqrt(T / year) * v * k / 1e9^3`, truncating step by step.
pub open spec fn half_width(atm_iv: u64, t_secs: u64, v: u64, k: u64) -> int {
    delta_product(atm_iv, t_secs, v) * k / 1_000_000_000 / 1_000_000_000
}

/// The half-width fits in 64 bits, and the product before it in 128.
pub open spec fn delta_in_range(atm_iv: u64, t_secs: u64, v: u64, k: u64) -> bool {
    &&& delta_product(atm_iv, t_secs, v) <= u128::MAX
    &&& half_width(atm_iv, t_secs, v, k) <= u64::MAX
}

/// The factor before the price, common to [`compute_delta`] and its range test. The
/// years of a horizon, in the 1e9 scale, can take more than 64 bits.
fn iv_over_horizon(atm_iv_val: u64, t_secs: u64) -> (r: u128)
    ensures
        r == scaled(atm_iv_val as int, year_root(t_secs)),
{
    let t_ratio: u128 = (t_secs as u128) * FLOAT_SCALING_U128 / (SECONDS_PER_YEAR as u128);
    let sqrt_t = sqrt_floor(t_ratio * FLOAT_SCALING_U128);
    assert(sqrt_t <= 0x4_0000_0000_0000) by (nonlinear_arith)
        requires
            0 <= sqrt_t,
            sqrt_t * sqrt_t <= t_ratio * 1_000_000_000,
            t_ratio <= 600_000_000_000_000_000_000,
    ;
    scaled_product(atm_iv_val, sqrt_t as u64)
}

/// The half-width of the strike range around `v`.
pub fn compute_delta(atm_iv_val: u64, t_secs: u64, v: u64, k: u64) -> (r: u64)
    requires
        delta_in_range(atm_iv_val, t_secs, v, k),
    ensures
        r == half_width(atm_iv_val, t_secs, v, k),
{
    let step1 = iv_over_horizon(atm_iv_val, t_secs);
    assert(0 <= step1 * v) by (nonlinear_arith)
        requires
            0 <= step1,
            0 <= v,
    ;
    let step2: u128 = step1 * (v as u128);
    assert(0 <= step2 * k) by (nonlinear_arith)
        requires
            0 <= step2,
            0 <= k,
    ;
    (step2 * (k as u128) / FLOAT_SCALING_U128 / FLOAT_SCALING_U128) as u64
}

/// Whether [`compute_delta`] can evaluate these arguments.
pub fn delta_evaluates(atm_iv_val: u64, t_secs: u64, v: u64, k: u64) -> (r: bool)
    ensures
        r == delta_in_range(atm_iv_val, t_secs, v, k),
{
    let step1 = iv_over_horizon(atm_iv_val, t_secs);
    match step1.checked_mul(v as u128) {
        None => false,
        Some(step2) => match step2.checked_mul(k as u128) {
            None => false,
            Some(product) => product / FLOAT_SCALING_U128 / FLOAT_SCALING_U128
                <= u64::MAX as u128,
        },
    }
}

/// The largest grid point not above `x`, on the grid `base + N * tick`.
pub open spec fn grid_floor(x: int, base: int, tick: int) -> int {
    (x - base) / tick * tick + base
}

/// The smallest grid point not below `x`.
pub open spec fn grid_ceil(x: int, base: int, tick: int) -> int {
    ((x - base) / tick + if (x - base) % tick > 0 {
        1int
    } else {
        0
    }) * tick + base
}

/// No step of the snapping leaves 64 bits, and the grid has a tick where one is
/// needed.
pub open spec fn snap_in_range(
    v: u64,
    delta_val: u64,
    min_strike: u64,
    tick_size: u64,
    max_strike: u64,
) -> bool {
    delta_val >= tick_size ==> {
        &&& delta_val + min_strike <= u64::MAX
        &&& v >= delta_val + min_strike ==> {
            &&& tick_size != 0
            &&& v + delta_val <= u64::MAX
            &&& v + delta_val <= max_strike ==> grid_ceil(
                v + delta_val,
                min_strike as int,
                tick_size as int,
            ) <= u64::MAX
        }
    }
}

/// What [`snap_to_grid`] returns.
pub open spec fn snapped(
    v: u64,
    delta_val: u64,
    min_strike: u64,
    tick_size: u64,
    max_strike: u64,
) -> Result<RangeParams, MathError> {
    let lower = grid_floor(v - delta_val, min_strike as int, tick_size as int);
    let upper = grid_ceil(v + delta_val, min_strike as int, tick_size as int);
    if delta_val < tick_size {
        Err(MathError::DeltaTooSmall)
    } else if v < delta_val + min_strike || v + delta_val > max_strike || upper > max_strike {
        Err(MathError::BoundsExceeded)
    } else {
        Ok(
            RangeParams {
                lower_snapped: lower as u64,
                upper_snapped: upper as u64,
                atm_iv: 0,
                delta: delta_val,
            },
        )
    }
}

/// The two grid points around an offset: the floor is within one tick below it,
/// the ceiling within one tick above it.
proof fn lemma_grid(x: int, base: int, tick: int)
    requires
        0 < tick,
        base <= x,
    ensures
        base <= grid_floor(x, base, tick) <= x < grid_floor(x, base, tick) + tick,
        x <= grid_ceil(x, base, tick) < x + tick,
        (grid_floor(x, base, tick) - base) % tick == 0,
        (grid_ceil(x, base, tick) - base) % tick == 0,
        0 <= (x - base) / tick,
        0 <= (x - base) / tick * tick,
{
    let o = x - base;
    let q = o / tick;
    let r = o % tick;
    lemma_fundamental_div_mod(o, tick);
    lemma_mul_is_commutative(tick, q);
    assert(0 <= q) by (nonlinear_arith)
        requires
            q == o / tick,
            0 <= o,
            0 < tick,
    ;
    assert(0 <= q * tick) by (nonlinear_arith)
        requires
            0 <= q,
            0 < tick,
    ;
    assert((q + 1) * tick == q * tick + tick) by (nonlinear_arith);
    assert((q * tick) % tick == 0) by (nonlinear_arith)
        requires
            0 < tick,
    ;
    assert(((q + 1) * tick) % tick == 0) by (nonlinear_arith)
        requires
            0 < tick,
    ;
}

/// Snaps `[v - delta, v + delta]` to the strike grid `min_strike + N * tick_size`:
/// the lower bound down, the upper bound up.
pub fn snap_to_grid(
    v: u64,
    delta_val: u64,
    min_strike: u64,
    tick_size: u64,
    max_strike: u64,
) -> (r: Result<RangeParams, MathError>)
    requires
        snap_in_range(v, delta_val, min_strike, tick_size, max_strike),
    ensures
        r == snapped(v, delta_val, min_strike, tick_size, max_strike),
{
    if delta_val < tick_size {
        return Err(MathError::DeltaTooSmall);
    }
    if v < delta_val + min_strike {
        return Err(MathError::BoundsExceeded);
    }
    proof {
        lemma_grid(v - delta_val, min_strike as int, tick_size as int);
        lemma_grid(v + delta_val, min_strike as int, tick_size as int);
    }
    let lower_raw: u64 = v - delta_val;
    let lower: u64 = (lower_raw - min_strike) / tick_size * tick_size + min_strike;

    let upper_raw: u64 = v + delta_val;
    if upper_raw > max_strike {
        return Err(MathError::BoundsExceeded);
    }
    let off_upper: u64 = upper_raw - min_strike;
    let remainder: u64 = off_upper % tick_size;
    assert(off_upper / tick_size <= off_upper) by (nonlinear_arith)
        requires
            1 <= tick_size,
            0 <= off_upper,
    ;
    assert(remainder > 0 ==> off_upper / tick_size < off_upper) by (nonlinear_arith)
        requires
            1 <= tick_size,
            0 <= off_upper,
            remainder == off_upper % tick_size,
    ;
    let ceil_ticks: u64 = off_upper / tick_size + if remainder > 0 {
        1
    } else {
        0
    };
    let upper: u64 = ceil_ticks * tick_size + min_strike;
    if upper > max_strike {
        return Err(MathError::BoundsExceeded);
    }
    Ok(RangeParams { lower_snapped: lower, upper_snapped: upper, atm_iv: 0, delta: delta_val })
}

/// A snapped range covers `[v - delta, v + delta]`, lies on the grid, stays
/// within its bounds, and is wider than the raw range by less than one tick at
/// either end.
pub proof fn law_snapped_range_is_tight(
    v: u64,
    delta_val: u64,
    min_strike: u64,
    tick_size: u64,
    max_strike: u64,
)
    requires
        snap_in_range(v, delta_val, min_strike, tick_size, max_strike),
    ensures
        snapped(v, delta_val, min_strike, tick_size, max_strike) matches Ok(p) ==> {
            &&& min_strike <= p.lower_snapped
            &&& p.lower_snapped <= v - delta_val < p.lower_snapped + tick_size
            &&& p.upper_snapped - tick_size < v + delta_val <= p.upper_snapped
            &&& p.upper_snapped <= max_strike
            &&& (p.lower_snapped - min_strike) % (tick_size as int) == 0
            &&& (p.upper_snapped - min_strike) % (tick_size as int) == 0
            &&& p.delta == delta_val
        },
{
    if delta_val >= tick_size && v >= delta_val + min_strike {
        lemma_grid(v - delta_val, min_strike as int, tick_size as int);
        lemma_grid(v + delta_val, min_strike as int, tick_size as int);
    }
}

/// Whether [`snap_to_grid`] can evaluate these arguments.
pub fn snap_evaluates(
    v: u64,
    delta_val: u64,
    min_strike: u64,
    tick_size: u64,
    max_strike: u64,
) -> (r: bool)
    ensures
        r == snap_in_range(v, delta_val, min_strike, tick_size, max_strike),
{
    if delta_val < tick_size {
        return true;
    }
    if delta_val > u64::MAX - min_strike {
        return false;
    }
    if v < delta_val + min_strike {
        return true;
    }
    if tick_size == 0 || v > u64::MAX - delta_val {
        return false;
    }
    if v + delta_val > max_strike {
        return true;
    }
    proof {
        lemma_grid(v + delta_val, min_strike as int, tick_size as int);
    }
    let raw: u64 = v + delta_val;
    let remainder: u64 = (raw - min_strike) % tick_size;
    proof {
        let o = raw - min_strike;
        let t = tick_size as int;
        lemma_fundamental_div_mod(o, t);
        lemma_mul_is_commutative(t, o / t);
        assert((o / t + 1) * t == o / t * t + t) by (nonlinear_arith);
    }
    remainder == 0 || raw <= u64::MAX - (tick_size - remainder)
}

// ---------------------------------------------------------------------------
// Scoring a participant
// ---------------------------------------------------------------------------

#[derive(Debug, Clone, Copy, PartialEq, Eq, Structural)]
pub struct ParticipantScore {
    pub leg_hits: u8,
    pub avg_acc: u64,
    pub time_bonus: u64,
    pub composite_weight: u128,
}

/// The accuracy of leg `i`.
pub open spec fn leg_accuracy(predicted: Seq<u64>, results: Seq<u64>, epsilon_bps: u64, i: int) -> int {
    accuracy(predicted[i] as int, results[i] as int, epsilon_bps as int)
}

/// Legs with both a prediction and a result.
pub open spec fn scored_legs(predicted: Seq<u64>, results: Seq<u64>) -> nat {
    if predicted.len() <= results.len() {
        predicted.len()
    } else {
        results.len()
    }
}

/// The summed accuracy of the first `n` legs.
pub open spec fn total_accuracy(
    predicted: Seq<u64>,
    results: Seq<u64>,
    epsilon_bps: u64,
    n: nat,
) -> int
    decreases n,
{
    if n == 0 {
        0
    } else {
        total_accuracy(predicted, results, epsilon_bps, (n - 1) as nat) + leg_accuracy(
            predicted,
            results,
            epsilon_bps,
            n - 1,
        )
    }
}

/// How many of the first `n` legs have a nonzero accuracy.
pub open spec fn hit_count(
    predicted: Seq<u64>,
    results: Seq<u64>,
    epsilon_bps: u64,
    n: nat,
) -> int
    decreases n,
{
    if n == 0 {
        0
    } else {
        hit_count(predicted, results, epsilon_bps, (n - 1) as nat) + if leg_accuracy(
            predicted,
            results,
            epsilon_bps,
            n - 1,
        ) > 0 {
            1int
        } else {
            0
        }
    }
}

/// The truncated mean accuracy over all legs of the pool; 0 for a pool without legs.
pub open spec fn mean_accuracy(predicted: Seq<u64>, results: Seq<u64>, epsilon_bps: u64) -> int {
    if results.len() == 0 {
        0
    } else {
        total_accuracy(predicted, results, epsilon_bps, scored_legs(predicted, results))
            / results.len() as int
    }
}

/// Every leg of the pool was hit, and there is at least one.
pub open spec fn all_legs_hit(predicted: Seq<u64>, results: Seq<u64>, epsilon_bps: u64) -> bool {
    0 < results.len() && hit_count(predicted, results, epsilon_bps, scored_legs(predicted, results))
        == results.len()
}

proof fn lemma_leg_totals(predicted: Seq<u64>, results: Seq<u64>, epsilon_bps: u64, n: nat)
    requires
        n <= scored_legs(predicted, results),
        forall|i: int| 0 <= i < n ==> results[i] != 0,
    ensures
        0 <= hit_count(predicted, results, epsilon_bps, n) <= n,
        0 <= total_accuracy(predicted, results, epsilon_bps, n) <= hit_count(
            predicted,
            results,
            epsilon_bps,
            n,
        ) * 1_000_000_000,
    decreases n,
{
    if n > 0 {
        lemma_leg_totals(predicted, results, epsilon_bps, (n - 1) as nat);
        law_accuracy_bounds(
            predicted[n - 1] as int,
            results[n - 1] as int,
            epsilon_bps as int,
        );
    }
}

proof fn lemma_hits_grow(
    predicted: Seq<u64>,
    results: Seq<u64>,
    epsilon_bps: u64,
    m: nat,
    n: nat,
)
    requires
        m <= n,
    ensures
        hit_count(predicted, results, epsilon_bps, m) <= hit_count(
            predicted,
            results,
            epsilon_bps,
            n,
        ),
    decreases n,
{
    if m < n {
        lemma_hits_grow(predicted, results, epsilon_bps, m, (n - 1) as nat);
    }
}

/// Scores one participant: the mean accuracy over the legs, and the parlay
/// weight, which is zero unless every leg is hit.
pub fn score_participant(
    predicted_prices: &[u64],
    oracle_results: &[u64],
    epsilon_bps: u64,
    entry_fee: u64,
    t_commit: u64,
    t_open: u64,
    t_cutoff: u64,
) -> (s: ParticipantScore)
    requires
        forall|i: int|
            0 <= i < scored_legs(predicted_prices@, oracle_results@) ==> oracle_results@[i] != 0,
        hit_count(
            predicted_prices@,
            oracle_results@,
            epsilon_bps,
            scored_legs(predicted_prices@, oracle_results@),
        ) <= 255,
    ensures
        s.leg_hits == hit_count(
            predicted_prices@,
            oracle_results@,
            epsilon_bps,
            scored_legs(predicted_prices@, oracle_results@),
        ),
        s.avg_acc == mean_accuracy(predicted_prices@, oracle_results@, epsilon_bps),
        s.time_bonus == bonus(t_commit as int, t_open as int, t_cutoff as int),
        s.composite_weight == if all_legs_hit(predicted_prices@, oracle_results@, epsilon_bps) {
            weight(entry_fee as int, s.avg_acc as int, s.time_bonus as int)
        } else {
            0
        },
{
    let leg_count: usize = oracle_results.len();
    let legs: usize = if predicted_prices.len() <= leg_count {
        predicted_prices.len()
    } else {
        leg_count
    };
    let mut leg_hits: u8 = 0;
    let mut total_acc: u64 = 0;
    let mut i: usize = 0;
    while i < legs
        invariant
            i <= legs,
            legs == scored_legs(predicted_prices@, oracle_results@),
            forall|i: int| 0 <= i < legs ==> oracle_results@[i] != 0,
            hit_count(predicted_prices@, oracle_results@, epsilon_bps, legs as nat) <= 255,
            leg_hits == hit_count(predicted_prices@, oracle_results@, epsilon_bps, i as nat),
            total_acc == total_accuracy(predicted_prices@, oracle_results@, epsilon_bps, i as nat),
        decreases legs - i,
    {
        proof {
            lemma_leg_totals(predicted_prices@, oracle_results@, epsilon_bps, i as nat);
            lemma_hits_grow(
                predicted_prices@,
                oracle_results@,
                epsilon_bps,
                (i + 1) as nat,
                legs as nat,
            );
        }
        let leg_acc = acc_score(predicted_prices[i], oracle_results[i], epsilon_bps);
        if leg_acc > 0 {
            leg_hits = leg_hits + 1;
        }
        total_acc = total_acc + leg_acc;
        i = i + 1;
    }
    proof {
        lemma_leg_totals(predicted_prices@, oracle_results@, epsilon_bps, legs as nat);
    }
    let avg_acc: u64 = if leg_count == 0 {
        0
    } else {
        total_acc / (leg_count as u64)
    };
    let tb = time_bonus(t_commit, t_open, t_cutoff);
    let wt: u128 = if (leg_hits as usize) == leg_count && leg_count > 0 {
        proof {
            let h = leg_hits as int;
            assert(total_acc as int / h <= 1_000_000_000) by (nonlinear_arith)
                requires
                    total_acc <= h * 1_000_000_000,
                    0 < h,
            ;
            law_weight_bounds(entry_fee, avg_acc as int, tb as int);
        }
        composite_weight(entry_fee, avg_acc, tb)
    } else {
        0
    };
    ParticipantScore { leg_hits, avg_acc, time_bonus: tb, composite_weight: wt }
}

/// A single leg outside the tolerance makes the whole entry miss.
pub proof fn law_one_miss_loses_the_parlay(
    predicted: Seq<u64>,
    results: Seq<u64>,
    epsilon_bps: u64,
    leg: int,
)
    requires
        0 <= leg < results.len(),
        leg < predicted.len() ==> leg_accuracy(predicted, results, epsilon_bps, leg) == 0,
    ensures
        !all_legs_hit(predicted, results, epsilon_bps),
{
    let n = scored_legs(predicted, results);
    lemma_hits_at_most(predicted, results, epsilon_bps, n, leg);
}

proof fn lemma_hits_at_most(
    predicted: Seq<u64>,
    results: Seq<u64>,
    epsilon_bps: u64,
    n: nat,
    leg: int,
)
    ensures
        hit_count(predicted, results, epsilon_bps, n) <= n,
        0 <= leg < n && leg_accuracy(predicted, results, epsilon_bps, leg) == 0 ==> hit_count(
            predicted,
            results,
            epsilon_bps,
            n,
        ) < n,
    decreases n,
{
    if n > 0 {
        lemma_hits_at_most(predicted, results, epsilon_bps, (n - 1) as nat, leg);
    }
}

// ---------------------------------------------------------------------------
// What the formulas mean
// ---------------------------------------------------------------------------

/// `x / d` truncated is the one `q` with `q * d <= x < (q + 1) * d`.
proof fn lemma_quotient(x: int, d: int, q: int)
    requires
        0 < d,
    ensures
        q * d <= x < (q + 1) * d <==> x / d == q,
{
    lemma_fundamental_div_mod(x, d);
    let r = x % d;
    let p = x / d;
    assert(x == d * p + r && 0 <= r < d);
    assert(q * d <= x < (q + 1) * d <==> p == q) by (nonlinear_arith)
        requires
            x == d * p + r,
            0 <= r < d,
    ;
}

/// The accuracy of a prediction whose error is `e` basis points, truncated: nothing
/// if that is out of tolerance, else one over one plus a thousandth of the error in
/// basis points, truncated. Whether the prediction is too high or too low makes no
/// difference.
pub proof fn law_accuracy_curve(v: int, r: int, epsilon_bps: int, off: int, e: int)
    requires
        0 <= v,
        0 < r,
        0 <= off,
        v == r + off || v == r - off,
        e * r <= off * 10_000 < (e + 1) * r,
    ensures
        e > epsilon_bps ==> accuracy(v, r, epsilon_bps) == 0,
        e <= epsilon_bps ==> {
            let s = accuracy(v, r, epsilon_bps);
            s * (1_000_000_000 + e * 1_000_000) <= 1_000_000_000_000_000_000 < (s + 1) * (
            1_000_000_000 + e * 1_000_000)
        },
{
    lemma_quotient(off * 10_000, r, e);
    assert(abs_diff(v, r) == off);
    law_accuracy_bounds(v, r, epsilon_bps);
    let s = accuracy(v, r, epsilon_bps);
    lemma_quotient(1_000_000_000_000_000_000, 1_000_000_000 + e * 1_000_000, s);
}

/// The time bonus of a commit that leaves the fraction `t / 1e9` of the window: one
/// and a half times its square, above one, every step truncated. Only how the three
/// times lie to each other counts.
pub proof fn law_bonus_curve(
    t_commit: int,
    t_open: int,
    t_cutoff: int,
    left: int,
    t: int,
    q: int,
)
    requires
        t_open < t_cutoff,
        t_commit <= t_open ==> left == t_cutoff - t_open,
        t_open < t_commit < t_cutoff ==> left == t_cutoff - t_commit,
        t_cutoff <= t_commit ==> left == 0,
        t * (t_cutoff - t_open) <= left * 1_000_000_000 < (t + 1) * (t_cutoff - t_open),
        q * 1_000_000_000 <= t * t < (q + 1) * 1_000_000_000,
    ensures
        ({
            let extra = bonus(t_commit, t_open, t_cutoff) - 1_000_000_000;
            extra * 1_000_000_000 <= 1_500_000_000 * q < (extra + 1) * 1_000_000_000
        }),
{
    lemma_quotient(left * 1_000_000_000, t_cutoff - t_open, t);
    lemma_quotient(t * t, 1_000_000_000, q);
    let extra = bonus(t_commit, t_open, t_cutoff) - 1_000_000_000;
    lemma_quotient(1_500_000_000 * q, 1_000_000_000, extra);
}

/// Moving open, commit and cutoff by the same time changes nothing.
pub proof fn law_bonus_moves_along(t_commit: int, t_open: int, t_cutoff: int, by: int)
    ensures
        bonus(t_commit + by, t_open + by, t_cutoff + by) == bonus(t_commit, t_open, t_cutoff),
{
}

/// Halfway through the window the bonus is one and three eighths; without a window it
/// is one.
pub proof fn law_bonus_halfway(t_open: int, half: int)
    requires
        0 < half,
    ensures
        bonus(t_open + half, t_open, t_open + 2 * half) == 1_375_000_000,
        bonus(t_open, t_open, t_open) == 1_000_000_000,
{
    lemma_quotient(half * 1_000_000_000, 2 * half, 500_000_000);
    assert(500_000_000 * (2 * half) <= half * 1_000_000_000 < (500_000_000 + 1) * (2 * half))
        by (nonlinear_arith)
        requires
            0 < half,
    ;
    assert(500_000_000int * 500_000_000 / 1_000_000_000 == 250_000_000);
}

/// The weight is the fee times the accuracy, truncated to `w`, times the bonus,
/// truncated.
pub proof fn law_weight_is_the_product(entry_fee: int, acc: int, time: int, w: int)
    requires
        w * 1_000_000_000 <= entry_fee * acc < (w + 1) * 1_000_000_000,
    ensures
        weight(entry_fee, acc, time) * 1_000_000_000 <= w * time < (weight(entry_fee, acc, time)
            + 1) * 1_000_000_000,
{
    lemma_quotient(entry_fee * acc, 1_000_000_000, w);
    lemma_quotient(w * time, 1_000_000_000, weight(entry_fee, acc, time));
}

/// A perfect prediction without a bonus weighs its fee; a missed one weighs nothing.
pub proof fn law_weight_of_the_fee(entry_fee: int, time: int)
    ensures
        weight(entry_fee, 1_000_000_000, 1_000_000_000) == entry_fee,
        weight(entry_fee, 0, time) == 0,
{
    assert(entry_fee * 0 == 0 && 0 * time == 0) by (nonlinear_arith);
}

/// The floor square root of `a` is the `s` with `s^2 <= a < (s + 1)^2`, and the root in
/// the 1e9 scale is that of `1e9` times the argument.
pub proof fn law_sqrt_is_floor(a: int, s: int)
    requires
        0 <= s,
        s * s <= a < (s + 1) * (s + 1),
    ensures
        floor_sqrt(a) == s,
        a % 1_000_000_000 == 0 ==> fp_sqrt(a / 1_000_000_000) == s,
{
    assert(is_floor_sqrt(s, a));
    lemma_floor_sqrt_unique(s, a);
}

/// The smile at the money depends on the sign of both skew and shift: with `p` the
/// product of the two as signed numbers, truncated to the 1e9 scale towards zero, and
/// `s` the root of the sum of the squares of shift and curvature, the inner term is
/// `s - p`.
pub proof fn law_smile_is_signed(rho: I64Fp, m: I64Fp, sigma: u64, p: int, x: int, y: int, s: int)
    requires
        rho.value() * m.value() >= 0 ==> 0 <= p && p * 1_000_000_000 <= rho.value() * m.value()
            < (p + 1) * 1_000_000_000,
        rho.value() * m.value() < 0 ==> p <= 0 && (p - 1) * 1_000_000_000 < rho.value() * m.value()
            <= p * 1_000_000_000,
        x * 1_000_000_000 <= m.value() * m.value() < (x + 1) * 1_000_000_000,
        y * 1_000_000_000 <= sigma * sigma < (y + 1) * 1_000_000_000,
        0 <= s,
        s * s <= (x + y) * 1_000_000_000 < (s + 1) * (s + 1),
    ensures
        svi_inner(rho, m, sigma) == s - p,
{
    let a = rho.magnitude as int;
    let b = m.magnitude as int;
    lemma_product_fits(rho.magnitude, m.magnitude);
    assert((-a) * (-b) == a * b && (-a) * b == -(a * b) && a * (-b) == -(a * b) && (-b) * (-b) == b
        * b) by (nonlinear_arith);
    assert(rho.product(m) == p) by {
        if p >= 0 {
            lemma_quotient(a * b, 1_000_000_000, p);
        } else {
            lemma_quotient(a * b, 1_000_000_000, -p);
        }
        lemma_quotient(a * b, 1_000_000_000, 0);
    }
    lemma_quotient(b * b, 1_000_000_000, x);
    lemma_quotient(sigma * sigma, 1_000_000_000, y);
    law_sqrt_is_floor((x + y) * 1_000_000_000, s);
}

/// Turning both skew and shift around changes nothing; turning one of them around turns
/// the part that they contribute around.
pub proof fn law_smile_turns(a: u64, b: u64, rho: I64Fp, m: I64Fp, sigma: u64)
    ensures
        ({
            let rho2 = I64Fp { magnitude: rho.magnitude, is_negative: !rho.is_negative };
            let m2 = I64Fp { magnitude: m.magnitude, is_negative: !m.is_negative };
            let level = I64Fp { magnitude: 0, is_negative: false };
            &&& svi_inner(rho2, m2, sigma) == svi_inner(rho, m, sigma)
            &&& svi_variance(a, b, rho2, m2, sigma) == svi_variance(a, b, rho, m, sigma)
            &&& svi_inner(rho, m2, sigma) == svi_inner(rho2, m, sigma)
            &&& svi_inner(rho, m, sigma) + svi_inner(rho, m2, sigma) == 2 * svi_inner(
                level,
                m,
                sigma,
            )
        }),
{
    let k = m.magnitude as int;
    assert(0 * k == 0) by (nonlinear_arith);
}

/// The variance is the level `a` plus `b` times the inner term, truncated; the
/// volatility is its root.
pub proof fn law_variance_is_linear(a: u64, b: u64, rho: I64Fp, m: I64Fp, sigma: u64)
    ensures
        ({
            let over = svi_variance(a, b, rho, m, sigma) - a;
            over * 1_000_000_000 <= b * svi_inner(rho, m, sigma) < (over + 1) * 1_000_000_000
        }),
        svi_variance(a, 0, rho, m, sigma) == a,
{
    let inner = svi_inner(rho, m, sigma);
    lemma_quotient(b * inner, 1_000_000_000, svi_variance(a, b, rho, m, sigma) - a);
    assert(0 * inner == 0) by (nonlinear_arith);
}

/// The half-width is the volatility times the root of the horizon in years of 365 days,
/// times the price, times the scaling; `x`, `s` and `p` are the truncated steps.
pub proof fn law_half_width_is_the_product(
    atm_iv: u64,
    t_secs: u64,
    v: u64,
    k: u64,
    x: int,
    s: int,
    p: int,
)
    requires
        x * (365 * 24 * 3600) <= t_secs * 1_000_000_000 < (x + 1) * (365 * 24 * 3600),
        0 <= s,
        s * s <= x * 1_000_000_000 < (s + 1) * (s + 1),
        p * 1_000_000_000 <= atm_iv * s < (p + 1) * 1_000_000_000,
    ensures
        ({
            let h = half_width(atm_iv, t_secs, v, k);
            h * 1_000_000_000_000_000_000 <= p * v * k < (h + 1) * 1_000_000_000_000_000_000
        }),
{
    lemma_quotient(t_secs * 1_000_000_000, 31_536_000, x);
    law_sqrt_is_floor(x * 1_000_000_000, s);
    lemma_quotient(atm_iv * s, 1_000_000_000, p);
    let n = p * v * k;
    let h = half_width(atm_iv, t_secs, v, k);
    assert(h == n / 1_000_000_000 / 1_000_000_000);
    assert(n / 1_000_000_000 / 1_000_000_000 == n / 1_000_000_000_000_000_000);
    lemma_quotient(n, 1_000_000_000_000_000_000, h);
}

/// Over one year, with a scaling of one, the half-width is the volatility times the
/// price, truncated.
pub proof fn law_half_width_of_a_year(atm_iv: u64, v: u64)
    ensures
        half_width(atm_iv, 31_536_000, v, 1_000_000_000) == atm_iv * v / 1_000_000_000,
{
    assert(31_536_000int * 1_000_000_000 / 31_536_000 == 1_000_000_000);
    assert(1_000_000_000int * 1_000_000_000 < (1_000_000_000int + 1) * (1_000_000_000int + 1))
        by (nonlinear_arith);
    law_sqrt_is_floor(1_000_000_000_000_000_000, 1_000_000_000);
    assert(atm_iv * 1_000_000_000 / 1_000_000_000 == atm_iv);
    let n = atm_iv * v;
    assert(n * 1_000_000_000 / 1_000_000_000 == n);
}

/// A range is formed just when the half-width is at least a tick and some range of grid
/// points around the raw one lies within the grid.
pub proof fn law_range_is_formed(
    v: u64,
    delta_val: u64,
    min_strike: u64,
    tick_size: u64,
    max_strike: u64,
    below: int,
    above: int,
)
    requires
        0 < tick_size,
        0 <= below,
    ensures
        delta_val < tick_size <==> snapped(v, delta_val, min_strike, tick_size, max_strike) == Err::<
            RangeParams,
            MathError,
        >(MathError::DeltaTooSmall),
        delta_val >= tick_size && min_strike + below * tick_size <= v - delta_val && v + delta_val
            <= min_strike + above * tick_size <= max_strike ==> snapped(
            v,
            delta_val,
            min_strike,
            tick_size,
            max_strike,
        ) is Ok,
        snapped(v, delta_val, min_strike, tick_size, max_strike) matches Err(e) ==> e
            == MathError::DeltaTooSmall || e == MathError::BoundsExceeded,
{
    let t = tick_size as int;
    if delta_val >= tick_size && min_strike + below * tick_size <= v - delta_val && v + delta_val
        <= min_strike + above * tick_size <= max_strike {
        assert(0 <= below * t) by (nonlinear_arith)
            requires
                0 <= below,
                0 < t,
        ;
        let o = v + delta_val - min_strike;
        lemma_grid(v + delta_val, min_strike as int, t);
        let up = o / t + if o % t > 0 {
            1int
        } else {
            0
        };
        assert(grid_ceil(v + delta_val, min_strike as int, t) == up * t + min_strike);
        assert(up <= above) by (nonlinear_arith)
            requires
                0 < t,
                up * t < o + t,
                o <= above * t,
        ;
        assert(up * t <= above * t) by (nonlinear_arith)
            requires
                0 < t,
                up <= above,
        ;
    }
}

proof fn lemma_exact_legs(results: Seq<u64>, epsilon_bps: u64, n: nat)
    requires
        n <= results.len(),
        forall|i: int| 0 <= i < results.len() ==> results[i] != 0,
    ensures
        hit_count(results, results, epsilon_bps, n) == n,
        total_accuracy(results, results, epsilon_bps, n) == n * 1_000_000_000,
    decreases n,
{
    if n > 0 {
        lemma_exact_legs(results, epsilon_bps, (n - 1) as nat);
        law_exact_prediction_is_perfect(results[n - 1] as int, epsilon_bps as int);
    }
}

/// Predicting every result exactly hits every leg and has a mean accuracy of one.
pub proof fn law_exact_predictions_hit_every_leg(results: Seq<u64>, epsilon_bps: u64)
    requires
        results.len() > 0,
        forall|i: int| 0 <= i < results.len() ==> results[i] != 0,
    ensures
        hit_count(results, results, epsilon_bps, scored_legs(results, results)) == results.len(),
        all_legs_hit(results, results, epsilon_bps),
        mean_accuracy(results, results, epsilon_bps) == 1_000_000_000,
{
    let n = results.len();
    lemma_exact_legs(results, epsilon_bps, n);
    lemma_quotient((n * 1_000_000_000) as int, n as int, 1_000_000_000);
}

/// Whether a leg counts as hit, and what it adds to the total, depends on its own
/// prediction and its own result only. A leg without a prediction adds nothing.
pub proof fn law_a_leg_adds_its_own_accuracy(
    predicted: Seq<u64>,
    results: Seq<u64>,
    epsilon_bps: u64,
    v: u64,
    r: u64,
)
    requires
        predicted.len() == results.len(),
    ensures
        ({
            let n = results.len();
            let acc = accuracy(v as int, r as int, epsilon_bps as int);
            let longer_p = predicted.push(v);
            let longer_r = results.push(r);
            &&& scored_legs(longer_p, longer_r) == n + 1
            &&& scored_legs(predicted, longer_r) == n
            &&& total_accuracy(longer_p, longer_r, epsilon_bps, n + 1) == total_accuracy(
                predicted,
                results,
                epsilon_bps,
                n,
            ) + acc
            &&& hit_count(longer_p, longer_r, epsilon_bps, n + 1) == hit_count(
                predicted,
                results,
                epsilon_bps,
                n,
            ) + (if acc > 0 {
                1int
            } else {
                0
            })
            &&& total_accuracy(predicted, longer_r, epsilon_bps, n) == total_accuracy(
                predicted,
                results,
                epsilon_bps,
                n,
            )
        }),
{
    let n = results.len();
    lemma_same_legs(predicted.push(v), results.push(r), predicted, results, epsilon_bps, n);
    lemma_same_legs(predicted, results.push(r), predicted, results, epsilon_bps, n);
}

proof fn lemma_same_legs(
    p: Seq<u64>,
    r: Seq<u64>,
    p2: Seq<u64>,
    r2: Seq<u64>,
    epsilon_bps: u64,
    n: nat,
)
    requires
        forall|i: int| #![trigger p[i]] #![trigger r[i]] 0 <= i < n ==> p[i] == p2[i] && r[i] == r2[i],
    ensures
        total_accuracy(p, r, epsilon_bps, n) == total_accuracy(p2, r2, epsilon_bps, n),
        hit_count(p, r, epsilon_bps, n) == hit_count(p2, r2, epsilon_bps, n),
    decreases n,
{
    if n > 0 {
        lemma_same_legs(p, r, p2, r2, epsilon_bps, (n - 1) as nat);
        assert(p[n - 1] == p2[n - 1]);
    }
}

/// The mean is the total over all legs of the pool, truncated, also over those without a
/// prediction; a pool without legs has none.
pub proof fn law_mean_is_over_all_legs(predicted: Seq<u64>, results: Seq<u64>, epsilon_bps: u64)
    ensures
        results.len() == 0 ==> mean_accuracy(predicted, results, epsilon_bps) == 0,
        results.len() > 0 ==> {
            let mean = mean_accuracy(predicted, results, epsilon_bps);
            let total = total_accuracy(
                predicted,
                results,
                epsilon_bps,
                scored_legs(predicted, results),
            );
            mean * results.len() <= total < (mean + 1) * results.len()
        },
        results.len() == 0 ==> !all_legs_hit(predicted, results, epsilon_bps),
{
    if results.len() > 0 {
        lemma_quotient(
            total_accuracy(predicted, results, epsilon_bps, scored_legs(predicted, results)),
            results.len() as int,
            mean_accuracy(predicted, results, epsilon_bps),
        );
    }
}

/// A half-width is never negative.
pub(crate) proof fn lemma_half_width_is_natural(atm_iv: u64, t_secs: u64, v: u64, k: u64)
    ensures
        0 <= half_width(atm_iv, t_secs, v, k),
{
    lemma_floor_sqrt_exists(t_secs * 1_000_000_000 / 31_536_000 * 1_000_000_000);
    let s = year_root(t_secs);
    let p = scaled(atm_iv as int, s);
    assert(0 <= atm_iv * s) by (nonlinear_arith)
        requires
            0 <= s,
            0 <= atm_iv,
    ;
    assert(0 <= p * v * k) by (nonlinear_arith)
        requires
            0 <= p,
            0 <= v,
            0 <= k,
    ;
}

/// The parlay is won just when the pool has legs, every one of them has a prediction, and
/// every prediction is within the tolerance.
pub proof fn law_parlay_is_won_on_every_leg(
    predicted: Seq<u64>,
    results: Seq<u64>,
    epsilon_bps: u64,
)
    requires
        0 < results.len() <= predicted.len(),
        forall|i: int|
            0 <= i < results.len() ==> accuracy(
                predicted[i] as int,
                #[trigger] results[i] as int,
                epsilon_bps as int,
            ) > 0,
    ensures
        all_legs_hit(predicted, results, epsilon_bps),
        hit_count(predicted, results, epsilon_bps, scored_legs(predicted, results))
            == results.len(),
{
    lemma_every_leg_hit(predicted, results, epsilon_bps, results.len());
}

proof fn lemma_every_leg_hit(predicted: Seq<u64>, results: Seq<u64>, epsilon_bps: u64, n: nat)
    requires
        n <= results.len(),
        forall|i: int|
            0 <= i < results.len() ==> accuracy(
                predicted[i] as int,
                #[trigger] results[i] as int,
                epsilon_bps as int,
            ) > 0,
    ensures
        hit_count(predicted, results, epsilon_bps, n) == n,
    decreases n,
{
    if n > 0 {
        lemma_every_leg_hit(predicted, results, epsilon_bps, (n - 1) as nat);
        assert(accuracy(
            predicted[n - 1] as int,
            results[n - 1] as int,
            epsilon_bps as int,
        ) > 0);
    }
}

/// The smile can be evaluated just when the signed product `p`, the sum of the squares
/// `x + y` and, where there is a volatility, the variance fit in 64 bits.
pub proof fn law_smile_can_be_evaluated(
    a: u64,
    b: u64,
    rho: I64Fp,
    m: I64Fp,
    sigma: u64,
    p: int,
    x: int,
    y: int,
    s: int,
    w: int,
)
    requires
        rho.value() * m.value() >= 0 ==> 0 <= p && p * 1_000_000_000 <= rho.value() * m.value()
            < (p + 1) * 1_000_000_000,
        rho.value() * m.value() < 0 ==> p <= 0 && (p - 1) * 1_000_000_000 < rho.value() * m.value()
            <= p * 1_000_000_000,
        x * 1_000_000_000 <= m.value() * m.value() < (x + 1) * 1_000_000_000,
        y * 1_000_000_000 <= sigma * sigma < (y + 1) * 1_000_000_000,
        0 <= s,
        s * s <= (x + y) * 1_000_000_000 < (s + 1) * (s + 1),
        w * 1_000_000_000 <= b * (s - p) < (w + 1) * 1_000_000_000,
    ensures
        svi_in_range(a, b, rho, m, sigma) <==> -u64::MAX <= p <= u64::MAX && x + y <= u64::MAX && (
        s >= p ==> a + w <= u64::MAX),
{
    law_smile_is_signed(rho, m, sigma, p, x, y, s);
    let f = rho.magnitude as int;
    let g = m.magnitude as int;
    assert((-f) * (-g) == f * g && (-f) * g == -(f * g) && f * (-g) == -(f * g) && (-g) * (-g) == g
        * g && 0 <= f * g) by (nonlinear_arith)
        requires
            0 <= f,
            0 <= g,
    ;
    assert(rho.product_magnitude(m) == if p >= 0 {
        p
    } else {
        -p
    }) by {
        if p >= 0 {
            lemma_quotient(f * g, 1_000_000_000, p);
        } else {
            lemma_quotient(f * g, 1_000_000_000, -p);
        }
        lemma_quotient(f * g, 1_000_000_000, 0);
    }
    lemma_quotient(g * g, 1_000_000_000, x);
    lemma_quotient(sigma * sigma, 1_000_000_000, y);
    lemma_quotient(b * (s - p), 1_000_000_000, w);
}

/// A half-width can be computed just when it fits in 64 bits and the product before the
/// scaling in 128; `x`, `s` and `p` are the truncated steps, `h` is the half-width.
pub proof fn law_half_width_can_be_computed(
    atm_iv: u64,
    t_secs: u64,
    v: u64,
    k: u64,
    x: int,
    s: int,
    p: int,
    h: int,
)
    requires
        x * (365 * 24 * 3600) <= t_secs * 1_000_000_000 < (x + 1) * (365 * 24 * 3600),
        0 <= s,
        s * s <= x * 1_000_000_000 < (s + 1) * (s + 1),
        p * 1_000_000_000 <= atm_iv * s < (p + 1) * 1_000_000_000,
        h * 1_000_000_000_000_000_000 <= p * v * k < (h + 1) * 1_000_000_000_000_000_000,
    ensures
        delta_in_range(atm_iv, t_secs, v, k) <==> p * v <= u128::MAX && h <= u64::MAX,
{
    law_half_width_is_the_product(atm_iv, t_secs, v, k, x, s, p);
    let g = half_width(atm_iv, t_secs, v, k);
    assert(g == h) by (nonlinear_arith)
        requires
            h * 1_000_000_000_000_000_000 <= p * v * k < (h + 1) * 1_000_000_000_000_000_000,
            g * 1_000_000_000_000_000_000 <= p * v * k < (g + 1) * 1_000_000_000_000_000_000,
    ;
    lemma_quotient(t_secs * 1_000_000_000, 31_536_000, x);
    law_sqrt_is_floor(x * 1_000_000_000, s);
    lemma_quotient(atm_iv * s, 1_000_000_000, p);
}

/// Snapping can be done whenever the grid has a tick and the range, a tick wider, does not
/// leave 64 bits; a half-width below a tick needs no snapping, and a prediction that is too
/// low for the grid none either.
pub proof fn law_snapping_can_be_done(
    v: u64,
    delta_val: u64,
    min_strike: u64,
    tick_size: u64,
    max_strike: u64,
)
    ensures
        delta_val < tick_size ==> snap_in_range(v, delta_val, min_strike, tick_size, max_strike),
        delta_val + min_strike <= u64::MAX && v < delta_val + min_strike ==> snap_in_range(
            v,
            delta_val,
            min_strike,
            tick_size,
            max_strike,
        ),
        0 < tick_size && delta_val + min_strike <= u64::MAX && v + delta_val + tick_size
            <= u64::MAX ==> snap_in_range(v, delta_val, min_strike, tick_size, max_strike),
        snap_in_range(v, delta_val, min_strike, tick_size, max_strike) && delta_val >= tick_size
            ==> delta_val + min_strike <= u64::MAX,
        snap_in_range(v, delta_val, min_strike, tick_size, max_strike) && delta_val >= tick_size
            && v >= delta_val + min_strike ==> 0 < tick_size && v + delta_val <= u64::MAX,
{
    if 0 < tick_size && v >= delta_val + min_strike {
        lemma_grid(v + delta_val, min_strike as int, tick_size as int);
    }
}

/// A snapped range carries no volatility of its own.
pub proof fn law_snapping_knows_no_volatility(
    v: u64,
    delta_val: u64,
    min_strike: u64,
    tick_size: u64,
    max_strike: u64,
)
    ensures
        snapped(v, delta_val, min_strike, tick_size, max_strike) matches Ok(p) ==> p.atm_iv == 0,
{
}

/// What is said of a range that cannot be formed.
pub proof fn law_math_errors_say_why()
    ensures
        MathError::DeltaTooSmall.text() == "delta is smaller than the oracle tick size"@,
        MathError::BoundsExceeded.text() == "snapped range exceeds the oracle strike grid"@,
        MathError::NegativeVariance.text() == "SVI params yield negative implied variance"@,
{
}

/// With a tick, and a prediction that is not too low for the grid, snapping can be done
/// just when the upper end of the raw range fits in 64 bits and, if that is within the
/// bounds, so does the first grid point from it on, which is `hi` ticks above the lowest.
pub proof fn law_snapping_needs_the_next_grid_point(
    v: u64,
    delta_val: u64,
    min_strike: u64,
    tick_size: u64,
    max_strike: u64,
    hi: int,
)
    requires
        0 < tick_size <= delta_val,
        delta_val + min_strike <= v,
        (hi - 1) * tick_size < v + delta_val - min_strike <= hi * tick_size,
    ensures
        snap_in_range(v, delta_val, min_strike, tick_size, max_strike) <==> v + delta_val
            <= u64::MAX && (v + delta_val <= max_strike ==> min_strike + hi * tick_size
            <= u64::MAX),
{
    let t = tick_size as int;
    let o = v + delta_val - min_strike;
    lemma_grid(v + delta_val, min_strike as int, t);
    let up = o / t + if o % t > 0 {
        1int
    } else {
        0
    };
    assert(grid_ceil(v + delta_val, min_strike as int, t) == up * t + min_strike);
    assert(up == hi) by (nonlinear_arith)
        requires
            0 < t,
            o <= up * t < o + t,
            (hi - 1) * t < o <= hi * t,
    ;
}

} // verus!
