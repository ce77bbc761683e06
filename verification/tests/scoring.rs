use apex_backend::math::{
    acc_score, composite_weight, compute_delta, delta_evaluates, score_participant,
    snap_evaluates, snap_to_grid, sqrt_floor, sqrt_fp, svi_atm_iv, svi_evaluates, time_bonus,
    I64Fp, MathError, FLOAT_SCALING, FLOAT_SCALING_U128, MAX_TIME_BONUS, SECONDS_PER_YEAR,
};

const R: u64 = 103_200;
const FEE: u64 = 500;
const OPEN: u64 = 0;
const CUTOFF: u64 = 1_000_000;

#[test]
fn alice_scores() {
    // V=103_150, committed at pool open (T=1.0)
    let acc = acc_score(103_150, R, 600);
    assert_eq!(acc, 996_015_936);
    let tb = time_bonus(0, OPEN, CUTOFF);
    assert_eq!(tb, 2_500_000_000);
    assert_eq!(composite_weight(FEE, acc, tb), 1245);
}

#[test]
fn bob_scores() {
    // V=104_000, committed halfway (T=0.5)
    let acc = acc_score(104_000, R, 600);
    assert_eq!(acc, 928_505_106);
    let tb = time_bonus(500_000, OPEN, CUTOFF);
    assert_eq!(tb, 1_375_000_000);
    assert_eq!(composite_weight(FEE, acc, tb), 638);
}

#[test]
fn carol_scores() {
    // V=98_000, committed late (T=0.05)
    let acc = acc_score(98_000, R, 600);
    assert_eq!(acc, 665_335_994);
    let tb = time_bonus(950_000, OPEN, CUTOFF);
    assert_eq!(tb, 1_003_750_000);
    assert_eq!(composite_weight(FEE, acc, tb), 333);
}

#[test]
fn acc_score_outside_epsilon_is_zero() {
    // Carol's 503 bps error fails a 500 bps tolerance
    assert_eq!(acc_score(98_000, R, 500), 0);
    // exact prediction is perfect
    assert_eq!(acc_score(R, R, 500), FLOAT_SCALING);
}

#[test]
fn time_bonus_clamps() {
    assert_eq!(time_bonus(OPEN, OPEN, CUTOFF), MAX_TIME_BONUS); // at open
    assert_eq!(time_bonus(CUTOFF, OPEN, CUTOFF), FLOAT_SCALING); // at cutoff
    assert_eq!(time_bonus(CUTOFF + 5, OPEN, CUTOFF), FLOAT_SCALING); // past cutoff
    assert_eq!(time_bonus(100, 200, 200), FLOAT_SCALING); // degenerate window
}

#[test]
fn sqrt_fp_known_values() {
    assert_eq!(sqrt_fp(0), 0);
    assert_eq!(sqrt_fp(FLOAT_SCALING), FLOAT_SCALING); // sqrt(1.0) = 1.0
    assert_eq!(sqrt_fp(4 * FLOAT_SCALING), 2 * FLOAT_SCALING); // sqrt(4.0) = 2.0
    assert_eq!(sqrt_fp(250_000_000), 500_000_000); // sqrt(0.25) = 0.5
    assert_eq!(sqrt_fp(2 * FLOAT_SCALING), 1_414_213_562); // sqrt(2) trunc
}

#[test]
fn sqrt_floor_is_exact_floor() {
    for a in [0u128, 1, 2, 3, 4, 15, 16, 17, 1 << 40, (1 << 40) + 1, u64::MAX as u128] {
        let s = sqrt_floor(a);
        assert!(s * s <= a, "a={a}");
        assert!((s + 1) * (s + 1) > a, "a={a}");
    }
    // largest input sqrt_fp can produce: u64::MAX * 1e9
    let a = (u64::MAX as u128) * FLOAT_SCALING_U128;
    let s = sqrt_floor(a);
    assert!(s * s <= a && (s + 1) * (s + 1) > a);
}

#[test]
fn snap_to_grid_basic() {
    // V=61_200, delta=2_100, grid min=50_000 tick=500 max=80_000
    let p = snap_to_grid(61_200, 2_100, 50_000, 500, 80_000).unwrap();
    assert_eq!(p.lower_snapped, 59_000); // floor(59_100)
    assert_eq!(p.upper_snapped, 63_500); // ceil(63_300)
}

#[test]
fn snap_to_grid_errors() {
    assert_eq!(
        snap_to_grid(61_200, 400, 50_000, 500, 80_000),
        Err(MathError::DeltaTooSmall)
    );
    // lower bound underflows the grid
    assert_eq!(
        snap_to_grid(50_100, 500, 50_000, 500, 80_000),
        Err(MathError::BoundsExceeded)
    );
    // upper bound exceeds the grid
    assert_eq!(
        snap_to_grid(79_900, 500, 50_000, 500, 80_000),
        Err(MathError::BoundsExceeded)
    );
}

#[test]
fn svi_atm_iv_flat_smile() {
    // b=0 => implied_var = a; iv = sqrt(a). a=0.04 => iv=0.2
    let iv = svi_atm_iv(
        40_000_000,
        0,
        I64Fp::new(0, false),
        I64Fp::new(0, false),
        0,
    )
    .unwrap();
    assert_eq!(iv, 200_000_000);
}

#[test]
fn svi_atm_iv_with_skew() {
    // a=0.04, b=0.1, rho=-0.3, m=0.1, sigma=0.2
    // m^2 = 0.01, sigma^2 = 0.04 -> sqrt(0.05) = 0.223606797 (floor)
    assert_eq!(sqrt_fp(50_000_000), 223_606_797);
    // -rho*m = +0.03 (rho negative), inner = 0.253606797
    // b*inner = 0.025360679 (truncated), var = 0.065360679
    // iv = floor(sqrt(0.065360679)) = 0.255657346
    let iv = svi_atm_iv(
        40_000_000,
        100_000_000,
        I64Fp::new(300_000_000, true),
        I64Fp::new(100_000_000, false),
        200_000_000,
    )
    .unwrap();
    assert_eq!(iv, 255_657_346);
}

#[test]
fn compute_delta_one_year_atm() {
    // iv=0.5, T = 1 year, V=60_000, k=1.0 => delta = 30_000
    let d = compute_delta(500_000_000, SECONDS_PER_YEAR, 60_000, FLOAT_SCALING);
    assert_eq!(d, 30_000);
    // quarter year: sqrt(0.25)=0.5 => 15_000
    let d = compute_delta(500_000_000, SECONDS_PER_YEAR / 4, 60_000, FLOAT_SCALING);
    assert_eq!(d, 15_000);
}

#[test]
fn parlay_rule_zeroes_weight_on_any_miss() {
    // two legs: first perfect, second misses epsilon entirely
    let s = score_participant(&[R, 200_000], &[R, 100_000], 600, FEE, 0, OPEN, CUTOFF);
    assert_eq!(s.leg_hits, 1);
    assert_eq!(s.composite_weight, 0);
    // avg accuracy still recorded (1e9 + 0) / 2
    assert_eq!(s.avg_acc, FLOAT_SCALING / 2);

    // both legs hit -> weight present
    let s = score_participant(&[R, 100_100], &[R, 100_000], 600, FEE, 0, OPEN, CUTOFF);
    assert_eq!(s.leg_hits, 2);
    assert!(s.composite_weight > 0);
}

#[test]
fn no_legs_score_nothing() {
    let s = score_participant(&[], &[], 600, FEE, 0, OPEN, CUTOFF);
    assert_eq!(s.leg_hits, 0);
    assert_eq!(s.avg_acc, 0);
    assert_eq!(s.time_bonus, MAX_TIME_BONUS);
    assert_eq!(s.composite_weight, 0);
}

#[test]
fn a_hopeless_prediction_scores_nothing() {
    assert_eq!(acc_score(u64::MAX, 1, u64::MAX), 0);
    assert_eq!(acc_score(0, R, 9_999), 0);
    // an error of exactly 100 percent, within tolerance
    assert_eq!(acc_score(0, R, 10_000), 90_909_090);
}

#[test]
fn nearer_and_earlier_score_no_less() {
    assert!(acc_score(103_100, R, 600) >= acc_score(102_000, R, 600));
    assert!(time_bonus(10, OPEN, CUTOFF) >= time_bonus(20, OPEN, CUTOFF));
}

#[test]
fn negative_variance_is_reported() {
    // rho = m = 1 and sigma = 0: -1 + 1 is not negative; rho = 2 makes it so.
    assert_eq!(
        svi_atm_iv(
            0,
            FLOAT_SCALING,
            I64Fp::new(2 * FLOAT_SCALING, false),
            I64Fp::new(FLOAT_SCALING, false),
            0,
        ),
        Err(MathError::NegativeVariance)
    );
}

#[test]
fn arguments_out_of_range_are_told_apart() {
    assert!(svi_evaluates(1, 1, I64Fp::new(0, false), I64Fp::new(0, false), 1));
    assert!(!svi_evaluates(
        0,
        0,
        I64Fp::new(0, false),
        I64Fp::new(135_000_000_000_000, false),
        135_000_000_000_000,
    ));
    // a product that needs more than 64 bits
    let large = I64Fp::new(1 << 50, false);
    assert!(!svi_evaluates(0, 0, large, large, 0));
    assert!(!svi_evaluates(0, 0, I64Fp::new(1 << 60, false), I64Fp::new(1 << 40, false), 0));
    assert!(!svi_evaluates(0, u64::MAX, I64Fp::new(0, false), I64Fp::new(0, false), 2 * FLOAT_SCALING));
    // a half-width of 2^64, and one over a horizon of more than 2^64 / 1e9 years
    assert!(!delta_evaluates(FLOAT_SCALING, SECONDS_PER_YEAR, 1 << 63, 2 * FLOAT_SCALING));
    assert!(delta_evaluates(FLOAT_SCALING, 581_736_521_108_504_420, 1, FLOAT_SCALING));
    assert_eq!(compute_delta(FLOAT_SCALING, 581_736_521_108_504_420, 1, FLOAT_SCALING), 135_818);
    assert!(delta_evaluates(500_000_000, SECONDS_PER_YEAR, 60_000, FLOAT_SCALING));
    assert!(!delta_evaluates(u64::MAX, u64::MAX, u64::MAX, u64::MAX));
    assert!(snap_evaluates(61_200, 2_100, 50_000, 500, 80_000));
    assert!(!snap_evaluates(10, 0, 0, 0, 80_000));
}

#[test]
fn signs_multiply_and_negate() {
    let a = I64Fp::new(2 * FLOAT_SCALING, true);
    let b = I64Fp::new(3 * FLOAT_SCALING, false);
    assert_eq!(a.mul_scaled(b), I64Fp::new(6 * FLOAT_SCALING, true));
    assert_eq!(a.neg(), I64Fp::new(2 * FLOAT_SCALING, false));
    assert_eq!(a.to_i128(), -2_000_000_000);
    assert_eq!(a.square_scaled(), 4 * FLOAT_SCALING);
    assert_eq!(I64Fp::new(0, false).neg(), I64Fp::new(0, false));
}

#[test]
fn messages_of_math_errors() {
    assert_eq!(
        MathError::DeltaTooSmall.message(),
        "delta is smaller than the oracle tick size"
    );
    assert_eq!(
        MathError::BoundsExceeded.message(),
        "snapped range exceeds the oracle strike grid"
    );
    assert_eq!(
        MathError::NegativeVariance.message(),
        "SVI params yield negative implied variance"
    );
}
