//! Previews for someone about to commit: the strike range that a prediction would
//! get from the live oracle, and what committing now would score.

use vstd::prelude::*;

use crate::error::AppError;
use crate::json::{
    first_entry, json_decimal, json_int, json_opt_text, json_text, json_texts, member, Fields, Json,
    Value,
};
use crate::keeper::{oracle_list, oracles_of};
use crate::math::{
    acc_score, accuracy, bonus, composite_weight, compute_delta, delta_evaluates, delta_in_range,
    error_bps, fp_sqrt, half_width, law_accuracy_curve, law_bonus_halfway, law_earlier_is_no_worse,
    law_exact_prediction_is_perfect, law_range_is_formed, law_snapped_range_is_tight, law_time_bonus_bounds,
    law_variance_is_linear, law_weight_is_the_product, lemma_floor_sqrt_exists,
    lemma_half_width_is_natural, snap_evaluates, snap_in_range, snap_to_grid, snapped, svi_atm_iv,
    svi_evaluates, svi_in_range, svi_inner, svi_variance, time_bonus, weight, I64Fp, MathError,
    FLOAT_SCALING,
};
use crate::models::PoolRow;
use crate::sui::types::{
    law_text_list_reads_back, oracle, pool_config, ObjectData, OracleSvi, PoolConfigData,
};
use crate::text::{decimal, join, join3, u128_text, u64_text, view_all, view_opt};

verus! {

/// What a client asks to have previewed.
#[derive(Debug, Clone, Copy, PartialEq, Eq)]
pub struct ValueQuery {
    /// The predicted price, in the units of the oracle.
    pub value: u64,
    /// Which leg of the pool; the first unless it is said.
    pub leg: Option<usize>,
}

impl ValueQuery {
    pub open spec fn leg_index(&self) -> usize {
        match self.leg {
            Some(leg) => leg,
            None => 0,
        }
    }

    pub fn leg_or_first(&self) -> (r: usize)
        ensures
            r == self.leg_index(),
    {
        match self.leg {
            Some(leg) => leg,
            None => 0,
        }
    }
}

/// The oracle of a leg, if the pool has one.
pub open spec fn leg_oracle(pool: PoolRow, leg: usize) -> Option<Seq<char>> {
    let ids = oracle_list(view_opt(pool.oracle_ids));
    if leg < ids.len() {
        Some(ids[leg as int])
    } else {
        None
    }
}

/// Finds the oracle of a leg.
pub fn oracle_for(pool: &PoolRow, leg: usize) -> (r: Option<String>)
    ensures
        view_opt(r) == leg_oracle(*pool, leg),
{
    let ids = oracles_of(&pool.oracle_ids);
    if leg < ids.len() {
        assert(view_all(ids@)[leg as int] == ids@[leg as int]@);
        Some(ids[leg].clone())
    } else {
        None
    }
}

/// The oracle of a leg, or what to say if there is none.
pub fn require_oracle(pool: &PoolRow, leg: usize) -> (r: Result<String, AppError>)
    ensures
        match leg_oracle(*pool, leg) {
            Some(id) => r matches Ok(s) && s@ == id,
            None => r matches Err(AppError::BadRequest(m)) && m@ == "pool has no oracle for leg "@
                + decimal(leg as int) + " (oracle ids not yet indexed?)"@,
        },
{
    match oracle_for(pool, leg) {
        Some(id) => Ok(id),
        None => Err(
            AppError::BadRequest(
                join3(
                    "pool has no oracle for leg ",
                    u64_text(leg as u64).as_str(),
                    " (oracle ids not yet indexed?)",
                ),
            ),
        ),
    }
}

/// The pool configuration in its object, or what to say if it is not there.
pub fn parse_config(o: &ObjectData, config_id: &str) -> (r: Result<PoolConfigData, AppError>)
    ensures
        match pool_config(o@) {
            Some(cfg) => r == Ok::<PoolConfigData, AppError>(cfg),
            None => r matches Err(AppError::Upstream(m)) && m@ == "cannot parse PoolConfig "@
                + config_id@,
        },
{
    match PoolConfigData::from_object(o) {
        Some(cfg) => Ok(cfg),
        None => Err(AppError::Upstream(join("cannot parse PoolConfig ", config_id))),
    }
}

/// The oracle in its object, or what to say if it is not there.
pub fn parse_oracle(o: &ObjectData, oracle_id: &str) -> (r: Result<OracleSvi, AppError>)
    ensures
        match oracle(o@.fields) {
            Some(svi) => r matches Ok(s) && s@ == svi,
            None => r matches Err(AppError::Upstream(m)) && m@ == "cannot parse OracleSVI "@
                + oracle_id@,
        },
{
    match OracleSvi::from_fields(&o.fields) {
        Some(svi) => Ok(svi),
        None => Err(AppError::Upstream(join("cannot parse OracleSVI ", oracle_id))),
    }
}

// ---------------------------------------------------------------------------
// Range
// ---------------------------------------------------------------------------

pub open spec fn rho(svi: OracleSvi) -> I64Fp {
    I64Fp { magnitude: svi.svi_rho_mag, is_negative: svi.svi_rho_neg }
}

pub open spec fn log_moneyness(svi: OracleSvi) -> I64Fp {
    I64Fp { magnitude: svi.svi_m_mag, is_negative: svi.svi_m_neg }
}

/// The at-the-money volatility of an oracle.
pub open spec fn oracle_iv(svi: OracleSvi) -> Result<u64, MathError> {
    if svi_inner(rho(svi), log_moneyness(svi), svi.svi_sigma) < 0 {
        Err(MathError::NegativeVariance)
    } else {
        Ok(
            fp_sqrt(
                svi_variance(
                    svi.svi_a,
                    svi.svi_b,
                    rho(svi),
                    log_moneyness(svi),
                    svi.svi_sigma,
                ),
            ) as u64,
        )
    }
}

/// Whole seconds until an oracle expires.
pub open spec fn seconds_left(expiry_ms: u64, now_ms: u64) -> u64 {
    if expiry_ms <= now_ms {
        0
    } else {
        ((expiry_ms - now_ms) / 1000) as u64
    }
}

fn seconds_until(expiry_ms: u64, now_ms: u64) -> (r: u64)
    ensures
        r == seconds_left(expiry_ms, now_ms),
{
    expiry_ms.saturating_sub(now_ms) / 1_000
}

/// The half-width of the range of a prediction.
pub open spec fn range_delta(iv: u64, value: u64, svi: OracleSvi, cfg: PoolConfigData, now_ms: u64) -> u64 {
    half_width(iv, seconds_left(svi.expiry_ms, now_ms), value, cfg.k_scaling) as u64
}

/// No step of the preview leaves its integer width.
pub open spec fn range_in_range(value: u64, svi: OracleSvi, cfg: PoolConfigData, now_ms: u64) -> bool {
    &&& svi_in_range(svi.svi_a, svi.svi_b, rho(svi), log_moneyness(svi), svi.svi_sigma)
    &&& oracle_iv(svi) matches Ok(iv) ==> {
        &&& delta_in_range(iv, seconds_left(svi.expiry_ms, now_ms), value, cfg.k_scaling)
        &&& snap_in_range(
            value,
            range_delta(iv, value, svi, cfg, now_ms),
            cfg.min_strike,
            cfg.tick_size,
            cfg.max_strike,
        )
    }
}

/// The preview of the range, or why it cannot be represented.
pub open spec fn range_json(
    value: u64,
    leg: usize,
    oracle_id: Seq<char>,
    svi: OracleSvi,
    cfg: PoolConfigData,
    now_ms: u64,
) -> Result<Json, MathError> {
    match oracle_iv(svi) {
        Err(e) => Err(e),
        Ok(iv) => {
            let delta = range_delta(iv, value, svi, cfg, now_ms);
            match snapped(value, delta, cfg.min_strike, cfg.tick_size, cfg.max_strike) {
                Err(e) => Err(e),
                Ok(range) => Ok(
                    Json::Object(
                        seq![
                            ("value"@, json_decimal(value as int)),
                            ("leg"@, json_int(leg as int)),
                            ("oracle_id"@, json_text(oracle_id)),
                            ("underlying_asset"@, json_opt_text(view_opt(svi.underlying_asset))),
                            ("spot"@, opt_number(svi.spot)),
                            ("atm_iv"@, json_decimal(iv as int)),
                            ("delta"@, json_decimal(delta as int)),
                            ("lower_snapped"@, json_decimal(range.lower_snapped as int)),
                            ("upper_snapped"@, json_decimal(range.upper_snapped as int)),
                            (
                                "t_secs_to_expiry"@,
                                json_int(seconds_left(svi.expiry_ms, now_ms) as int),
                            ),
                        ],
                    ),
                ),
            }
        },
    }
}

/// A number as a string, or `null`.
pub open spec fn opt_number(n: Option<u64>) -> Json {
    match n {
        Some(n) => json_decimal(n as int),
        None => Json::Null,
    }
}

fn opt_number_value(n: Option<u64>) -> (r: Value)
    ensures
        r@ == opt_number(n),
{
    match n {
        Some(n) => Value::decimal(n),
        None => Value::Null,
    }
}

fn iv_of(svi: &OracleSvi) -> (r: Result<u64, MathError>)
    requires
        svi_in_range(svi.svi_a, svi.svi_b, rho(*svi), log_moneyness(*svi), svi.svi_sigma),
    ensures
        r == oracle_iv(*svi),
{
    svi_atm_iv(
        svi.svi_a,
        svi.svi_b,
        I64Fp::new(svi.svi_rho_mag, svi.svi_rho_neg),
        I64Fp::new(svi.svi_m_mag, svi.svi_m_neg),
        svi.svi_sigma,
    )
}

/// Whether [`range_preview`] can be computed.
pub fn range_evaluates(value: u64, svi: &OracleSvi, cfg: &PoolConfigData, now_ms: u64) -> (r: bool)
    ensures
        r == range_in_range(value, *svi, *cfg, now_ms),
{
    if !svi_evaluates(
        svi.svi_a,
        svi.svi_b,
        I64Fp::new(svi.svi_rho_mag, svi.svi_rho_neg),
        I64Fp::new(svi.svi_m_mag, svi.svi_m_neg),
        svi.svi_sigma,
    ) {
        return false;
    }
    match iv_of(svi) {
        Err(_) => true,
        Ok(iv) => {
            let t_secs = seconds_until(svi.expiry_ms, now_ms);
            if !delta_evaluates(iv, t_secs, value, cfg.k_scaling) {
                return false;
            }
            let delta = compute_delta(iv, t_secs, value, cfg.k_scaling);
            snap_evaluates(value, delta, cfg.min_strike, cfg.tick_size, cfg.max_strike)
        },
    }
}

/// The strike range that a prediction would get.
pub fn range_preview(
    value: u64,
    leg: usize,
    oracle_id: &str,
    svi: &OracleSvi,
    cfg: &PoolConfigData,
    now_ms: u64,
) -> (r: Result<Value, AppError>)
    requires
        range_in_range(value, *svi, *cfg, now_ms),
    ensures
        match range_json(value, leg, oracle_id@, *svi, *cfg, now_ms) {
            Ok(j) => r matches Ok(v) && v@ == j,
            Err(e) => r == Err::<Value, AppError>(AppError::Math(e)),
        },
{
    let iv = match iv_of(svi) {
        Ok(iv) => iv,
        Err(e) => return Err(AppError::Math(e)),
    };
    let t_secs = seconds_until(svi.expiry_ms, now_ms);
    let delta = compute_delta(iv, t_secs, value, cfg.k_scaling);
    let range = match snap_to_grid(
        value,
        delta,
        cfg.min_strike,
        cfg.tick_size,
        cfg.max_strike,
    ) {
        Ok(range) => range,
        Err(e) => return Err(AppError::Math(e)),
    };
    let mut o = Fields::new();
    o.put("value", Value::decimal(value));
    o.put("leg", Value::unsigned(leg as u64));
    o.put_text("oracle_id", oracle_id);
    o.put("underlying_asset", Value::opt_text(&svi.underlying_asset));
    o.put("spot", opt_number_value(svi.spot));
    o.put("atm_iv", Value::decimal(iv));
    o.put("delta", Value::decimal(delta));
    o.put("lower_snapped", Value::decimal(range.lower_snapped));
    o.put("upper_snapped", Value::decimal(range.upper_snapped));
    o.put("t_secs_to_expiry", Value::unsigned(t_secs));
    assert(o@ =~= range_json(value, leg, oracle_id@, *svi, *cfg, now_ms)->Ok_0->Object_0);
    Ok(o.build())
}

// ---------------------------------------------------------------------------
// Scoring
// ---------------------------------------------------------------------------

/// The time bonus of a commit now. A pool without a start opens now.
pub open spec fn bonus_now(pool: PoolRow, now_ms: i64) -> int {
    let t_open = match pool.start_time_ms {
        Some(t) => t,
        None => now_ms,
    };
    bonus(
        (now_ms as u64) as int,
        (t_open as u64) as int,
        (pool.commit_deadline_ms as u64) as int,
    )
}

/// The tolerance of the pool configuration. Without one nothing is out of tolerance,
/// so that the score is the raw curve.
pub open spec fn tolerance(cfg: Option<PoolConfigData>) -> u64 {
    match cfg {
        Some(cfg) => cfg.epsilon_bps,
        None => u64::MAX,
    }
}

/// The live spot price, if there is one, and the tolerance.
pub fn spot_hint(svi: &OracleSvi, cfg: Option<PoolConfigData>) -> (r: Option<(u64, u64)>)
    ensures
        r == match svi.spot {
            Some(spot) => Some((spot, tolerance(cfg))),
            None => None,
        },
{
    let epsilon_bps: u64 = match cfg {
        Some(cfg) => cfg.epsilon_bps,
        None => u64::MAX,
    };
    match svi.spot {
        Some(spot) => Some((spot, epsilon_bps)),
        None => None,
    }
}

/// The preview of the score. `hint` is the live spot price, where it is known, and the
/// tolerance.
pub open spec fn scoring_json(
    pool: PoolRow,
    value: u64,
    now_ms: i64,
    hint: Option<(u64, u64)>,
) -> Json {
    let tb = bonus_now(pool, now_ms);
    let max_weight = weight((pool.entry_fee_amount as u64) as int, 1_000_000_000, tb);
    Json::Object(
        seq![
            ("value"@, json_decimal(value as int)),
            ("commit_now_time_bonus"@, json_decimal(tb)),
            ("max_composite_weight"@, json_decimal(max_weight)),
            ("entry_fee"@, json_decimal(pool.entry_fee_amount as int)),
            ("commit_deadline_ms"@, json_int(pool.commit_deadline_ms as int)),
            (
                "spot"@,
                match hint {
                    Some((spot, _)) => json_decimal(spot as int),
                    None => Json::Null,
                },
            ),
            (
                "acc_score_vs_spot"@,
                match hint {
                    Some((spot, epsilon_bps)) => json_decimal(
                        accuracy(value as int, spot as int, epsilon_bps as int),
                    ),
                    None => Json::Null,
                },
            ),
            ("note"@, json_text("final score depends on the oracle settlement price"@)),
        ],
    )
}

/// What committing now would score, at best and against the live price.
pub fn scoring_preview(
    pool: &PoolRow,
    value: u64,
    now_ms: i64,
    hint: Option<(u64, u64)>,
) -> (r: Value)
    requires
        hint matches Some((spot, _)) ==> spot != 0,
    ensures
        r@ == scoring_json(*pool, value, now_ms, hint),
{
    let t_open: i64 = match pool.start_time_ms {
        Some(t) => t,
        None => now_ms,
    };
    let tb = time_bonus(now_ms as u64, t_open as u64, pool.commit_deadline_ms as u64);
    let fee: u64 = pool.entry_fee_amount as u64;
    assert(fee * FLOAT_SCALING / 1_000_000_000 == fee);
    assert(fee * tb <= u128::MAX) by (nonlinear_arith)
        requires
            fee <= u64::MAX,
            tb <= 2_500_000_000,
    ;
    let max_weight = composite_weight(fee, FLOAT_SCALING, tb);
    let (spot, acc): (Value, Value) = match hint {
        Some((spot, epsilon_bps)) => (
            Value::decimal(spot),
            Value::decimal(acc_score(value, spot, epsilon_bps)),
        ),
        None => (Value::Null, Value::Null),
    };
    let mut o = Fields::new();
    o.put("value", Value::decimal(value));
    o.put("commit_now_time_bonus", Value::decimal(tb));
    o.put_text("max_composite_weight", u128_text(max_weight).as_str());
    o.put("entry_fee", Value::signed_decimal(pool.entry_fee_amount));
    o.put("commit_deadline_ms", Value::signed(pool.commit_deadline_ms));
    o.put("spot", spot);
    o.put("acc_score_vs_spot", acc);
    o.put_text("note", "final score depends on the oracle settlement price");
    assert(o@ =~= scoring_json(*pool, value, now_ms, hint)->Object_0);
    o.build()
}

/// The names differ.
proof fn lemma_range_names()
    ensures
        "value"@.len() == 5,
        "leg"@.len() == 3,
        "oracle_id"@.len() == 9,
        "underlying_asset"@.len() == 16,
        "spot"@.len() == 4,
        "atm_iv"@.len() == 6,
        "delta"@.len() == 5,
        "lower_snapped"@.len() == 13,
        "upper_snapped"@.len() == 13,
        "t_secs_to_expiry"@.len() == 16,
        "value"@[0] != "delta"@[0],
        "underlying_asset"@[0] != "t_secs_to_expiry"@[0],
        "lower_snapped"@[0] != "upper_snapped"@[0],
{
    reveal_strlit("value");
    reveal_strlit("leg");
    reveal_strlit("oracle_id");
    reveal_strlit("underlying_asset");
    reveal_strlit("spot");
    reveal_strlit("atm_iv");
    reveal_strlit("delta");
    reveal_strlit("lower_snapped");
    reveal_strlit("upper_snapped");
    reveal_strlit("t_secs_to_expiry");
}

/// The names differ.
proof fn lemma_score_names()
    ensures
        "value"@.len() == 5,
        "commit_now_time_bonus"@.len() == 21,
        "max_composite_weight"@.len() == 20,
        "entry_fee"@.len() == 9,
        "commit_deadline_ms"@.len() == 18,
        "spot"@.len() == 4,
        "acc_score_vs_spot"@.len() == 17,
        "note"@.len() == 4,
        "spot"@[0] != "note"@[0],
{
    reveal_strlit("value");
    reveal_strlit("commit_now_time_bonus");
    reveal_strlit("max_composite_weight");
    reveal_strlit("entry_fee");
    reveal_strlit("commit_deadline_ms");
    reveal_strlit("spot");
    reveal_strlit("acc_score_vs_spot");
    reveal_strlit("note");
}

/// A commit at the start of the pool or before earns the full bonus of two and a half,
/// one halfway to the deadline one and three eighths, one from the deadline on none.
pub proof fn law_preview_bonus_runs_from_the_start(pool: PoolRow, start: i64, now_ms: i64)
    requires
        pool.start_time_ms == Some(start),
        0 <= start < pool.commit_deadline_ms,
        0 <= now_ms,
    ensures
        now_ms <= start ==> bonus_now(pool, now_ms) == 2_500_000_000,
        2 * (now_ms - start) == pool.commit_deadline_ms - start ==> bonus_now(pool, now_ms)
            == 1_375_000_000,
        now_ms >= pool.commit_deadline_ms ==> bonus_now(pool, now_ms) == 1_000_000_000,
        1_000_000_000 <= bonus_now(pool, now_ms) <= 2_500_000_000,
{
    law_time_bonus_bounds(now_ms as int, start as int, pool.commit_deadline_ms as int);
    if 2 * (now_ms - start) == pool.commit_deadline_ms - start {
        law_bonus_halfway(start as int, now_ms - start);
    }
}

/// Who waits is never shown a larger bonus.
pub proof fn law_preview_bonus_falls(pool: PoolRow, start: i64, sooner: i64, later: i64)
    requires
        pool.start_time_ms == Some(start),
        0 <= start,
        0 <= pool.commit_deadline_ms,
        0 <= sooner <= later,
    ensures
        bonus_now(pool, sooner) >= bonus_now(pool, later),
{
    law_earlier_is_no_worse(
        sooner as int,
        later as int,
        start as int,
        pool.commit_deadline_ms as int,
    );
}

/// A pool whose start is not known opens now: until its deadline the bonus is full.
pub proof fn law_preview_bonus_without_a_start(pool: PoolRow, now_ms: i64)
    requires
        pool.start_time_ms is None,
        0 <= now_ms,
        0 <= pool.commit_deadline_ms,
    ensures
        now_ms < pool.commit_deadline_ms ==> bonus_now(pool, now_ms) == 2_500_000_000,
        now_ms >= pool.commit_deadline_ms ==> bonus_now(pool, now_ms) == 1_000_000_000,
{
    law_time_bonus_bounds(now_ms as int, now_ms as int, pool.commit_deadline_ms as int);
}

/// The preview shows the bonus of a commit now, and as the best weight the entry fee
/// times that bonus, truncated to `w`.
pub proof fn law_preview_shows_the_best_weight(
    pool: PoolRow,
    value: u64,
    now_ms: i64,
    hint: Option<(u64, u64)>,
    w: int,
)
    requires
        0 <= pool.entry_fee_amount,
        w * 1_000_000_000 <= pool.entry_fee_amount * bonus_now(pool, now_ms) < (w + 1)
            * 1_000_000_000,
    ensures
        ({
            let answer = scoring_json(pool, value, now_ms, hint);
            &&& member(answer, "value"@) == Some(json_decimal(value as int))
            &&& member(answer, "commit_now_time_bonus"@) == Some(
                json_decimal(bonus_now(pool, now_ms)),
            )
            &&& member(answer, "max_composite_weight"@) == Some(json_decimal(w))
            &&& member(answer, "entry_fee"@) == Some(json_decimal(pool.entry_fee_amount as int))
            &&& member(answer, "commit_deadline_ms"@) == Some(
                json_int(pool.commit_deadline_ms as int),
            )
        }),
{
    reveal_with_fuel(first_entry, 9);
    lemma_score_names();
    let fee = pool.entry_fee_amount as int;
    law_weight_is_the_product(fee, 1_000_000_000, bonus_now(pool, now_ms), fee);
}

/// Where the live price is known, the preview shows it and what the prediction would
/// score against it: in full if it is met, nothing if it is missed by more than the
/// tolerance. Without it both are `null`.
pub proof fn law_preview_scores_against_the_price(
    pool: PoolRow,
    value: u64,
    now_ms: i64,
    spot: u64,
    epsilon_bps: u64,
)
    requires
        spot != 0,
    ensures
        ({
            let answer = scoring_json(pool, value, now_ms, Some((spot, epsilon_bps)));
            let score = member(answer, "acc_score_vs_spot"@);
            &&& member(answer, "spot"@) == Some(json_decimal(spot as int))
            &&& value == spot ==> score == Some(json_decimal(1_000_000_000))
            &&& (value - spot) * 10_000 >= (epsilon_bps + 1) * spot || (spot - value) * 10_000 >= (
            epsilon_bps + 1) * spot ==> score == Some(json_decimal(0))
            &&& score == Some(
                json_decimal(accuracy(value as int, spot as int, epsilon_bps as int)),
            )
        }),
        member(scoring_json(pool, value, now_ms, None), "spot"@) == Some(Json::Null),
        member(scoring_json(pool, value, now_ms, None), "acc_score_vs_spot"@) == Some(Json::Null),
{
    reveal_with_fuel(first_entry, 9);
    lemma_score_names();
    let r = spot as int;
    let off = if value >= spot {
        value - spot
    } else {
        spot - value
    };
    if value == spot {
        law_exact_prediction_is_perfect(r, epsilon_bps as int);
    }
    let e = error_bps(value as int, r);
    assert(e * r <= off * 10_000 < (e + 1) * r) by (nonlinear_arith)
        requires
            e == (off * 10_000) / r,
            0 < r,
            0 <= off,
    ;
    if off * 10_000 >= (epsilon_bps + 1) * r {
        assert(e > epsilon_bps) by (nonlinear_arith)
            requires
                (epsilon_bps + 1) * r <= off * 10_000 < (e + 1) * r,
                0 < r,
        ;
        law_accuracy_curve(value as int, r, epsilon_bps as int, off, e);
    }
    assert((value - spot) * 10_000 >= (epsilon_bps + 1) * spot || (spot - value) * 10_000 >= (
    epsilon_bps + 1) * spot ==> off * 10_000 >= (epsilon_bps + 1) * r) by (nonlinear_arith)
        requires
            r == spot,
            off == value - spot || off == spot - value,
            0 <= off,
            0 <= epsilon_bps,
            0 < r,
    ;
}

/// The tolerance is that of the configuration; without one no error is out of it.
pub proof fn law_tolerance(cfg: PoolConfigData)
    ensures
        tolerance(Some(cfg)) == cfg.epsilon_bps,
        tolerance(None) == u64::MAX,
{
}

/// Leg `n` has the `n`th oracle that the pool lists, counted from zero, and no other.
pub proof fn law_legs_have_their_oracles(pool: PoolRow, ids: Seq<Seq<char>>, leg: usize)
    requires
        view_opt(pool.oracle_ids) == Some(json_texts(ids)),
    ensures
        leg < ids.len() ==> leg_oracle(pool, leg) == Some(ids[leg as int]),
        leg >= ids.len() ==> leg_oracle(pool, leg) is None,
{
    law_text_list_reads_back(ids);
}

/// The whole seconds until an oracle expires; none once it has.
pub proof fn law_seconds_until_expiry(expiry_ms: u64, now_ms: u64)
    ensures
        expiry_ms <= now_ms ==> seconds_left(expiry_ms, now_ms) == 0,
        expiry_ms >= now_ms ==> seconds_left(expiry_ms, now_ms) * 1000 <= expiry_ms - now_ms < (
        seconds_left(expiry_ms, now_ms) + 1) * 1000,
{
}

/// The volatility of an oracle is the root of the variance that its own parameters
/// give: level, slope, skew, shift and curvature. It is refused just when the inner
/// term of the smile is negative.
pub proof fn law_volatility_of_the_oracle(svi: OracleSvi)
    requires
        svi_in_range(svi.svi_a, svi.svi_b, rho(svi), log_moneyness(svi), svi.svi_sigma),
    ensures
        ({
            let skew = I64Fp { magnitude: svi.svi_rho_mag, is_negative: svi.svi_rho_neg };
            let shift = I64Fp { magnitude: svi.svi_m_mag, is_negative: svi.svi_m_neg };
            let inner = svi_inner(skew, shift, svi.svi_sigma);
            let variance = svi_variance(svi.svi_a, svi.svi_b, skew, shift, svi.svi_sigma);
            &&& inner < 0 <==> oracle_iv(svi) == Err::<u64, MathError>(MathError::NegativeVariance)
            &&& inner >= 0 ==> (oracle_iv(svi) matches Ok(iv) && iv * iv <= variance * 1_000_000_000
                < (iv + 1) * (iv + 1))
        }),
{
    let variance = svi_variance(
        svi.svi_a,
        svi.svi_b,
        rho(svi),
        log_moneyness(svi),
        svi.svi_sigma,
    );
    let inner = svi_inner(rho(svi), log_moneyness(svi), svi.svi_sigma);
    if inner >= 0 {
        law_variance_is_linear(
            svi.svi_a,
            svi.svi_b,
            rho(svi),
            log_moneyness(svi),
            svi.svi_sigma,
        );
        let b = svi.svi_b as int;
        assert(0 <= b * inner) by (nonlinear_arith)
            requires
                0 <= b,
                0 <= inner,
        ;
        lemma_floor_sqrt_exists(variance * 1_000_000_000);
        let s = fp_sqrt(variance);
        assert(s <= u64::MAX) by (nonlinear_arith)
            requires
                0 <= s,
                s * s <= variance * 1_000_000_000,
                variance <= u64::MAX,
        ;
    }
}

/// The range that is shown covers the prediction by the half-width on either side, on
/// the grid of the configuration and less than a tick wider; the half-width follows from
/// the volatility, the time left, the prediction and the scaling of the configuration.
pub proof fn law_range_is_shown(
    value: u64,
    leg: usize,
    oracle_id: Seq<char>,
    svi: OracleSvi,
    cfg: PoolConfigData,
    now_ms: u64,
)
    requires
        range_in_range(value, svi, cfg, now_ms),
        range_json(value, leg, oracle_id, svi, cfg, now_ms) is Ok,
    ensures
        ({
            let j = range_json(value, leg, oracle_id, svi, cfg, now_ms)->Ok_0;
            let iv = oracle_iv(svi)->Ok_0;
            let d = half_width(iv, seconds_left(svi.expiry_ms, now_ms), value, cfg.k_scaling);
            let tick = cfg.tick_size as int;
            &&& oracle_iv(svi) is Ok
            &&& member(j, "value"@) == Some(json_decimal(value as int))
            &&& member(j, "leg"@) == Some(json_int(leg as int))
            &&& member(j, "oracle_id"@) == Some(json_text(oracle_id))
            &&& member(j, "underlying_asset"@) == Some(json_opt_text(view_opt(svi.underlying_asset)))
            &&& member(j, "spot"@) == Some(
                match svi.spot {
                    Some(n) => json_decimal(n as int),
                    None => Json::Null,
                },
            )
            &&& member(j, "atm_iv"@) == Some(json_decimal(iv as int))
            &&& member(j, "delta"@) == Some(json_decimal(d))
            &&& member(j, "t_secs_to_expiry"@) == Some(
                json_int(seconds_left(svi.expiry_ms, now_ms) as int),
            )
            &&& tick <= d
            &&& exists|lo: int, hi: int|
                #![trigger json_decimal(lo), json_decimal(hi)]
                {
                    &&& member(j, "lower_snapped"@) == Some(json_decimal(lo))
                    &&& member(j, "upper_snapped"@) == Some(json_decimal(hi))
                    &&& cfg.min_strike <= lo <= value - d < lo + tick
                    &&& hi - tick < value + d <= hi <= cfg.max_strike
                    &&& (lo - cfg.min_strike) % tick == 0
                    &&& (hi - cfg.min_strike) % tick == 0
                }
        }),
{
    reveal_with_fuel(first_entry, 11);
    lemma_range_names();
    let j = range_json(value, leg, oracle_id, svi, cfg, now_ms)->Ok_0;
    let iv = oracle_iv(svi)->Ok_0;
    let d = range_delta(iv, value, svi, cfg, now_ms);
    let p = snapped(value, d, cfg.min_strike, cfg.tick_size, cfg.max_strike)->Ok_0;
    law_snapped_range_is_tight(value, d, cfg.min_strike, cfg.tick_size, cfg.max_strike);
    lemma_half_width_is_natural(iv, seconds_left(svi.expiry_ms, now_ms), value, cfg.k_scaling);
    assert(member(j, "lower_snapped"@) == Some(json_decimal(p.lower_snapped as int)));
    assert(member(j, "upper_snapped"@) == Some(json_decimal(p.upper_snapped as int)));
}

/// A range is refused for a negative variance, for a half-width below a tick, or because
/// no range of grid points around the raw one lies within the grid; else it is shown.
pub proof fn law_range_is_refused(
    value: u64,
    leg: usize,
    oracle_id: Seq<char>,
    svi: OracleSvi,
    cfg: PoolConfigData,
    now_ms: u64,
    below: int,
    above: int,
)
    requires
        range_in_range(value, svi, cfg, now_ms),
        0 < cfg.tick_size,
        0 <= below,
    ensures
        ({
            let shown = range_json(value, leg, oracle_id, svi, cfg, now_ms);
            let d = half_width(
                oracle_iv(svi)->Ok_0,
                seconds_left(svi.expiry_ms, now_ms),
                value,
                cfg.k_scaling,
            );
            &&& oracle_iv(svi) is Err <==> shown == Err::<Json, MathError>(
                MathError::NegativeVariance,
            )
            &&& oracle_iv(svi) is Ok && d < cfg.tick_size ==> shown == Err::<Json, MathError>(
                MathError::DeltaTooSmall,
            )
            &&& oracle_iv(svi) is Ok && d >= cfg.tick_size && shown is Err ==> shown == Err::<
                Json,
                MathError,
            >(MathError::BoundsExceeded)
            &&& oracle_iv(svi) is Ok && d >= cfg.tick_size && cfg.min_strike + below * cfg.tick_size
                <= value - d && value + d <= cfg.min_strike + above * cfg.tick_size
                <= cfg.max_strike ==> shown is Ok
        }),
{
    if oracle_iv(svi) is Ok {
        let iv = oracle_iv(svi)->Ok_0;
        let secs = seconds_left(svi.expiry_ms, now_ms);
        lemma_half_width_is_natural(iv, secs, value, cfg.k_scaling);
        law_range_is_formed(
            value,
            range_delta(iv, value, svi, cfg, now_ms),
            cfg.min_strike,
            cfg.tick_size,
            cfg.max_strike,
            below,
            above,
        );
    }
}

/// The bonus that is shown is that of a commit now in the window from the start of the
/// pool to its commit deadline.
pub proof fn law_preview_bonus_is_that_of_the_window(pool: PoolRow, start: i64, now_ms: i64)
    requires
        pool.start_time_ms == Some(start),
        0 <= start,
        0 <= pool.commit_deadline_ms,
        0 <= now_ms,
    ensures
        bonus_now(pool, now_ms) == bonus(
            now_ms as int,
            start as int,
            pool.commit_deadline_ms as int,
        ),
{
}

/// A query is about the leg that it names, or the first.
pub proof fn law_queries_name_a_leg(q: ValueQuery, leg: usize)
    ensures
        q.leg == Some(leg) ==> q.leg_index() == leg,
        q.leg is None ==> q.leg_index() == 0,
{
}

/// The range of a prediction can be previewed just when the smile can be evaluated, and,
/// where there is a volatility, the half-width can be computed and the range snapped.
pub proof fn law_range_can_be_previewed(
    value: u64,
    svi: OracleSvi,
    cfg: PoolConfigData,
    now_ms: u64,
)
    ensures
        ({
            let skew = I64Fp { magnitude: svi.svi_rho_mag, is_negative: svi.svi_rho_neg };
            let shift = I64Fp { magnitude: svi.svi_m_mag, is_negative: svi.svi_m_neg };
            let secs = seconds_left(svi.expiry_ms, now_ms);
            let smile = svi_in_range(svi.svi_a, svi.svi_b, skew, shift, svi.svi_sigma);
            &&& range_in_range(value, svi, cfg, now_ms) ==> smile
            &&& smile && oracle_iv(svi) is Err ==> range_in_range(value, svi, cfg, now_ms)
            &&& oracle_iv(svi) matches Ok(iv) ==> {
                let d = half_width(iv, secs, value, cfg.k_scaling);
                &&& range_in_range(value, svi, cfg, now_ms) ==> delta_in_range(
                    iv,
                    secs,
                    value,
                    cfg.k_scaling,
                )
                &&& smile && delta_in_range(iv, secs, value, cfg.k_scaling) ==> (range_in_range(
                    value,
                    svi,
                    cfg,
                    now_ms,
                ) <==> snap_in_range(
                    value,
                    d as u64,
                    cfg.min_strike,
                    cfg.tick_size,
                    cfg.max_strike,
                ))
            }
        }),
{
}

} // verus!
