use apex_backend::api::admin::{
    authorize, bad_key, call_args, check_bearer, config_version, create_pool, plan_evaluates,
    plan_pool, CreatePoolRequest,
};
use apex_backend::api::leaderboard::{
    leaderboard, plan_leaderboard, LeaderboardPlan, LeaderboardQuery, LeaderboardRow,
};
use apex_backend::api::pools::{
    detail, fetch_pool, list, normalize_state, participants, plan_list, results, ListPlan,
    ListQuery,
};
use apex_backend::api::preview::{
    oracle_for, parse_config, parse_oracle, range_evaluates, range_preview, require_oracle,
    scoring_preview, spot_hint, ValueQuery,
};
use apex_backend::api::stats::{health, hero};
use apex_backend::api::users::{
    accuracy_history, best_streak, frs_profile, pool_history, pool_status, rank, PoolHistoryRow,
    SettlementRow,
};
use apex_backend::api::{ConfigCache, OracleCache, CONFIG_TTL, ORACLE_TTL};
use apex_backend::config::{Config, ConfigError, Vars};
use apex_backend::error::AppError;
use apex_backend::json::{Number, Value};
use apex_backend::keeper::tx::CallArg;
use apex_backend::math::MathError;
use apex_backend::models::{tier_label, FrsProfileRow, ParticipantRow, PoolRow};
use apex_backend::sui::client::Execution;
use apex_backend::sui::types::{ObjectData, OracleSvi, PoolConfigData};

fn text(s: &str) -> Value {
    Value::String(s.to_string())
}

fn num(n: i64) -> Value {
    if n < 0 {
        Value::Number(Number::NegInt(n))
    } else {
        Value::Number(Number::PosInt(n as u64))
    }
}

fn object(entries: Vec<(&str, Value)>) -> Value {
    Value::Object(entries.into_iter().map(|(k, v)| (k.to_string(), v)).collect())
}

// ---------------------------------------------------------------------------
// Configuration
// ---------------------------------------------------------------------------

fn vars() -> Vars {
    Vars {
        port: None,
        database_url: Some("postgres://db".into()),
        sui_jsonrpc_url: None,
        apex_package_id: None,
        pool_config_id: None,
        keeper_cap_id: None,
        sui_keeper_key: None,
        admin_secret: None,
        pool_oracle_ids: None,
    }
}

#[test]
fn a_database_is_enough_to_start() {
    let c = Config::from_env(vars()).unwrap();
    assert_eq!(c.port, 8080);
    assert_eq!(c.database_url, "postgres://db");
    assert_eq!(c.sui_jsonrpc_url, "https://fullnode.testnet.sui.io:443");
    assert!(!c.indexer_enabled());
    assert!(!c.keeper_enabled());
    assert_eq!(c.pool_oracle_ids, None);
}

#[test]
fn blank_variables_are_not_set() {
    let c = Config::from_env(Vars {
        port: Some(" \t".into()),
        apex_package_id: Some("".into()),
        sui_jsonrpc_url: Some(" http://node ".into()),
        pool_oracle_ids: Some(" 0x1, ,0x2 ,".into()),
        ..vars()
    })
    .unwrap();
    assert_eq!(c.port, 8080);
    assert_eq!(c.apex_package_id, None);
    // a variable that is set is taken as it is
    assert_eq!(c.sui_jsonrpc_url, " http://node ");
    assert_eq!(c.pool_oracle_ids, Some(vec!["0x1".to_string(), "0x2".to_string()]));
}

#[test]
fn the_port_is_checked_before_the_database() {
    let with = |port: &str, database_url: Option<String>| {
        Config::from_env(Vars {
            port: Some(port.into()),
            database_url,
            ..vars()
        })
    };
    assert_eq!(with("3000", Some("d".into())).unwrap().port, 3000);
    assert_eq!(with("+80", Some("d".into())).unwrap().port, 80);
    for bad in ["x", "-1", "80 ", "1x", "99999x", "65536"] {
        let e = with(bad, None).unwrap_err();
        assert_eq!(e.message(), bad.parse::<u16>().unwrap_err().to_string(), "{bad}");
    }
    assert_eq!(with("x", None).unwrap_err(), ConfigError::PortInvalid);
    assert_eq!(with("65536", None).unwrap_err(), ConfigError::PortTooLarge);
    let e = with("1", Some("  ".into())).unwrap_err();
    assert_eq!(e, ConfigError::DatabaseUrlMissing);
    assert_eq!(e.message(), "DATABASE_URL is required");
}

fn full_config() -> Config {
    Config::from_env(Vars {
        apex_package_id: Some("0xab".into()),
        pool_config_id: Some("0xc0".into()),
        keeper_cap_id: Some("0xca".into()),
        sui_keeper_key: Some("key".into()),
        admin_secret: Some("hush".into()),
        pool_oracle_ids: Some("0x1".into()),
        ..vars()
    })
    .unwrap()
}

#[test]
fn the_keeper_needs_all_four() {
    assert!(full_config().keeper_enabled());
    assert!(full_config().indexer_enabled());
    for missing in 0..4 {
        let mut c = full_config();
        match missing {
            0 => c.apex_package_id = None,
            1 => c.pool_config_id = None,
            2 => c.keeper_cap_id = None,
            _ => c.sui_keeper_key = None,
        }
        assert!(!c.keeper_enabled());
    }
}

// ---------------------------------------------------------------------------
// Errors
// ---------------------------------------------------------------------------

#[test]
fn errors_have_code_status_and_message() {
    let s = |t: &str| t.to_string();
    for (e, code, status, message) in [
        (AppError::NotFound(s("gone")), "not_found", 404, "gone"),
        (AppError::BadRequest(s("what")), "bad_request", 400, "what"),
        (
            AppError::ChainNotConfigured,
            "chain_not_configured",
            503,
            "chain integration is not configured on this server",
        ),
        (AppError::Unauthorized, "unauthorized", 401, "unauthorized"),
        (
            AppError::Upstream(s("down")),
            "upstream_error",
            502,
            "upstream RPC error: down",
        ),
        (
            AppError::Db(s("password in here")),
            "internal_error",
            500,
            "internal database error",
        ),
        (
            AppError::Math(MathError::DeltaTooSmall),
            "unrepresentable_range",
            422,
            "math error: delta is smaller than the oracle tick size",
        ),
        (AppError::Internal(s("broke")), "internal_error", 500, "broke"),
    ] {
        assert_eq!(e.code_and_status(), (code, status));
        assert_eq!(e.message(), message);
        assert_eq!(
            e.body(),
            object(vec![(
                "error",
                object(vec![("code", text(code)), ("message", text(message))]),
            )])
        );
    }
}

// ---------------------------------------------------------------------------
// Pools
// ---------------------------------------------------------------------------

fn pool_row() -> PoolRow {
    PoolRow {
        pool_id: "0xp".into(),
        leg_count: 1,
        state: "Open".into(),
        start_time_ms: Some(0),
        commit_deadline_ms: 1_000_000,
        reveal_deadline_ms: 2_000_000,
        oracle_expiry_ms: None,
        entry_fee_amount: 500_000_000,
        oracle_ids: Some(Value::Array(vec![text("0x1")])),
        oracle_results: None,
        participant_count: 3,
        reveal_count: 2,
        forfeited_count: 1,
        prize_pool: 9_007_199_254_740_993,
        total_weight: "77".into(),
        total_prize: Some(-5),
        initial_shared_version: Some(4),
        predictions_table_id: None,
    }
}

fn summary_entries() -> Vec<(&'static str, Value)> {
    vec![
        ("pool_id", text("0xp")),
        ("state", text("Open")),
        ("leg_count", num(1)),
        ("start_time_ms", num(0)),
        ("commit_deadline_ms", num(1_000_000)),
        ("reveal_deadline_ms", num(2_000_000)),
        ("oracle_expiry_ms", Value::Null),
        ("entry_fee_amount", text("500000000")),
        ("prize_pool", text("9007199254740993")),
        ("participant_count", num(3)),
        ("reveal_count", num(2)),
    ]
}

fn detail_value() -> Value {
    let mut entries = summary_entries();
    entries.extend([
        ("forfeited_count", num(1)),
        ("total_weight", text("77")),
        ("total_prize", text("-5")),
        ("oracle_ids", Value::Array(vec![text("0x1")])),
        ("oracle_results", Value::Null),
    ]);
    object(entries)
}

#[test]
fn pools_are_listed_and_shown() {
    assert_eq!(
        list(&vec![pool_row()]),
        object(vec![("pools", Value::Array(vec![object(summary_entries())]))])
    );
    assert_eq!(detail(&pool_row()), detail_value());
    assert!(fetch_pool(Some(pool_row()), "0xp").is_ok());
    assert_eq!(
        fetch_pool(None, "0xq").unwrap_err(),
        AppError::NotFound("pool 0xq not found".into())
    );
}

#[test]
fn state_filters_are_normalized() {
    for (given, state) in [
        ("open", "Open"),
        ("CLOSED", "Closed"),
        ("Reveal", "Closed"),
        ("locked", "Locked"),
        ("Scored", "Scored"),
        ("distributed", "Distributed"),
        ("settled", "Distributed"),
    ] {
        assert_eq!(normalize_state(given).unwrap(), state);
    }
    assert_eq!(
        normalize_state("OTHER"),
        Err(AppError::BadRequest("unknown pool state filter: other".into()))
    );
}

#[test]
fn list_queries_are_bounded() {
    let plan = |limit, offset| {
        plan_list(&ListQuery {
            state: Some("OPEN".into()),
            limit,
            offset,
        })
        .unwrap()
    };
    assert_eq!(
        plan(None, None),
        ListPlan {
            state: Some("Open".into()),
            limit: 50,
            offset: 0
        }
    );
    assert_eq!(plan(Some(0), Some(-3)).limit, 1);
    assert_eq!(plan(Some(0), Some(-3)).offset, 0);
    assert_eq!(plan(Some(1000), Some(7)).limit, 200);
    assert_eq!(plan(Some(1000), Some(7)).offset, 7);
    let bad = ListQuery {
        state: Some("x".into()),
        limit: None,
        offset: None,
    };
    assert!(plan_list(&bad).is_err());
}

fn participant_row() -> ParticipantRow {
    ParticipantRow {
        pool_id: "0xp".into(),
        participant: "0xa".into(),
        entry_fee: 5,
        commit_timestamp_ms: 6,
        revealed: true,
        crowd_median_estimate: None,
        predicted_prices: Some(Value::Array(vec![text("9")])),
        leg_hits: Some(1),
        acc_score: Some(10),
        time_bonus: None,
        composite_weight: Some("11".into()),
        apex_payout: Some(12),
        paid: false,
    }
}

#[test]
fn participants_and_results_are_listed() {
    assert_eq!(
        participants(&vec![participant_row()]),
        object(vec![(
            "participants",
            Value::Array(vec![object(vec![
                ("participant", text("0xa")),
                ("entry_fee", text("5")),
                ("commit_timestamp_ms", num(6)),
                ("revealed", Value::Bool(true)),
            ])]),
        )])
    );
    let r = results(&pool_row(), &vec![participant_row(), participant_row()]);
    assert_eq!(r.get("pool"), Some(&detail_value()));
    let entries = r.get("results").unwrap().as_array().unwrap();
    assert_eq!(entries.len(), 2);
    assert_eq!(
        entries[1],
        object(vec![
            ("rank", num(2)),
            ("participant", text("0xa")),
            ("predicted_prices", Value::Array(vec![text("9")])),
            ("leg_hits", num(1)),
            ("acc_score", text("10")),
            ("time_bonus", Value::Null),
            ("composite_weight", text("11")),
            ("apex_payout", text("12")),
        ])
    );
}

// ---------------------------------------------------------------------------
// Leaderboard and stats
// ---------------------------------------------------------------------------

#[test]
fn tiers_have_labels() {
    assert_eq!(tier_label(0), "OBSERVER");
    assert_eq!(tier_label(1), "ANALYST");
    assert_eq!(tier_label(2), "EXPERT");
    assert_eq!(tier_label(3), "APEX");
    assert_eq!(tier_label(4), "OBSERVER");
    assert_eq!(tier_label(-1), "OBSERVER");
}

#[test]
fn leaderboard_queries_have_a_period() {
    let plan = |period: Option<&str>| {
        plan_leaderboard(
            &LeaderboardQuery {
                period: period.map(|p| p.to_string()),
                limit: Some(500),
                offset: Some(10),
            },
            10_000_000_000,
        )
    };
    assert_eq!(
        plan(None).unwrap(),
        LeaderboardPlan {
            since_ms: 0,
            limit: 100,
            offset: 10
        }
    );
    assert_eq!(plan(Some("all")).unwrap().since_ms, 0);
    assert_eq!(plan(Some("30d")).unwrap().since_ms, 10_000_000_000 - 30 * 24 * 3600 * 1000);
    assert_eq!(plan(Some("7d")).unwrap().since_ms, 10_000_000_000 - 7 * 24 * 3600 * 1000);
    assert_eq!(
        plan(Some("1d")),
        Err(AppError::BadRequest("unknown period: 1d (expected all|30d|7d)".into()))
    );
}

#[test]
fn the_leaderboard_ranks_from_its_offset() {
    let row = LeaderboardRow {
        participant: "0xa".into(),
        tier: 2,
        lifetime_accuracy_bps: 9000,
        pool_count: 4,
        earned: 100,
        pools_in_period: 1,
    };
    let v = leaderboard(&vec![row], 10, 11, &vec![(3, 1), (-1, 5), (9, 5), (0, 7)]);
    assert_eq!(
        v,
        object(vec![
            (
                "leaderboard",
                Value::Array(vec![object(vec![
                    ("rank", num(11)),
                    ("participant", text("0xa")),
                    ("tier", num(2)),
                    ("tier_label", text("EXPERT")),
                    ("lifetime_accuracy_bps", num(9000)),
                    ("pool_count", num(4)),
                    ("earned", text("100")),
                    ("pools_in_period", num(1)),
                ])]),
            ),
            ("total", num(11)),
            (
                "tiers",
                object(vec![
                    ("observer", num(7)),
                    ("analyst", num(0)),
                    ("expert", num(0)),
                    ("apex", num(1)),
                ]),
            ),
        ])
    );
}

#[test]
fn health_and_hero() {
    assert_eq!(
        health(&full_config()),
        object(vec![
            ("status", text("ok")),
            ("indexer", Value::Bool(true)),
            ("keeper", Value::Bool(true)),
        ])
    );
    assert_eq!(
        hero(2, 1_000, 3, 1),
        object(vec![
            ("active_pools", num(2)),
            ("total_escrow", text("1000")),
            ("forecasters", num(3)),
            ("top_tier", text("ANALYST")),
        ])
    );
}

// ---------------------------------------------------------------------------
// Users
// ---------------------------------------------------------------------------

fn status_of(row: ParticipantRow, state: &str) -> String {
    let v = pool_status(&Some(row), state);
    v.get_str("status").unwrap().to_string()
}

#[test]
fn a_user_has_a_status_in_a_pool() {
    assert_eq!(
        pool_status(&None, "Open"),
        object(vec![("status", text("not_entered"))])
    );
    let hidden = || ParticipantRow { revealed: false, ..participant_row() };
    assert_eq!(status_of(ParticipantRow { paid: true, ..hidden() }, "Locked"), "paid");
    assert_eq!(status_of(hidden(), "Locked"), "forfeited");
    assert_eq!(status_of(hidden(), "Scored"), "forfeited");
    assert_eq!(status_of(hidden(), "Distributed"), "forfeited");
    assert_eq!(status_of(hidden(), "Closed"), "committed");
    assert_eq!(status_of(participant_row(), "Scored"), "scored");
    let waiting = ParticipantRow { composite_weight: None, ..participant_row() };
    assert_eq!(status_of(waiting, "Closed"), "revealed");
    assert_eq!(
        pool_status(&Some(participant_row()), "Open"),
        object(vec![
            ("status", text("scored")),
            ("entry_fee", text("5")),
            ("commit_timestamp_ms", num(6)),
            ("revealed", Value::Bool(true)),
            ("predicted_prices", Value::Array(vec![text("9")])),
            ("leg_hits", num(1)),
            ("acc_score", text("10")),
            ("time_bonus", Value::Null),
            ("composite_weight", text("11")),
            ("apex_payout", text("12")),
        ])
    );
}

#[test]
fn streaks_are_runs_of_good_pools() {
    let good = Some(750_000_000);
    let bad = Some(749_999_999);
    assert_eq!(best_streak(&vec![]), (0, 0));
    assert_eq!(best_streak(&vec![good, good, bad, good]), (2, 1));
    assert_eq!(best_streak(&vec![good, None]), (1, 0));
    assert_eq!(best_streak(&vec![bad, good, good, good]), (3, 3));
}

fn profile() -> FrsProfileRow {
    FrsProfileRow {
        participant: "0xa".into(),
        tier: 1,
        lifetime_accuracy_bps: 8000,
        pool_count: 2,
    }
}

#[test]
fn profiles_are_shown() {
    let v = frs_profile("0xa", &Some(profile()), 50, 3, &vec![Some(800_000_000)]);
    assert_eq!(
        v,
        object(vec![
            ("participant", text("0xa")),
            ("tier", num(1)),
            ("tier_label", text("ANALYST")),
            ("lifetime_accuracy_bps", num(8000)),
            ("pool_count", num(2)),
            ("pools_entered", num(3)),
            ("best_streak", num(1)),
            ("current_streak", num(1)),
            ("total_earned", text("50")),
        ])
    );
    let nobody = frs_profile("0xb", &None, 0, 0, &vec![]);
    assert_eq!(nobody.get_str("tier_label"), Some("OBSERVER"));
}

#[test]
fn histories_are_listed() {
    assert_eq!(
        accuracy_history(&vec![SettlementRow {
            pool_id: "0xp".into(),
            tier: 1,
            lifetime_accuracy_bps: 7,
            pool_count: 2,
        }]),
        object(vec![(
            "history",
            Value::Array(vec![object(vec![
                ("pool_id", text("0xp")),
                ("tier", num(1)),
                ("lifetime_accuracy_bps", num(7)),
                ("pool_count", num(2)),
            ])]),
        )])
    );
    assert_eq!(
        pool_history(&vec![PoolHistoryRow {
            pool_id: "0xp".into(),
            pool_state: "Open".into(),
            entry_fee: 5,
            commit_timestamp_ms: 6,
            revealed: false,
            acc_score: None,
            apex_payout: Some(1),
            predicted_prices: None,
            oracle_results: Some(Value::Array(vec![])),
        }]),
        object(vec![(
            "pools",
            Value::Array(vec![object(vec![
                ("pool_id", text("0xp")),
                ("pool_state", text("Open")),
                ("entry_fee", text("5")),
                ("commit_timestamp_ms", num(6)),
                ("revealed", Value::Bool(false)),
                ("acc_score", Value::Null),
                ("apex_payout", text("1")),
                ("predicted_prices", Value::Null),
                ("oracle_results", Value::Array(vec![])),
            ])]),
        )])
    );
}

#[test]
fn ranks_count_those_ahead() {
    assert_eq!(
        rank(&None, 0, 9),
        object(vec![("ranked", Value::Bool(false)), ("total", num(9))])
    );
    assert_eq!(
        rank(&Some(profile()), 4, 9),
        object(vec![
            ("ranked", Value::Bool(true)),
            ("rank", num(5)),
            ("total", num(9)),
            ("tier", num(1)),
            ("tier_label", text("ANALYST")),
            ("lifetime_accuracy_bps", num(8000)),
            ("pool_count", num(2)),
        ])
    );
}

// ---------------------------------------------------------------------------
// Previews
// ---------------------------------------------------------------------------

fn svi() -> OracleSvi {
    OracleSvi {
        underlying_asset: Some("BTC".into()),
        expiry_ms: 31_536_000_000 + 5_500,
        spot: Some(103_200),
        svi_a: 250_000_000,
        svi_b: 0,
        svi_rho_mag: 0,
        svi_rho_neg: false,
        svi_m_mag: 0,
        svi_m_neg: false,
        svi_sigma: 0,
        settlement_price: None,
    }
}

fn pool_config() -> PoolConfigData {
    PoolConfigData {
        epsilon_bps: 600,
        k_scaling: 1_000_000_000,
        protocol_fee_bps: 0,
        keeper_tip_bps: 0,
        min_strike: 10_000,
        tick_size: 500,
        max_strike: 200_000,
        initial_shared_version: 1,
    }
}

#[test]
fn a_range_is_previewed() {
    assert!(range_evaluates(60_000, &svi(), &pool_config(), 5_000));
    let v = range_preview(60_000, 0, "0x1", &svi(), &pool_config(), 5_000).unwrap();
    assert_eq!(
        v,
        object(vec![
            ("value", text("60000")),
            ("leg", num(0)),
            ("oracle_id", text("0x1")),
            ("underlying_asset", text("BTC")),
            ("spot", text("103200")),
            ("atm_iv", text("500000000")),
            ("delta", text("30000")),
            ("lower_snapped", text("30000")),
            ("upper_snapped", text("90000")),
            ("t_secs_to_expiry", num(31_536_000)),
        ])
    );
    // nothing is left of the range once the oracle has expired
    assert_eq!(
        range_preview(60_000, 0, "0x1", &svi(), &pool_config(), u64::MAX),
        Err(AppError::Math(MathError::DeltaTooSmall))
    );
    let wild = OracleSvi { svi_a: u64::MAX, ..svi() };
    assert!(!range_evaluates(u64::MAX, &wild, &pool_config(), 0));
}

#[test]
fn a_leg_has_an_oracle() {
    let q = ValueQuery { value: 1, leg: None };
    assert_eq!(q.leg_or_first(), 0);
    assert_eq!(oracle_for(&pool_row(), 0).as_deref(), Some("0x1"));
    assert_eq!(oracle_for(&pool_row(), 1), None);
    assert_eq!(require_oracle(&pool_row(), 0).unwrap(), "0x1");
    assert_eq!(
        require_oracle(&pool_row(), 1),
        Err(AppError::BadRequest(
            "pool has no oracle for leg 1 (oracle ids not yet indexed?)".into()
        ))
    );
}

#[test]
fn unreadable_objects_are_upstream_errors() {
    let blank = ObjectData {
        object_id: "0x1".into(),
        version: 1,
        digest: "d".into(),
        initial_shared_version: Some(1),
        fields: Value::Null,
        type_: None,
    };
    assert_eq!(
        parse_config(&blank, "0xc0"),
        Err(AppError::Upstream("cannot parse PoolConfig 0xc0".into()))
    );
    assert_eq!(
        parse_oracle(&blank, "0x1"),
        Err(AppError::Upstream("cannot parse OracleSVI 0x1".into()))
    );
}

#[test]
fn the_live_price_is_a_hint() {
    assert_eq!(spot_hint(&svi(), Some(pool_config())), Some((103_200, 600)));
    assert_eq!(spot_hint(&OracleSvi { spot: None, ..svi() }, Some(pool_config())), None);
    assert_eq!(spot_hint(&OracleSvi { spot: None, ..svi() }, None), None);
    // without a configuration the curve is not cut off: an error of 50%
    let raw = spot_hint(&svi(), None);
    let v = scoring_preview(&pool_row(), 51_600, 0, raw);
    assert_eq!(v.get_str("spot"), Some("103200"));
    assert_eq!(v.get_str("acc_score_vs_spot"), Some("166666666"));
    let cut = spot_hint(&svi(), Some(pool_config()));
    let v = scoring_preview(&pool_row(), 51_600, 0, cut);
    assert_eq!(v.get_str("acc_score_vs_spot"), Some("0"));
}

#[test]
fn a_score_is_previewed() {
    let v = scoring_preview(&pool_row(), 103_150, 500_000, Some((103_200, 600)));
    assert_eq!(
        v,
        object(vec![
            ("value", text("103150")),
            ("commit_now_time_bonus", text("1375000000")),
            ("max_composite_weight", text("687500000")),
            ("entry_fee", text("500000000")),
            ("commit_deadline_ms", num(1_000_000)),
            ("spot", text("103200")),
            ("acc_score_vs_spot", text("996015936")),
            ("note", text("final score depends on the oracle settlement price")),
        ])
    );
    let blind = scoring_preview(&pool_row(), 1, 0, None);
    assert_eq!(blind.get("spot"), Some(&Value::Null));
    assert_eq!(blind.get_str("commit_now_time_bonus"), Some("2500000000"));
    // without a start, the pool opens now
    let unopened = PoolRow { start_time_ms: None, ..pool_row() };
    let v = scoring_preview(&unopened, 1, 900_000, None);
    assert_eq!(v.get_str("commit_now_time_bonus"), Some("2500000000"));
}

#[test]
fn oracles_are_kept_for_a_while() {
    let mut cache = OracleCache::new();
    assert!(cache.lookup("0x1", 0).is_none());
    cache.store("0x1", 100, svi());
    cache.store("0x2", 100, OracleSvi { spot: None, ..svi() });
    assert_eq!(cache.lookup("0x1", 100 + ORACLE_TTL - 1), Some(svi()));
    assert_eq!(cache.lookup("0x1", 100 + ORACLE_TTL), None);
    assert_eq!(cache.lookup("0x2", 100).unwrap().spot, None);
    cache.store("0x1", 200, OracleSvi { spot: Some(1), ..svi() });
    assert_eq!(cache.lookup("0x1", 100 + ORACLE_TTL).unwrap().spot, Some(1));
    // a clock that goes back ages nothing
    assert!(cache.lookup("0x1", 0).is_some());
}

#[test]
fn the_configuration_is_kept_for_a_while() {
    let mut cache = ConfigCache::new();
    assert_eq!(cache.lookup(0), None);
    cache.store(5, pool_config());
    assert_eq!(cache.lookup(5 + CONFIG_TTL - 1), Some(pool_config()));
    assert_eq!(cache.lookup(5 + CONFIG_TTL), None);
}

// ---------------------------------------------------------------------------
// Admin
// ---------------------------------------------------------------------------

fn request() -> CreatePoolRequest {
    CreatePoolRequest {
        leg_count: None,
        entry_fee_amount: None,
        oracle_ids: None,
        commit_window_ms: None,
        reveal_window_ms: None,
    }
}

#[test]
fn only_the_secret_opens_the_door() {
    assert!(check_bearer(Some("Bearer hush"), "hush"));
    assert!(!check_bearer(Some("bearer hush"), "hush"));
    assert!(!check_bearer(Some("Bearer hush "), "hush"));
    assert!(!check_bearer(None, "hush"));

    let target = authorize(&full_config(), Some("Bearer hush")).unwrap();
    assert_eq!(target.package_id, "0xab");
    assert_eq!(target.pool_config_id, "0xc0");
    assert_eq!(target.keeper_key, "key");
    assert_eq!(authorize(&full_config(), None), Err(AppError::Unauthorized));
    let closed = Config { admin_secret: None, ..full_config() };
    assert_eq!(authorize(&closed, Some("Bearer hush")), Err(AppError::Unauthorized));
    let idle = Config { sui_keeper_key: None, ..full_config() };
    assert_eq!(
        authorize(&idle, Some("Bearer hush")),
        Err(AppError::BadRequest(
            "keeper not configured (requires APEX_PACKAGE_ID, POOL_CONFIG_ID, SUI_KEEPER_KEY)"
                .into()
        ))
    );
}

#[test]
fn a_pool_is_planned_with_defaults() {
    assert!(plan_evaluates(&request(), 1_000));
    assert!(!plan_evaluates(&request(), u64::MAX));
    let plan = plan_pool(&full_config(), request(), 1_000);
    assert_eq!(plan.leg_count, 1);
    assert_eq!(plan.entry_fee_amount, 500_000_000);
    assert_eq!(plan.commit_deadline_ms, 9_001_000);
    assert_eq!(plan.reveal_deadline_ms, 12_601_000);
    assert_eq!(plan.oracle_ids, vec!["0x1"]);
    let plan = plan_pool(
        &full_config(),
        CreatePoolRequest {
            leg_count: Some(2),
            entry_fee_amount: Some(3),
            oracle_ids: Some(vec![]),
            commit_window_ms: Some(4),
            reveal_window_ms: Some(5),
        },
        10,
    );
    assert_eq!(
        call_args(&plan, "0xc0", 7),
        vec![
            CallArg::SharedMut {
                id: "0xc0".into(),
                initial_version: 7
            },
            CallArg::PureU64(2),
            CallArg::PureU64(14),
            CallArg::PureU64(15),
            CallArg::PureU64(3),
            CallArg::PureObjectIdVec(vec![]),
            CallArg::ClockRef,
        ]
    );
}

#[test]
fn the_creation_of_a_pool_is_answered() {
    let plan = plan_pool(&full_config(), request(), 1_000);
    let run = |success: bool, error: Option<&str>| {
        Ok(Execution {
            digest: "D".into(),
            success,
            error: error.map(|e| e.to_string()),
        })
    };
    assert_eq!(
        create_pool(&plan, run(true, None)),
        Ok(object(vec![
            ("status", text("ok")),
            ("digest", text("D")),
            ("commit_deadline_ms", num(9_001_000)),
            ("reveal_deadline_ms", num(12_601_000)),
        ]))
    );
    assert_eq!(
        create_pool(&plan, run(false, Some("abort"))),
        Err(AppError::Internal("create_pool failed on-chain: abort".into()))
    );
    assert_eq!(
        create_pool(&plan, run(false, None)),
        Err(AppError::Internal("create_pool failed on-chain: ".into()))
    );
    assert_eq!(
        create_pool(&plan, Err("bad package id".into())),
        Err(AppError::Internal("execute_call: bad package id".into()))
    );
    assert_eq!(
        bad_key(),
        AppError::Internal("bad keeper key: failed to decode SUI_KEEPER_KEY".into())
    );
    let mut o = ObjectData {
        object_id: "0xc0".into(),
        version: 1,
        digest: "d".into(),
        initial_shared_version: Some(7),
        fields: Value::Null,
        type_: None,
    };
    assert_eq!(
        config_version(Err("down".into())),
        Err(AppError::Internal("fetch pool config: down".into()))
    );
    o.initial_shared_version = None;
    assert_eq!(
        config_version(Ok(o)),
        Err(AppError::Internal("PoolConfig is not a shared object".into()))
    );
}
