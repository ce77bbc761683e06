//! Health and headline numbers.

use vstd::prelude::*;

use crate::config::Config;
use crate::json::{first_entry, json_decimal, json_int, json_text, member, Fields, Json, Value};
use crate::models::{tier_label, tier_name};

verus! {

pub open spec fn health_json(c: Config) -> Json {
    Json::Object(
        seq![
            ("status"@, json_text("ok"@)),
            ("indexer"@, Json::Bool(c.indexes())),
            ("keeper"@, Json::Bool(c.keeps())),
        ],
    )
}

/// The server answers, and what runs beside it.
pub fn health(cfg: &Config) -> (r: Value)
    ensures
        r@ == health_json(*cfg),
{
    let mut o = Fields::new();
    o.put_text("status", "ok");
    o.put("indexer", Value::Bool(cfg.indexer_enabled()));
    o.put("keeper", Value::Bool(cfg.keeper_enabled()));
    assert(o@ =~= health_json(*cfg)->Object_0);
    o.build()
}

pub open spec fn hero_json(
    active_pools: i64,
    escrow: i64,
    forecasters: i64,
    top_tier: i16,
) -> Json {
    Json::Object(
        seq![
            ("active_pools"@, json_int(active_pools as int)),
            ("total_escrow"@, json_decimal(escrow as int)),
            ("forecasters"@, json_int(forecasters as int)),
            ("top_tier"@, json_text(tier_name(top_tier))),
        ],
    )
}

/// Active pools, money in escrow, distinct forecasters, and the highest tier held.
pub fn hero(active_pools: i64, escrow: i64, forecasters: i64, top_tier: i16) -> (r: Value)
    ensures
        r@ == hero_json(active_pools, escrow, forecasters, top_tier),
{
    let mut o = Fields::new();
    o.put("active_pools", Value::signed(active_pools));
    o.put("total_escrow", Value::signed_decimal(escrow));
    o.put("forecasters", Value::signed(forecasters));
    o.put_text("top_tier", tier_label(top_tier));
    assert(o@ =~= hero_json(active_pools, escrow, forecasters, top_tier)->Object_0);
    o.build()
}

/// The names differ.
proof fn lemma_stat_names()
    ensures
        "status"@.len() == 6,
        "indexer"@.len() == 7,
        "keeper"@.len() == 6,
        "active_pools"@.len() == 12,
        "total_escrow"@.len() == 12,
        "forecasters"@.len() == 11,
        "top_tier"@.len() == 8,
        "status"@[0] != "keeper"@[0],
        "active_pools"@[0] != "total_escrow"@[0],
{
    reveal_strlit("status");
    reveal_strlit("indexer");
    reveal_strlit("keeper");
    reveal_strlit("active_pools");
    reveal_strlit("total_escrow");
    reveal_strlit("forecasters");
    reveal_strlit("top_tier");
}

/// The server says of the indexer and of the keeper whether it has what they need.
pub proof fn law_health_shows_what_runs(c: Config)
    ensures
        ({
            let j = health_json(c);
            &&& member(j, "status"@) == Some(json_text("ok"@))
            &&& member(j, "indexer"@) == Some(Json::Bool(c.apex_package_id is Some))
            &&& member(j, "keeper"@) == Some(Json::Bool(
                c.apex_package_id is Some && c.pool_config_id is Some && c.keeper_cap_id is Some
                    && c.sui_keeper_key is Some,
            ))
        }),
{
    lemma_stat_names();
    reveal_with_fuel(first_entry, 4);
}

/// Each headline number stands under its own name.
pub proof fn law_headline_numbers(active_pools: i64, escrow: i64, forecasters: i64, top_tier: i16)
    ensures
        ({
            let j = hero_json(active_pools, escrow, forecasters, top_tier);
            &&& member(j, "active_pools"@) == Some(json_int(active_pools as int))
            &&& member(j, "total_escrow"@) == Some(json_decimal(escrow as int))
            &&& member(j, "forecasters"@) == Some(json_int(forecasters as int))
            &&& member(j, "top_tier"@) == Some(json_text(tier_name(top_tier)))
        }),
{
    lemma_stat_names();
    reveal_with_fuel(first_entry, 5);
}

} // verus!
