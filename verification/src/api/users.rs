//! Users: their part in a pool, their profile, history and rank.

use vstd::prelude::*;

use crate::api::pools::single;
use crate::json::{
    first_entry, json_decimal, json_int, json_opt, json_opt_text, json_text, member, Fields, Json,
    Value,
};
use crate::models::{
    opt_decimal, opt_small, opt_small_value, tier_label, tier_name, FrsProfileRow, ParticipantRow,
};
use crate::text::{same, view_all, view_opt};

verus! {

// ---------------------------------------------------------------------------
// Status in a pool
// ---------------------------------------------------------------------------

/// Whether a pool takes no more reveals.
pub open spec fn past_reveal(state: Seq<char>) -> bool {
    state == "Locked"@ || state == "Scored"@ || state == "Distributed"@
}

/// What has become of a participant.
pub open spec fn status(r: ParticipantRow, pool_state: Seq<char>) -> Seq<char> {
    if r.paid {
        "paid"@
    } else if !r.revealed && past_reveal(pool_state) {
        "forfeited"@
    } else if r.revealed && r.composite_weight is Some {
        "scored"@
    } else if r.revealed {
        "revealed"@
    } else {
        "committed"@
    }
}

pub open spec fn status_json(row: Option<ParticipantRow>, pool_state: Seq<char>) -> Json {
    match row {
        None => Json::Object(seq![("status"@, json_text("not_entered"@))]),
        Some(r) => Json::Object(
            seq![
                ("status"@, json_text(status(r, pool_state))),
                ("entry_fee"@, json_decimal(r.entry_fee as int)),
                ("commit_timestamp_ms"@, json_int(r.commit_timestamp_ms as int)),
                ("revealed"@, Json::Bool(r.revealed)),
                ("predicted_prices"@, json_opt(view_opt(r.predicted_prices))),
                ("leg_hits"@, opt_small(r.leg_hits)),
                ("acc_score"@, opt_decimal(r.acc_score)),
                ("time_bonus"@, opt_decimal(r.time_bonus)),
                ("composite_weight"@, json_opt_text(view_opt(r.composite_weight))),
                ("apex_payout"@, opt_decimal(r.apex_payout)),
            ],
        ),
    }
}

/// The status of a user in a pool.
pub fn pool_status(row: &Option<ParticipantRow>, pool_state: &str) -> (v: Value)
    ensures
        v@ == status_json(*row, pool_state@),
{
    let r = match row {
        None => return single("status", Value::text("not_entered")),
        Some(r) => r,
    };
    let name = if r.paid {
        "paid"
    } else if !r.revealed && (same(pool_state, "Locked") || same(pool_state, "Scored") || same(
        pool_state,
        "Distributed",
    )) {
        "forfeited"
    } else if r.revealed && r.composite_weight.is_some() {
        "scored"
    } else if r.revealed {
        "revealed"
    } else {
        "committed"
    };
    let mut o = Fields::new();
    o.put_text("status", name);
    o.put("entry_fee", Value::signed_decimal(r.entry_fee));
    o.put("commit_timestamp_ms", Value::signed(r.commit_timestamp_ms));
    o.put("revealed", Value::Bool(r.revealed));
    o.put("predicted_prices", Value::opt_copy(&r.predicted_prices));
    o.put("leg_hits", opt_small_value(r.leg_hits));
    o.put("acc_score", Value::opt_decimal(r.acc_score));
    o.put("time_bonus", Value::opt_decimal(r.time_bonus));
    o.put("composite_weight", Value::opt_text(&r.composite_weight));
    o.put("apex_payout", Value::opt_decimal(r.apex_payout));
    assert(o@ =~= status_json(*row, pool_state@)->Object_0);
    o.build()
}

// ---------------------------------------------------------------------------
// Streaks
// ---------------------------------------------------------------------------

/// Three quarters, in the scale of scores.
pub const STREAK_SCORE: i64 = 750_000_000;

/// A pool counts towards a streak if its accuracy is high enough; a missing score
/// is none.
pub open spec fn counts(score: Option<i64>) -> bool {
    score is Some && score->0 >= STREAK_SCORE
}

/// The run of counting pools that the scores end with.
pub open spec fn last_run(scores: Seq<Option<i64>>) -> int
    decreases scores.len(),
{
    if scores.len() > 0 && counts(scores.last()) {
        last_run(scores.drop_last()) + 1
    } else {
        0
    }
}

/// The longest run.
pub open spec fn longest_run(scores: Seq<Option<i64>>) -> int
    decreases scores.len(),
{
    if scores.len() == 0 {
        0
    } else if last_run(scores) > longest_run(scores.drop_last()) {
        last_run(scores)
    } else {
        longest_run(scores.drop_last())
    }
}

/// The longest and the current streak over the scores of a user, oldest first.
pub fn best_streak(scores: &Vec<Option<i64>>) -> (r: (i64, i64))
    requires
        scores@.len() <= i64::MAX,
    ensures
        r.0 == longest_run(scores@),
        r.1 == last_run(scores@),
{
    let mut best: i64 = 0;
    let mut current: i64 = 0;
    let mut i: usize = 0;
    assert(scores@.take(0) =~= seq![]);
    while i < scores.len()
        invariant
            i <= scores@.len() <= i64::MAX,
            0 <= best <= i,
            0 <= current <= i,
            best == longest_run(scores@.take(i as int)),
            current == last_run(scores@.take(i as int)),
        decreases scores@.len() - i,
    {
        assert(scores@.take(i + 1).drop_last() =~= scores@.take(i as int));
        let score: i64 = match scores[i] {
            Some(s) => s,
            None => 0,
        };
        if score >= STREAK_SCORE {
            current = current + 1;
            if current > best {
                best = current;
            }
        } else {
            current = 0;
        }
        i = i + 1;
    }
    assert(scores@.take(scores@.len() as int) =~= scores@);
    (best, current)
}

/// Every run of counting pools in a row.
pub open spec fn is_run(scores: Seq<Option<i64>>, from: int, to: int) -> bool {
    0 <= from <= to <= scores.len() && forall|i: int|
        from <= i < to ==> counts(#[trigger] scores[i])
}

proof fn lemma_last_run(scores: Seq<Option<i64>>)
    ensures
        0 <= last_run(scores) <= scores.len(),
        is_run(scores, scores.len() - last_run(scores), scores.len() as int),
        forall|from: int|
            is_run(scores, from, scores.len() as int) ==> scores.len() - from <= last_run(scores),
    decreases scores.len(),
{
    if scores.len() > 0 {
        let head = scores.drop_last();
        let n = scores.len() as int;
        lemma_last_run(head);
        if counts(scores.last()) {
            assert forall|i: int| n - last_run(scores) <= i < n implies counts(
                #[trigger] scores[i],
            ) by {
                if i < n - 1 {
                    assert(scores[i] == head[i]);
                }
            }
            assert forall|from: int| is_run(scores, from, n) implies n - from <= last_run(
                scores,
            ) by {
                if from < n {
                    assert forall|i: int| from <= i < n - 1 implies counts(#[trigger] head[i]) by {
                        assert(head[i] == scores[i]);
                    }
                    assert(is_run(head, from, head.len() as int));
                }
            }
        } else {
            assert forall|from: int| is_run(scores, from, n) implies n - from <= 0 by {
                if from < n {
                    assert(counts(scores[n - 1]));
                }
            }
        }
    }
}

/// The longest streak is as long as some run, and no run is longer. The current
/// streak is the run that the history ends with.
pub proof fn law_streaks_are_runs(scores: Seq<Option<i64>>, from: int, to: int)
    ensures
        is_run(scores, from, to) ==> to - from <= longest_run(scores),
        exists|a: int, b: int| is_run(scores, a, b) && b - a == longest_run(scores),
        is_run(scores, scores.len() - last_run(scores), scores.len() as int),
        last_run(scores) <= longest_run(scores),
    decreases scores.len(),
{
    lemma_last_run(scores);
    if scores.len() == 0 {
        assert(is_run(scores, 0, 0));
    } else {
        let head = scores.drop_last();
        law_streaks_are_runs(head, from, to);
        if last_run(scores) > longest_run(head) {
            assert(is_run(scores, scores.len() - last_run(scores), scores.len() as int));
        } else {
            let (a, b) = choose|a: int, b: int|
                is_run(head, a, b) && b - a == longest_run(head);
            assert forall|i: int| a <= i < b implies counts(#[trigger] scores[i]) by {
                assert(scores[i] == head[i]);
            }
            assert(is_run(scores, a, b));
        }
        if is_run(scores, from, to) && to < scores.len() {
            assert forall|i: int| from <= i < to implies counts(#[trigger] head[i]) by {
                assert(head[i] == scores[i]);
            }
            assert(is_run(head, from, to));
        }
    }
}

// ---------------------------------------------------------------------------
// Profile
// ---------------------------------------------------------------------------

/// Tier, accuracy and number of pools; zero without a profile.
pub open spec fn profile_values(p: Option<FrsProfileRow>) -> (i16, i64, i64) {
    match p {
        Some(p) => (p.tier, p.lifetime_accuracy_bps, p.pool_count),
        None => (0, 0, 0),
    }
}

pub open spec fn profile_json(
    address: Seq<char>,
    p: Option<FrsProfileRow>,
    total_earned: i64,
    pools_entered: i64,
    scores: Seq<Option<i64>>,
) -> Json {
    let (tier, accuracy_bps, pool_count) = profile_values(p);
    Json::Object(
        seq![
            ("participant"@, json_text(address)),
            ("tier"@, json_int(tier as int)),
            ("tier_label"@, json_text(tier_name(tier))),
            ("lifetime_accuracy_bps"@, json_int(accuracy_bps as int)),
            ("pool_count"@, json_int(pool_count as int)),
            ("pools_entered"@, json_int(pools_entered as int)),
            ("best_streak"@, json_int(longest_run(scores))),
            ("current_streak"@, json_int(last_run(scores))),
            ("total_earned"@, json_decimal(total_earned as int)),
        ],
    )
}

/// The profile of a user.
pub fn frs_profile(
    address: &str,
    profile: &Option<FrsProfileRow>,
    total_earned: i64,
    pools_entered: i64,
    scores: &Vec<Option<i64>>,
) -> (v: Value)
    requires
        scores@.len() <= i64::MAX,
    ensures
        v@ == profile_json(address@, *profile, total_earned, pools_entered, scores@),
{
    let (best, current): (i64, i64) = best_streak(scores);
    let (tier, accuracy_bps, pool_count): (i16, i64, i64) = match profile {
        Some(p) => (p.tier, p.lifetime_accuracy_bps, p.pool_count),
        None => (0, 0, 0),
    };
    let mut o = Fields::new();
    o.put_text("participant", address);
    o.put("tier", Value::signed(tier as i64));
    o.put_text("tier_label", tier_label(tier));
    o.put("lifetime_accuracy_bps", Value::signed(accuracy_bps));
    o.put("pool_count", Value::signed(pool_count));
    o.put("pools_entered", Value::signed(pools_entered));
    o.put("best_streak", Value::signed(best));
    o.put("current_streak", Value::signed(current));
    o.put("total_earned", Value::signed_decimal(total_earned));
    assert(o@ =~= profile_json(
        address@,
        *profile,
        total_earned,
        pools_entered,
        scores@,
    )->Object_0);
    o.build()
}

// ---------------------------------------------------------------------------
// Histories
// ---------------------------------------------------------------------------

/// The reputation of a user after a settled pool.
#[derive(Debug, PartialEq, Eq)]
pub struct SettlementRow {
    pub pool_id: String,
    pub tier: i16,
    pub lifetime_accuracy_bps: i64,
    pub pool_count: i64,
}

pub open spec fn settlement_json(r: SettlementRow) -> Json {
    Json::Object(
        seq![
            ("pool_id"@, json_text(r.pool_id@)),
            ("tier"@, json_int(r.tier as int)),
            ("lifetime_accuracy_bps"@, json_int(r.lifetime_accuracy_bps as int)),
            ("pool_count"@, json_int(r.pool_count as int)),
        ],
    )
}

pub open spec fn accuracy_json(rows: Seq<SettlementRow>) -> Json {
    Json::Object(
        seq![("history"@, Json::Array(Seq::new(rows.len(), |i: int| settlement_json(rows[i]))))],
    )
}

/// Lifetime accuracy after each settled pool, in the order of settlement.
pub fn accuracy_history(rows: &Vec<SettlementRow>) -> (v: Value)
    ensures
        v@ == accuracy_json(rows@),
{
    let ghost all = accuracy_json(rows@)->Object_0[0].1->Array_0;
    let mut items: Vec<Value> = Vec::new();
    let mut i: usize = 0;
    while i < rows.len()
        invariant
            i <= rows@.len(),
            all == accuracy_json(rows@)->Object_0[0].1->Array_0,
            view_all(items@) =~= all.take(i as int),
        decreases rows@.len() - i,
    {
        let ghost before = items@;
        let r = &rows[i];
        let mut o = Fields::new();
        o.put_text("pool_id", r.pool_id.as_str());
        o.put("tier", Value::signed(r.tier as i64));
        o.put("lifetime_accuracy_bps", Value::signed(r.lifetime_accuracy_bps));
        o.put("pool_count", Value::signed(r.pool_count));
        assert(o@ =~= settlement_json(rows@[i as int])->Object_0);
        items.push(o.build());
        assert(view_all(items@) =~= view_all(before).push(all[i as int]));
        i = i + 1;
    }
    assert(view_all(items@) =~= all);
    single("history", Value::array(items))
}

/// The part of a user in a pool.
#[derive(Debug, PartialEq, Eq)]
pub struct PoolHistoryRow {
    pub pool_id: String,
    pub pool_state: String,
    pub entry_fee: i64,
    pub commit_timestamp_ms: i64,
    pub revealed: bool,
    pub acc_score: Option<i64>,
    pub apex_payout: Option<i64>,
    pub predicted_prices: Option<Value>,
    pub oracle_results: Option<Value>,
}

pub open spec fn pool_history_json(r: PoolHistoryRow) -> Json {
    Json::Object(
        seq![
            ("pool_id"@, json_text(r.pool_id@)),
            ("pool_state"@, json_text(r.pool_state@)),
            ("entry_fee"@, json_decimal(r.entry_fee as int)),
            ("commit_timestamp_ms"@, json_int(r.commit_timestamp_ms as int)),
            ("revealed"@, Json::Bool(r.revealed)),
            ("acc_score"@, opt_decimal(r.acc_score)),
            ("apex_payout"@, opt_decimal(r.apex_payout)),
            ("predicted_prices"@, json_opt(view_opt(r.predicted_prices))),
            ("oracle_results"@, json_opt(view_opt(r.oracle_results))),
        ],
    )
}

pub open spec fn history_json(rows: Seq<PoolHistoryRow>) -> Json {
    Json::Object(
        seq![("pools"@, Json::Array(Seq::new(rows.len(), |i: int| pool_history_json(rows[i]))))],
    )
}

/// The pools of a user.
pub fn pool_history(rows: &Vec<PoolHistoryRow>) -> (v: Value)
    ensures
        v@ == history_json(rows@),
{
    let ghost all = history_json(rows@)->Object_0[0].1->Array_0;
    let mut items: Vec<Value> = Vec::new();
    let mut i: usize = 0;
    while i < rows.len()
        invariant
            i <= rows@.len(),
            all == history_json(rows@)->Object_0[0].1->Array_0,
            view_all(items@) =~= all.take(i as int),
        decreases rows@.len() - i,
    {
        let ghost before = items@;
        let r = &rows[i];
        let mut o = Fields::new();
        o.put_text("pool_id", r.pool_id.as_str());
        o.put_text("pool_state", r.pool_state.as_str());
        o.put("entry_fee", Value::signed_decimal(r.entry_fee));
        o.put("commit_timestamp_ms", Value::signed(r.commit_timestamp_ms));
        o.put("revealed", Value::Bool(r.revealed));
        o.put("acc_score", Value::opt_decimal(r.acc_score));
        o.put("apex_payout", Value::opt_decimal(r.apex_payout));
        o.put("predicted_prices", Value::opt_copy(&r.predicted_prices));
        o.put("oracle_results", Value::opt_copy(&r.oracle_results));
        assert(o@ =~= pool_history_json(rows@[i as int])->Object_0);
        items.push(o.build());
        assert(view_all(items@) =~= view_all(before).push(all[i as int]));
        i = i + 1;
    }
    assert(view_all(items@) =~= all);
    single("pools", Value::array(items))
}

// ---------------------------------------------------------------------------
// Rank
// ---------------------------------------------------------------------------

/// The rank of a profile: one more than the number of profiles ahead of it. Only
/// someone with a settled pool is ranked.
pub open spec fn rank_json(me: Option<FrsProfileRow>, ahead: i64, total: i64) -> Json {
    match me {
        None => Json::Object(
            seq![("ranked"@, Json::Bool(false)), ("total"@, json_int(total as int))],
        ),
        Some(p) => Json::Object(
            seq![
                ("ranked"@, Json::Bool(p.pool_count > 0)),
                ("rank"@, json_int(ahead + 1)),
                ("total"@, json_int(total as int)),
                ("tier"@, json_int(p.tier as int)),
                ("tier_label"@, json_text(tier_name(p.tier))),
                ("lifetime_accuracy_bps"@, json_int(p.lifetime_accuracy_bps as int)),
                ("pool_count"@, json_int(p.pool_count as int)),
            ],
        ),
    }
}

/// The rank of a user. `ahead` counts the profiles ahead; it is not looked at
/// without a profile.
pub fn rank(me: &Option<FrsProfileRow>, ahead: i64, total: i64) -> (v: Value)
    requires
        ahead < i64::MAX,
    ensures
        v@ == rank_json(*me, ahead, total),
{
    let mut o = Fields::new();
    match me {
        None => {
            o.put("ranked", Value::Bool(false));
            o.put("total", Value::signed(total));
        },
        Some(p) => {
            o.put("ranked", Value::Bool(p.pool_count > 0));
            o.put("rank", Value::signed(ahead + 1));
            o.put("total", Value::signed(total));
            o.put("tier", Value::signed(p.tier as i64));
            o.put_text("tier_label", tier_label(p.tier));
            o.put("lifetime_accuracy_bps", Value::signed(p.lifetime_accuracy_bps));
            o.put("pool_count", Value::signed(p.pool_count));
        },
    }
    assert(o@ =~= rank_json(*me, ahead, total)->Object_0);
    o.build()
}

// ---------------------------------------------------------------------------
// What the answers show
// ---------------------------------------------------------------------------

/// Whoever is paid is `paid`. Of the others, whoever has revealed is `scored` with a weight
/// and `revealed` without one; whoever has not is `committed` as long as reveals can come
/// and has `forfeited` from the lock on.
pub proof fn law_status(r: ParticipantRow, state: Seq<char>)
    ensures
        r.paid ==> status(r, state) == "paid"@,
        !r.paid && r.revealed && r.composite_weight is Some ==> status(r, state) == "scored"@,
        !r.paid && r.revealed && r.composite_weight is None ==> status(r, state) == "revealed"@,
        !r.paid && !r.revealed && (state == "Locked"@ || state == "Scored"@ || state
            == "Distributed"@) ==> status(r, state) == "forfeited"@,
        !r.paid && !r.revealed && !(state == "Locked"@ || state == "Scored"@ || state
            == "Distributed"@) ==> status(r, state) == "committed"@,
{
}

/// A pool counts towards a streak from three quarters on; one without a score does not.
pub proof fn law_streak_threshold(score: i64)
    ensures
        counts(Some(score)) <==> score >= 750_000_000,
        !counts(None),
{
}

/// A counting pool makes the current streak one longer, any other one ends it; neither
/// makes the longest streak shorter, nor more than one longer.
pub proof fn law_streaks_grow_by_one(scores: Seq<Option<i64>>, next: Option<i64>)
    ensures
        counts(next) ==> last_run(scores.push(next)) == last_run(scores) + 1,
        !counts(next) ==> last_run(scores.push(next)) == 0,
        !counts(next) ==> longest_run(scores.push(next)) == longest_run(scores),
        longest_run(scores) <= longest_run(scores.push(next)) <= longest_run(scores) + 1,
        last_run(Seq::<Option<i64>>::empty()) == 0,
        longest_run(Seq::<Option<i64>>::empty()) == 0,
{
    assert(scores.push(next).drop_last() =~= scores);
    law_streaks_are_runs(scores, 0, 0);
    assert(is_run(scores, 0, 0));
}

/// The names differ.
proof fn lemma_answer_names()
    ensures
        "status"@.len() == 6,
        "entry_fee"@.len() == 9,
        "commit_timestamp_ms"@.len() == 19,
        "revealed"@.len() == 8,
        "predicted_prices"@.len() == 16,
        "leg_hits"@.len() == 8,
        "acc_score"@.len() == 9,
        "time_bonus"@.len() == 10,
        "composite_weight"@.len() == 16,
        "apex_payout"@.len() == 11,
        "participant"@.len() == 11,
        "tier"@.len() == 4,
        "tier_label"@.len() == 10,
        "lifetime_accuracy_bps"@.len() == 21,
        "pool_count"@.len() == 10,
        "pools_entered"@.len() == 13,
        "best_streak"@.len() == 11,
        "current_streak"@.len() == 14,
        "total_earned"@.len() == 12,
        "pool_id"@.len() == 7,
        "pool_state"@.len() == 10,
        "oracle_results"@.len() == 14,
        "ranked"@.len() == 6,
        "rank"@.len() == 4,
        "total"@.len() == 5,
        "history"@.len() == 7,
        "pools"@.len() == 5,
        "status"@[0] != "ranked"@[0],
        "entry_fee"@[0] != "acc_score"@[0],
        "revealed"@[0] != "leg_hits"@[0],
        "predicted_prices"@[0] != "composite_weight"@[0],
        "time_bonus"@[2] != "tier_label"@[2],
        "time_bonus"@[0] != "pool_count"@[0],
        "time_bonus"@[0] != "pool_state"@[0],
        "apex_payout"@[0] != "participant"@[0],
        "apex_payout"@[0] != "best_streak"@[0],
        "participant"@[0] != "best_streak"@[0],
        "tier"@[0] != "rank"@[0],
        "tier_label"@[0] != "pool_count"@[0],
        "tier_label"@[0] != "pool_state"@[0],
        "pool_count"@[5] != "pool_state"@[5],
        "current_streak"@[0] != "oracle_results"@[0],
        "pool_id"@[0] != "history"@[0],
        "total"@[0] != "pools"@[0],
{
    reveal_strlit("status");
    reveal_strlit("entry_fee");
    reveal_strlit("commit_timestamp_ms");
    reveal_strlit("revealed");
    reveal_strlit("predicted_prices");
    reveal_strlit("leg_hits");
    reveal_strlit("acc_score");
    reveal_strlit("time_bonus");
    reveal_strlit("composite_weight");
    reveal_strlit("apex_payout");
    reveal_strlit("participant");
    reveal_strlit("tier");
    reveal_strlit("tier_label");
    reveal_strlit("lifetime_accuracy_bps");
    reveal_strlit("pool_count");
    reveal_strlit("pools_entered");
    reveal_strlit("best_streak");
    reveal_strlit("current_streak");
    reveal_strlit("total_earned");
    reveal_strlit("pool_id");
    reveal_strlit("pool_state");
    reveal_strlit("oracle_results");
    reveal_strlit("ranked");
    reveal_strlit("rank");
    reveal_strlit("total");
    reveal_strlit("history");
    reveal_strlit("pools");
}

/// The status of a participant comes with all that is known of its part in the pool.
pub proof fn law_status_shows_the_row(r: ParticipantRow, state: Seq<char>)
    ensures
        ({
            let j = status_json(Some(r), state);
            &&& member(j, "status"@) == Some(json_text(status(r, state)))
            &&& member(j, "entry_fee"@) == Some(json_decimal(r.entry_fee as int))
            &&& member(j, "commit_timestamp_ms"@) == Some(json_int(r.commit_timestamp_ms as int))
            &&& member(j, "revealed"@) == Some(Json::Bool(r.revealed))
            &&& member(j, "predicted_prices"@) == Some(json_opt(view_opt(r.predicted_prices)))
            &&& member(j, "leg_hits"@) == Some(opt_small(r.leg_hits))
            &&& member(j, "acc_score"@) == Some(opt_decimal(r.acc_score))
            &&& member(j, "time_bonus"@) == Some(opt_decimal(r.time_bonus))
            &&& member(j, "composite_weight"@) == Some(json_opt_text(view_opt(r.composite_weight)))
            &&& member(j, "apex_payout"@) == Some(opt_decimal(r.apex_payout))
        }),
        member(status_json(None, state), "status"@) == Some(json_text("not_entered"@)),
{
    lemma_answer_names();
    reveal_with_fuel(first_entry, 11);
}

/// A profile shows the row of the user, its streaks and its totals.
pub proof fn law_profile_shows_the_row(address: Seq<char>, p: FrsProfileRow, total_earned: i64, pools_entered: i64, scores: Seq<
    Option<i64>,
>)
    ensures
        ({
            let j = profile_json(address, Some(p), total_earned, pools_entered, scores);
            &&& member(j, "participant"@) == Some(json_text(address))
            &&& member(j, "tier"@) == Some(json_int(p.tier as int))
            &&& member(j, "tier_label"@) == Some(json_text(tier_name(p.tier)))
            &&& member(j, "lifetime_accuracy_bps"@) == Some(json_int(p.lifetime_accuracy_bps as int))
            &&& member(j, "pool_count"@) == Some(json_int(p.pool_count as int))
            &&& member(j, "pools_entered"@) == Some(json_int(pools_entered as int))
            &&& member(j, "best_streak"@) == Some(json_int(longest_run(scores)))
            &&& member(j, "current_streak"@) == Some(json_int(last_run(scores)))
            &&& member(j, "total_earned"@) == Some(json_decimal(total_earned as int))
        }),
{
    lemma_answer_names();
    reveal_with_fuel(first_entry, 10);
}

/// Someone without a profile is an observer with nothing settled.
pub proof fn law_profile_of_a_newcomer(address: Seq<char>, total_earned: i64, pools_entered: i64, scores: Seq<Option<i64>>)
    ensures
        ({
            let j = profile_json(address, None, total_earned, pools_entered, scores);
            &&& member(j, "participant"@) == Some(json_text(address))
            &&& member(j, "tier"@) == Some(json_int(0))
            &&& member(j, "tier_label"@) == Some(json_text("OBSERVER"@))
            &&& member(j, "lifetime_accuracy_bps"@) == Some(json_int(0))
            &&& member(j, "pool_count"@) == Some(json_int(0))
            &&& member(j, "pools_entered"@) == Some(json_int(pools_entered as int))
            &&& member(j, "best_streak"@) == Some(json_int(longest_run(scores)))
            &&& member(j, "current_streak"@) == Some(json_int(last_run(scores)))
            &&& member(j, "total_earned"@) == Some(json_decimal(total_earned as int))
        }),
{
    lemma_answer_names();
    reveal_with_fuel(first_entry, 10);
}

/// A settlement shows its row.
pub proof fn law_settlement_shows_the_row(r: SettlementRow)
    ensures
        ({
            let j = settlement_json(r);
            &&& member(j, "pool_id"@) == Some(json_text(r.pool_id@))
            &&& member(j, "tier"@) == Some(json_int(r.tier as int))
            &&& member(j, "lifetime_accuracy_bps"@) == Some(json_int(r.lifetime_accuracy_bps as int))
            &&& member(j, "pool_count"@) == Some(json_int(r.pool_count as int))
        }),
{
    lemma_answer_names();
    reveal_with_fuel(first_entry, 5);
}

/// The part of a user in a pool shows its row.
pub proof fn law_history_shows_the_row(r: PoolHistoryRow)
    ensures
        ({
            let j = pool_history_json(r);
            &&& member(j, "pool_id"@) == Some(json_text(r.pool_id@))
            &&& member(j, "pool_state"@) == Some(json_text(r.pool_state@))
            &&& member(j, "entry_fee"@) == Some(json_decimal(r.entry_fee as int))
            &&& member(j, "commit_timestamp_ms"@) == Some(json_int(r.commit_timestamp_ms as int))
            &&& member(j, "revealed"@) == Some(Json::Bool(r.revealed))
            &&& member(j, "acc_score"@) == Some(opt_decimal(r.acc_score))
            &&& member(j, "apex_payout"@) == Some(opt_decimal(r.apex_payout))
            &&& member(j, "predicted_prices"@) == Some(json_opt(view_opt(r.predicted_prices)))
            &&& member(j, "oracle_results"@) == Some(json_opt(view_opt(r.oracle_results)))
        }),
{
    lemma_answer_names();
    reveal_with_fuel(first_entry, 10);
}

/// A history has every row, in order.
pub proof fn law_histories_are_whole(
    settlements: Seq<SettlementRow>,
    pools: Seq<PoolHistoryRow>,
    i: int,
    k: int,
)
    requires
        0 <= i < settlements.len(),
        0 <= k < pools.len(),
    ensures
        member(accuracy_json(settlements), "history"@) matches Some(Json::Array(items))
            && items.len() == settlements.len() && items[i] == settlement_json(settlements[i]),
        member(history_json(pools), "pools"@) matches Some(Json::Array(items)) && items.len()
            == pools.len() && items[k] == pool_history_json(pools[k]),
{
    reveal_with_fuel(first_entry, 2);
}

/// A user is ranked behind those who are ahead, and only with a settled pool.
pub proof fn law_rank_shows_the_row(p: FrsProfileRow, ahead: i64, total: i64)
    ensures
        ({
            let j = rank_json(Some(p), ahead, total);
            &&& member(j, "ranked"@) == Some(Json::Bool(p.pool_count > 0))
            &&& member(j, "rank"@) == Some(json_int(ahead + 1))
            &&& member(j, "total"@) == Some(json_int(total as int))
            &&& member(j, "tier"@) == Some(json_int(p.tier as int))
            &&& member(j, "tier_label"@) == Some(json_text(tier_name(p.tier)))
            &&& member(j, "lifetime_accuracy_bps"@) == Some(json_int(p.lifetime_accuracy_bps as int))
            &&& member(j, "pool_count"@) == Some(json_int(p.pool_count as int))
        }),
{
    lemma_answer_names();
    reveal_with_fuel(first_entry, 8);
}

/// Someone without a profile is not ranked, and has no rank.
pub proof fn law_newcomer_is_not_ranked(ahead: i64, total: i64)
    ensures
        ({
            let j = rank_json(None, ahead, total);
            &&& member(j, "ranked"@) == Some(Json::Bool(false))
            &&& member(j, "total"@) == Some(json_int(total as int))
        }),
        member(rank_json(None, ahead, total), "rank"@) is None,
{
    lemma_answer_names();
    reveal_with_fuel(first_entry, 3);
}

} // verus!
