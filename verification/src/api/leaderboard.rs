//! The leaderboard: forecasters by lifetime accuracy.

use vstd::prelude::*;

use crate::api::pools::{limit_of, offset_of, page_limit, page_offset};
use crate::error::AppError;
use crate::json::{
    first_entry, json_decimal, json_int, json_text, member, member_of, Fields, Json, Value,
};
use crate::models::{tier_label, tier_name};
use crate::text::{join3, law_decimal_reads_back, same, unsigned, view_all};

verus! {

/// What a client may ask of the leaderboard.
#[derive(Debug, PartialEq, Eq)]
pub struct LeaderboardQuery {
    /// `all`, `30d` or `7d`. The period limits what was earned and how many pools
    /// are counted; the ranking itself is over a lifetime.
    pub period: Option<String>,
    pub limit: Option<i64>,
    pub offset: Option<i64>,
}

pub const THIRTY_DAYS_MS: i64 = 2_592_000_000;

pub const SEVEN_DAYS_MS: i64 = 604_800_000;

/// The time from which pools count, for a period.
pub open spec fn period_start(period: Option<Seq<char>>, now_ms: i64) -> Option<int> {
    match period {
        None => Some(0),
        Some(p) => if p == "all"@ {
            Some(0)
        } else if p == "30d"@ {
            Some(now_ms - THIRTY_DAYS_MS)
        } else if p == "7d"@ {
            Some(now_ms - SEVEN_DAYS_MS)
        } else {
            None
        },
    }
}

/// The rows that a leaderboard query selects.
#[derive(Debug, PartialEq, Eq)]
pub struct LeaderboardPlan {
    pub since_ms: i64,
    pub limit: i64,
    pub offset: i64,
}

/// Plans a query: up to a hundred forecasters, twenty-five unless the client says
/// otherwise.
pub fn plan_leaderboard(q: &LeaderboardQuery, now_ms: i64) -> (r: Result<
    LeaderboardPlan,
    AppError,
>)
    requires
        period_start(crate::text::view_opt(q.period), now_ms) matches Some(since) ==> since
            >= i64::MIN,
    ensures
        match period_start(crate::text::view_opt(q.period), now_ms) {
            Some(since) => r matches Ok(p) && p.since_ms == since && p.limit == page_limit(
                q.limit,
                25,
                100,
            ) && p.offset == page_offset(q.offset),
            None => r matches Err(AppError::BadRequest(m)) && (q.period matches Some(p) && m@
                == "unknown period: "@ + p@ + " (expected all|30d|7d)"@),
        },
{
    let limit: i64 = limit_of(q.limit, 25, 100);
    let offset: i64 = offset_of(q.offset);
    let since_ms: i64 = match &q.period {
        None => 0,
        Some(p) => if same(p.as_str(), "all") {
            0
        } else if same(p.as_str(), "30d") {
            now_ms - THIRTY_DAYS_MS
        } else if same(p.as_str(), "7d") {
            now_ms - SEVEN_DAYS_MS
        } else {
            return Err(
                AppError::BadRequest(
                    join3("unknown period: ", p.as_str(), " (expected all|30d|7d)"),
                ),
            );
        },
    };
    Ok(LeaderboardPlan { since_ms, limit, offset })
}

/// A forecaster with what was earned in the period.
#[derive(Debug, PartialEq, Eq)]
pub struct LeaderboardRow {
    pub participant: String,
    pub tier: i16,
    pub lifetime_accuracy_bps: i64,
    pub pool_count: i64,
    pub earned: i64,
    pub pools_in_period: i64,
}

/// A row at a rank.
pub open spec fn entry_json(r: LeaderboardRow, rank: int) -> Json {
    Json::Object(
        seq![
            ("rank"@, json_int(rank)),
            ("participant"@, json_text(r.participant@)),
            ("tier"@, json_int(r.tier as int)),
            ("tier_label"@, json_text(tier_name(r.tier))),
            ("lifetime_accuracy_bps"@, json_int(r.lifetime_accuracy_bps as int)),
            ("pool_count"@, json_int(r.pool_count as int)),
            ("earned"@, json_decimal(r.earned as int)),
            ("pools_in_period"@, json_int(r.pools_in_period as int)),
        ],
    )
}

fn entry(r: &LeaderboardRow, rank: i64) -> (v: Value)
    ensures
        v@ == entry_json(*r, rank as int),
{
    let mut o = Fields::new();
    o.put("rank", Value::signed(rank));
    o.put_text("participant", r.participant.as_str());
    o.put("tier", Value::signed(r.tier as i64));
    o.put_text("tier_label", tier_label(r.tier));
    o.put("lifetime_accuracy_bps", Value::signed(r.lifetime_accuracy_bps));
    o.put("pool_count", Value::signed(r.pool_count));
    o.put("earned", Value::signed_decimal(r.earned));
    o.put("pools_in_period", Value::signed(r.pools_in_period));
    assert(o@ =~= entry_json(*r, rank as int)->Object_0);
    o.build()
}

/// The count of one tier: the last that is given, or none.
pub open spec fn tier_count(rows: Seq<(i16, i64)>, tier: int) -> i64
    decreases rows.len(),
{
    if rows.len() == 0 {
        0
    } else if rows.last().0 == tier {
        rows.last().1
    } else {
        tier_count(rows.drop_last(), tier)
    }
}

/// The counts of the four tiers; anything else is left out.
fn tier_counts(rows: &Vec<(i16, i64)>) -> (r: [i64; 4])
    ensures
        forall|t: int| 0 <= t < 4 ==> r@[t] == tier_count(rows@, t),
{
    let mut tiers: [i64; 4] = [0i64; 4];
    let mut i: usize = 0;
    assert(rows@.take(0) =~= seq![]);
    while i < rows.len()
        invariant
            i <= rows@.len(),
            forall|t: int| 0 <= t < 4 ==> tiers@[t] == tier_count(rows@.take(i as int), t),
        decreases rows@.len() - i,
    {
        assert(rows@.take(i + 1).drop_last() =~= rows@.take(i as int));
        let (tier, count): (i16, i64) = rows[i];
        if tier >= 0 && tier < 4 {
            let at: usize = tier as usize;
            tiers[at] = count;
        }
        i = i + 1;
    }
    assert(rows@.take(rows@.len() as int) =~= rows@);
    tiers
}

pub open spec fn tiers_json(rows: Seq<(i16, i64)>) -> Json {
    Json::Object(
        seq![
            ("observer"@, json_int(tier_count(rows, 0) as int)),
            ("analyst"@, json_int(tier_count(rows, 1) as int)),
            ("expert"@, json_int(tier_count(rows, 2) as int)),
            ("apex"@, json_int(tier_count(rows, 3) as int)),
        ],
    )
}

/// The leaderboard: the rows of a page, ranked on from its offset, the number of
/// all forecasters, and how many hold each tier.
pub open spec fn leaderboard_json(
    rows: Seq<LeaderboardRow>,
    offset: i64,
    total: i64,
    tier_rows: Seq<(i16, i64)>,
) -> Json {
    Json::Object(
        seq![
            (
                "leaderboard"@,
                Json::Array(Seq::new(rows.len(), |i: int| entry_json(rows[i], offset + i + 1))),
            ),
            ("total"@, json_int(total as int)),
            ("tiers"@, tiers_json(tier_rows)),
        ],
    )
}

pub fn leaderboard(
    rows: &Vec<LeaderboardRow>,
    offset: i64,
    total: i64,
    tier_rows: &Vec<(i16, i64)>,
) -> (r: Value)
    requires
        0 <= offset,
        offset + rows@.len() <= i64::MAX,
    ensures
        r@ == leaderboard_json(rows@, offset, total, tier_rows@),
{
    let ghost answer = leaderboard_json(rows@, offset, total, tier_rows@);
    let ghost all = answer->Object_0[0].1->Array_0;
    let mut items: Vec<Value> = Vec::new();
    let mut i: usize = 0;
    while i < rows.len()
        invariant
            i <= rows@.len(),
            0 <= offset,
            offset + rows@.len() <= i64::MAX,
            all == leaderboard_json(rows@, offset, total, tier_rows@)->Object_0[0].1->Array_0,
            view_all(items@) =~= all.take(i as int),
        decreases rows@.len() - i,
    {
        let ghost before = items@;
        items.push(entry(&rows[i], offset + i as i64 + 1));
        assert(view_all(items@) =~= view_all(before).push(all[i as int]));
        i = i + 1;
    }
    assert(view_all(items@) =~= all);
    let counts = tier_counts(tier_rows);
    let mut tiers = Fields::new();
    tiers.put("observer", Value::signed(counts[0]));
    tiers.put("analyst", Value::signed(counts[1]));
    tiers.put("expert", Value::signed(counts[2]));
    tiers.put("apex", Value::signed(counts[3]));
    assert(tiers@ =~= tiers_json(tier_rows@)->Object_0);
    let mut o = Fields::new();
    o.put("leaderboard", Value::array(items));
    o.put("total", Value::signed(total));
    o.put("tiers", tiers.build());
    assert(o@ =~= answer->Object_0);
    o.build()
}

/// What a client reads of row `i` of a page under a name.
pub open spec fn shown(
    rows: Seq<LeaderboardRow>,
    offset: i64,
    total: i64,
    tier_rows: Seq<(i16, i64)>,
    i: int,
    name: Seq<char>,
) -> Option<Json> {
    match member(leaderboard_json(rows, offset, total, tier_rows), "leaderboard"@) {
        Some(Json::Array(items)) => if 0 <= i < items.len() {
            member(items[i], name)
        } else {
            None
        },
        _ => None,
    }
}

/// The names differ.
proof fn lemma_entry_names()
    ensures
        "rank"@.len() == 4,
        "participant"@.len() == 11,
        "tier"@.len() == 4,
        "tier_label"@.len() == 10,
        "lifetime_accuracy_bps"@.len() == 21,
        "pool_count"@.len() == 10,
        "earned"@.len() == 6,
        "pools_in_period"@.len() == 15,
        "rank"@[0] != "tier"@[0],
        "tier_label"@[0] != "pool_count"@[0],
{
    reveal_strlit("rank");
    reveal_strlit("participant");
    reveal_strlit("tier");
    reveal_strlit("tier_label");
    reveal_strlit("lifetime_accuracy_bps");
    reveal_strlit("pool_count");
    reveal_strlit("earned");
    reveal_strlit("pools_in_period");
}

/// The first row of a page has the rank after those that come before the page, and
/// the ranks go up by one from row to row. So no two forecasters share a rank, and a
/// page goes on where the one before it ended.
pub proof fn law_ranks_count_up(
    rows: Seq<LeaderboardRow>,
    offset: i64,
    total: i64,
    tier_rows: Seq<(i16, i64)>,
    i: int,
)
    requires
        0 <= offset,
        0 <= i < rows.len(),
    ensures
        shown(rows, offset, total, tier_rows, i, "rank"@) == Some(
            Json::Unsigned((offset + i + 1) as nat),
        ),
{
    reveal_with_fuel(first_entry, 9);
    lemma_entry_names();
}

/// Every forecaster of a page is shown with the tier, the accuracy, the number of pools
/// and the earnings of the row it was made from, amounts as text and counts as numbers.
pub proof fn law_rows_are_shown(
    rows: Seq<LeaderboardRow>,
    offset: i64,
    total: i64,
    tier_rows: Seq<(i16, i64)>,
    i: int,
)
    requires
        0 <= i < rows.len(),
        rows[i].tier >= 0,
        rows[i].lifetime_accuracy_bps >= 0,
        rows[i].pool_count >= 0,
        rows[i].pools_in_period >= 0,
        rows[i].earned >= 0,
    ensures
        ({
            let r = rows[i];
            let read = |name: Seq<char>| shown(rows, offset, total, tier_rows, i, name);
            &&& read("participant"@) == Some(Json::Text(r.participant@))
            &&& read("tier"@) == Some(Json::Unsigned(r.tier as nat))
            &&& read("lifetime_accuracy_bps"@) == Some(
                Json::Unsigned(r.lifetime_accuracy_bps as nat),
            )
            &&& read("pool_count"@) == Some(Json::Unsigned(r.pool_count as nat))
            &&& read("pools_in_period"@) == Some(Json::Unsigned(r.pools_in_period as nat))
            &&& read("earned"@) matches Some(Json::Text(s)) && unsigned(s, i64::MAX as int) == Some(
                r.earned as int,
            )
        }),
{
    reveal_with_fuel(first_entry, 9);
    lemma_entry_names();
    law_decimal_reads_back(rows[i].earned as nat, i64::MAX as int);
}

/// The count of a tier is the one that the database gives for it; a tier that it does
/// not list has no forecasters.
pub proof fn law_tiers_are_counted(rows: Seq<(i16, i64)>, tier: int, k: int)
    requires
        forall|j: int| 0 <= j < rows.len() && j != k ==> (#[trigger] rows[j]).0 != tier,
    ensures
        0 <= k < rows.len() && rows[k].0 == tier ==> tier_count(rows, tier) == rows[k].1,
        !(0 <= k < rows.len() && rows[k].0 == tier) ==> tier_count(rows, tier) == 0,
    decreases rows.len(),
{
    if rows.len() > 0 {
        let head = rows.drop_last();
        assert forall|j: int| 0 <= j < head.len() && j != k implies (#[trigger] head[j]).0
            != tier by {
            assert(head[j] == rows[j]);
        }
        law_tiers_are_counted(head, tier, k);
        if 0 <= k < head.len() {
            assert(head[k] == rows[k]);
            assert(rows[rows.len() - 1].0 != tier);
        }
    }
}

/// The names differ.
proof fn lemma_total_names()
    ensures
        "leaderboard"@.len() == 11,
        "total"@.len() == 5,
        "tiers"@.len() == 5,
        "observer"@.len() == 8,
        "analyst"@.len() == 7,
        "expert"@.len() == 6,
        "apex"@.len() == 4,
        "total"@[1] != "tiers"@[1],
{
    reveal_strlit("leaderboard");
    reveal_strlit("total");
    reveal_strlit("tiers");
    reveal_strlit("observer");
    reveal_strlit("analyst");
    reveal_strlit("expert");
    reveal_strlit("apex");
}

/// The answer gives the number of all forecasters, and the four tiers by their names in
/// rising order.
pub proof fn law_totals_are_shown(
    rows: Seq<LeaderboardRow>,
    offset: i64,
    total: i64,
    tier_rows: Seq<(i16, i64)>,
)
    ensures
        ({
            let answer = leaderboard_json(rows, offset, total, tier_rows);
            let tiers = member(answer, "tiers"@);
            &&& member(answer, "total"@) == Some(json_int(total as int))
            &&& member_of(tiers, "observer"@) == Some(json_int(tier_count(tier_rows, 0) as int))
            &&& member_of(tiers, "analyst"@) == Some(json_int(tier_count(tier_rows, 1) as int))
            &&& member_of(tiers, "expert"@) == Some(json_int(tier_count(tier_rows, 2) as int))
            &&& member_of(tiers, "apex"@) == Some(json_int(tier_count(tier_rows, 3) as int))
        }),
{
    reveal_with_fuel(first_entry, 5);
    lemma_total_names();
    let answer = leaderboard_json(rows, offset, total, tier_rows);
    assert(member(answer, "tiers"@) == Some(tiers_json(tier_rows)));
    assert(member(tiers_json(tier_rows), "apex"@) is Some);
}

/// A forecaster carries the name of their tier.
pub proof fn law_tier_is_named(
    rows: Seq<LeaderboardRow>,
    offset: i64,
    total: i64,
    tier_rows: Seq<(i16, i64)>,
    i: int,
)
    requires
        0 <= i < rows.len(),
    ensures
        rows[i].tier == 1 ==> shown(rows, offset, total, tier_rows, i, "tier_label"@) == Some(
            json_text("ANALYST"@),
        ),
        rows[i].tier == 2 ==> shown(rows, offset, total, tier_rows, i, "tier_label"@) == Some(
            json_text("EXPERT"@),
        ),
        rows[i].tier == 3 ==> shown(rows, offset, total, tier_rows, i, "tier_label"@) == Some(
            json_text("APEX"@),
        ),
        !(1 <= rows[i].tier <= 3) ==> shown(rows, offset, total, tier_rows, i, "tier_label"@)
            == Some(json_text("OBSERVER"@)),
{
    reveal_with_fuel(first_entry, 9);
    lemma_entry_names();
}

/// A period reaches back as many days as it says; `all`, or no period, reaches back to
/// the beginning. Nothing else is a period.
pub proof fn law_periods_reach_back(period: Option<Seq<char>>, now_ms: i64)
    ensures
        period is None ==> period_start(period, now_ms) == Some(0int),
        period == Some("all"@) ==> period_start(period, now_ms) == Some(0int),
        period == Some("30d"@) ==> period_start(period, now_ms) == Some(
            now_ms - 30 * 24 * 3600 * 1000,
        ),
        period == Some("7d"@) ==> period_start(period, now_ms) == Some(
            now_ms - 7 * 24 * 3600 * 1000,
        ),
        period_start(period, now_ms) is None <==> (period matches Some(p) && p != "all"@ && p
            != "30d"@ && p != "7d"@),
{
    reveal_strlit("all");
    reveal_strlit("30d");
    reveal_strlit("7d");
    assert("all"@[0] != "30d"@[0]);
}

} // verus!
