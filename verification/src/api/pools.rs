//! Pools: lists, details, participants and results.

use vstd::prelude::*;

use crate::error::AppError;
use crate::json::{first_entry, json_int, json_text, member, Fields, Json, Value};
use crate::models::{
    detail as detail_of, detail_json, law_result_shows_the_row, participant_json, result_entry, result_json, summary,
    summary_entries, ParticipantEntry, ParticipantRow, PoolDetail, PoolRow, PoolSummary, ResultEntry,
};
use crate::text::{join, join3, lower, same, to_lower, view_all};

verus! {

/// What a client may ask of the list.
#[derive(Debug, PartialEq, Eq)]
pub struct ListQuery {
    /// One of the states, in any case.
    pub state: Option<String>,
    pub limit: Option<i64>,
    pub offset: Option<i64>,
}

/// The number of rows of a page: what is asked for, within bounds, or a default.
pub open spec fn page_limit(asked: Option<i64>, default: i64, max: i64) -> i64 {
    match asked {
        Some(n) => if n < 1 {
            1
        } else if n > max {
            max
        } else {
            n
        },
        None => default,
    }
}

/// The rows that come before a page.
pub open spec fn page_offset(asked: Option<i64>) -> i64 {
    match asked {
        Some(n) => if n < 0 {
            0
        } else {
            n
        },
        None => 0,
    }
}

pub fn limit_of(asked: Option<i64>, default: i64, max: i64) -> (r: i64)
    requires
        1 <= default <= max,
    ensures
        r == page_limit(asked, default, max),
        1 <= r <= max,
{
    match asked {
        Some(n) => if n < 1 {
            1
        } else if n > max {
            max
        } else {
            n
        },
        None => default,
    }
}

pub fn offset_of(asked: Option<i64>) -> (r: i64)
    ensures
        r == page_offset(asked),
        r >= 0,
{
    match asked {
        Some(n) => if n < 0 {
            0
        } else {
            n
        },
        None => 0,
    }
}

/// The state that a lower-case name stands for.
pub open spec fn state_named(s: Seq<char>) -> Option<Seq<char>> {
    if s == "open"@ {
        Some("Open"@)
    } else if s == "closed"@ || s == "reveal"@ {
        Some("Closed"@)
    } else if s == "locked"@ {
        Some("Locked"@)
    } else if s == "scored"@ {
        Some("Scored"@)
    } else if s == "distributed"@ || s == "settled"@ {
        Some("Distributed"@)
    } else {
        None
    }
}

/// The state that a filter names, in any case.
pub fn normalize_state(s: &str) -> (r: Result<String, AppError>)
    ensures
        match state_named(lower(s@)) {
            Some(state) => r matches Ok(t) && t@ == state,
            None => r matches Err(AppError::BadRequest(m)) && m@ == "unknown pool state filter: "@
                + lower(s@),
        },
{
    let name = to_lower(s);
    let n = name.as_str();
    if same(n, "open") {
        Ok("Open".to_owned())
    } else if same(n, "closed") || same(n, "reveal") {
        Ok("Closed".to_owned())
    } else if same(n, "locked") {
        Ok("Locked".to_owned())
    } else if same(n, "scored") {
        Ok("Scored".to_owned())
    } else if same(n, "distributed") || same(n, "settled") {
        Ok("Distributed".to_owned())
    } else {
        Err(AppError::BadRequest(join("unknown pool state filter: ", n)))
    }
}

/// The rows that a list query selects.
#[derive(Debug, PartialEq, Eq)]
pub struct ListPlan {
    pub state: Option<String>,
    pub limit: i64,
    pub offset: i64,
}

/// Plans a list query: up to two hundred pools, fifty unless the client says
/// otherwise.
pub fn plan_list(q: &ListQuery) -> (r: Result<ListPlan, AppError>)
    ensures
        match q.state {
            None => r matches Ok(p) && p.state is None && p.limit == page_limit(q.limit, 50, 200)
                && p.offset == page_offset(q.offset),
            Some(s) => match state_named(lower(s@)) {
                Some(state) => r matches Ok(p) && (p.state matches Some(t) && t@ == state)
                    && p.limit == page_limit(q.limit, 50, 200) && p.offset == page_offset(
                    q.offset,
                ),
                None => r matches Err(AppError::BadRequest(m)) && m@
                    == "unknown pool state filter: "@ + lower(s@),
            },
        },
{
    let limit: i64 = limit_of(q.limit, 50, 200);
    let offset: i64 = offset_of(q.offset);
    let state = match &q.state {
        Some(s) => match normalize_state(s.as_str()) {
            Ok(t) => Some(t),
            Err(e) => return Err(e),
        },
        None => None,
    };
    Ok(ListPlan { state, limit, offset })
}

/// The list of pools.
pub open spec fn list_json(rows: Seq<PoolRow>) -> Json {
    Json::Object(
        seq![
            (
                "pools"@,
                Json::Array(
                    Seq::new(rows.len(), |i: int| Json::Object(summary_entries(summary(rows[i])))),
                ),
            ),
        ],
    )
}

pub fn list(rows: &Vec<PoolRow>) -> (r: Value)
    ensures
        r@ == list_json(rows@),
{
    let mut items: Vec<Value> = Vec::new();
    let mut i: usize = 0;
    let ghost all = list_json(rows@)->Object_0[0].1->Array_0;
    while i < rows.len()
        invariant
            i <= rows@.len(),
            all == list_json(rows@)->Object_0[0].1->Array_0,
            view_all(items@) =~= all.take(i as int),
        decreases rows@.len() - i,
    {
        let ghost before = items@;
        items.push(PoolSummary::from(&rows[i]).to_value());
        assert(view_all(items@) =~= view_all(before).push(all[i as int]));
        i = i + 1;
    }
    assert(view_all(items@) =~= all);
    single("pools", Value::array(items))
}

/// An object of one entry.
pub(crate) fn single(name: &str, v: Value) -> (r: Value)
    ensures
        r@ == Json::Object(seq![(name@, v@)]),
{
    let mut o = Fields::new();
    o.put(name, v);
    assert(o@ =~= seq![(name@, v@)]);
    o.build()
}

/// The pool that was found, or what to say if there is none.
pub fn fetch_pool(row: Option<PoolRow>, pool_id: &str) -> (r: Result<PoolRow, AppError>)
    ensures
        match row {
            Some(p) => r == Ok::<PoolRow, AppError>(p),
            None => r matches Err(AppError::NotFound(m)) && m@ == "pool "@ + pool_id@
                + " not found"@,
        },
{
    match row {
        Some(p) => Ok(p),
        None => Err(AppError::NotFound(join3("pool ", pool_id, " not found"))),
    }
}

/// A pool in detail.
pub fn detail(row: &PoolRow) -> (r: Value)
    ensures
        r@ == detail_json(detail_of(*row)),
{
    PoolDetail::from(row).to_value()
}

/// The participants of a pool.
pub open spec fn participants_json(rows: Seq<ParticipantRow>) -> Json {
    Json::Object(
        seq![
            (
                "participants"@,
                Json::Array(Seq::new(rows.len(), |i: int| participant_json(rows[i]))),
            ),
        ],
    )
}

pub fn participants(rows: &Vec<ParticipantRow>) -> (r: Value)
    ensures
        r@ == participants_json(rows@),
{
    let mut items: Vec<Value> = Vec::new();
    let mut i: usize = 0;
    let ghost all = participants_json(rows@)->Object_0[0].1->Array_0;
    while i < rows.len()
        invariant
            i <= rows@.len(),
            all == participants_json(rows@)->Object_0[0].1->Array_0,
            view_all(items@) =~= all.take(i as int),
        decreases rows@.len() - i,
    {
        let ghost before = items@;
        items.push(ParticipantEntry::from(&rows[i]).to_value());
        assert(view_all(items@) =~= view_all(before).push(all[i as int]));
        i = i + 1;
    }
    assert(view_all(items@) =~= all);
    single("participants", Value::array(items))
}

/// The results of a pool: the rows, best first, ranked from one.
pub open spec fn results_json(pool: PoolRow, rows: Seq<ParticipantRow>) -> Json {
    Json::Object(
        seq![
            ("pool"@, detail_json(detail_of(pool))),
            (
                "results"@,
                Json::Array(
                    Seq::new(
                        rows.len(),
                        |i: int| result_json(result_entry(rows[i], (i + 1) as i64)),
                    ),
                ),
            ),
        ],
    )
}

pub fn results(pool: &PoolRow, rows: &Vec<ParticipantRow>) -> (r: Value)
    requires
        rows@.len() <= i64::MAX,
    ensures
        r@ == results_json(*pool, rows@),
{
    let mut items: Vec<Value> = Vec::new();
    let mut i: usize = 0;
    let ghost all = results_json(*pool, rows@)->Object_0[1].1->Array_0;
    while i < rows.len()
        invariant
            i <= rows@.len() <= i64::MAX,
            all == results_json(*pool, rows@)->Object_0[1].1->Array_0,
            view_all(items@) =~= all.take(i as int),
        decreases rows@.len() - i,
    {
        let ghost before = items@;
        items.push(ResultEntry::from(&rows[i], i as i64 + 1).to_value());
        assert(view_all(items@) =~= view_all(before).push(all[i as int]));
        i = i + 1;
    }
    assert(view_all(items@) =~= all);
    let mut o = Fields::new();
    o.put("pool", PoolDetail::from(pool).to_value());
    o.put("results", Value::array(items));
    assert(o@ =~= results_json(*pool, rows@)->Object_0);
    o.build()
}

// ---------------------------------------------------------------------------
// What the answers show
// ---------------------------------------------------------------------------

/// A page has the rows that were asked for where that is within bounds, the nearest bound
/// where it is not, and the default where nothing was asked for.
pub proof fn law_page_bounds(n: i64, default: i64, max: i64)
    requires
        1 <= default <= max,
    ensures
        1 <= n <= max ==> page_limit(Some(n), default, max) == n,
        n < 1 ==> page_limit(Some(n), default, max) == 1,
        n > max ==> page_limit(Some(n), default, max) == max,
        page_limit(None, default, max) == default,
        n >= 0 ==> page_offset(Some(n)) == n,
        n < 0 ==> page_offset(Some(n)) == 0,
        page_offset(None) == 0,
{
}

/// The names differ.
proof fn lemma_state_names()
    ensures
        "Open"@.len() == 4,
        "Closed"@.len() == 6,
        "Locked"@.len() == 6,
        "Scored"@.len() == 6,
        "Distributed"@.len() == 11,
        "open"@.len() == 4,
        "closed"@.len() == 6,
        "reveal"@.len() == 6,
        "locked"@.len() == 6,
        "scored"@.len() == 6,
        "distributed"@.len() == 11,
        "settled"@.len() == 7,
        "Open"@[0] != "open"@[0],
        "Closed"@[0] != "Locked"@[0],
        "Closed"@[0] != "Scored"@[0],
        "Closed"@[0] != "closed"@[0],
        "Closed"@[0] != "reveal"@[0],
        "Closed"@[0] != "locked"@[0],
        "Closed"@[0] != "scored"@[0],
        "Locked"@[0] != "Scored"@[0],
        "Locked"@[0] != "closed"@[0],
        "Locked"@[0] != "reveal"@[0],
        "Locked"@[0] != "locked"@[0],
        "Locked"@[0] != "scored"@[0],
        "Scored"@[0] != "closed"@[0],
        "Scored"@[0] != "reveal"@[0],
        "Scored"@[0] != "locked"@[0],
        "Scored"@[0] != "scored"@[0],
        "Distributed"@[0] != "distributed"@[0],
        "closed"@[0] != "reveal"@[0],
        "closed"@[0] != "locked"@[0],
        "closed"@[0] != "scored"@[0],
        "reveal"@[0] != "locked"@[0],
        "reveal"@[0] != "scored"@[0],
        "locked"@[0] != "scored"@[0],
{
    reveal_strlit("Open");
    reveal_strlit("Closed");
    reveal_strlit("Locked");
    reveal_strlit("Scored");
    reveal_strlit("Distributed");
    reveal_strlit("open");
    reveal_strlit("closed");
    reveal_strlit("reveal");
    reveal_strlit("locked");
    reveal_strlit("scored");
    reveal_strlit("distributed");
    reveal_strlit("settled");
}

/// Every state is found under its own name in any case.
pub proof fn law_states_have_their_names(s: Seq<char>)
    ensures
        state_named(lower("Open"@)) == Some("Open"@),
        state_named(lower("Closed"@)) == Some("Closed"@),
        state_named(lower("Locked"@)) == Some("Locked"@),
        state_named(lower("Scored"@)) == Some("Scored"@),
        state_named(lower("Distributed"@)) == Some("Distributed"@),
        state_named(lower(lower(s))) == state_named(lower(s)),
{
    lemma_state_names();
    reveal_strlit("Open");
    reveal_strlit("Closed");
    reveal_strlit("Locked");
    reveal_strlit("Scored");
    reveal_strlit("Distributed");
    reveal_strlit("open");
    reveal_strlit("closed");
    reveal_strlit("reveal");
    reveal_strlit("locked");
    reveal_strlit("scored");
    reveal_strlit("distributed");
    reveal_strlit("settled");
    assert(lower("Open"@) =~= "open"@);
    assert(lower("Closed"@) =~= "closed"@);
    assert(lower("Locked"@) =~= "locked"@);
    assert(lower("Scored"@) =~= "scored"@);
    assert(lower("Distributed"@) =~= "distributed"@);
    assert(lower(lower(s)) =~= lower(s));
}

/// A closed pool takes reveals, and a distributed one is settled, so those names stand for
/// them too. Nothing else is a name: a name is that of its state or one of these two.
pub proof fn law_no_other_names(s: Seq<char>)
    ensures
        state_named("reveal"@) == Some("Closed"@),
        state_named("settled"@) == Some("Distributed"@),
        state_named(s) matches Some(state) ==> s == lower(state) || s == "reveal"@ && state
            == "Closed"@ || s == "settled"@ && state == "Distributed"@,
{
    lemma_state_names();
    reveal_strlit("Open");
    reveal_strlit("Closed");
    reveal_strlit("Locked");
    reveal_strlit("Scored");
    reveal_strlit("Distributed");
    reveal_strlit("open");
    reveal_strlit("closed");
    reveal_strlit("reveal");
    reveal_strlit("locked");
    reveal_strlit("scored");
    reveal_strlit("distributed");
    reveal_strlit("settled");
    assert(lower("Open"@) =~= "open"@);
    assert(lower("Closed"@) =~= "closed"@);
    assert(lower("Locked"@) =~= "locked"@);
    assert(lower("Scored"@) =~= "scored"@);
    assert(lower("Distributed"@) =~= "distributed"@);
}

/// A list has every pool, in order.
pub proof fn law_list_is_whole(rows: Seq<PoolRow>, i: int)
    requires
        0 <= i < rows.len(),
    ensures
        member(list_json(rows), "pools"@) matches Some(Json::Array(items)) && items.len()
            == rows.len() && items[i] == Json::Object(summary_entries(summary(rows[i]))),
{
    reveal_with_fuel(first_entry, 2);
}

/// A list has every participant, in order.
pub proof fn law_participants_are_whole(rows: Seq<ParticipantRow>, i: int)
    requires
        0 <= i < rows.len(),
    ensures
        member(participants_json(rows), "participants"@) matches Some(Json::Array(items))
            && items.len() == rows.len() && items[i] == participant_json(rows[i]),
{
    reveal_with_fuel(first_entry, 2);
}

/// The names differ.
proof fn lemma_result_names()
    ensures
        "pool"@.len() == 4,
        "results"@.len() == 7,
{
    reveal_strlit("pool");
    reveal_strlit("results");
}

/// The results have the pool, and every row in order with its rank: the first is ranked
/// one, and each one more than the one before.
pub proof fn law_results_are_ranked(pool: PoolRow, rows: Seq<ParticipantRow>, i: int)
    requires
        0 <= i < rows.len() <= i64::MAX,
    ensures
        member(results_json(pool, rows), "pool"@) == Some(detail_json(detail_of(pool))),
        member(results_json(pool, rows), "results"@) matches Some(Json::Array(items))
            && items.len() == rows.len() && {
            &&& member(items[i], "rank"@) == Some(json_int(i + 1))
            &&& member(items[i], "participant"@) == Some(json_text(rows[i].participant@))
            &&& items[i] == result_json(result_entry(rows[i], (i + 1) as i64))
        },
{
    lemma_result_names();
    reveal_with_fuel(first_entry, 3);
    law_result_shows_the_row(rows[i], (i + 1) as i64);
}

} // verus!
