//! Rows of the database, and the parts of the answers that are made from them.
//!
//! A number that may exceed what a JSON reader keeps exactly, such as an amount, a
//! score or a weight, is written as a string; timestamps in milliseconds stay
//! numbers.

use vstd::prelude::*;

use crate::json::{
    copy_opt, first_entry, json_decimal, json_int, json_opt, json_opt_text, json_text, member,
    Fields, Json, Value,
};
use crate::text::{decimal, i64_text, view_opt};

verus! {

// ---------------------------------------------------------------------------
// Rows
// ---------------------------------------------------------------------------

/// A row of `pools`.
#[derive(Debug, PartialEq, Eq)]
pub struct PoolRow {
    pub pool_id: String,
    pub leg_count: i64,
    pub state: String,
    pub start_time_ms: Option<i64>,
    pub commit_deadline_ms: i64,
    pub reveal_deadline_ms: i64,
    pub oracle_expiry_ms: Option<i64>,
    pub entry_fee_amount: i64,
    pub oracle_ids: Option<Value>,
    pub oracle_results: Option<Value>,
    pub participant_count: i64,
    pub reveal_count: i64,
    pub forfeited_count: i64,
    pub prize_pool: i64,
    pub total_weight: String,
    pub total_prize: Option<i64>,
    pub initial_shared_version: Option<i64>,
    pub predictions_table_id: Option<String>,
}

/// A row of `participants`.
#[derive(Debug, PartialEq, Eq)]
pub struct ParticipantRow {
    pub pool_id: String,
    pub participant: String,
    pub entry_fee: i64,
    pub commit_timestamp_ms: i64,
    pub revealed: bool,
    pub crowd_median_estimate: Option<i64>,
    pub predicted_prices: Option<Value>,
    pub leg_hits: Option<i16>,
    pub acc_score: Option<i64>,
    pub time_bonus: Option<i64>,
    pub composite_weight: Option<String>,
    pub apex_payout: Option<i64>,
    pub paid: bool,
}

/// A row of `frs_profiles`.
#[derive(Debug, Clone, PartialEq, Eq)]
pub struct FrsProfileRow {
    pub participant: String,
    pub tier: i16,
    pub lifetime_accuracy_bps: i64,
    pub pool_count: i64,
}

// ---------------------------------------------------------------------------
// Tiers
// ---------------------------------------------------------------------------

/// The name of a reputation tier; whatever is no tier is an observer.
pub open spec fn tier_name(tier: i16) -> Seq<char> {
    if tier == 1 {
        "ANALYST"@
    } else if tier == 2 {
        "EXPERT"@
    } else if tier == 3 {
        "APEX"@
    } else {
        "OBSERVER"@
    }
}

pub fn tier_label(tier: i16) -> (r: &'static str)
    ensures
        r@ == tier_name(tier),
{
    match tier {
        1 => "ANALYST",
        2 => "EXPERT",
        3 => "APEX",
        _ => "OBSERVER",
    }
}

// ---------------------------------------------------------------------------
// Columns in JSON
// ---------------------------------------------------------------------------

/// A number, or `null`.
pub open spec fn opt_int(n: Option<i64>) -> Json {
    match n {
        Some(n) => json_int(n as int),
        None => Json::Null,
    }
}

/// A number as a string, or `null`.
pub open spec fn opt_decimal(n: Option<i64>) -> Json {
    match n {
        Some(n) => json_decimal(n as int),
        None => Json::Null,
    }
}

/// A small number, or `null`.
pub open spec fn opt_small(n: Option<i16>) -> Json {
    match n {
        Some(n) => json_int(n as int),
        None => Json::Null,
    }
}

pub fn opt_small_value(n: Option<i16>) -> (r: Value)
    ensures
        r@ == opt_small(n),
{
    match n {
        Some(n) => Value::signed(n as i64),
        None => Value::Null,
    }
}

/// The decimal text of a number that may be absent.
pub open spec fn opt_digits(n: Option<i64>) -> Option<Seq<char>> {
    match n {
        Some(n) => Some(decimal(n as int)),
        None => None,
    }
}

fn opt_text(n: Option<i64>) -> (r: Option<String>)
    ensures
        view_opt(r) == opt_digits(n),
{
    match n {
        Some(n) => Some(i64_text(n)),
        None => None,
    }
}

fn copy_opt_text(s: &Option<String>) -> (r: Option<String>)
    ensures
        view_opt(r) == view_opt(*s),
{
    match s {
        Some(s) => Some(s.clone()),
        None => None,
    }
}

// ---------------------------------------------------------------------------
// Pools
// ---------------------------------------------------------------------------

/// A pool in a list.
#[derive(Debug, PartialEq, Eq)]
pub struct PoolSummary {
    pub pool_id: String,
    pub state: String,
    pub leg_count: i64,
    pub start_time_ms: Option<i64>,
    pub commit_deadline_ms: i64,
    pub reveal_deadline_ms: i64,
    pub oracle_expiry_ms: Option<i64>,
    pub entry_fee_amount: String,
    pub prize_pool: String,
    pub participant_count: i64,
    pub reveal_count: i64,
}

pub struct PoolSummaryView {
    pub pool_id: Seq<char>,
    pub state: Seq<char>,
    pub leg_count: i64,
    pub start_time_ms: Option<i64>,
    pub commit_deadline_ms: i64,
    pub reveal_deadline_ms: i64,
    pub oracle_expiry_ms: Option<i64>,
    pub entry_fee_amount: Seq<char>,
    pub prize_pool: Seq<char>,
    pub participant_count: i64,
    pub reveal_count: i64,
}

impl View for PoolSummary {
    type V = PoolSummaryView;

    open spec fn view(&self) -> PoolSummaryView {
        PoolSummaryView {
            pool_id: self.pool_id@,
            state: self.state@,
            leg_count: self.leg_count,
            start_time_ms: self.start_time_ms,
            commit_deadline_ms: self.commit_deadline_ms,
            reveal_deadline_ms: self.reveal_deadline_ms,
            oracle_expiry_ms: self.oracle_expiry_ms,
            entry_fee_amount: self.entry_fee_amount@,
            prize_pool: self.prize_pool@,
            participant_count: self.participant_count,
            reveal_count: self.reveal_count,
        }
    }
}

/// The summary of a row.
pub open spec fn summary(r: PoolRow) -> PoolSummaryView {
    PoolSummaryView {
        pool_id: r.pool_id@,
        state: r.state@,
        leg_count: r.leg_count,
        start_time_ms: r.start_time_ms,
        commit_deadline_ms: r.commit_deadline_ms,
        reveal_deadline_ms: r.reveal_deadline_ms,
        oracle_expiry_ms: r.oracle_expiry_ms,
        entry_fee_amount: decimal(r.entry_fee_amount as int),
        prize_pool: decimal(r.prize_pool as int),
        participant_count: r.participant_count,
        reveal_count: r.reveal_count,
    }
}

/// The entries of a summary in JSON.
pub open spec fn summary_entries(s: PoolSummaryView) -> Seq<(Seq<char>, Json)> {
    seq![
        ("pool_id"@, json_text(s.pool_id)),
        ("state"@, json_text(s.state)),
        ("leg_count"@, json_int(s.leg_count as int)),
        ("start_time_ms"@, opt_int(s.start_time_ms)),
        ("commit_deadline_ms"@, json_int(s.commit_deadline_ms as int)),
        ("reveal_deadline_ms"@, json_int(s.reveal_deadline_ms as int)),
        ("oracle_expiry_ms"@, opt_int(s.oracle_expiry_ms)),
        ("entry_fee_amount"@, json_text(s.entry_fee_amount)),
        ("prize_pool"@, json_text(s.prize_pool)),
        ("participant_count"@, json_int(s.participant_count as int)),
        ("reveal_count"@, json_int(s.reveal_count as int)),
    ]
}

impl PoolSummary {
    pub fn from(r: &PoolRow) -> (s: PoolSummary)
        ensures
            s@ == summary(*r),
    {
        PoolSummary {
            pool_id: r.pool_id.clone(),
            state: r.state.clone(),
            leg_count: r.leg_count,
            start_time_ms: r.start_time_ms,
            commit_deadline_ms: r.commit_deadline_ms,
            reveal_deadline_ms: r.reveal_deadline_ms,
            oracle_expiry_ms: r.oracle_expiry_ms,
            entry_fee_amount: i64_text(r.entry_fee_amount),
            prize_pool: i64_text(r.prize_pool),
            participant_count: r.participant_count,
            reveal_count: r.reveal_count,
        }
    }

    fn fields(&self) -> (o: Fields)
        ensures
            o@ == summary_entries(self@),
    {
        let mut o = Fields::new();
        o.put_text("pool_id", self.pool_id.as_str());
        o.put_text("state", self.state.as_str());
        o.put("leg_count", Value::signed(self.leg_count));
        o.put("start_time_ms", Value::opt_signed(self.start_time_ms));
        o.put("commit_deadline_ms", Value::signed(self.commit_deadline_ms));
        o.put("reveal_deadline_ms", Value::signed(self.reveal_deadline_ms));
        o.put("oracle_expiry_ms", Value::opt_signed(self.oracle_expiry_ms));
        o.put_text("entry_fee_amount", self.entry_fee_amount.as_str());
        o.put_text("prize_pool", self.prize_pool.as_str());
        o.put("participant_count", Value::signed(self.participant_count));
        o.put("reveal_count", Value::signed(self.reveal_count));
        assert(o@ =~= summary_entries(self@));
        o
    }

    /// The summary in JSON.
    pub fn to_value(&self) -> (v: Value)
        ensures
            v@ == Json::Object(summary_entries(self@)),
    {
        self.fields().build()
    }
}

/// A pool on its own.
#[derive(Debug, PartialEq, Eq)]
pub struct PoolDetail {
    pub summary: PoolSummary,
    pub forfeited_count: i64,
    pub total_weight: String,
    pub total_prize: Option<String>,
    pub oracle_ids: Option<Value>,
    pub oracle_results: Option<Value>,
}

pub struct PoolDetailView {
    pub summary: PoolSummaryView,
    pub forfeited_count: i64,
    pub total_weight: Seq<char>,
    pub total_prize: Option<Seq<char>>,
    pub oracle_ids: Option<Json>,
    pub oracle_results: Option<Json>,
}

impl View for PoolDetail {
    type V = PoolDetailView;

    open spec fn view(&self) -> PoolDetailView {
        PoolDetailView {
            summary: self.summary@,
            forfeited_count: self.forfeited_count,
            total_weight: self.total_weight@,
            total_prize: view_opt(self.total_prize),
            oracle_ids: view_opt(self.oracle_ids),
            oracle_results: view_opt(self.oracle_results),
        }
    }
}

/// The detail of a row.
pub open spec fn detail(r: PoolRow) -> PoolDetailView {
    PoolDetailView {
        summary: summary(r),
        forfeited_count: r.forfeited_count,
        total_weight: r.total_weight@,
        total_prize: opt_digits(r.total_prize),
        oracle_ids: view_opt(r.oracle_ids),
        oracle_results: view_opt(r.oracle_results),
    }
}

/// A detail in JSON: the entries of its summary and its own.
pub open spec fn detail_json(d: PoolDetailView) -> Json {
    Json::Object(
        summary_entries(d.summary) + seq![
            ("forfeited_count"@, json_int(d.forfeited_count as int)),
            ("total_weight"@, json_text(d.total_weight)),
            ("total_prize"@, json_opt_text(d.total_prize)),
            ("oracle_ids"@, json_opt(d.oracle_ids)),
            ("oracle_results"@, json_opt(d.oracle_results)),
        ],
    )
}

impl PoolDetail {
    pub fn from(r: &PoolRow) -> (d: PoolDetail)
        ensures
            d@ == detail(*r),
    {
        PoolDetail {
            summary: PoolSummary::from(r),
            forfeited_count: r.forfeited_count,
            total_weight: r.total_weight.clone(),
            total_prize: opt_text(r.total_prize),
            oracle_ids: copy_opt(&r.oracle_ids),
            oracle_results: copy_opt(&r.oracle_results),
        }
    }

    /// The detail in JSON.
    pub fn to_value(&self) -> (v: Value)
        ensures
            v@ == detail_json(self@),
    {
        let mut o = self.summary.fields();
        o.put("forfeited_count", Value::signed(self.forfeited_count));
        o.put_text("total_weight", self.total_weight.as_str());
        o.put("total_prize", Value::opt_text(&self.total_prize));
        o.put("oracle_ids", Value::opt_copy(&self.oracle_ids));
        o.put("oracle_results", Value::opt_copy(&self.oracle_results));
        assert(o@ =~= detail_json(self@)->Object_0);
        o.build()
    }
}

// ---------------------------------------------------------------------------
// Participants
// ---------------------------------------------------------------------------

/// A participant in a list.
#[derive(Debug, PartialEq, Eq)]
pub struct ParticipantEntry {
    pub participant: String,
    pub entry_fee: String,
    pub commit_timestamp_ms: i64,
    pub revealed: bool,
}

/// The entry of a row, in JSON.
pub open spec fn participant_json(r: ParticipantRow) -> Json {
    Json::Object(
        seq![
            ("participant"@, json_text(r.participant@)),
            ("entry_fee"@, json_decimal(r.entry_fee as int)),
            ("commit_timestamp_ms"@, json_int(r.commit_timestamp_ms as int)),
            ("revealed"@, Json::Bool(r.revealed)),
        ],
    )
}

/// An entry in JSON.
pub open spec fn participant_entry_json(e: ParticipantEntry) -> Json {
    Json::Object(
        seq![
            ("participant"@, json_text(e.participant@)),
            ("entry_fee"@, json_text(e.entry_fee@)),
            ("commit_timestamp_ms"@, json_int(e.commit_timestamp_ms as int)),
            ("revealed"@, Json::Bool(e.revealed)),
        ],
    )
}

impl ParticipantEntry {
    pub fn from(r: &ParticipantRow) -> (e: ParticipantEntry)
        ensures
            e.participant@ == r.participant@,
            e.entry_fee@ == decimal(r.entry_fee as int),
            e.commit_timestamp_ms == r.commit_timestamp_ms,
            e.revealed == r.revealed,
            participant_entry_json(e) == participant_json(*r),
    {
        ParticipantEntry {
            participant: r.participant.clone(),
            entry_fee: i64_text(r.entry_fee),
            commit_timestamp_ms: r.commit_timestamp_ms,
            revealed: r.revealed,
        }
    }

    pub fn to_value(&self) -> (v: Value)
        ensures
            v@ == participant_entry_json(*self),
    {
        let mut o = Fields::new();
        o.put_text("participant", self.participant.as_str());
        o.put_text("entry_fee", self.entry_fee.as_str());
        o.put("commit_timestamp_ms", Value::signed(self.commit_timestamp_ms));
        o.put("revealed", Value::Bool(self.revealed));
        assert(o@ =~= participant_entry_json(*self)->Object_0);
        o.build()
    }
}

/// A participant in the results of a pool.
#[derive(Debug, PartialEq, Eq)]
pub struct ResultEntry {
    pub rank: i64,
    pub participant: String,
    pub predicted_prices: Option<Value>,
    pub leg_hits: Option<i16>,
    pub acc_score: Option<String>,
    pub time_bonus: Option<String>,
    pub composite_weight: Option<String>,
    pub apex_payout: Option<String>,
}

pub struct ResultEntryView {
    pub rank: i64,
    pub participant: Seq<char>,
    pub predicted_prices: Option<Json>,
    pub leg_hits: Option<i16>,
    pub acc_score: Option<Seq<char>>,
    pub time_bonus: Option<Seq<char>>,
    pub composite_weight: Option<Seq<char>>,
    pub apex_payout: Option<Seq<char>>,
}

impl View for ResultEntry {
    type V = ResultEntryView;

    open spec fn view(&self) -> ResultEntryView {
        ResultEntryView {
            rank: self.rank,
            participant: self.participant@,
            predicted_prices: view_opt(self.predicted_prices),
            leg_hits: self.leg_hits,
            acc_score: view_opt(self.acc_score),
            time_bonus: view_opt(self.time_bonus),
            composite_weight: view_opt(self.composite_weight),
            apex_payout: view_opt(self.apex_payout),
        }
    }
}

/// The entry of a row at a rank.
pub open spec fn result_entry(r: ParticipantRow, rank: i64) -> ResultEntryView {
    ResultEntryView {
        rank,
        participant: r.participant@,
        predicted_prices: view_opt(r.predicted_prices),
        leg_hits: r.leg_hits,
        acc_score: opt_digits(r.acc_score),
        time_bonus: opt_digits(r.time_bonus),
        composite_weight: view_opt(r.composite_weight),
        apex_payout: opt_digits(r.apex_payout),
    }
}

/// An entry in JSON.
pub open spec fn result_json(e: ResultEntryView) -> Json {
    Json::Object(
        seq![
            ("rank"@, json_int(e.rank as int)),
            ("participant"@, json_text(e.participant)),
            ("predicted_prices"@, json_opt(e.predicted_prices)),
            ("leg_hits"@, opt_small(e.leg_hits)),
            ("acc_score"@, json_opt_text(e.acc_score)),
            ("time_bonus"@, json_opt_text(e.time_bonus)),
            ("composite_weight"@, json_opt_text(e.composite_weight)),
            ("apex_payout"@, json_opt_text(e.apex_payout)),
        ],
    )
}

impl ResultEntry {
    pub fn from(r: &ParticipantRow, rank: i64) -> (e: ResultEntry)
        ensures
            e@ == result_entry(*r, rank),
    {
        ResultEntry {
            rank,
            participant: r.participant.clone(),
            predicted_prices: copy_opt(&r.predicted_prices),
            leg_hits: r.leg_hits,
            acc_score: opt_text(r.acc_score),
            time_bonus: opt_text(r.time_bonus),
            composite_weight: copy_opt_text(&r.composite_weight),
            apex_payout: opt_text(r.apex_payout),
        }
    }

    pub fn to_value(&self) -> (v: Value)
        ensures
            v@ == result_json(self@),
    {
        let mut o = Fields::new();
        o.put("rank", Value::signed(self.rank));
        o.put_text("participant", self.participant.as_str());
        o.put("predicted_prices", Value::opt_copy(&self.predicted_prices));
        o.put("leg_hits", opt_small_value(self.leg_hits));
        o.put("acc_score", Value::opt_text(&self.acc_score));
        o.put("time_bonus", Value::opt_text(&self.time_bonus));
        o.put("composite_weight", Value::opt_text(&self.composite_weight));
        o.put("apex_payout", Value::opt_text(&self.apex_payout));
        assert(o@ =~= result_json(self@)->Object_0);
        o.build()
    }
}

// ---------------------------------------------------------------------------
// What the answers show
// ---------------------------------------------------------------------------

/// The tiers from one to three have names of their own; zero and whatever is no tier is
/// an observer.
pub proof fn law_tier_names(tier: i16)
    ensures
        tier_name(1) == "ANALYST"@,
        tier_name(2) == "EXPERT"@,
        tier_name(3) == "APEX"@,
        tier < 1 || tier > 3 ==> tier_name(tier) == "OBSERVER"@,
{
}

/// A column without a value is `null`; one with a value is the number, or its digits.
pub proof fn law_columns_in_json(n: i64, small: i16)
    ensures
        opt_int(Some(n)) == json_int(n as int),
        opt_int(None) == Json::Null,
        opt_decimal(Some(n)) == json_text(decimal(n as int)),
        opt_decimal(None) == Json::Null,
        opt_small(Some(small)) == json_int(small as int),
        opt_small(None) == Json::Null,
        opt_digits(Some(n)) == Some(decimal(n as int)),
        opt_digits(None) is None,
{
}

/// The names differ.
proof fn lemma_pool_names()
    ensures
        "pool_id"@.len() == 7,
        "state"@.len() == 5,
        "leg_count"@.len() == 9,
        "start_time_ms"@.len() == 13,
        "commit_deadline_ms"@.len() == 18,
        "reveal_deadline_ms"@.len() == 18,
        "oracle_expiry_ms"@.len() == 16,
        "entry_fee_amount"@.len() == 16,
        "prize_pool"@.len() == 10,
        "participant_count"@.len() == 17,
        "reveal_count"@.len() == 12,
        "forfeited_count"@.len() == 15,
        "total_weight"@.len() == 12,
        "total_prize"@.len() == 11,
        "oracle_ids"@.len() == 10,
        "oracle_results"@.len() == 14,
        "commit_deadline_ms"@[0] != "reveal_deadline_ms"@[0],
        "oracle_expiry_ms"@[0] != "entry_fee_amount"@[0],
        "prize_pool"@[0] != "oracle_ids"@[0],
        "reveal_count"@[0] != "total_weight"@[0],
{
    reveal_strlit("pool_id");
    reveal_strlit("state");
    reveal_strlit("leg_count");
    reveal_strlit("start_time_ms");
    reveal_strlit("commit_deadline_ms");
    reveal_strlit("reveal_deadline_ms");
    reveal_strlit("oracle_expiry_ms");
    reveal_strlit("entry_fee_amount");
    reveal_strlit("prize_pool");
    reveal_strlit("participant_count");
    reveal_strlit("reveal_count");
    reveal_strlit("forfeited_count");
    reveal_strlit("total_weight");
    reveal_strlit("total_prize");
    reveal_strlit("oracle_ids");
    reveal_strlit("oracle_results");
}

/// A summary shows the row of the pool: every column under its own name, amounts as text.
pub proof fn law_summary_shows_the_row(r: PoolRow)
    ensures
        ({
            let j = Json::Object(summary_entries(summary(r)));
            &&& member(j, "pool_id"@) == Some(json_text(r.pool_id@))
            &&& member(j, "state"@) == Some(json_text(r.state@))
            &&& member(j, "leg_count"@) == Some(json_int(r.leg_count as int))
            &&& member(j, "start_time_ms"@) == Some(opt_int(r.start_time_ms))
            &&& member(j, "commit_deadline_ms"@) == Some(json_int(r.commit_deadline_ms as int))
            &&& member(j, "reveal_deadline_ms"@) == Some(json_int(r.reveal_deadline_ms as int))
            &&& member(j, "oracle_expiry_ms"@) == Some(opt_int(r.oracle_expiry_ms))
            &&& member(j, "entry_fee_amount"@) == Some(json_decimal(r.entry_fee_amount as int))
            &&& member(j, "prize_pool"@) == Some(json_decimal(r.prize_pool as int))
            &&& member(j, "participant_count"@) == Some(json_int(r.participant_count as int))
            &&& member(j, "reveal_count"@) == Some(json_int(r.reveal_count as int))
        }),
{
    lemma_pool_names();
    reveal_with_fuel(first_entry, 12);
}

/// A detail shows all that the summary shows, and the other columns of the row.
#[verifier::rlimit(60)]
pub proof fn law_detail_shows_the_row(r: PoolRow)
    ensures
        ({
            let j = detail_json(detail(r));
            &&& member(j, "pool_id"@) == Some(json_text(r.pool_id@))
            &&& member(j, "state"@) == Some(json_text(r.state@))
            &&& member(j, "leg_count"@) == Some(json_int(r.leg_count as int))
            &&& member(j, "start_time_ms"@) == Some(opt_int(r.start_time_ms))
            &&& member(j, "commit_deadline_ms"@) == Some(json_int(r.commit_deadline_ms as int))
            &&& member(j, "reveal_deadline_ms"@) == Some(json_int(r.reveal_deadline_ms as int))
            &&& member(j, "oracle_expiry_ms"@) == Some(opt_int(r.oracle_expiry_ms))
            &&& member(j, "entry_fee_amount"@) == Some(json_decimal(r.entry_fee_amount as int))
            &&& member(j, "prize_pool"@) == Some(json_decimal(r.prize_pool as int))
            &&& member(j, "participant_count"@) == Some(json_int(r.participant_count as int))
            &&& member(j, "reveal_count"@) == Some(json_int(r.reveal_count as int))
            &&& member(j, "forfeited_count"@) == Some(json_int(r.forfeited_count as int))
            &&& member(j, "total_weight"@) == Some(json_text(r.total_weight@))
            &&& member(j, "total_prize"@) == Some(opt_decimal(r.total_prize))
            &&& member(j, "oracle_ids"@) == Some(json_opt(view_opt(r.oracle_ids)))
            &&& member(j, "oracle_results"@) == Some(json_opt(view_opt(r.oracle_results)))
        }),
{
    lemma_pool_names();
    reveal_with_fuel(first_entry, 17);
}


/// The names differ.
proof fn lemma_participant_names()
    ensures
        "participant"@.len() == 11,
        "entry_fee"@.len() == 9,
        "commit_timestamp_ms"@.len() == 19,
        "revealed"@.len() == 8,
        "rank"@.len() == 4,
        "predicted_prices"@.len() == 16,
        "leg_hits"@.len() == 8,
        "acc_score"@.len() == 9,
        "time_bonus"@.len() == 10,
        "composite_weight"@.len() == 16,
        "apex_payout"@.len() == 11,
        "participant"@[0] != "apex_payout"@[0],
        "entry_fee"@[0] != "acc_score"@[0],
        "revealed"@[0] != "leg_hits"@[0],
        "predicted_prices"@[0] != "composite_weight"@[0],
{
    reveal_strlit("participant");
    reveal_strlit("entry_fee");
    reveal_strlit("commit_timestamp_ms");
    reveal_strlit("revealed");
    reveal_strlit("rank");
    reveal_strlit("predicted_prices");
    reveal_strlit("leg_hits");
    reveal_strlit("acc_score");
    reveal_strlit("time_bonus");
    reveal_strlit("composite_weight");
    reveal_strlit("apex_payout");
}

/// A participant in a list shows the row.
pub proof fn law_participant_shows_the_row(r: ParticipantRow)
    ensures
        ({
            let j = participant_json(r);
            &&& member(j, "participant"@) == Some(json_text(r.participant@))
            &&& member(j, "entry_fee"@) == Some(json_decimal(r.entry_fee as int))
            &&& member(j, "commit_timestamp_ms"@) == Some(json_int(r.commit_timestamp_ms as int))
            &&& member(j, "revealed"@) == Some(Json::Bool(r.revealed))
        }),
{
    lemma_participant_names();
    reveal_with_fuel(first_entry, 5);
}

/// A participant of a list in JSON shows the entry.
pub proof fn law_participant_entry_is_shown(e: ParticipantEntry)
    ensures
        ({
            let j = participant_entry_json(e);
            &&& member(j, "participant"@) == Some(json_text(e.participant@))
            &&& member(j, "entry_fee"@) == Some(json_text(e.entry_fee@))
            &&& member(j, "commit_timestamp_ms"@) == Some(json_int(e.commit_timestamp_ms as int))
            &&& member(j, "revealed"@) == Some(Json::Bool(e.revealed))
        }),
{
    lemma_participant_names();
    reveal_with_fuel(first_entry, 5);
}

/// A result shows its rank and the row of the participant, scores and payout as text.
pub proof fn law_result_shows_the_row(r: ParticipantRow, rank: i64)
    ensures
        ({
            let j = result_json(result_entry(r, rank));
            &&& member(j, "rank"@) == Some(json_int(rank as int))
            &&& member(j, "participant"@) == Some(json_text(r.participant@))
            &&& member(j, "predicted_prices"@) == Some(json_opt(view_opt(r.predicted_prices)))
            &&& member(j, "leg_hits"@) == Some(opt_small(r.leg_hits))
            &&& member(j, "acc_score"@) == Some(opt_decimal(r.acc_score))
            &&& member(j, "time_bonus"@) == Some(opt_decimal(r.time_bonus))
            &&& member(j, "composite_weight"@) == Some(json_opt_text(view_opt(r.composite_weight)))
            &&& member(j, "apex_payout"@) == Some(opt_decimal(r.apex_payout))
        }),
{
    lemma_participant_names();
    reveal_with_fuel(first_entry, 9);
}


/// The models of a summary, of a detail and of a result have their values.
pub proof fn law_models_have_the_values(s: PoolSummary, d: PoolDetail, e: ResultEntry)
    ensures
        s@.pool_id == s.pool_id@ && s@.state == s.state@ && s@.leg_count == s.leg_count,
        s@.start_time_ms == s.start_time_ms && s@.oracle_expiry_ms == s.oracle_expiry_ms,
        s@.commit_deadline_ms == s.commit_deadline_ms,
        s@.reveal_deadline_ms == s.reveal_deadline_ms,
        s@.entry_fee_amount == s.entry_fee_amount@ && s@.prize_pool == s.prize_pool@,
        s@.participant_count == s.participant_count && s@.reveal_count == s.reveal_count,
        d@.summary == d.summary@ && d@.forfeited_count == d.forfeited_count,
        d@.total_weight == d.total_weight@ && d@.total_prize == view_opt(d.total_prize),
        d@.oracle_ids == view_opt(d.oracle_ids),
        d@.oracle_results == view_opt(d.oracle_results),
        e@.rank == e.rank && e@.participant == e.participant@ && e@.leg_hits == e.leg_hits,
        e@.predicted_prices == view_opt(e.predicted_prices),
        e@.acc_score == view_opt(e.acc_score) && e@.time_bonus == view_opt(e.time_bonus),
        e@.composite_weight == view_opt(e.composite_weight),
        e@.apex_payout == view_opt(e.apex_payout),
{
}

} // verus!
