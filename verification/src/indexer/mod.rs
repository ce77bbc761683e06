//! The indexer: it turns pages of events into database writes, and syncs pools and
//! predictions from their objects on chain, because closing a pool emits no event
//! and several fields never appear in one.

pub mod events;
pub mod handlers;
pub mod ledger;
pub mod replay;

use vstd::prelude::*;

use crate::indexer::events::{decode, decoded, EventModel};
use crate::indexer::handlers::{apply, event_writes, Write, WriteModel};
use crate::indexer::ledger::{after_events, effects, Defaults, Ledger};
use crate::json::{
    json_decimals, json_texts, member, member_of, owned, text_of, Json, Value,
};
use crate::keeper::oracle_list;
use crate::sui::types::{
    field_enum_variant, field_id_vec, field_table_id, field_u64, field_u64_vec,
    law_number_list_reads_back, law_text_list_reads_back, number_list, number_of, table_id, text_list, variant_name, EventId, EventIdView, EventPage, ObjectData,
    ObjectView, SuiEventView,
};
use crate::text::{same, view_all, view_opt};

verus! {

/// Seconds between two polls for events.
pub const POLL_INTERVAL_SECONDS: u64 = 2;

/// Seconds between two syncs of the pools.
pub const RECONCILE_INTERVAL_SECONDS: u64 = 15;

/// Events that are asked for at once.
pub const PAGE_SIZE: u64 = 100;

/// Objects that are asked for at once.
pub const CHUNK_SIZE: usize = 50;

/// The modules that emit events.
pub const POOL_MODULE: &'static str = "apex_pool";

pub const REPUTATION_MODULE: &'static str = "reputation";

/// The position in the events of a module, stored with the writes of the page that
/// ends there: module, transaction digest, event number.
pub const UPSERT_CURSOR: &'static str = "
    INSERT INTO indexer_cursors (filter_key, tx_digest, event_seq, updated_at)
    VALUES ($1, $2, $3, now())
    ON CONFLICT (filter_key) DO UPDATE SET
        tx_digest = EXCLUDED.tx_digest,
        event_seq = EXCLUDED.event_seq,
        updated_at = now()";

// ---------------------------------------------------------------------------
// Pages
// ---------------------------------------------------------------------------

/// The events of a page that are recognized, in order.
pub open spec fn page_events(raw: Seq<SuiEventView>) -> Seq<EventModel>
    decreases raw.len(),
{
    if raw.len() == 0 {
        seq![]
    } else {
        let head = page_events(raw.drop_last());
        match decoded(raw.last()) {
            Some(e) => head.push(e),
            None => head,
        }
    }
}

/// The writes of a number of events, in order.
pub open spec fn events_writes(es: Seq<EventModel>) -> Seq<WriteModel>
    decreases es.len(),
{
    if es.len() == 0 {
        seq![]
    } else {
        events_writes(es.drop_last()) + event_writes(es.last())
    }
}

/// What is to be done with a page, in one database transaction.
pub struct PagePlan {
    pub writes: Vec<Write>,
    /// The position to store, if the page gives one.
    pub cursor: Option<EventId>,
    /// Whether to ask for the next page.
    pub more: bool,
}

pub struct PagePlanView {
    pub writes: Seq<WriteModel>,
    pub cursor: Option<EventIdView>,
    pub more: bool,
}

impl View for PagePlan {
    type V = PagePlanView;

    open spec fn view(&self) -> PagePlanView {
        PagePlanView {
            writes: view_all(self.writes@),
            cursor: view_opt(self.cursor),
            more: self.more,
        }
    }
}

/// The plan of a page; nothing is done with an empty one.
pub open spec fn page_plan(
    raw: Seq<SuiEventView>,
    next: Option<EventIdView>,
    has_next_page: bool,
) -> Option<PagePlanView> {
    if raw.len() == 0 {
        None
    } else {
        Some(
            PagePlanView {
                writes: events_writes(page_events(raw)),
                cursor: next,
                more: has_next_page,
            },
        )
    }
}

/// Appends the writes of one event.
fn add_writes(out: &mut Vec<Write>, writes: Vec<Write>)
    ensures
        view_all(final(out)@) == view_all(old(out)@) + view_all(writes@),
{
    let mut writes = writes;
    let ghost a = view_all(out@);
    let ghost b = view_all(writes@);
    out.append(&mut writes);
    assert(view_all(out@) =~= a + b);
}

/// Plans a page.
pub fn plan_page(page: &EventPage) -> (r: Option<PagePlan>)
    ensures
        view_opt(r) == page_plan(
            view_all(page.data@),
            view_opt(page.next_cursor),
            page.has_next_page,
        ),
{
    let ghost raw = view_all(page.data@);
    if page.data.len() == 0 {
        return None;
    }
    let mut writes: Vec<Write> = Vec::new();
    let mut i: usize = 0;
    assert(raw.take(0) =~= Seq::<SuiEventView>::empty());
    assert(view_all(writes@) =~= seq![]);
    while i < page.data.len()
        invariant
            i <= page.data@.len(),
            raw == view_all(page.data@),
            view_all(writes@) == events_writes(page_events(raw.take(i as int))),
        decreases page.data@.len() - i,
    {
        assert(raw.take(i + 1).drop_last() =~= raw.take(i as int));
        assert(raw.take(i + 1).last() == page.data@[i as int]@);
        match decode(&page.data[i]) {
            Some(event) => {
                let ghost before = page_events(raw.take(i as int));
                assert(before.push(event@).drop_last() =~= before);
                add_writes(&mut writes, apply(event));
            },
            None => {},
        }
        i = i + 1;
    }
    assert(raw.take(page.data@.len() as int) =~= raw);
    let cursor = match &page.next_cursor {
        Some(c) => Some(c.copy()),
        None => None,
    };
    Some(PagePlan { writes, cursor, more: page.has_next_page })
}

proof fn lemma_effects_join(l: Ledger, d: Defaults, a: Seq<WriteModel>, b: Seq<WriteModel>)
    ensures
        effects(l, d, a + b) == effects(effects(l, d, a), d, b),
    decreases b.len(),
{
    if b.len() == 0 {
        assert(a + b =~= a);
    } else {
        assert((a + b).drop_last() =~= a + b.drop_last());
        lemma_effects_join(l, d, a, b.drop_last());
    }
}

/// The writes of a page do to the tables what its recognized events do, one after
/// the other.
pub proof fn law_page_is_its_events(l: Ledger, d: Defaults, es: Seq<EventModel>)
    ensures
        effects(l, d, events_writes(es)) == after_events(l, d, es),
    decreases es.len(),
{
    if es.len() > 0 {
        law_page_is_its_events(l, d, es.drop_last());
        lemma_effects_join(l, d, events_writes(es.drop_last()), event_writes(es.last()));
    }
}

// ---------------------------------------------------------------------------
// Pools
// ---------------------------------------------------------------------------

/// Pieces of at most `n`, in order.
pub open spec fn pieces<T>(s: Seq<T>, n: int) -> Seq<Seq<T>>
    decreases s.len(),
    when n > 0
{
    if s.len() == 0 {
        seq![]
    } else if s.len() <= n {
        seq![s]
    } else {
        seq![s.take(n)] + pieces(s.skip(n), n)
    }
}

/// Cutting loses nothing, and no piece is empty or too long.
pub proof fn law_pieces_are_the_whole<T>(s: Seq<T>, n: int)
    requires
        n > 0,
    ensures
        pieces(s, n).flatten() == s,
        forall|i: int|
            0 <= i < pieces(s, n).len() ==> 1 <= (#[trigger] pieces(s, n)[i]).len() <= n,
    decreases s.len(),
{
    if s.len() == 0 {
        assert(pieces(s, n).flatten() =~= s);
    } else if s.len() <= n {
        seq![s].lemma_flatten_one_element();
    } else {
        law_pieces_are_the_whole(s.skip(n), n);
        let rest = pieces(s.skip(n), n);
        let all = pieces(s, n);
        assert(all == seq![s.take(n)] + rest);
        assert(all.first() =~= s.take(n));
        assert(all.drop_first() =~= rest);
        assert(all.flatten() =~= s.take(n) + rest.flatten());
        assert(s.take(n) + s.skip(n) =~= s);
    }
}

/// The texts of lists of texts.
pub open spec fn text_lists(v: Seq<Vec<String>>) -> Seq<Seq<Seq<char>>> {
    Seq::new(v.len(), |i: int| view_all(v[i]@))
}

/// Cuts a list of ids into pieces that can be asked for at once.
pub fn chunks(ids: Vec<String>) -> (r: Vec<Vec<String>>)
    ensures
        text_lists(r@) == pieces(view_all(ids@), CHUNK_SIZE as int),
{
    let ghost all = view_all(ids@);
    let mut out: Vec<Vec<String>> = Vec::new();
    let mut from: usize = 0;
    assert(all.skip(0) =~= all);
    assert(text_lists(out@) =~= seq![]);
    while from < ids.len()
        invariant
            from <= ids@.len(),
            all == view_all(ids@),
            pieces(all, CHUNK_SIZE as int) =~= text_lists(out@) + pieces(
                all.skip(from as int),
                CHUNK_SIZE as int,
            ),
        decreases ids@.len() - from,
    {
        let to: usize = if ids.len() - from > CHUNK_SIZE {
            from + CHUNK_SIZE
        } else {
            ids.len()
        };
        let mut piece: Vec<String> = Vec::new();
        let mut i: usize = from;
        assert(view_all(piece@) =~= all.subrange(from as int, from as int));
        while i < to
            invariant
                from <= i <= to <= ids@.len(),
                all == view_all(ids@),
                view_all(piece@) == all.subrange(from as int, i as int),
            decreases to - i,
        {
            let ghost before = piece@;
            piece.push(ids[i].clone());
            assert(view_all(piece@) =~= view_all(before).push(ids@[i as int]@));
            assert(view_all(piece@) =~= all.subrange(from as int, i + 1));
            i = i + 1;
        }
        let ghost rest = all.skip(from as int);
        let ghost done = out@;
        out.push(piece);
        assert(text_lists(out@) =~= text_lists(done).push(all.subrange(from as int, to as int)));
        proof {
            if rest.len() > CHUNK_SIZE {
                assert(rest.take(CHUNK_SIZE as int) =~= all.subrange(from as int, to as int));
                assert(rest.skip(CHUNK_SIZE as int) =~= all.skip(to as int));
            } else {
                assert(rest =~= all.subrange(from as int, to as int));
                assert(all.skip(to as int) =~= seq![]);
            }
        }
        from = to;
    }
    out
}

/// The columns of a pool that are taken from its object. A column that has no value
/// here keeps the one it has.
#[derive(Debug, PartialEq, Eq)]
pub struct PoolSync {
    pub pool_id: String,
    pub state: Option<String>,
    pub start_time_ms: Option<i64>,
    pub oracle_expiry_ms: Option<i64>,
    pub oracle_ids: Option<Value>,
    pub oracle_results: Option<Value>,
    pub initial_shared_version: Option<i64>,
    pub predictions_table_id: Option<String>,
    pub total_weight: Option<String>,
}

pub struct PoolSyncView {
    pub pool_id: Seq<char>,
    pub state: Option<Seq<char>>,
    pub start_time_ms: Option<i64>,
    pub oracle_expiry_ms: Option<i64>,
    pub oracle_ids: Option<Json>,
    pub oracle_results: Option<Json>,
    pub initial_shared_version: Option<i64>,
    pub predictions_table_id: Option<Seq<char>>,
    pub total_weight: Option<Seq<char>>,
}

impl View for PoolSync {
    type V = PoolSyncView;

    open spec fn view(&self) -> PoolSyncView {
        PoolSyncView {
            pool_id: self.pool_id@,
            state: view_opt(self.state),
            start_time_ms: self.start_time_ms,
            oracle_expiry_ms: self.oracle_expiry_ms,
            oracle_ids: view_opt(self.oracle_ids),
            oracle_results: view_opt(self.oracle_results),
            initial_shared_version: self.initial_shared_version,
            predictions_table_id: view_opt(self.predictions_table_id),
            total_weight: view_opt(self.total_weight),
        }
    }
}

pub const SYNC_POOL: &'static str = "
    UPDATE pools SET
        state = COALESCE($2, state),
        start_time_ms = COALESCE($3, start_time_ms),
        oracle_expiry_ms = COALESCE($4, oracle_expiry_ms),
        oracle_ids = COALESCE($5, oracle_ids),
        oracle_results = COALESCE($6, oracle_results),
        initial_shared_version = COALESCE($7, initial_shared_version),
        predictions_table_id = COALESCE($8, predictions_table_id),
        total_weight = COALESCE($9, total_weight),
        updated_at = now()
    WHERE pool_id = $1";

/// A number in a signed column.
pub open spec fn column(n: Option<u64>) -> Option<i64> {
    match n {
        Some(n) => Some(n as i64),
        None => None,
    }
}

fn as_column(n: Option<u64>) -> (r: Option<i64>)
    ensures
        r == column(n),
{
    match n {
        Some(n) => Some(n as i64),
        None => None,
    }
}

/// Numbers that are stored as an array of strings.
pub open spec fn decimals(v: Option<Seq<u64>>) -> Option<Json> {
    match v {
        Some(v) => Some(json_decimals(v)),
        None => None,
    }
}

/// The results of the oracles; an empty list is no result.
pub open spec fn oracle_results(v: Option<Seq<u64>>) -> Option<Json> {
    match v {
        Some(v) => if v.len() == 0 {
            None
        } else {
            Some(json_decimals(v))
        },
        None => None,
    }
}

/// Texts that are stored as an array.
pub open spec fn texts(v: Option<Seq<Seq<char>>>) -> Option<Json> {
    match v {
        Some(v) => Some(json_texts(v)),
        None => None,
    }
}

/// What a pool object says of its row.
pub open spec fn synced_pool(o: ObjectView) -> PoolSyncView {
    let f = o.fields;
    PoolSyncView {
        pool_id: o.object_id,
        state: variant_name(member(f, "state"@)),
        start_time_ms: column(number_of(member(f, "start_time"@))),
        oracle_expiry_ms: column(number_of(member(f, "oracle_expiry"@))),
        oracle_ids: texts(text_list(member(f, "oracle_ids"@))),
        oracle_results: oracle_results(number_list(member(f, "oracle_results"@))),
        initial_shared_version: column(o.initial_shared_version),
        predictions_table_id: table_id(member(f, "predictions"@)),
        total_weight: text_of(member(f, "total_weight"@)),
    }
}

/// Reads the columns of a pool from its object.
pub fn sync_pool(o: &ObjectData) -> (r: PoolSync)
    ensures
        r@ == synced_pool(o@),
{
    let f = &o.fields;
    let oracle_ids = match field_id_vec(f, "oracle_ids") {
        Some(ids) => Some(Value::text_array(&ids)),
        None => None,
    };
    let oracle_results = match field_u64_vec(f, "oracle_results") {
        Some(v) => if v.len() == 0 {
            None
        } else {
            Some(Value::decimal_array(&v))
        },
        None => None,
    };
    PoolSync {
        pool_id: o.object_id.clone(),
        state: field_enum_variant(f, "state"),
        start_time_ms: as_column(field_u64(f, "start_time")),
        oracle_expiry_ms: as_column(field_u64(f, "oracle_expiry")),
        oracle_ids,
        oracle_results,
        initial_shared_version: as_column(o.initial_shared_version),
        predictions_table_id: field_table_id(f, "predictions"),
        total_weight: owned(f.get_str("total_weight")),
    }
}

/// The oracles that are stored for a pool are those that its object lists.
pub proof fn law_stored_oracles_are_listed(o: ObjectView)
    requires
        text_list(member(o.fields, "oracle_ids"@)) is Some,
    ensures
        oracle_list(synced_pool(o).oracle_ids) == text_list(member(o.fields, "oracle_ids"@))->0,
{
    law_text_list_reads_back(text_list(member(o.fields, "oracle_ids"@))->0);
}

// ---------------------------------------------------------------------------
// Predictions
// ---------------------------------------------------------------------------

/// The columns of a participant that are taken from its prediction. A column that
/// has no value here keeps the one it has.
#[derive(Debug, PartialEq, Eq)]
pub struct PredictionSync {
    pub predicted_prices: Option<Value>,
    pub acc_score: Option<i64>,
    pub time_bonus: Option<i64>,
    pub leg_hits: Option<i16>,
    pub composite_weight: Option<String>,
    pub apex_payout: Option<i64>,
}

pub struct PredictionSyncView {
    pub predicted_prices: Option<Json>,
    pub acc_score: Option<i64>,
    pub time_bonus: Option<i64>,
    pub leg_hits: Option<i16>,
    pub composite_weight: Option<Seq<char>>,
    pub apex_payout: Option<i64>,
}

impl View for PredictionSync {
    type V = PredictionSyncView;

    open spec fn view(&self) -> PredictionSyncView {
        PredictionSyncView {
            predicted_prices: view_opt(self.predicted_prices),
            acc_score: self.acc_score,
            time_bonus: self.time_bonus,
            leg_hits: self.leg_hits,
            composite_weight: view_opt(self.composite_weight),
            apex_payout: self.apex_payout,
        }
    }
}

/// Pool and participant are the first two parameters.
pub const SYNC_PREDICTION: &'static str = "
    UPDATE participants SET
        predicted_prices = COALESCE($3, predicted_prices),
        acc_score = COALESCE($4, acc_score),
        time_bonus = COALESCE($5, time_bonus),
        leg_hits = COALESCE($6, leg_hits),
        composite_weight = COALESCE($7, composite_weight),
        apex_payout = COALESCE($8, apex_payout)
    WHERE pool_id = $1 AND participant = $2";

/// Whether the scores of a pool are known.
pub open spec fn is_scored(state: Seq<char>) -> bool {
    state == "Scored"@ || state == "Distributed"@
}

/// A number in a small signed column.
pub open spec fn small_column(n: Option<u64>) -> Option<i16> {
    match n {
        Some(n) => Some(n as i16),
        None => None,
    }
}

/// What a prediction says of its row. The scores are 0 on chain until the pool is
/// resolved, so they count only from then on.
pub open spec fn prediction(pred: Json, pool_state: Seq<char>) -> PredictionSyncView {
    let prices = decimals(number_list(member(pred, "predicted_prices"@)));
    if is_scored(pool_state) {
        PredictionSyncView {
            predicted_prices: prices,
            acc_score: column(number_of(member(pred, "acc_score"@))),
            time_bonus: column(number_of(member(pred, "time_bonus"@))),
            leg_hits: small_column(number_of(member(pred, "leg_hits"@))),
            composite_weight: text_of(member(pred, "composite_weight"@)),
            apex_payout: column(number_of(member(pred, "apex_payout"@))),
        }
    } else {
        PredictionSyncView {
            predicted_prices: prices,
            acc_score: None,
            time_bonus: None,
            leg_hits: None,
            composite_weight: None,
            apex_payout: None,
        }
    }
}

/// What a table entry says of its row: the prediction is at `value.fields`.
pub open spec fn synced_prediction(entry: ObjectView, pool_state: Seq<char>) -> Option<
    PredictionSyncView,
> {
    match member_of(member(entry.fields, "value"@), "fields"@) {
        Some(pred) => Some(prediction(pred, pool_state)),
        None => None,
    }
}

/// Reads the columns of a participant from the entry in the predictions table.
pub fn sync_prediction(entry: &ObjectData, pool_state: &str) -> (r: Option<PredictionSync>)
    ensures
        view_opt(r) == synced_prediction(entry@, pool_state@),
{
    let pred = match entry.fields.get2("value", "fields") {
        Some(pred) => pred,
        None => return None,
    };
    let predicted_prices = match field_u64_vec(pred, "predicted_prices") {
        Some(v) => Some(Value::decimal_array(&v)),
        None => None,
    };
    if same(pool_state, "Scored") || same(pool_state, "Distributed") {
        let leg_hits = match field_u64(pred, "leg_hits") {
            Some(n) => Some(n as i16),
            None => None,
        };
        Some(
            PredictionSync {
                predicted_prices,
                acc_score: as_column(field_u64(pred, "acc_score")),
                time_bonus: as_column(field_u64(pred, "time_bonus")),
                leg_hits,
                composite_weight: owned(pred.get_str("composite_weight")),
                apex_payout: as_column(field_u64(pred, "apex_payout")),
            },
        )
    } else {
        Some(
            PredictionSync {
                predicted_prices,
                acc_score: None,
                time_bonus: None,
                leg_hits: None,
                composite_weight: None,
                apex_payout: None,
            },
        )
    }
}

/// No score of a prediction is taken over before its pool is scored.
pub proof fn law_no_score_before_scored(entry: ObjectView, pool_state: Seq<char>)
    requires
        !is_scored(pool_state),
    ensures
        synced_prediction(entry, pool_state) matches Some(p) ==> p.acc_score is None
            && p.time_bonus is None && p.leg_hits is None && p.composite_weight is None
            && p.apex_payout is None,
{
}

// ---------------------------------------------------------------------------
// What the readers mean
// ---------------------------------------------------------------------------

/// The events are asked for every two seconds, a hundred at once, the pools every fifteen
/// seconds, fifty at once.
pub proof fn law_rhythm()
    ensures
        POLL_INTERVAL_SECONDS == 2,
        RECONCILE_INTERVAL_SECONDS == 15,
        PAGE_SIZE == 100,
        CHUNK_SIZE == 50,
        POOL_MODULE@ == "apex_pool"@,
        REPUTATION_MODULE@ == "reputation"@,
{
}

/// An event that is recognized stands in its place, one that is not is left out: the
/// events of two stretches of a page are those of the one, then those of the other.
pub proof fn law_page_events(a: Seq<SuiEventView>, b: Seq<SuiEventView>, e: SuiEventView)
    ensures
        page_events(a + b) == page_events(a) + page_events(b),
        decoded(e) matches Some(event) ==> page_events(seq![e]) == seq![event],
        decoded(e) is None ==> page_events(seq![e]) == Seq::<EventModel>::empty(),
    decreases b.len(),
{
    reveal_with_fuel(page_events, 2);
    assert(seq![e].drop_last() =~= Seq::<SuiEventView>::empty());
    if b.len() == 0 {
        assert(a + b =~= a);
        assert(page_events(a + b) =~= page_events(a) + page_events(b));
    } else {
        law_page_events(a, b.drop_last(), e);
        assert((a + b).drop_last() =~= a + b.drop_last());
        assert(page_events(a + b) =~= page_events(a) + page_events(b));
    }
}

/// The writes of two stretches of events are those of the one, then those of the other,
/// and the writes of one event are its own.
pub proof fn law_events_writes(a: Seq<EventModel>, b: Seq<EventModel>, e: EventModel)
    ensures
        events_writes(a + b) == events_writes(a) + events_writes(b),
        events_writes(seq![e]) == event_writes(e),
        events_writes(Seq::<EventModel>::empty()) == Seq::<WriteModel>::empty(),
    decreases b.len(),
{
    reveal_with_fuel(events_writes, 2);
    assert(seq![e].drop_last() =~= Seq::<EventModel>::empty());
    assert(events_writes(seq![e]) =~= event_writes(e));
    if b.len() == 0 {
        assert(a + b =~= a);
        assert(events_writes(a + b) =~= events_writes(a) + events_writes(b));
    } else {
        law_events_writes(a, b.drop_last(), e);
        assert((a + b).drop_last() =~= a + b.drop_last());
        assert(events_writes(a + b) =~= events_writes(a) + events_writes(b));
    }
}

/// A page is left alone only if it is empty. Otherwise its position is stored, even if it
/// has no recognized event, the next page is asked for if there is one, and the tables are
/// those after its recognized events.
pub proof fn law_page_is_done_whole(
    raw: Seq<SuiEventView>,
    next: Option<EventIdView>,
    has_next_page: bool,
    l: Ledger,
    d: Defaults,
)
    ensures
        page_plan(raw, next, has_next_page) is None <==> raw.len() == 0,
        page_plan(raw, next, has_next_page) matches Some(plan) ==> plan.cursor == next
            && plan.more == has_next_page && effects(l, d, plan.writes) == after_events(
            l,
            d,
            page_events(raw),
        ),
{
    law_page_is_its_events(l, d, page_events(raw));
}

/// Every piece but the last is full.
pub proof fn law_pieces_are_full<T>(s: Seq<T>, n: int, i: int)
    requires
        n > 0,
        0 <= i < pieces(s, n).len() - 1,
    ensures
        pieces(s, n)[i].len() == n,
    decreases s.len(),
{
    if s.len() > n && i > 0 {
        law_pieces_are_full(s.skip(n), n, i - 1);
    }
}

/// A number that fits its column is stored as it is, and a missing one is not stored.
pub proof fn law_columns(n: u64)
    ensures
        n <= i64::MAX ==> (column(Some(n)) matches Some(c) && c == n),
        n <= i16::MAX ==> (small_column(Some(n)) matches Some(c) && c == n),
        column(None) is None,
        small_column(None) is None,
{
}

/// The row of a pool takes each column from the field of its own: the pool is the object,
/// the times are those of the fields, and a field that is not there changes nothing.
pub proof fn law_pool_columns(o: ObjectView)
    ensures
        ({
            let f = o.fields;
            let s = synced_pool(o);
            &&& s.pool_id == o.object_id
            &&& s.state == variant_name(member(f, "state"@))
            &&& s.total_weight == text_of(member(f, "total_weight"@))
            &&& s.predictions_table_id == table_id(member(f, "predictions"@))
            &&& number_of(member(f, "start_time"@)) is None <==> s.start_time_ms is None
            &&& number_of(member(f, "start_time"@)) matches Some(n) ==> n <= i64::MAX ==> (
            s.start_time_ms matches Some(c) && c == n)
            &&& number_of(member(f, "oracle_expiry"@)) is None <==> s.oracle_expiry_ms is None
            &&& number_of(member(f, "oracle_expiry"@)) matches Some(n) ==> n <= i64::MAX ==> (
            s.oracle_expiry_ms matches Some(c) && c == n)
            &&& o.initial_shared_version is None <==> s.initial_shared_version is None
            &&& o.initial_shared_version matches Some(n) ==> n <= i64::MAX ==> (
            s.initial_shared_version matches Some(c) && c == n)
        }),
{
}

/// The oracles and the results that are stored for a pool can be read back as they were;
/// an empty list of results is none yet.
pub proof fn law_pool_lists(o: ObjectView)
    ensures
        ({
            let f = o.fields;
            let s = synced_pool(o);
            &&& text_list(s.oracle_ids) == text_list(member(f, "oracle_ids"@))
            &&& match number_list(member(f, "oracle_results"@)) {
                Some(v) => if v.len() > 0 {
                    number_list(s.oracle_results) == Some(v)
                } else {
                    s.oracle_results is None
                },
                None => s.oracle_results is None,
            }
        }),
{
    let f = o.fields;
    match text_list(member(f, "oracle_ids"@)) {
        Some(v) => {
            law_text_list_reads_back(v);
        },
        None => {},
    }
    match number_list(member(f, "oracle_results"@)) {
        Some(v) => {
            law_number_list_reads_back(v);
        },
        None => {},
    }
}

/// The prices of a prediction are read back as they were, whatever the state of the pool;
/// a pool that is scored or distributed also gives each score of the prediction from the
/// field of its own.
pub proof fn law_prediction_columns(entry: ObjectView, value: Json, pred: Json, state: Seq<char>)
    requires
        member(entry.fields, "value"@) == Some(value),
        member(value, "fields"@) == Some(pred),
    ensures
        synced_prediction(entry, state) is Some,
        synced_prediction(entry, state) matches Some(s) ==> number_list(s.predicted_prices)
            == number_list(member(pred, "predicted_prices"@)),
        state == "Scored"@ || state == "Distributed"@ ==> (synced_prediction(
            entry,
            state,
        ) matches Some(s) && {
            &&& s.acc_score is None <==> number_of(member(pred, "acc_score"@)) is None
            &&& number_of(member(pred, "acc_score"@)) matches Some(n) ==> n <= i64::MAX ==> (
            s.acc_score matches Some(c) && c == n)
            &&& s.time_bonus is None <==> number_of(member(pred, "time_bonus"@)) is None
            &&& number_of(member(pred, "time_bonus"@)) matches Some(n) ==> n <= i64::MAX ==> (
            s.time_bonus matches Some(c) && c == n)
            &&& s.leg_hits is None <==> number_of(member(pred, "leg_hits"@)) is None
            &&& number_of(member(pred, "leg_hits"@)) matches Some(n) ==> n <= i16::MAX ==> (
            s.leg_hits matches Some(c) && c == n)
            &&& s.apex_payout is None <==> number_of(member(pred, "apex_payout"@)) is None
            &&& number_of(member(pred, "apex_payout"@)) matches Some(n) ==> n <= i64::MAX ==> (
            s.apex_payout matches Some(c) && c == n)
            &&& s.composite_weight == text_of(member(pred, "composite_weight"@))
        }),
{
    match number_list(member(pred, "predicted_prices"@)) {
        Some(v) => {
            law_number_list_reads_back(v);
        },
        None => {},
    }
}

/// An entry without a prediction changes nothing.
pub proof fn law_no_prediction(entry: ObjectView, state: Seq<char>)
    requires
        member_of(member(entry.fields, "value"@), "fields"@) is None,
    ensures
        synced_prediction(entry, state) is None,
{
}

} // verus!
