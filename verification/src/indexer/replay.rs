//! Processing a page of events again.

use vstd::prelude::*;

use crate::indexer::events::EventModel;
use crate::indexer::ledger::{
    after_event, after_events, entrants, fees, law_pool_count_never_goes_down,
    law_pool_never_goes_back, lemma_event, lemma_other_pool, progress, seen, CommitRecord,
    Defaults, Entry, Ledger, PaymentRecord, PoolRecord, SettlementRecord,
};

verus! {

// ---------------------------------------------------------------------------
// Tables that are overwritten
// ---------------------------------------------------------------------------

/// What a step does to one key of a table: it writes a value, or it writes one only
/// if the key is not there.
pub enum Step<V> {
    Put(V),
    Keep(V),
}

pub open spec fn step<K, V>(m: Map<K, V>, o: Option<(K, Step<V>)>) -> Map<K, V> {
    match o {
        Some((k, Step::Put(v))) => m.insert(k, v),
        Some((k, Step::Keep(v))) => if m.contains_key(k) {
            m
        } else {
            m.insert(k, v)
        },
        None => m,
    }
}

pub open spec fn steps<K, V>(m: Map<K, V>, s: Seq<Option<(K, Step<V>)>>) -> Map<K, V>
    decreases s.len(),
{
    if s.len() == 0 {
        m
    } else {
        step(steps(m, s.drop_last()), s.last())
    }
}

/// Whether a step writes a key whatever is there.
spec fn puts<K, V>(o: Option<(K, Step<V>)>, k: K) -> bool {
    o matches Some((j, Step::Put(_))) && j == k
}

/// The key that a step is about.
spec fn key_of<K, V>(o: Option<(K, Step<V>)>) -> K {
    (o->0).0
}

/// The value that a step puts.
spec fn put_value<K, V>(o: Option<(K, Step<V>)>) -> V {
    (o->0).1->Put_0
}

/// Whether a step from `from` on writes a key.
spec fn put_later<K, V>(s: Seq<Option<(K, Step<V>)>>, from: int, k: K) -> bool {
    exists|i: int| from <= i < s.len() && puts(#[trigger] s[i], k)
}

/// Every key that a step is about is there in the end, and the last value that was
/// put is the one that stays.
proof fn lemma_steps_leave<K, V>(m: Map<K, V>, s: Seq<Option<(K, Step<V>)>>, i: int)
    requires
        0 <= i < s.len(),
        s[i] is Some,
    ensures
        steps(m, s).contains_key(key_of(s[i])),
        puts(s[i], key_of(s[i])) && !put_later(s, i + 1, key_of(s[i])) ==> steps(m, s)[key_of(s[i])]
            == put_value(s[i]),
    decreases s.len(),
{
    let head = s.drop_last();
    let k = key_of(s[i]);
    if i < s.len() - 1 {
        assert(head[i] == s[i]);
        lemma_steps_leave(m, head, i);
        if puts(s[i], key_of(s[i])) && !put_later(s, i + 1, k) {
            assert(!puts(s[s.len() - 1], k));
            assert(!put_later(head, i + 1, k)) by {
                if put_later(head, i + 1, k) {
                    let j = choose|j: int| i + 1 <= j < head.len() && puts(#[trigger] head[j], k);
                    assert(puts(s[j], k));
                }
            }
        }
    }
}

/// While the steps are run again, a table differs from what they left only at keys
/// that are still to be put.
proof fn lemma_again_so_far<K, V>(m: Map<K, V>, s: Seq<Option<(K, Step<V>)>>, i: int)
    requires
        0 <= i <= s.len(),
    ensures
        ({
            let once = steps(m, s);
            let now = steps(once, s.take(i));
            &&& now.dom() =~= once.dom()
            &&& forall|k: K|
                once.contains_key(k) && !put_later(s, i, k) ==> #[trigger] now[k] == once[k]
        }),
    decreases i,
{
    let once = steps(m, s);
    if i == 0 {
        assert(s.take(0).len() == 0);
    } else {
        lemma_again_so_far(m, s, i - 1);
        let before = steps(once, s.take(i - 1));
        let now = steps(once, s.take(i));
        assert(s.take(i).drop_last() =~= s.take(i - 1));
        assert(s.take(i).last() == s[i - 1]);
        if s[i - 1] is Some {
            lemma_steps_leave(m, s, i - 1);
        }
        assert(now.dom() =~= once.dom());
        assert forall|k: K| once.contains_key(k) && !put_later(s, i, k) implies #[trigger] now[k]
            == once[k] by {
            if !puts(s[i - 1], k) {
                assert(!put_later(s, i - 1, k)) by {
                    if put_later(s, i - 1, k) {
                        let j = choose|j: int|
                            i - 1 <= j < s.len() && puts(#[trigger] s[j], k);
                        assert(j != i - 1);
                        assert(puts(s[j], k));
                        assert(put_later(s, i, k));
                    }
                }
                assert(before[k] == once[k]);
            }
        }
    }
}

/// Steps that are run twice leave a table as if they had been run once.
proof fn lemma_steps_again<K, V>(m: Map<K, V>, s: Seq<Option<(K, Step<V>)>>)
    ensures
        steps(steps(m, s), s) == steps(m, s),
{
    lemma_again_so_far(m, s, s.len() as int);
    let once = steps(m, s);
    assert(s.take(s.len() as int) =~= s);
    assert forall|k: K| once.contains_key(k) implies #[trigger] steps(once, s)[k] == once[k] by {
        assert(!put_later(s, s.len() as int, k));
    }
    assert(steps(once, s) =~= once);
}

// ---------------------------------------------------------------------------
// Rows that events refer to
// ---------------------------------------------------------------------------

/// A row of the tables, by its key.
pub enum Row {
    Pool(Seq<char>),
    Participant(Entry),
    Profile(Seq<char>),
}

pub open spec fn present(l: Ledger, r: Row) -> bool {
    match r {
        Row::Pool(p) => l.pools.contains_key(p),
        Row::Participant(e) => l.commits.contains_key(e),
        Row::Profile(p) => l.profiles.contains_key(p),
    }
}

/// The rows that an event takes to be there: a commit its pool, a reveal its pool and
/// its participant, a payment its participant, a change of state its pool, a new tier
/// its profile.
pub open spec fn refers_to(e: EventModel, r: Row) -> bool {
    match e {
        EventModel::CommitSubmitted { pool_id, .. } => r == Row::Pool(pool_id),
        EventModel::RevealSubmitted { pool_id, participant, .. } => r == Row::Pool(pool_id) || r
            == Row::Participant((pool_id, participant)),
        EventModel::ParticipantPaid { pool_id, participant, .. } => r == Row::Participant(
            (pool_id, participant),
        ),
        EventModel::PoolLocked { pool_id, .. } => r == Row::Pool(pool_id),
        EventModel::PoolResolved { pool_id, .. } => r == Row::Pool(pool_id),
        EventModel::PrizeDistributed { pool_id, .. } => r == Row::Pool(pool_id),
        EventModel::TierUpgraded { participant, .. } => r == Row::Profile(participant),
        _ => false,
    }
}

/// No event of a page refers to a row that is missing when it comes and that a later
/// event of the page creates. A row may be missing for good. In the events of the
/// chain none comes late, as each refers to something that an earlier one created.
pub open spec fn no_row_comes_late(l: Ledger, d: Defaults, es: Seq<EventModel>) -> bool {
    forall|i: int, r: Row|
        #![trigger refers_to(es[i], r)]
        0 <= i < es.len() && refers_to(es[i], r) && present(after_events(l, d, es), r) ==> present(
            after_events(l, d, es.take(i)),
            r,
        )
}

/// An event finds in `l` just the rows that it finds in `f`.
spec fn finds_like(l: Ledger, f: Ledger, e: EventModel) -> bool {
    forall|r: Row|
        #![trigger refers_to(e, r)]
        refers_to(e, r) ==> present(l, r) == present(f, r)
}

/// The row that an event writes to without creating it, if there is one.
spec fn needs(e: EventModel) -> Option<Row> {
    match e {
        EventModel::RevealSubmitted { pool_id, participant, .. } => Some(
            Row::Participant((pool_id, participant)),
        ),
        EventModel::ParticipantPaid { pool_id, participant, .. } => Some(
            Row::Participant((pool_id, participant)),
        ),
        EventModel::PoolLocked { pool_id, .. } => Some(Row::Pool(pool_id)),
        EventModel::PoolResolved { pool_id, .. } => Some(Row::Pool(pool_id)),
        EventModel::PrizeDistributed { pool_id, .. } => Some(Row::Pool(pool_id)),
        EventModel::TierUpgraded { participant, .. } => Some(Row::Profile(participant)),
        _ => None,
    }
}

proof fn lemma_finds(l: Ledger, f: Ledger, e: EventModel)
    requires
        finds_like(l, f, e),
    ensures
        needs(e) matches Some(r) ==> present(l, r) == present(f, r),
{
    if needs(e) is Some {
        assert(refers_to(e, needs(e)->0));
    }
}

/// Every event of a page finds just the rows that it finds in `f`.
spec fn page_like(l: Ledger, d: Defaults, es: Seq<EventModel>, f: Ledger) -> bool
    decreases es.len(),
{
    es.len() > 0 ==> page_like(l, d, es.drop_last(), f) && finds_like(
        after_events(l, d, es.drop_last()),
        f,
        es.last(),
    )
}

/// The rows that an event makes sure of.
spec fn creates(e: EventModel, r: Row) -> bool {
    match e {
        EventModel::PoolCreated { pool_id, .. } => r == Row::Pool(pool_id),
        EventModel::CommitSubmitted { pool_id, participant, .. } => r == Row::Participant(
            (pool_id, participant),
        ),
        EventModel::FrsCreated { participant, .. } => r == Row::Profile(participant),
        EventModel::FrsSettled { participant, .. } => r == Row::Profile(participant),
        _ => false,
    }
}

/// After an event there are the rows of before and those that it makes sure of.
proof fn lemma_event_rows(l: Ledger, d: Defaults, e: EventModel, r: Row)
    ensures
        present(after_event(l, d, e), r) == (present(l, r) || creates(e, r)),
{
    lemma_event(l, d, e);
}

spec fn created(es: Seq<EventModel>, r: Row) -> bool {
    exists|i: int| 0 <= i < es.len() && creates(#[trigger] es[i], r)
}

/// After a page there are the rows of before and those that its events make sure of.
proof fn lemma_page_rows(l: Ledger, d: Defaults, es: Seq<EventModel>, r: Row)
    ensures
        present(after_events(l, d, es), r) == (present(l, r) || created(es, r)),
    decreases es.len(),
{
    if es.len() > 0 {
        let head = es.drop_last();
        lemma_page_rows(l, d, head, r);
        lemma_event_rows(after_events(l, d, head), d, es.last(), r);
        if created(head, r) {
            let i = choose|i: int| 0 <= i < head.len() && creates(#[trigger] head[i], r);
            assert(creates(es[i], r));
        }
        if creates(es.last(), r) {
            assert(creates(es[es.len() - 1], r));
        }
        if created(es, r) {
            let i = choose|i: int| 0 <= i < es.len() && creates(#[trigger] es[i], r);
            assert(i < head.len() ==> creates(head[i], r));
        }
    }
}

/// The rows after the start of a page are there after the page.
proof fn lemma_start_rows(l: Ledger, d: Defaults, es: Seq<EventModel>, n: int, r: Row)
    requires
        0 <= n <= es.len(),
        present(after_events(l, d, es.take(n)), r),
    ensures
        present(after_events(l, d, es), r),
{
    lemma_page_rows(l, d, es.take(n), r);
    lemma_page_rows(l, d, es, r);
    if created(es.take(n), r) {
        let i = choose|i: int| 0 <= i < n && creates(#[trigger] es.take(n)[i], r);
        assert(creates(es[i], r));
    }
}

/// While a page in which no row comes late is processed, its events find the rows that
/// are there in the end.
proof fn lemma_first_like(l: Ledger, d: Defaults, es: Seq<EventModel>, n: int)
    requires
        no_row_comes_late(l, d, es),
        0 <= n <= es.len(),
    ensures
        page_like(l, d, es.take(n), after_events(l, d, es)),
    decreases n,
{
    if n > 0 {
        let f = after_events(l, d, es);
        lemma_first_like(l, d, es, n - 1);
        assert(es.take(n).drop_last() =~= es.take(n - 1));
        assert(es.take(n).last() == es[n - 1]);
        let before = after_events(l, d, es.take(n - 1));
        assert forall|r: Row|
            #![trigger refers_to(es[n - 1], r)]
            refers_to(es[n - 1], r) implies present(before, r) == present(f, r) by {
            if present(before, r) {
                lemma_start_rows(l, d, es, n - 1, r);
            }
        }
    }
}

/// While a page is processed again, there are just the rows that it left.
proof fn lemma_again_like(l: Ledger, d: Defaults, es: Seq<EventModel>, n: int)
    requires
        0 <= n <= es.len(),
    ensures
        page_like(after_events(l, d, es), d, es.take(n), after_events(l, d, es)),
    decreases n,
{
    if n > 0 {
        let f = after_events(l, d, es);
        lemma_again_like(l, d, es, n - 1);
        assert(es.take(n).drop_last() =~= es.take(n - 1));
        assert(es.take(n).last() == es[n - 1]);
        let before = after_events(f, d, es.take(n - 1));
        assert forall|r: Row|
            #![trigger refers_to(es[n - 1], r)]
            refers_to(es[n - 1], r) implies present(before, r) == present(f, r) by {
            lemma_page_rows(f, d, es.take(n - 1), r);
            lemma_page_rows(l, d, es, r);
            if created(es.take(n - 1), r) {
                let i = choose|i: int| 0 <= i < n - 1 && creates(#[trigger] es.take(n - 1)[i], r);
                assert(creates(es[i], r));
            }
        }
    }
}

// ---------------------------------------------------------------------------
// Columns
// ---------------------------------------------------------------------------

spec fn commit_step(e: EventModel) -> Option<(Entry, Step<CommitRecord>)> {
    match e {
        EventModel::CommitSubmitted { pool_id, participant, entry_fee, timestamp } => Some(
            (
                (pool_id, participant),
                Step::Put(
                    CommitRecord { entry_fee: entry_fee as i64, timestamp_ms: timestamp as i64 },
                ),
            ),
        ),
        _ => None,
    }
}

spec fn reveal_step(f: Ledger, e: EventModel) -> Option<(Entry, Step<i64>)> {
    match e {
        EventModel::RevealSubmitted { pool_id, participant, crowd_median_estimate } => if present(
            f,
            Row::Participant((pool_id, participant)),
        ) {
            Some(((pool_id, participant), Step::Put(crowd_median_estimate as i64)))
        } else {
            None
        },
        _ => None,
    }
}

spec fn payment_step(f: Ledger, e: EventModel) -> Option<(Entry, Step<PaymentRecord>)> {
    match e {
        EventModel::ParticipantPaid {
            pool_id,
            participant,
            apex_payout,
            leg_hits,
            composite_weight,
        } => if present(f, Row::Participant((pool_id, participant))) {
            Some(
                (
                    (pool_id, participant),
                    Step::Put(
                        PaymentRecord {
                            apex_payout: apex_payout as i64,
                            leg_hits: leg_hits as i16,
                            composite_weight,
                        },
                    ),
                ),
            )
        } else {
            None
        },
        _ => None,
    }
}

spec fn settlement_step(e: EventModel) -> Option<(Entry, Step<SettlementRecord>)> {
    match e {
        EventModel::FrsSettled {
            participant,
            pool_id,
            new_tier,
            lifetime_accuracy_bps,
            pool_count,
            tx_digest,
        } => Some(
            (
                (participant, pool_id),
                Step::Keep(
                    SettlementRecord {
                        tier: new_tier as i16,
                        lifetime_accuracy_bps: lifetime_accuracy_bps as i64,
                        pool_count: pool_count as i64,
                        tx_digest,
                    },
                ),
            ),
        ),
        _ => None,
    }
}

/// The tables that events only overwrite.
proof fn lemma_event_tables(l: Ledger, d: Defaults, e: EventModel, f: Ledger)
    requires
        finds_like(l, f, e),
    ensures
        after_event(l, d, e).commits == step(l.commits, commit_step(e)),
        after_event(l, d, e).reveals == step(l.reveals, reveal_step(f, e)),
        after_event(l, d, e).payments == step(l.payments, payment_step(f, e)),
        after_event(l, d, e).settlements == step(l.settlements, settlement_step(e)),
{
    lemma_event(l, d, e);
    lemma_finds(l, f, e);
}

spec fn commit_steps(es: Seq<EventModel>) -> Seq<Option<(Entry, Step<CommitRecord>)>> {
    Seq::new(es.len(), |i: int| commit_step(es[i]))
}

spec fn reveal_steps(f: Ledger, es: Seq<EventModel>) -> Seq<Option<(Entry, Step<i64>)>> {
    Seq::new(es.len(), |i: int| reveal_step(f, es[i]))
}

spec fn payment_steps(f: Ledger, es: Seq<EventModel>) -> Seq<Option<(Entry, Step<PaymentRecord>)>> {
    Seq::new(es.len(), |i: int| payment_step(f, es[i]))
}

spec fn settlement_steps(es: Seq<EventModel>) -> Seq<Option<(Entry, Step<SettlementRecord>)>> {
    Seq::new(es.len(), |i: int| settlement_step(es[i]))
}

proof fn lemma_page_tables(l: Ledger, d: Defaults, es: Seq<EventModel>, f: Ledger)
    requires
        page_like(l, d, es, f),
    ensures
        after_events(l, d, es).commits == steps(l.commits, commit_steps(es)),
        after_events(l, d, es).reveals == steps(l.reveals, reveal_steps(f, es)),
        after_events(l, d, es).payments == steps(l.payments, payment_steps(f, es)),
        after_events(l, d, es).settlements == steps(l.settlements, settlement_steps(es)),
    decreases es.len(),
{
    if es.len() > 0 {
        let head = es.drop_last();
        lemma_page_tables(l, d, head, f);
        lemma_event_tables(after_events(l, d, head), d, es.last(), f);
        assert(commit_steps(es).drop_last() =~= commit_steps(head));
        assert(reveal_steps(f, es).drop_last() =~= reveal_steps(f, head));
        assert(payment_steps(f, es).drop_last() =~= payment_steps(f, head));
        assert(settlement_steps(es).drop_last() =~= settlement_steps(head));
    }
}

// --- profiles ---

spec fn tiers(l: Ledger) -> Map<Seq<char>, i16> {
    Map::new(|k: Seq<char>| l.profiles.contains_key(k), |k: Seq<char>| l.profiles[k].tier)
}

spec fn accuracies(l: Ledger) -> Map<Seq<char>, i64> {
    Map::new(
        |k: Seq<char>| l.profiles.contains_key(k),
        |k: Seq<char>| l.profiles[k].lifetime_accuracy_bps,
    )
}

spec fn origins(l: Ledger) -> Map<Seq<char>, Option<Seq<char>>> {
    Map::new(|k: Seq<char>| l.profiles.contains_key(k), |k: Seq<char>| l.profiles[k].frs_pool_id)
}

spec fn tier_step(f: Ledger, d: Defaults, e: EventModel) -> Option<(Seq<char>, Step<i16>)> {
    match e {
        EventModel::FrsCreated { participant, .. } => Some(
            (participant, Step::Keep(d.profile.tier)),
        ),
        EventModel::FrsSettled { participant, new_tier, .. } => Some(
            (participant, Step::Put(new_tier as i16)),
        ),
        EventModel::TierUpgraded { participant, new_tier } => if present(
            f,
            Row::Profile(participant),
        ) {
            Some((participant, Step::Put(new_tier as i16)))
        } else {
            None
        },
        _ => None,
    }
}

spec fn accuracy_step(d: Defaults, e: EventModel) -> Option<(Seq<char>, Step<i64>)> {
    match e {
        EventModel::FrsCreated { participant, .. } => Some(
            (participant, Step::Keep(d.profile.lifetime_accuracy_bps)),
        ),
        EventModel::FrsSettled { participant, lifetime_accuracy_bps, .. } => Some(
            (participant, Step::Put(lifetime_accuracy_bps as i64)),
        ),
        _ => None,
    }
}

spec fn origin_step(d: Defaults, e: EventModel) -> Option<(Seq<char>, Step<Option<Seq<char>>>)> {
    match e {
        EventModel::FrsCreated { participant, pool_id } => Some(
            (participant, Step::Keep(pool_id)),
        ),
        EventModel::FrsSettled { participant, .. } => Some(
            (participant, Step::Keep(d.profile.frs_pool_id)),
        ),
        _ => None,
    }
}

proof fn lemma_event_profiles(l: Ledger, d: Defaults, e: EventModel, f: Ledger)
    requires
        finds_like(l, f, e),
    ensures
        tiers(after_event(l, d, e)) == step(tiers(l), tier_step(f, d, e)),
        accuracies(after_event(l, d, e)) == step(accuracies(l), accuracy_step(d, e)),
        origins(after_event(l, d, e)) == step(origins(l), origin_step(d, e)),
{
    lemma_event(l, d, e);
    lemma_finds(l, f, e);
    let after = after_event(l, d, e);
    match e {
        EventModel::FrsCreated { .. } => {},
        EventModel::FrsSettled { .. } => {},
        EventModel::TierUpgraded { .. } => {},
        _ => {
            assert(after.profiles == l.profiles);
        },
    }
    assert(tiers(after) =~= step(tiers(l), tier_step(f, d, e)));
    assert(accuracies(after) =~= step(accuracies(l), accuracy_step(d, e)));
    assert(origins(after) =~= step(origins(l), origin_step(d, e)));
}

spec fn tier_steps(f: Ledger, d: Defaults, es: Seq<EventModel>) -> Seq<Option<(Seq<char>, Step<i16>)>> {
    Seq::new(es.len(), |i: int| tier_step(f, d, es[i]))
}

spec fn accuracy_steps(d: Defaults, es: Seq<EventModel>) -> Seq<Option<(Seq<char>, Step<i64>)>> {
    Seq::new(es.len(), |i: int| accuracy_step(d, es[i]))
}

spec fn origin_steps(d: Defaults, es: Seq<EventModel>) -> Seq<
    Option<(Seq<char>, Step<Option<Seq<char>>>)>,
> {
    Seq::new(es.len(), |i: int| origin_step(d, es[i]))
}

proof fn lemma_page_profiles(l: Ledger, d: Defaults, es: Seq<EventModel>, f: Ledger)
    requires
        page_like(l, d, es, f),
    ensures
        tiers(after_events(l, d, es)) == steps(tiers(l), tier_steps(f, d, es)),
        accuracies(after_events(l, d, es)) == steps(accuracies(l), accuracy_steps(d, es)),
        origins(after_events(l, d, es)) == steps(origins(l), origin_steps(d, es)),
    decreases es.len(),
{
    if es.len() > 0 {
        let head = es.drop_last();
        lemma_page_profiles(l, d, head, f);
        lemma_event_profiles(after_events(l, d, head), d, es.last(), f);
        assert(tier_steps(f, d, es).drop_last() =~= tier_steps(f, d, head));
        assert(accuracy_steps(d, es).drop_last() =~= accuracy_steps(d, head));
        assert(origin_steps(d, es).drop_last() =~= origin_steps(d, head));
    }
}

/// The number of pools that a settlement gives someone.
spec fn settled_count(e: EventModel, participant: Seq<char>) -> Option<i64> {
    match e {
        EventModel::FrsSettled { participant: p, pool_count, .. } => if p == participant {
            Some(pool_count as i64)
        } else {
            None
        },
        _ => None,
    }
}

/// After a page, no settlement in it gives anyone more pools than are recorded.
proof fn lemma_counts_reach(l: Ledger, d: Defaults, es: Seq<EventModel>, i: int, who: Seq<char>)
    requires
        0 <= i < es.len(),
        settled_count(es[i], who) is Some,
    ensures
        after_events(l, d, es).profiles.contains_key(who),
        after_events(l, d, es).profiles[who].pool_count >= settled_count(es[i], who)->0,
    decreases es.len(),
{
    let head = es.drop_last();
    let before = after_events(l, d, head);
    if i < es.len() - 1 {
        assert(head[i] == es[i]);
        lemma_counts_reach(l, d, head, i, who);
        law_pool_count_never_goes_down(before, d, es.last(), who);
    } else {
        lemma_event(before, d, es.last());
    }
}

/// What an event does to the number of pools of someone with a profile.
proof fn lemma_count_after(l: Ledger, d: Defaults, e: EventModel, who: Seq<char>)
    requires
        l.profiles.contains_key(who),
    ensures
        after_event(l, d, e).profiles.contains_key(who),
        after_event(l, d, e).profiles[who].pool_count == match settled_count(e, who) {
            Some(c) => if l.profiles[who].pool_count > c {
                l.profiles[who].pool_count
            } else {
                c
            },
            None => l.profiles[who].pool_count,
        },
{
    lemma_event(l, d, e);
    match e {
        EventModel::FrsCreated { .. } => {},
        EventModel::FrsSettled { .. } => {},
        EventModel::TierUpgraded { .. } => {},
        _ => {
            assert(after_event(l, d, e).profiles == l.profiles);
        },
    }
}

/// While a page is processed again, the numbers of pools stay as they are.
proof fn lemma_counts_stay(l: Ledger, d: Defaults, es: Seq<EventModel>, n: int, who: Seq<char>)
    requires
        0 <= n <= es.len(),
        after_events(l, d, es).profiles.contains_key(who),
    ensures
        ({
            let once = after_events(l, d, es);
            let now = after_events(once, d, es.take(n));
            now.profiles.contains_key(who) && now.profiles[who].pool_count
                == once.profiles[who].pool_count
        }),
    decreases n,
{
    let once = after_events(l, d, es);
    if n == 0 {
        assert(es.take(0).len() == 0);
    } else {
        lemma_counts_stay(l, d, es, n - 1, who);
        let before = after_events(once, d, es.take(n - 1));
        assert(es.take(n).drop_last() =~= es.take(n - 1));
        assert(es.take(n).last() == es[n - 1]);
        lemma_count_after(before, d, es[n - 1], who);
        if settled_count(es[n - 1], who) is Some {
            lemma_counts_reach(l, d, es, n - 1, who);
        }
    }
}

// --- pools ---

/// The state of a pool after an event.
spec fn state_after(e: EventModel, pool_id: Seq<char>, state: Seq<char>) -> Seq<char> {
    match e {
        EventModel::PoolLocked { pool_id: p, .. } => if p != pool_id || state == "Scored"@
            || state == "Distributed"@ {
            state
        } else {
            "Locked"@
        },
        EventModel::PoolResolved { pool_id: p, .. } => if p != pool_id || state
            == "Distributed"@ {
            state
        } else {
            "Scored"@
        },
        EventModel::PrizeDistributed { pool_id: p, .. } => if p != pool_id {
            state
        } else {
            "Distributed"@
        },
        _ => state,
    }
}

/// The total weight of a pool after an event.
spec fn weight_after(e: EventModel, pool_id: Seq<char>, p: PoolRecord) -> Seq<char> {
    match e {
        EventModel::PoolResolved { pool_id: q, total_weight } => if q != pool_id || p.state
            == "Distributed"@ {
            p.total_weight
        } else {
            total_weight
        },
        _ => p.total_weight,
    }
}

/// The number of forfeited entries of a pool after an event.
spec fn forfeited_after(e: EventModel, pool_id: Seq<char>, p: PoolRecord) -> i64 {
    match e {
        EventModel::PoolLocked { pool_id: q, forfeited_count, .. } => if q != pool_id || p.state
            == "Scored"@ || p.state == "Distributed"@ {
            p.forfeited_count
        } else {
            forfeited_count as i64
        },
        _ => p.forfeited_count,
    }
}

proof fn lemma_pool_after(l: Ledger, d: Defaults, e: EventModel, pool_id: Seq<char>)
    requires
        l.pools.contains_key(pool_id),
    ensures
        after_event(l, d, e).pools.contains_key(pool_id),
        after_event(l, d, e).pools[pool_id].state == state_after(
            e,
            pool_id,
            l.pools[pool_id].state,
        ),
        after_event(l, d, e).pools[pool_id].total_weight == weight_after(
            e,
            pool_id,
            l.pools[pool_id],
        ),
        after_event(l, d, e).pools[pool_id].forfeited_count == forfeited_after(
            e,
            pool_id,
            l.pools[pool_id],
        ),
{
    lemma_event(l, d, e);
    match e {
        EventModel::PoolCreated { .. } => {},
        EventModel::CommitSubmitted { .. } => {},
        EventModel::RevealSubmitted { .. } => {},
        EventModel::PoolLocked { .. } => {},
        EventModel::PoolResolved { .. } => {},
        EventModel::PrizeDistributed { .. } => {},
        _ => {
            assert(after_event(l, d, e).pools == l.pools);
        },
    }
}

/// How far an event takes a pool.
spec fn reaches(e: EventModel, pool_id: Seq<char>) -> int {
    match e {
        EventModel::PoolLocked { pool_id: p, .. } => if p == pool_id {
            1
        } else {
            0
        },
        EventModel::PoolResolved { pool_id: p, .. } => if p == pool_id {
            2
        } else {
            0
        },
        EventModel::PrizeDistributed { pool_id: p, .. } => if p == pool_id {
            3
        } else {
            0
        },
        _ => 0,
    }
}

proof fn lemma_reach(e: EventModel, pool_id: Seq<char>, state: Seq<char>)
    ensures
        progress(state_after(e, pool_id, state)) >= reaches(e, pool_id),
        progress(state) >= reaches(e, pool_id) ==> state_after(e, pool_id, state) == state,
{
    reveal_strlit("Distributed");
    reveal_strlit("Scored");
    reveal_strlit("Locked");
    assert("Distributed"@.len() != "Scored"@.len());
    assert("Distributed"@.len() != "Locked"@.len());
    assert("Scored"@[0] != "Locked"@[0]);
}

/// After a page, every pool that is there is at least where an event of the page takes
/// it.
proof fn lemma_states_reach(
    l: Ledger,
    d: Defaults,
    es: Seq<EventModel>,
    i: int,
    p: Seq<char>,
    f: Ledger,
)
    requires
        page_like(l, d, es, f),
        f.pools.contains_key(p),
        0 <= i < es.len(),
        reaches(es[i], p) > 0,
    ensures
        after_events(l, d, es).pools.contains_key(p),
        progress(after_events(l, d, es).pools[p].state) >= reaches(es[i], p),
    decreases es.len(),
{
    let head = es.drop_last();
    let before = after_events(l, d, head);
    if i < es.len() - 1 {
        assert(head[i] == es[i]);
        lemma_states_reach(l, d, head, i, p, f);
        law_pool_never_goes_back(before, d, es.last(), p);
    } else {
        assert(refers_to(es.last(), Row::Pool(p)));
        lemma_pool_after(before, d, es.last(), p);
        lemma_reach(es.last(), p, before.pools[p].state);
    }
}

/// While a page is processed again, the states of the pools stay as they are.
proof fn lemma_states_stay(l: Ledger, d: Defaults, es: Seq<EventModel>, n: int, p: Seq<char>)
    requires
        page_like(l, d, es, after_events(l, d, es)),
        0 <= n <= es.len(),
        after_events(l, d, es).pools.contains_key(p),
    ensures
        ({
            let once = after_events(l, d, es);
            let now = after_events(once, d, es.take(n));
            now.pools.contains_key(p) && now.pools[p].state == once.pools[p].state
        }),
    decreases n,
{
    let once = after_events(l, d, es);
    if n == 0 {
        assert(es.take(0).len() == 0);
    } else {
        lemma_states_stay(l, d, es, n - 1, p);
        let before = after_events(once, d, es.take(n - 1));
        assert(es.take(n).drop_last() =~= es.take(n - 1));
        assert(es.take(n).last() == es[n - 1]);
        lemma_pool_after(before, d, es[n - 1], p);
        if reaches(es[n - 1], p) > 0 {
            lemma_states_reach(l, d, es, n - 1, p, once);
        }
        lemma_reach(es[n - 1], p, once.pools[p].state);
    }
}

/// While a page is processed again, the weight of a distributed pool stays as it is,
/// and the forfeits of a scored one do.
proof fn lemma_fixed_stay(l: Ledger, d: Defaults, es: Seq<EventModel>, n: int, p: Seq<char>)
    requires
        page_like(l, d, es, after_events(l, d, es)),
        0 <= n <= es.len(),
        after_events(l, d, es).pools.contains_key(p),
    ensures
        ({
            let once = after_events(l, d, es);
            let now = after_events(once, d, es.take(n));
            let state = once.pools[p].state;
            &&& state == "Distributed"@ ==> now.pools[p].total_weight
                == once.pools[p].total_weight
            &&& state == "Scored"@ || state == "Distributed"@ ==> now.pools[p].forfeited_count
                == once.pools[p].forfeited_count
        }),
    decreases n,
{
    let once = after_events(l, d, es);
    if n == 0 {
        assert(es.take(0).len() == 0);
    } else {
        lemma_fixed_stay(l, d, es, n - 1, p);
        lemma_states_stay(l, d, es, n - 1, p);
        let before = after_events(once, d, es.take(n - 1));
        assert(es.take(n).drop_last() =~= es.take(n - 1));
        assert(es.take(n).last() == es[n - 1]);
        lemma_pool_after(before, d, es[n - 1], p);
    }
}

type Terms = (i64, i64, i64, i64);

spec fn terms_of(p: PoolRecord) -> Terms {
    (p.leg_count, p.commit_deadline_ms, p.reveal_deadline_ms, p.entry_fee_amount)
}

spec fn terms(l: Ledger) -> Map<Seq<char>, Terms> {
    Map::new(|k: Seq<char>| l.pools.contains_key(k), |k: Seq<char>| terms_of(l.pools[k]))
}

spec fn prizes(l: Ledger) -> Map<Seq<char>, Option<i64>> {
    Map::new(|k: Seq<char>| l.pools.contains_key(k), |k: Seq<char>| l.pools[k].total_prize)
}

/// The weights of some pools.
spec fn weights(l: Ledger, among: Set<Seq<char>>) -> Map<Seq<char>, Seq<char>> {
    Map::new(
        |k: Seq<char>| l.pools.contains_key(k) && among.contains(k),
        |k: Seq<char>| l.pools[k].total_weight,
    )
}

/// The forfeits of some pools.
spec fn forfeits(l: Ledger, among: Set<Seq<char>>) -> Map<Seq<char>, i64> {
    Map::new(
        |k: Seq<char>| l.pools.contains_key(k) && among.contains(k),
        |k: Seq<char>| l.pools[k].forfeited_count,
    )
}

spec fn terms_step(e: EventModel) -> Option<(Seq<char>, Step<Terms>)> {
    match e {
        EventModel::PoolCreated {
            pool_id,
            leg_count,
            commit_deadline,
            reveal_deadline,
            entry_fee_amount,
        } => Some(
            (
                pool_id,
                Step::Put(
                    (
                        leg_count as i64,
                        commit_deadline as i64,
                        reveal_deadline as i64,
                        entry_fee_amount as i64,
                    ),
                ),
            ),
        ),
        _ => None,
    }
}

spec fn prize_step(f: Ledger, d: Defaults, e: EventModel) -> Option<(Seq<char>, Step<Option<i64>>)> {
    match e {
        EventModel::PoolCreated { pool_id, .. } => Some(
            (pool_id, Step::Keep(d.pool.total_prize)),
        ),
        EventModel::PrizeDistributed { pool_id, total_prize } => if present(
            f,
            Row::Pool(pool_id),
        ) {
            Some((pool_id, Step::Put(Some(total_prize as i64))))
        } else {
            None
        },
        _ => None,
    }
}

spec fn weight_step(f: Ledger, d: Defaults, among: Set<Seq<char>>, e: EventModel) -> Option<
    (Seq<char>, Step<Seq<char>>),
> {
    match e {
        EventModel::PoolCreated { pool_id, .. } => if among.contains(pool_id) {
            Some((pool_id, Step::Keep(d.pool.total_weight)))
        } else {
            None
        },
        EventModel::PoolResolved { pool_id, total_weight } => if among.contains(pool_id) && present(
            f,
            Row::Pool(pool_id),
        ) {
            Some((pool_id, Step::Put(total_weight)))
        } else {
            None
        },
        _ => None,
    }
}

spec fn forfeit_step(f: Ledger, d: Defaults, among: Set<Seq<char>>, e: EventModel) -> Option<
    (Seq<char>, Step<i64>),
> {
    match e {
        EventModel::PoolCreated { pool_id, .. } => if among.contains(pool_id) {
            Some((pool_id, Step::Keep(d.pool.forfeited_count)))
        } else {
            None
        },
        EventModel::PoolLocked { pool_id, forfeited_count, .. } => if among.contains(pool_id)
            && present(f, Row::Pool(pool_id)) {
            Some((pool_id, Step::Put(forfeited_count as i64)))
        } else {
            None
        },
        _ => None,
    }
}

/// No pool of a set has come as far as `bound`.
spec fn short_of(l: Ledger, among: Set<Seq<char>>, bound: int) -> bool {
    forall|k: Seq<char>|
        #![trigger l.pools[k]]
        l.pools.contains_key(k) && among.contains(k) ==> progress(l.pools[k].state) < bound
}

proof fn lemma_event_terms(l: Ledger, d: Defaults, e: EventModel, f: Ledger)
    requires
        finds_like(l, f, e),
    ensures
        terms(after_event(l, d, e)) == step(terms(l), terms_step(e)),
        prizes(after_event(l, d, e)) == step(prizes(l), prize_step(f, d, e)),
{
    lemma_event(l, d, e);
    lemma_finds(l, f, e);
    let after = after_event(l, d, e);
    match e {
        EventModel::PoolCreated { .. } => {},
        EventModel::CommitSubmitted { .. } => {},
        EventModel::RevealSubmitted { .. } => {},
        EventModel::PoolLocked { .. } => {},
        EventModel::PoolResolved { .. } => {},
        EventModel::PrizeDistributed { .. } => {},
        _ => {
            assert(after.pools == l.pools);
        },
    }
    assert(terms(after) =~= step(terms(l), terms_step(e)));
    assert(prizes(after) =~= step(prizes(l), prize_step(f, d, e)));
}

proof fn lemma_event_weights(
    l: Ledger,
    d: Defaults,
    e: EventModel,
    among: Set<Seq<char>>,
    f: Ledger,
)
    requires
        finds_like(l, f, e),
        short_of(l, among, 3),
    ensures
        weights(after_event(l, d, e), among) == step(
            weights(l, among),
            weight_step(f, d, among, e),
        ),
{
    lemma_event(l, d, e);
    lemma_finds(l, f, e);
    lemma_reach(e, "Distributed"@, "Distributed"@);
    let after = after_event(l, d, e);
    match e {
        EventModel::PoolCreated { .. } => {},
        EventModel::CommitSubmitted { .. } => {},
        EventModel::RevealSubmitted { .. } => {},
        EventModel::PoolLocked { .. } => {},
        EventModel::PoolResolved { pool_id, .. } => {
            assert(among.contains(pool_id) && l.pools.contains_key(pool_id) ==> progress(
                l.pools[pool_id].state,
            ) < 3);
        },
        EventModel::PrizeDistributed { .. } => {},
        _ => {
            assert(after.pools == l.pools);
        },
    }
    assert(weights(after, among) =~= step(weights(l, among), weight_step(f, d, among, e)));
}

proof fn lemma_event_forfeits(
    l: Ledger,
    d: Defaults,
    e: EventModel,
    among: Set<Seq<char>>,
    f: Ledger,
)
    requires
        finds_like(l, f, e),
        short_of(l, among, 2),
    ensures
        forfeits(after_event(l, d, e), among) == step(
            forfeits(l, among),
            forfeit_step(f, d, among, e),
        ),
{
    lemma_event(l, d, e);
    lemma_finds(l, f, e);
    let after = after_event(l, d, e);
    match e {
        EventModel::PoolCreated { .. } => {},
        EventModel::CommitSubmitted { .. } => {},
        EventModel::RevealSubmitted { .. } => {},
        EventModel::PoolLocked { pool_id, .. } => {
            assert(among.contains(pool_id) && l.pools.contains_key(pool_id) ==> progress(
                l.pools[pool_id].state,
            ) < 2);
        },
        EventModel::PoolResolved { .. } => {},
        EventModel::PrizeDistributed { .. } => {},
        _ => {
            assert(after.pools == l.pools);
        },
    }
    assert(forfeits(after, among) =~= step(forfeits(l, among), forfeit_step(f, d, among, e)));
}

/// Before an event no pool is further than after it.
proof fn lemma_short_before(
    l: Ledger,
    d: Defaults,
    e: EventModel,
    among: Set<Seq<char>>,
    bound: int,
)
    requires
        short_of(after_event(l, d, e), among, bound),
    ensures
        short_of(l, among, bound),
{
    assert forall|k: Seq<char>|
        #![trigger l.pools[k]]
        l.pools.contains_key(k) && among.contains(k) implies progress(l.pools[k].state) < bound by {
        law_pool_never_goes_back(l, d, e, k);
    }
}

spec fn terms_steps(es: Seq<EventModel>) -> Seq<Option<(Seq<char>, Step<Terms>)>> {
    Seq::new(es.len(), |i: int| terms_step(es[i]))
}

spec fn prize_steps(f: Ledger, d: Defaults, es: Seq<EventModel>) -> Seq<
    Option<(Seq<char>, Step<Option<i64>>)>,
> {
    Seq::new(es.len(), |i: int| prize_step(f, d, es[i]))
}

spec fn weight_steps(f: Ledger, d: Defaults, among: Set<Seq<char>>, es: Seq<EventModel>) -> Seq<
    Option<(Seq<char>, Step<Seq<char>>)>,
> {
    Seq::new(es.len(), |i: int| weight_step(f, d, among, es[i]))
}

spec fn forfeit_steps(f: Ledger, d: Defaults, among: Set<Seq<char>>, es: Seq<EventModel>) -> Seq<
    Option<(Seq<char>, Step<i64>)>,
> {
    Seq::new(es.len(), |i: int| forfeit_step(f, d, among, es[i]))
}

proof fn lemma_page_terms(l: Ledger, d: Defaults, es: Seq<EventModel>, f: Ledger)
    requires
        page_like(l, d, es, f),
    ensures
        terms(after_events(l, d, es)) == steps(terms(l), terms_steps(es)),
        prizes(after_events(l, d, es)) == steps(prizes(l), prize_steps(f, d, es)),
    decreases es.len(),
{
    if es.len() > 0 {
        let head = es.drop_last();
        lemma_page_terms(l, d, head, f);
        lemma_event_terms(after_events(l, d, head), d, es.last(), f);
        assert(terms_steps(es).drop_last() =~= terms_steps(head));
        assert(prize_steps(f, d, es).drop_last() =~= prize_steps(f, d, head));
    }
}

proof fn lemma_page_weights(
    l: Ledger,
    d: Defaults,
    es: Seq<EventModel>,
    among: Set<Seq<char>>,
    f: Ledger,
)
    requires
        page_like(l, d, es, f),
        short_of(after_events(l, d, es), among, 3),
    ensures
        weights(after_events(l, d, es), among) == steps(
            weights(l, among),
            weight_steps(f, d, among, es),
        ),
    decreases es.len(),
{
    if es.len() > 0 {
        let head = es.drop_last();
        let before = after_events(l, d, head);
        lemma_short_before(before, d, es.last(), among, 3);
        lemma_page_weights(l, d, head, among, f);
        lemma_event_weights(before, d, es.last(), among, f);
        assert(weight_steps(f, d, among, es).drop_last() =~= weight_steps(f, d, among, head));
    }
}

proof fn lemma_page_forfeits(
    l: Ledger,
    d: Defaults,
    es: Seq<EventModel>,
    among: Set<Seq<char>>,
    f: Ledger,
)
    requires
        page_like(l, d, es, f),
        short_of(after_events(l, d, es), among, 2),
    ensures
        forfeits(after_events(l, d, es), among) == steps(
            forfeits(l, among),
            forfeit_steps(f, d, among, es),
        ),
    decreases es.len(),
{
    if es.len() > 0 {
        let head = es.drop_last();
        let before = after_events(l, d, head);
        lemma_short_before(before, d, es.last(), among, 2);
        lemma_page_forfeits(l, d, head, among, f);
        lemma_event_forfeits(before, d, es.last(), among, f);
        assert(forfeit_steps(f, d, among, es).drop_last() =~= forfeit_steps(f, d, among, head));
    }
}

// --- aggregates ---

/// Whether an event has the participants of a pool counted.
pub open spec fn recounts(e: EventModel, pool_id: Seq<char>) -> bool {
    match e {
        EventModel::CommitSubmitted { pool_id: p, .. } => p == pool_id,
        EventModel::RevealSubmitted { pool_id: p, .. } => p == pool_id,
        _ => false,
    }
}

/// Whether an event of a page has the participants of a pool counted.
pub open spec fn recounted(es: Seq<EventModel>, pool_id: Seq<char>) -> bool {
    exists|i: int| 0 <= i < es.len() && recounts(#[trigger] es[i], pool_id)
}

/// The number of reveals that a lock of a pool gives.
spec fn lock_count(e: EventModel, pool_id: Seq<char>) -> Option<int> {
    match e {
        EventModel::PoolLocked { pool_id: p, reveal_count, .. } => if p == pool_id {
            Some((reveal_count as i64) as int)
        } else {
            None
        },
        _ => None,
    }
}

/// Whether an event can change the aggregates of a pool that is there.
spec fn concerns(e: EventModel, pool_id: Seq<char>) -> bool {
    recounts(e, pool_id) || lock_count(e, pool_id) is Some
}

spec fn concerned(es: Seq<EventModel>, pool_id: Seq<char>) -> bool {
    exists|i: int| 0 <= i < es.len() && concerns(#[trigger] es[i], pool_id)
}

/// The participant count and the prize pool as they are stored.
spec fn stored(p: PoolRecord) -> (int, int) {
    (p.participant_count, p.prize_pool)
}

/// The participant count and the prize pool as the participants have them.
spec fn counted(l: Ledger, pool_id: Seq<char>) -> (int, int) {
    let all = entrants(l.commits, pool_id);
    (all.len() as int, fees(l.commits, all))
}

/// What an event does to the aggregates of a pool.
proof fn lemma_aggregates_after(l: Ledger, d: Defaults, e: EventModel, p: Seq<char>)
    requires
        l.pools.contains_key(p),
        l.commits.dom().finite(),
    ensures
        ({
            let after = after_event(l, d, e);
            &&& after.pools.contains_key(p)
            &&& recounts(e, p) ==> stored(after.pools[p]) == counted(after, p)
                && after.pools[p].reveal_count == seen(after, p)
            &&& !recounts(e, p) ==> stored(after.pools[p]) == stored(l.pools[p]) && counted(
                after,
                p,
            ) == counted(l, p) && seen(after, p) == seen(l, p)
            &&& !recounts(e, p) ==> after.pools[p].reveal_count == match lock_count(e, p) {
                Some(n) => if progress(l.pools[p].state) < 2 {
                    n
                } else {
                    l.pools[p].reveal_count
                },
                None => l.pools[p].reveal_count,
            }
        }),
{
    lemma_event(l, d, e);
    lemma_reach(e, p, l.pools[p].state);
    let after = after_event(l, d, e);
    match e {
        EventModel::PoolCreated { .. } => {},
        EventModel::CommitSubmitted { pool_id, participant, entry_fee, timestamp } => {
            let key = (pool_id, participant);
            let c = CommitRecord { entry_fee: entry_fee as i64, timestamp_ms: timestamp as i64 };
            assert(after.commits == l.commits.insert(key, c));
            assert(after.reveals == l.reveals);
            if pool_id != p {
                lemma_other_pool(l.commits, key, c, p);
            }
        },
        EventModel::RevealSubmitted { pool_id, .. } => {
            assert(after.commits == l.commits);
            if pool_id != p {
                assert(entrants(after.commits, p).filter(|x: Entry| after.reveals.contains_key(x))
                    =~= entrants(l.commits, p).filter(|x: Entry| l.reveals.contains_key(x)));
            }
        },
        EventModel::PoolLocked { .. } => {},
        EventModel::PoolResolved { .. } => {},
        EventModel::PrizeDistributed { .. } => {},
        _ => {
            assert(after.pools == l.pools);
            assert(after.commits == l.commits);
            assert(after.reveals == l.reveals);
        },
    }
}

/// Only its creation makes a pool, with the values of the schema.
proof fn lemma_created(l: Ledger, d: Defaults, e: EventModel, p: Seq<char>)
    requires
        !l.pools.contains_key(p),
        after_event(l, d, e).pools.contains_key(p),
    ensures
        !concerns(e, p),
        stored(after_event(l, d, e).pools[p]) == stored(d.pool),
        after_event(l, d, e).pools[p].reveal_count == d.pool.reveal_count,
{
    lemma_event(l, d, e);
}

proof fn lemma_page_finite(l: Ledger, d: Defaults, es: Seq<EventModel>)
    requires
        l.commits.dom().finite(),
    ensures
        after_events(l, d, es).commits.dom().finite(),
    decreases es.len(),
{
    if es.len() > 0 {
        lemma_page_finite(l, d, es.drop_last());
        lemma_event(after_events(l, d, es.drop_last()), d, es.last());
    }
}

/// A page that ends without a pool that it is to find does not concern that pool.
proof fn lemma_untouched(l: Ledger, d: Defaults, es: Seq<EventModel>, p: Seq<char>, f: Ledger)
    requires
        page_like(l, d, es, f),
        f.pools.contains_key(p),
        !after_events(l, d, es).pools.contains_key(p),
    ensures
        !l.pools.contains_key(p),
        !concerned(es, p),
        !recounted(es, p),
    decreases es.len(),
{
    if es.len() > 0 {
        let before = after_events(l, d, es.drop_last());
        lemma_event_rows(before, d, es.last(), Row::Pool(p));
        lemma_untouched(l, d, es.drop_last(), p, f);
        lemma_concerned(es, p);
        if concerns(es.last(), p) {
            assert(refers_to(es.last(), Row::Pool(p)));
        }
    }
}

/// A page concerns a pool if its last event or one before does.
proof fn lemma_concerned(es: Seq<EventModel>, p: Seq<char>)
    requires
        es.len() > 0,
    ensures
        concerned(es, p) == (concerned(es.drop_last(), p) || concerns(es.last(), p)),
        recounted(es, p) == (recounted(es.drop_last(), p) || recounts(es.last(), p)),
        recounted(es, p) ==> concerned(es, p),
{
    let head = es.drop_last();
    if concerned(head, p) {
        let i = choose|i: int| 0 <= i < head.len() && concerns(#[trigger] head[i], p);
        assert(concerns(es[i], p));
    }
    if recounted(head, p) {
        let i = choose|i: int| 0 <= i < head.len() && recounts(#[trigger] head[i], p);
        assert(recounts(es[i], p));
    }
    if concerned(es, p) {
        let i = choose|i: int| 0 <= i < es.len() && concerns(#[trigger] es[i], p);
        assert(i < head.len() ==> concerns(head[i], p));
    }
    if recounted(es, p) {
        let i = choose|i: int| 0 <= i < es.len() && recounts(#[trigger] es[i], p);
        assert(i < head.len() ==> recounts(head[i], p));
        assert(concerns(es[i], p));
    }
    if concerns(es.last(), p) {
        assert(concerns(es[es.len() - 1], p));
    }
    if recounts(es.last(), p) {
        assert(recounts(es[es.len() - 1], p));
    }
}

/// The pool as it is before a page: as it is stored, or as it will be created.
spec fn start(l: Ledger, d: Defaults, p: Seq<char>) -> PoolRecord {
    if l.pools.contains_key(p) {
        l.pools[p]
    } else {
        d.pool
    }
}

/// After a page that has a pool counted, its participant count and its prize pool are
/// those of its participants; any other page leaves them.
proof fn lemma_page_aggregates(
    l: Ledger,
    d: Defaults,
    es: Seq<EventModel>,
    p: Seq<char>,
    f: Ledger,
)
    requires
        page_like(l, d, es, f),
        f.pools.contains_key(p),
        l.commits.dom().finite(),
        after_events(l, d, es).pools.contains_key(p),
    ensures
        stored(after_events(l, d, es).pools[p]) == if recounted(es, p) {
            counted(after_events(l, d, es), p)
        } else {
            stored(start(l, d, p))
        },
    decreases es.len(),
{
    if es.len() > 0 {
        let head = es.drop_last();
        let before = after_events(l, d, head);
        lemma_concerned(es, p);
        lemma_page_finite(l, d, head);
        if before.pools.contains_key(p) {
            lemma_page_aggregates(l, d, head, p, f);
            lemma_aggregates_after(before, d, es.last(), p);
        } else {
            lemma_created(before, d, es.last(), p);
            lemma_untouched(l, d, head, p, f);
        }
    }
}

/// The number of reveals after a page, from the number before and the number seen at
/// its end: the last event that concerns the pool decides.
spec fn last_count(es: Seq<EventModel>, p: Seq<char>, before: int, end: int) -> int
    decreases es.len(),
{
    if es.len() == 0 {
        before
    } else if recounts(es.last(), p) {
        end
    } else {
        match lock_count(es.last(), p) {
            Some(n) => n,
            None => last_count(es.drop_last(), p, before, end),
        }
    }
}

proof fn lemma_last_count(es: Seq<EventModel>, p: Seq<char>, a: int, b: int, end: int)
    ensures
        concerned(es, p) ==> last_count(es, p, a, end) == last_count(es, p, b, end),
        !concerned(es, p) ==> last_count(es, p, a, end) == a,
    decreases es.len(),
{
    if es.len() > 0 {
        lemma_concerned(es, p);
        lemma_last_count(es.drop_last(), p, a, b, end);
    }
}

/// The number of reveals of a pool that is not scored by the end of a page.
proof fn lemma_page_reveals(
    l: Ledger,
    d: Defaults,
    es: Seq<EventModel>,
    p: Seq<char>,
    f: Ledger,
)
    requires
        page_like(l, d, es, f),
        f.pools.contains_key(p),
        l.commits.dom().finite(),
        after_events(l, d, es).pools.contains_key(p),
        progress(after_events(l, d, es).pools[p].state) < 2,
    ensures
        after_events(l, d, es).pools[p].reveal_count == last_count(
            es,
            p,
            start(l, d, p).reveal_count,
            seen(after_events(l, d, es), p),
        ),
    decreases es.len(),
{
    if es.len() > 0 {
        let head = es.drop_last();
        let before = after_events(l, d, head);
        lemma_page_finite(l, d, head);
        if before.pools.contains_key(p) {
            law_pool_never_goes_back(before, d, es.last(), p);
            lemma_page_reveals(l, d, head, p, f);
            lemma_aggregates_after(before, d, es.last(), p);
        } else {
            let end = seen(after_events(l, d, es), p);
            lemma_created(before, d, es.last(), p);
            lemma_untouched(l, d, head, p, f);
            lemma_last_count(head, p, d.pool.reveal_count, 0, end);
        }
    }
}

/// The number of reveals of a pool that is scored when a page begins.
proof fn lemma_scored_reveals(l: Ledger, d: Defaults, es: Seq<EventModel>, p: Seq<char>)
    requires
        l.commits.dom().finite(),
        l.pools.contains_key(p),
        progress(l.pools[p].state) >= 2,
    ensures
        ({
            let after = after_events(l, d, es);
            &&& after.pools.contains_key(p)
            &&& progress(after.pools[p].state) >= 2
            &&& after.pools[p].reveal_count == if recounted(es, p) {
                seen(after, p)
            } else {
                l.pools[p].reveal_count
            }
        }),
    decreases es.len(),
{
    if es.len() > 0 {
        let head = es.drop_last();
        let before = after_events(l, d, head);
        lemma_concerned(es, p);
        lemma_page_finite(l, d, head);
        lemma_scored_reveals(l, d, head, p);
        law_pool_never_goes_back(before, d, es.last(), p);
        lemma_aggregates_after(before, d, es.last(), p);
    }
}

// ---------------------------------------------------------------------------
// The law
// ---------------------------------------------------------------------------

/// A pool after a page that was processed before is processed again. The number of
/// reveals of a scored pool, which the chain gave when the pool was locked, becomes the
/// number seen if the page has the participants of the pool counted; nothing else
/// changes.
pub open spec fn pool_again(l: Ledger, es: Seq<EventModel>, p: Seq<char>) -> PoolRecord {
    if progress(l.pools[p].state) >= 2 && recounted(es, p) {
        PoolRecord { reveal_count: seen(l, p), ..l.pools[p] }
    } else {
        l.pools[p]
    }
}

/// The tables after a page that was processed before is processed again.
pub open spec fn page_again(l: Ledger, es: Seq<EventModel>) -> Ledger {
    Ledger {
        pools: Map::new(
            |p: Seq<char>| l.pools.contains_key(p),
            |p: Seq<char>| pool_again(l, es, p),
        ),
        ..l
    }
}

/// Two pools that differ in the number of reveals at most.
spec fn same_but_reveals(a: PoolRecord, b: PoolRecord) -> bool {
    PoolRecord { reveal_count: 0, ..a } == PoolRecord { reveal_count: 0, ..b }
}

proof fn lemma_profiles_again(l: Ledger, d: Defaults, es: Seq<EventModel>)
    requires
        page_like(l, d, es, after_events(l, d, es)),
        page_like(after_events(l, d, es), d, es, after_events(l, d, es)),
    ensures
        after_events(after_events(l, d, es), d, es).profiles == after_events(l, d, es).profiles,
{
    let once = after_events(l, d, es);
    let twice = after_events(once, d, es);
    lemma_page_profiles(l, d, es, once);
    lemma_page_profiles(once, d, es, once);
    lemma_steps_again(tiers(l), tier_steps(once, d, es));
    lemma_steps_again(accuracies(l), accuracy_steps(d, es));
    lemma_steps_again(origins(l), origin_steps(d, es));
    assert(tiers(twice).dom() == tiers(once).dom());
    assert forall|k: Seq<char>| twice.profiles.contains_key(k) == once.profiles.contains_key(
        k,
    ) by {
        assert(tiers(twice).contains_key(k) == tiers(once).contains_key(k));
    }
    assert forall|k: Seq<char>| once.profiles.contains_key(k) implies #[trigger] twice.profiles[k]
        == once.profiles[k] by {
        assert(es.take(es.len() as int) =~= es);
        lemma_counts_stay(l, d, es, es.len() as int, k);
        assert(tiers(twice)[k] == tiers(once)[k]);
        assert(accuracies(twice)[k] == accuracies(once)[k]);
        assert(origins(twice)[k] == origins(once)[k]);
    }
    assert(twice.profiles =~= once.profiles);
}

proof fn lemma_pools_again(l: Ledger, d: Defaults, es: Seq<EventModel>)
    requires
        page_like(l, d, es, after_events(l, d, es)),
        page_like(after_events(l, d, es), d, es, after_events(l, d, es)),
        l.commits.dom().finite(),
        after_events(after_events(l, d, es), d, es).commits == after_events(l, d, es).commits,
    ensures
        ({
            let once = after_events(l, d, es);
            let twice = after_events(once, d, es);
            &&& twice.pools.dom() == once.pools.dom()
            &&& forall|p: Seq<char>|
                #![trigger twice.pools[p]]
                once.pools.contains_key(p) ==> same_but_reveals(twice.pools[p], once.pools[p])
        }),
{
    let once = after_events(l, d, es);
    let twice = after_events(once, d, es);
    assert(es.take(es.len() as int) =~= es);
    lemma_page_terms(l, d, es, once);
    lemma_page_terms(once, d, es, once);
    lemma_steps_again(terms(l), terms_steps(es));
    lemma_steps_again(prizes(l), prize_steps(once, d, es));
    assert forall|k: Seq<char>| twice.pools.contains_key(k) == once.pools.contains_key(k) by {
        assert(terms(twice).contains_key(k) == terms(once).contains_key(k));
    }
    assert(twice.pools.dom() =~= once.pools.dom());

    let undistributed = Set::new(|k: Seq<char>| progress(once.pools[k].state) < 3);
    let unscored = Set::new(|k: Seq<char>| progress(once.pools[k].state) < 2);
    assert forall|k: Seq<char>| once.pools.contains_key(k) implies #[trigger] twice.pools[k].state
        == once.pools[k].state by {
        lemma_states_stay(l, d, es, es.len() as int, k);
    }
    lemma_page_weights(l, d, es, undistributed, once);
    lemma_page_weights(once, d, es, undistributed, once);
    lemma_steps_again(weights(l, undistributed), weight_steps(once, d, undistributed, es));
    lemma_page_forfeits(l, d, es, unscored, once);
    lemma_page_forfeits(once, d, es, unscored, once);
    lemma_steps_again(forfeits(l, unscored), forfeit_steps(once, d, unscored, es));

    assert forall|p: Seq<char>|
        #![trigger twice.pools[p]]
        once.pools.contains_key(p) implies same_but_reveals(twice.pools[p], once.pools[p]) by {
        lemma_fixed_stay(l, d, es, es.len() as int, p);
        lemma_page_finite(l, d, es);
        lemma_page_aggregates(l, d, es, p, once);
        lemma_page_aggregates(once, d, es, p, once);
        assert(terms(twice)[p] == terms(once)[p]);
        assert(prizes(twice)[p] == prizes(once)[p]);
        if undistributed.contains(p) {
            assert(weights(twice, undistributed)[p] == weights(once, undistributed)[p]);
        }
        if unscored.contains(p) {
            assert(forfeits(twice, unscored)[p] == forfeits(once, unscored)[p]);
        }
    }
}

/// What a page that is processed twice does to the number of reveals of a pool.
proof fn lemma_reveals_again(l: Ledger, d: Defaults, es: Seq<EventModel>, p: Seq<char>)
    requires
        page_like(l, d, es, after_events(l, d, es)),
        page_like(after_events(l, d, es), d, es, after_events(l, d, es)),
        l.commits.dom().finite(),
        after_events(l, d, es).pools.contains_key(p),
        after_events(after_events(l, d, es), d, es).commits == after_events(l, d, es).commits,
        after_events(after_events(l, d, es), d, es).reveals == after_events(l, d, es).reveals,
    ensures
        after_events(after_events(l, d, es), d, es).pools[p].reveal_count == pool_again(
            after_events(l, d, es),
            es,
            p,
        ).reveal_count,
{
    let once = after_events(l, d, es);
    let twice = after_events(once, d, es);
    lemma_page_finite(l, d, es);
    assert(seen(twice, p) == seen(once, p));
    if progress(once.pools[p].state) >= 2 {
        lemma_scored_reveals(once, d, es, p);
    } else {
        assert(es.take(es.len() as int) =~= es);
        lemma_states_stay(l, d, es, es.len() as int, p);
        lemma_page_reveals(l, d, es, p, once);
        lemma_page_reveals(once, d, es, p, once);
        lemma_last_count(
            es,
            p,
            start(l, d, p).reveal_count,
            once.pools[p].reveal_count,
            seen(once, p),
        );
        lemma_last_count(es, p, once.pools[p].reveal_count, 0, seen(once, p));
    }
}

/// A page that is processed twice leaves the tables as if it had been processed once,
/// with one exception: where it has the participants of a pool counted that is scored
/// by its end, the number of reveals of that pool becomes the number seen.
pub proof fn law_page_again(l: Ledger, d: Defaults, es: Seq<EventModel>)
    requires
        l.commits.dom().finite(),
        no_row_comes_late(l, d, es),
    ensures
        after_events(after_events(l, d, es), d, es) == page_again(after_events(l, d, es), es),
{
    let once = after_events(l, d, es);
    let twice = after_events(once, d, es);
    assert(es.take(es.len() as int) =~= es);
    lemma_first_like(l, d, es, es.len() as int);
    lemma_again_like(l, d, es, es.len() as int);
    lemma_page_tables(l, d, es, once);
    lemma_page_tables(once, d, es, once);
    lemma_steps_again(l.commits, commit_steps(es));
    lemma_steps_again(l.reveals, reveal_steps(once, es));
    lemma_steps_again(l.payments, payment_steps(once, es));
    lemma_steps_again(l.settlements, settlement_steps(es));
    lemma_profiles_again(l, d, es);
    lemma_pools_again(l, d, es);
    assert forall|p: Seq<char>| once.pools.contains_key(p) implies #[trigger] twice.pools[p]
        == pool_again(once, es, p) by {
        lemma_reveals_again(l, d, es, p);
        assert(same_but_reveals(twice.pools[p], once.pools[p]));
    }
    assert(twice.pools =~= page_again(once, es).pools);
}

/// Whether no pool that is scored, and that a page has counted, has another number of
/// reveals than was seen.
pub open spec fn reveals_agree(l: Ledger, es: Seq<EventModel>) -> bool {
    forall|p: Seq<char>|
        #![trigger l.pools[p]]
        l.pools.contains_key(p) && progress(l.pools[p].state) >= 2 && recounted(es, p)
            ==> l.pools[p].reveal_count == seen(l, p)
}

/// A page that is processed twice leaves the tables as if it had been processed once,
/// unless the chain locked a pool with another number of reveals than was seen, and the
/// pool is scored by the end of the very page that has it counted. On such a page the
/// second time does make a difference.
pub proof fn law_page_again_changes_nothing(l: Ledger, d: Defaults, es: Seq<EventModel>)
    requires
        l.commits.dom().finite(),
        no_row_comes_late(l, d, es),
    ensures
        after_events(after_events(l, d, es), d, es) == after_events(l, d, es) <==> reveals_agree(
            after_events(l, d, es),
            es,
        ),
{
    let once = after_events(l, d, es);
    law_page_again(l, d, es);
    let again = page_again(once, es);
    if reveals_agree(once, es) {
        assert forall|p: Seq<char>| once.pools.contains_key(p) implies #[trigger] again.pools[p]
            == once.pools[p] by {}
        assert(again.pools =~= once.pools);
    } else {
        let p = choose|p: Seq<char>|
            #![trigger once.pools[p]]
            once.pools.contains_key(p) && progress(once.pools[p].state) >= 2 && recounted(es, p)
                && once.pools[p].reveal_count != seen(once, p);
        assert(again.pools[p].reveal_count == seen(once, p));
    }
}

} // verus!
