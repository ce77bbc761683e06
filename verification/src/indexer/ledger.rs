//! What the statements of the indexer do to the tables, and what the tables keep
//! under any sequence of events.
//!
//! The tables are a model. [`effect`] says what each statement is taken to do; it is a
//! reading of the SQL that `handlers` holds, which no proof ties to it. Every law here
//! and in `replay` is a law of this model.

use vstd::prelude::*;

use crate::indexer::events::EventModel;
use crate::indexer::handlers::{event_writes, WriteModel};

verus! {

/// A participant of a pool: pool and address.
pub type Entry = (Seq<char>, Seq<char>);

/// A row of `pools`, without the columns that events do not touch.
#[verifier::ext_equal]
pub struct PoolRecord {
    pub leg_count: i64,
    pub commit_deadline_ms: i64,
    pub reveal_deadline_ms: i64,
    pub entry_fee_amount: i64,
    pub state: Seq<char>,
    pub participant_count: int,
    pub prize_pool: int,
    pub reveal_count: int,
    pub forfeited_count: i64,
    pub total_weight: Seq<char>,
    pub total_prize: Option<i64>,
}

/// What a commit leaves in a row of `participants`.
#[verifier::ext_equal]
pub struct CommitRecord {
    pub entry_fee: i64,
    pub timestamp_ms: i64,
}

/// What a payment leaves in a row of `participants`.
#[verifier::ext_equal]
pub struct PaymentRecord {
    pub apex_payout: i64,
    pub leg_hits: i16,
    pub composite_weight: Seq<char>,
}

/// A row of `frs_profiles`.
#[verifier::ext_equal]
pub struct ProfileRecord {
    pub frs_pool_id: Option<Seq<char>>,
    pub tier: i16,
    pub lifetime_accuracy_bps: i64,
    pub pool_count: i64,
}

/// A row of `frs_settlements`.
#[verifier::ext_equal]
pub struct SettlementRecord {
    pub tier: i16,
    pub lifetime_accuracy_bps: i64,
    pub pool_count: i64,
    pub tx_digest: Seq<char>,
}

/// The tables. The table `participants` has a row for each entry of `commits`; a
/// row is revealed, or paid, if it has an entry in `reveals`, or in `payments`.
#[verifier::ext_equal]
pub struct Ledger {
    pub pools: Map<Seq<char>, PoolRecord>,
    pub commits: Map<Entry, CommitRecord>,
    pub reveals: Map<Entry, i64>,
    pub payments: Map<Entry, PaymentRecord>,
    pub profiles: Map<Seq<char>, ProfileRecord>,
    /// By participant and pool.
    pub settlements: Map<Entry, SettlementRecord>,
}

/// The values that the schema gives to columns that an insert leaves out.
pub struct Defaults {
    pub pool: PoolRecord,
    pub profile: ProfileRecord,
}

/// The entries of a pool.
pub open spec fn entrants(commits: Map<Entry, CommitRecord>, pool_id: Seq<char>) -> Set<Entry> {
    commits.dom().filter(|e: Entry| e.0 == pool_id)
}

/// The sum of the entry fees of some entries.
pub open spec fn fees(commits: Map<Entry, CommitRecord>, entries: Set<Entry>) -> int
    decreases entries.len(),
    when entries.finite()
{
    if entries.len() == 0 {
        0
    } else {
        let e = entries.choose();
        commits[e].entry_fee + fees(commits, entries.remove(e))
    }
}

/// The number of participants of a pool that have revealed.
pub open spec fn seen(l: Ledger, pool_id: Seq<char>) -> int {
    entrants(l.commits, pool_id).filter(|e: Entry| l.reveals.contains_key(e)).len() as int
}

/// A pool with its aggregates taken from its participants.
pub open spec fn recomputed(l: Ledger, pool_id: Seq<char>, p: PoolRecord) -> PoolRecord {
    let all = entrants(l.commits, pool_id);
    PoolRecord {
        participant_count: all.len() as int,
        prize_pool: fees(l.commits, all),
        reveal_count: seen(l, pool_id),
        ..p
    }
}

/// The pool `pool_id` changed to `p`, if there is such a pool.
pub open spec fn update_pool(l: Ledger, pool_id: Seq<char>, p: PoolRecord) -> Ledger {
    if l.pools.contains_key(pool_id) {
        Ledger { pools: l.pools.insert(pool_id, p), ..l }
    } else {
        l
    }
}

/// What a statement does to the tables.
pub open spec fn effect(l: Ledger, d: Defaults, w: WriteModel) -> Ledger {
    match w {
        WriteModel::UpsertPool {
            pool_id,
            leg_count,
            commit_deadline_ms,
            reveal_deadline_ms,
            entry_fee_amount,
        } => {
            let before = if l.pools.contains_key(pool_id) {
                l.pools[pool_id]
            } else {
                d.pool
            };
            let after = PoolRecord {
                leg_count,
                commit_deadline_ms,
                reveal_deadline_ms,
                entry_fee_amount,
                ..before
            };
            Ledger { pools: l.pools.insert(pool_id, after), ..l }
        },
        WriteModel::UpsertCommit { pool_id, participant, entry_fee, timestamp_ms } => Ledger {
            commits: l.commits.insert(
                (pool_id, participant),
                CommitRecord { entry_fee, timestamp_ms },
            ),
            ..l
        },
        WriteModel::RecomputePool { pool_id } => update_pool(
            l,
            pool_id,
            recomputed(l, pool_id, l.pools[pool_id]),
        ),
        WriteModel::MarkRevealed { pool_id, participant, crowd_median_estimate } => if l
            .commits.contains_key((pool_id, participant)) {
            Ledger {
                reveals: l.reveals.insert((pool_id, participant), crowd_median_estimate),
                ..l
            }
        } else {
            l
        },
        WriteModel::LockPool { pool_id, reveal_count, forfeited_count } => {
            let p = l.pools[pool_id];
            if p.state == "Scored"@ || p.state == "Distributed"@ {
                l
            } else {
                update_pool(
                    l,
                    pool_id,
                    PoolRecord {
                        state: "Locked"@,
                        reveal_count: reveal_count as int,
                        forfeited_count,
                        ..p
                    },
                )
            }
        },
        WriteModel::ScorePool { pool_id, total_weight } => {
            let p = l.pools[pool_id];
            if p.state == "Distributed"@ {
                l
            } else {
                update_pool(l, pool_id, PoolRecord { state: "Scored"@, total_weight, ..p })
            }
        },
        WriteModel::PayParticipant {
            pool_id,
            participant,
            apex_payout,
            leg_hits,
            composite_weight,
        } => if l.commits.contains_key((pool_id, participant)) {
            Ledger {
                payments: l.payments.insert(
                    (pool_id, participant),
                    PaymentRecord { apex_payout, leg_hits, composite_weight },
                ),
                ..l
            }
        } else {
            l
        },
        WriteModel::DistributePool { pool_id, total_prize } => update_pool(
            l,
            pool_id,
            PoolRecord {
                state: "Distributed"@,
                total_prize: Some(total_prize),
                ..l.pools[pool_id]
            },
        ),
        WriteModel::CreateProfile { participant, pool_id } => if l.profiles.contains_key(
            participant,
        ) {
            l
        } else {
            Ledger {
                profiles: l.profiles.insert(
                    participant,
                    ProfileRecord { frs_pool_id: pool_id, ..d.profile },
                ),
                ..l
            }
        },
        WriteModel::SettleProfile { participant, tier, lifetime_accuracy_bps, pool_count } => {
            let after = if l.profiles.contains_key(participant) {
                let before = l.profiles[participant];
                ProfileRecord {
                    tier,
                    lifetime_accuracy_bps,
                    pool_count: if before.pool_count > pool_count {
                        before.pool_count
                    } else {
                        pool_count
                    },
                    ..before
                }
            } else {
                ProfileRecord { tier, lifetime_accuracy_bps, pool_count, ..d.profile }
            };
            Ledger { profiles: l.profiles.insert(participant, after), ..l }
        },
        WriteModel::AddSettlement {
            participant,
            pool_id,
            tier,
            lifetime_accuracy_bps,
            pool_count,
            tx_digest,
        } => if l.settlements.contains_key((participant, pool_id)) {
            l
        } else {
            Ledger {
                settlements: l.settlements.insert(
                    (participant, pool_id),
                    SettlementRecord { tier, lifetime_accuracy_bps, pool_count, tx_digest },
                ),
                ..l
            }
        },
        WriteModel::SetTier { participant, tier } => if l.profiles.contains_key(participant) {
            Ledger {
                profiles: l.profiles.insert(
                    participant,
                    ProfileRecord { tier, ..l.profiles[participant] },
                ),
                ..l
            }
        } else {
            l
        },
    }
}

/// What several statements do, one after the other.
pub open spec fn effects(l: Ledger, d: Defaults, ws: Seq<WriteModel>) -> Ledger
    decreases ws.len(),
{
    if ws.len() == 0 {
        l
    } else {
        effect(effects(l, d, ws.drop_last()), d, ws.last())
    }
}

/// The tables after an event.
pub open spec fn after_event(l: Ledger, d: Defaults, e: EventModel) -> Ledger {
    effects(l, d, event_writes(e))
}

/// The tables after a number of events.
pub open spec fn after_events(l: Ledger, d: Defaults, es: Seq<EventModel>) -> Ledger
    decreases es.len(),
{
    if es.len() == 0 {
        l
    } else {
        after_event(after_events(l, d, es.drop_last()), d, es.last())
    }
}

/// An event has one or two statements.
pub(crate) proof fn lemma_event(l: Ledger, d: Defaults, e: EventModel)
    ensures
        event_writes(e).len() == 1 ==> after_event(l, d, e) == effect(l, d, event_writes(e)[0]),
        event_writes(e).len() == 2 ==> after_event(l, d, e) == effect(
            effect(l, d, event_writes(e)[0]),
            d,
            event_writes(e)[1],
        ),
        event_writes(e).len() == 1 || event_writes(e).len() == 2,
{
    let ws = event_writes(e);
    reveal_with_fuel(effects, 3);
    assert(ws.drop_last().len() == ws.len() - 1);
}

// ---------------------------------------------------------------------------
// Processing again
// ---------------------------------------------------------------------------

/// Writing what is there already.
proof fn lemma_insert_same<K, V>(m: Map<K, V>, k: K, v: V)
    requires
        m.contains_key(k),
        m[k] == v,
    ensures
        m.insert(k, v) == m,
{
    assert(m.insert(k, v) =~= m);
}

/// A statement that is executed twice leaves the tables as if it had been executed
/// once.
#[verifier::rlimit(40)]
pub proof fn law_statement_again_changes_nothing(l: Ledger, d: Defaults, w: WriteModel)
    ensures
        effect(effect(l, d, w), d, w) == effect(l, d, w),
{
    let once = effect(l, d, w);
    match w {
        WriteModel::UpsertPool { pool_id, .. } => {
            lemma_insert_same(once.pools, pool_id, once.pools[pool_id]);
        },
        WriteModel::UpsertCommit { pool_id, participant, .. } => {
            lemma_insert_same(
                once.commits,
                (pool_id, participant),
                once.commits[(pool_id, participant)],
            );
        },
        WriteModel::RecomputePool { pool_id } => {
            if l.pools.contains_key(pool_id) {
                assert(recomputed(once, pool_id, once.pools[pool_id]) == once.pools[pool_id]);
                lemma_insert_same(once.pools, pool_id, once.pools[pool_id]);
            }
        },
        WriteModel::MarkRevealed { pool_id, participant, .. } => {
            if l.commits.contains_key((pool_id, participant)) {
                lemma_insert_same(
                    once.reveals,
                    (pool_id, participant),
                    once.reveals[(pool_id, participant)],
                );
            }
        },
        WriteModel::LockPool { pool_id, .. } => {
            if l.pools.contains_key(pool_id) {
                lemma_insert_same(once.pools, pool_id, once.pools[pool_id]);
            }
        },
        WriteModel::ScorePool { pool_id, .. } => {
            if l.pools.contains_key(pool_id) {
                lemma_insert_same(once.pools, pool_id, once.pools[pool_id]);
            }
        },
        WriteModel::PayParticipant { pool_id, participant, .. } => {
            if l.commits.contains_key((pool_id, participant)) {
                lemma_insert_same(
                    once.payments,
                    (pool_id, participant),
                    once.payments[(pool_id, participant)],
                );
            }
        },
        WriteModel::DistributePool { pool_id, .. } => {
            if l.pools.contains_key(pool_id) {
                lemma_insert_same(once.pools, pool_id, once.pools[pool_id]);
            }
        },
        WriteModel::CreateProfile { participant, .. } => {},
        WriteModel::SettleProfile { participant, .. } => {
            lemma_insert_same(once.profiles, participant, once.profiles[participant]);
        },
        WriteModel::AddSettlement { .. } => {},
        WriteModel::SetTier { participant, .. } => {
            if l.profiles.contains_key(participant) {
                lemma_insert_same(once.profiles, participant, once.profiles[participant]);
            }
        },
    }
}

/// An event that is processed twice leaves the tables as if it had been processed
/// once.
pub proof fn law_event_again_changes_nothing(l: Ledger, d: Defaults, e: EventModel)
    ensures
        after_event(after_event(l, d, e), d, e) == after_event(l, d, e),
{
    let once = after_event(l, d, e);
    lemma_event(l, d, e);
    lemma_event(once, d, e);
    let ws = event_writes(e);
    if ws.len() == 1 {
        law_statement_again_changes_nothing(l, d, ws[0]);
    } else {
        let half = effect(l, d, ws[0]);
        law_statement_again_changes_nothing(half, d, ws[1]);
        law_statement_again_changes_nothing(l, d, ws[0]);
        assert(effect(once, d, ws[0]) == once) by {
            lemma_second_keeps_first(l, d, e);
        }
    }
}

/// The second statement of an event leaves alone what the first one wrote.
proof fn lemma_second_keeps_first(l: Ledger, d: Defaults, e: EventModel)
    requires
        event_writes(e).len() == 2,
    ensures
        ({
            let once = effect(effect(l, d, event_writes(e)[0]), d, event_writes(e)[1]);
            effect(once, d, event_writes(e)[0]) == once
        }),
{
    let ws = event_writes(e);
    let half = effect(l, d, ws[0]);
    let once = effect(half, d, ws[1]);
    match e {
        EventModel::CommitSubmitted { pool_id, participant, .. } => {
            assert(once.commits == half.commits);
            lemma_insert_same(
                once.commits,
                (pool_id, participant),
                once.commits[(pool_id, participant)],
            );
        },
        EventModel::RevealSubmitted { pool_id, participant, .. } => {
            assert(once.commits == half.commits);
            assert(once.reveals == half.reveals);
            if l.commits.contains_key((pool_id, participant)) {
                lemma_insert_same(
                    once.reveals,
                    (pool_id, participant),
                    once.reveals[(pool_id, participant)],
                );
            }
        },
        EventModel::FrsSettled { participant, .. } => {
            assert(once.profiles == half.profiles);
            lemma_insert_same(once.profiles, participant, once.profiles[participant]);
        },
        _ => {},
    }
}

// ---------------------------------------------------------------------------
// What never goes back
// ---------------------------------------------------------------------------

/// How far a pool has come: `Locked`, `Scored`, `Distributed`, or not yet there.
pub open spec fn progress(state: Seq<char>) -> int {
    if state == "Distributed"@ {
        3
    } else if state == "Scored"@ {
        2
    } else if state == "Locked"@ {
        1
    } else {
        0
    }
}

proof fn lemma_state_names()
    ensures
        progress("Distributed"@) == 3,
        progress("Scored"@) == 2,
        progress("Locked"@) == 1,
{
    reveal_strlit("Distributed");
    reveal_strlit("Scored");
    reveal_strlit("Locked");
    assert("Distributed"@.len() != "Scored"@.len());
    assert("Scored"@[0] != "Locked"@[0]);
}

proof fn lemma_statement_goes_forward(
    l: Ledger,
    d: Defaults,
    w: WriteModel,
    pool_id: Seq<char>,
)
    requires
        l.pools.contains_key(pool_id),
    ensures
        effect(l, d, w).pools.contains_key(pool_id),
        progress(effect(l, d, w).pools[pool_id].state) >= progress(l.pools[pool_id].state),
{
    lemma_state_names();
    match w {
        WriteModel::UpsertPool { .. } => {},
        WriteModel::RecomputePool { .. } => {},
        WriteModel::LockPool { .. } => {},
        WriteModel::ScorePool { .. } => {},
        WriteModel::DistributePool { .. } => {},
        _ => {
            assert(effect(l, d, w).pools == l.pools);
        },
    }
}

/// No event takes a pool back: from `Distributed` it goes nowhere, from `Scored`
/// only to `Distributed`, and from `Locked` only forward.
pub proof fn law_pool_never_goes_back(l: Ledger, d: Defaults, e: EventModel, pool_id: Seq<char>)
    requires
        l.pools.contains_key(pool_id),
    ensures
        after_event(l, d, e).pools.contains_key(pool_id),
        progress(after_event(l, d, e).pools[pool_id].state) >= progress(l.pools[pool_id].state),
{
    lemma_event(l, d, e);
    let ws = event_writes(e);
    lemma_statement_goes_forward(l, d, ws[0], pool_id);
    if ws.len() == 2 {
        lemma_statement_goes_forward(effect(l, d, ws[0]), d, ws[1], pool_id);
    }
}

proof fn lemma_statement_keeps_count(
    l: Ledger,
    d: Defaults,
    w: WriteModel,
    participant: Seq<char>,
)
    requires
        l.profiles.contains_key(participant),
    ensures
        effect(l, d, w).profiles.contains_key(participant),
        effect(l, d, w).profiles[participant].pool_count >= l.profiles[participant].pool_count,
{
    match w {
        WriteModel::CreateProfile { .. } => {},
        WriteModel::SettleProfile { .. } => {},
        WriteModel::SetTier { .. } => {},
        _ => {
            assert(effect(l, d, w).profiles == l.profiles);
        },
    }
}

/// The number of settled pools of a participant never goes down, and no profile is
/// lost.
pub proof fn law_pool_count_never_goes_down(
    l: Ledger,
    d: Defaults,
    e: EventModel,
    participant: Seq<char>,
)
    requires
        l.profiles.contains_key(participant),
    ensures
        after_event(l, d, e).profiles.contains_key(participant),
        after_event(l, d, e).profiles[participant].pool_count
            >= l.profiles[participant].pool_count,
{
    lemma_event(l, d, e);
    let ws = event_writes(e);
    lemma_statement_keeps_count(l, d, ws[0], participant);
    if ws.len() == 2 {
        lemma_statement_keeps_count(effect(l, d, ws[0]), d, ws[1], participant);
    }
}

/// A settlement that is recorded is never changed.
pub proof fn law_settlement_is_final(l: Ledger, d: Defaults, e: EventModel, key: Entry)
    requires
        l.settlements.contains_key(key),
    ensures
        after_event(l, d, e).settlements.contains_key(key),
        after_event(l, d, e).settlements[key] == l.settlements[key],
{
    lemma_event(l, d, e);
}

// ---------------------------------------------------------------------------
// Aggregates
// ---------------------------------------------------------------------------

/// There are finitely many participants, each in a known pool.
pub open spec fn housed(l: Ledger) -> bool {
    &&& l.commits.dom().finite()
    &&& forall|e: Entry| #[trigger] l.commits.contains_key(e) ==> l.pools.contains_key(e.0)
}

/// The aggregates of every pool are those of its participants, and every
/// participant is in a known pool.
pub open spec fn balanced(l: Ledger) -> bool {
    &&& housed(l)
    &&& forall|p: Seq<char>| #[trigger]
        l.pools.contains_key(p) ==> l.pools[p].participant_count == entrants(l.commits, p).len()
            && l.pools[p].prize_pool == fees(l.commits, entrants(l.commits, p))
}

/// A new pool has no participants and no prize.
pub open spec fn starts_empty(d: Defaults) -> bool {
    d.pool.participant_count == 0 && d.pool.prize_pool == 0
}

/// A commit comes after the creation of its pool.
pub open spec fn timely(l: Ledger, e: EventModel) -> bool {
    match e {
        EventModel::CommitSubmitted { pool_id, .. } => l.pools.contains_key(pool_id),
        _ => true,
    }
}

/// The sum depends only on the entries that are summed.
proof fn lemma_fees_agree(
    a: Map<Entry, CommitRecord>,
    b: Map<Entry, CommitRecord>,
    entries: Set<Entry>,
)
    requires
        entries.finite(),
        forall|e: Entry| #[trigger] entries.contains(e) ==> a[e] == b[e],
    ensures
        fees(a, entries) == fees(b, entries),
    decreases entries.len(),
{
    if entries.len() > 0 {
        let e = entries.choose();
        assert(entries.contains(e));
        lemma_fees_agree(a, b, entries.remove(e));
    }
}

/// Any entry can be split off the sum.
proof fn lemma_fees_split(commits: Map<Entry, CommitRecord>, entries: Set<Entry>, e: Entry)
    requires
        entries.finite(),
        entries.contains(e),
    ensures
        fees(commits, entries) == commits[e].entry_fee + fees(commits, entries.remove(e)),
    decreases entries.len(),
{
    let c = entries.choose();
    assert(entries.contains(c));
    if c != e {
        let rest = entries.remove(c);
        lemma_fees_split(commits, rest, e);
        lemma_fees_split(commits, entries.remove(e), c);
        assert(rest.remove(e) =~= entries.remove(e).remove(c));
    }
}

/// A commit changes the entries of its own pool only.
pub(crate) proof fn lemma_other_pool(
    commits: Map<Entry, CommitRecord>,
    key: Entry,
    c: CommitRecord,
    pool_id: Seq<char>,
)
    requires
        commits.dom().finite(),
        key.0 != pool_id,
    ensures
        entrants(commits.insert(key, c), pool_id) == entrants(commits, pool_id),
        fees(commits.insert(key, c), entrants(commits, pool_id)) == fees(
            commits,
            entrants(commits, pool_id),
        ),
{
    let after = commits.insert(key, c);
    assert(entrants(after, pool_id) =~= entrants(commits, pool_id));
    lemma_fees_agree(after, commits, entrants(commits, pool_id));
}

/// Whatever events come, and however often, the participant count and the prize
/// pool of every pool are those of its participants: nothing is counted twice.
pub proof fn law_aggregates_stay_exact(l: Ledger, d: Defaults, e: EventModel)
    requires
        balanced(l),
        starts_empty(d),
        timely(l, e),
    ensures
        balanced(after_event(l, d, e)),
{
    lemma_event(l, d, e);
    let after = after_event(l, d, e);
    match e {
        EventModel::PoolCreated { pool_id, .. } => {
            if !l.pools.contains_key(pool_id) {
                assert(entrants(l.commits, pool_id) =~= Set::<Entry>::empty()) by {
                    assert forall|x: Entry| !entrants(l.commits, pool_id).contains(x) by {
                        if l.commits.contains_key(x) {
                            assert(l.pools.contains_key(x.0));
                        }
                    }
                }
            }
        },
        EventModel::CommitSubmitted { pool_id, participant, entry_fee, timestamp } => {
            let key = (pool_id, participant);
            let c = CommitRecord { entry_fee: entry_fee as i64, timestamp_ms: timestamp as i64 };
            assert(after.commits == l.commits.insert(key, c));
            assert forall|p: Seq<char>| #[trigger] after.pools.contains_key(p) implies after.pools[p].participant_count
                == entrants(after.commits, p).len() && after.pools[p].prize_pool == fees(
                after.commits,
                entrants(after.commits, p),
            ) by {
                if p != pool_id {
                    lemma_other_pool(l.commits, key, c, p);
                    assert(l.pools.contains_key(p));
                }
            }
        },
        _ => {},
    }
}

/// A commit of someone new adds one participant and one entry fee to its pool.
pub proof fn law_commit_counts_once(
    l: Ledger,
    d: Defaults,
    pool_id: Seq<char>,
    participant: Seq<char>,
    entry_fee: u64,
    timestamp: u64,
)
    requires
        balanced(l),
        l.pools.contains_key(pool_id),
        !l.commits.contains_key((pool_id, participant)),
    ensures
        ({
            let e = EventModel::CommitSubmitted { pool_id, participant, entry_fee, timestamp };
            let before = l.pools[pool_id];
            let after = after_event(l, d, e).pools[pool_id];
            &&& after.participant_count == before.participant_count + 1
            &&& after.prize_pool == before.prize_pool + entry_fee as i64
        }),
{
    let e = EventModel::CommitSubmitted { pool_id, participant, entry_fee, timestamp };
    lemma_event(l, d, e);
    let key = (pool_id, participant);
    let c = CommitRecord { entry_fee: entry_fee as i64, timestamp_ms: timestamp as i64 };
    let commits = l.commits.insert(key, c);
    let old_set = entrants(l.commits, pool_id);
    let new_set = entrants(commits, pool_id);
    assert(new_set =~= old_set.insert(key));
    assert(new_set.remove(key) =~= old_set);
    lemma_fees_split(commits, new_set, key);
    lemma_fees_agree(commits, l.commits, old_set);
}

// ---------------------------------------------------------------------------
// What an event leaves
// ---------------------------------------------------------------------------

/// A pool has what its creation says, whatever it had before, and nothing else changes.
pub proof fn law_created_pool_is_recorded(
    l: Ledger,
    d: Defaults,
    pool_id: Seq<char>,
    leg_count: u64,
    commit_deadline: u64,
    reveal_deadline: u64,
    entry_fee_amount: u64,
)
    requires
        leg_count <= i64::MAX,
        commit_deadline <= i64::MAX,
        reveal_deadline <= i64::MAX,
        entry_fee_amount <= i64::MAX,
    ensures
        ({
            let e = EventModel::PoolCreated {
                pool_id,
                leg_count,
                commit_deadline,
                reveal_deadline,
                entry_fee_amount,
            };
            let after = after_event(l, d, e);
            let p = after.pools[pool_id];
            &&& after.pools.contains_key(pool_id)
            &&& p.leg_count == leg_count
            &&& p.commit_deadline_ms == commit_deadline
            &&& p.reveal_deadline_ms == reveal_deadline
            &&& p.entry_fee_amount == entry_fee_amount
            &&& l.pools.contains_key(pool_id) ==> p.state == l.pools[pool_id].state
            &&& !l.pools.contains_key(pool_id) ==> p.state == d.pool.state
            &&& after.pools.remove(pool_id) == l.pools.remove(pool_id)
            &&& after == Ledger { pools: after.pools, ..l }
        }),
{
    let e = EventModel::PoolCreated {
        pool_id,
        leg_count,
        commit_deadline,
        reveal_deadline,
        entry_fee_amount,
    };
    lemma_event(l, d, e);
    assert(after_event(l, d, e).pools.remove(pool_id) =~= l.pools.remove(pool_id));
}

/// A commit is recorded for its participant in its pool, with its fee and its time, and
/// changes no other participant.
pub proof fn law_commit_is_recorded(
    l: Ledger,
    d: Defaults,
    pool_id: Seq<char>,
    participant: Seq<char>,
    entry_fee: u64,
    timestamp: u64,
)
    requires
        entry_fee <= i64::MAX,
        timestamp <= i64::MAX,
    ensures
        ({
            let e = EventModel::CommitSubmitted { pool_id, participant, entry_fee, timestamp };
            let after = after_event(l, d, e);
            let key = (pool_id, participant);
            &&& after.commits.contains_key(key)
            &&& after.commits[key].entry_fee == entry_fee
            &&& after.commits[key].timestamp_ms == timestamp
            &&& after.commits.remove(key) == l.commits.remove(key)
            &&& after == Ledger { pools: after.pools, commits: after.commits, ..l }
        }),
{
    let e = EventModel::CommitSubmitted { pool_id, participant, entry_fee, timestamp };
    lemma_event(l, d, e);
    let key = (pool_id, participant);
    assert(after_event(l, d, e).commits.remove(key) =~= l.commits.remove(key));
}

/// A reveal is recorded for a participant that has committed, with the estimate, and for
/// no one else.
pub proof fn law_reveal_is_recorded(
    l: Ledger,
    d: Defaults,
    pool_id: Seq<char>,
    participant: Seq<char>,
    crowd_median_estimate: u64,
)
    requires
        crowd_median_estimate <= i64::MAX,
    ensures
        ({
            let e = EventModel::RevealSubmitted { pool_id, participant, crowd_median_estimate };
            let after = after_event(l, d, e);
            let key = (pool_id, participant);
            &&& l.commits.contains_key(key) ==> after.reveals.contains_key(key)
                && after.reveals[key] == crowd_median_estimate
            &&& !l.commits.contains_key(key) ==> after.reveals == l.reveals
            &&& after.reveals.remove(key) == l.reveals.remove(key)
            &&& after == Ledger { pools: after.pools, reveals: after.reveals, ..l }
        }),
{
    let e = EventModel::RevealSubmitted { pool_id, participant, crowd_median_estimate };
    lemma_event(l, d, e);
    let key = (pool_id, participant);
    assert(after_event(l, d, e).reveals.remove(key) =~= l.reveals.remove(key));
}

/// A first reveal adds one to the reveals of its pool.
pub proof fn law_reveal_counts_once(
    l: Ledger,
    d: Defaults,
    pool_id: Seq<char>,
    participant: Seq<char>,
    crowd_median_estimate: u64,
)
    requires
        housed(l),
        l.commits.contains_key((pool_id, participant)),
        !l.reveals.contains_key((pool_id, participant)),
    ensures
        ({
            let e = EventModel::RevealSubmitted { pool_id, participant, crowd_median_estimate };
            after_event(l, d, e).pools[pool_id].reveal_count == seen(l, pool_id) + 1
        }),
{
    let e = EventModel::RevealSubmitted { pool_id, participant, crowd_median_estimate };
    lemma_event(l, d, e);
    let key = (pool_id, participant);
    assert(l.pools.contains_key(key.0));
    let half = effect(l, d, event_writes(e)[0]);
    let all = entrants(l.commits, pool_id);
    let before = all.filter(|e: Entry| l.reveals.contains_key(e));
    let after = all.filter(|e: Entry| half.reveals.contains_key(e));
    assert(after =~= before.insert(key));
}

/// A lock, a score and a payout move a pool that is not past them to their own state and
/// leave their own numbers in it; they change no other pool and no other table.
pub proof fn law_pool_moves_on(
    l: Ledger,
    d: Defaults,
    pool_id: Seq<char>,
    reveal_count: u64,
    forfeited_count: u64,
    total_weight: Seq<char>,
    total_prize: u64,
)
    requires
        l.pools.contains_key(pool_id),
        reveal_count <= i64::MAX,
        forfeited_count <= i64::MAX,
        total_prize <= i64::MAX,
    ensures
        ({
            let before = l.pools[pool_id];
            let locked = after_event(
                l,
                d,
                EventModel::PoolLocked { pool_id, reveal_count, forfeited_count },
            );
            let scored = after_event(l, d, EventModel::PoolResolved { pool_id, total_weight });
            let done = after_event(l, d, EventModel::PrizeDistributed { pool_id, total_prize });
            &&& before.state != "Scored"@ && before.state != "Distributed"@
                ==> locked.pools[pool_id].state == "Locked"@ && locked.pools[pool_id].reveal_count
                == reveal_count && locked.pools[pool_id].forfeited_count == forfeited_count
            &&& before.state == "Scored"@ || before.state == "Distributed"@ ==> locked == l
            &&& before.state != "Distributed"@ ==> scored.pools[pool_id].state == "Scored"@
                && scored.pools[pool_id].total_weight == total_weight
            &&& before.state == "Distributed"@ ==> scored == l
            &&& done.pools[pool_id].state == "Distributed"@
            &&& done.pools[pool_id].total_prize matches Some(n) && n == total_prize
            &&& done.pools[pool_id].total_weight == before.total_weight
            &&& locked.pools.remove(pool_id) == l.pools.remove(pool_id)
            &&& scored.pools.remove(pool_id) == l.pools.remove(pool_id)
            &&& done.pools.remove(pool_id) == l.pools.remove(pool_id)
            &&& locked == Ledger { pools: locked.pools, ..l }
            &&& scored == Ledger { pools: scored.pools, ..l }
            &&& done == Ledger { pools: done.pools, ..l }
        }),
{
    let a = EventModel::PoolLocked { pool_id, reveal_count, forfeited_count };
    let b = EventModel::PoolResolved { pool_id, total_weight };
    let c = EventModel::PrizeDistributed { pool_id, total_prize };
    lemma_event(l, d, a);
    lemma_event(l, d, b);
    lemma_event(l, d, c);
    assert(after_event(l, d, a).pools.remove(pool_id) =~= l.pools.remove(pool_id));
    assert(after_event(l, d, b).pools.remove(pool_id) =~= l.pools.remove(pool_id));
    assert(after_event(l, d, c).pools.remove(pool_id) =~= l.pools.remove(pool_id));
}

/// A payment is recorded for a participant that has committed, with payout, hits and
/// weight, and for no one else.
pub proof fn law_payment_is_recorded(
    l: Ledger,
    d: Defaults,
    pool_id: Seq<char>,
    participant: Seq<char>,
    apex_payout: u64,
    leg_hits: u64,
    composite_weight: Seq<char>,
)
    requires
        apex_payout <= i64::MAX,
        leg_hits <= i16::MAX,
    ensures
        ({
            let e = EventModel::ParticipantPaid {
                pool_id,
                participant,
                apex_payout,
                leg_hits,
                composite_weight,
            };
            let after = after_event(l, d, e);
            let key = (pool_id, participant);
            &&& l.commits.contains_key(key) ==> after.payments.contains_key(key)
                && after.payments[key].apex_payout == apex_payout && after.payments[key].leg_hits
                == leg_hits && after.payments[key].composite_weight == composite_weight
            &&& !l.commits.contains_key(key) ==> after.payments == l.payments
            &&& after.payments.remove(key) == l.payments.remove(key)
            &&& after == Ledger { payments: after.payments, ..l }
        }),
{
    let e = EventModel::ParticipantPaid {
        pool_id,
        participant,
        apex_payout,
        leg_hits,
        composite_weight,
    };
    lemma_event(l, d, e);
    let key = (pool_id, participant);
    assert(after_event(l, d, e).payments.remove(key) =~= l.payments.remove(key));
}

/// A profile is created once, for the pool that the event names; a tier changes only the
/// profile of its participant, and only its tier.
pub proof fn law_profile_is_recorded(
    l: Ledger,
    d: Defaults,
    participant: Seq<char>,
    pool_id: Option<Seq<char>>,
    new_tier: u64,
)
    requires
        new_tier <= i16::MAX,
    ensures
        ({
            let created = after_event(l, d, EventModel::FrsCreated { participant, pool_id });
            let raised = after_event(l, d, EventModel::TierUpgraded { participant, new_tier });
            &&& created.profiles.contains_key(participant)
            &&& l.profiles.contains_key(participant) ==> created == l
            &&& !l.profiles.contains_key(participant)
                ==> created.profiles[participant].frs_pool_id == pool_id
            &&& created.profiles.remove(participant) == l.profiles.remove(participant)
            &&& created == Ledger { profiles: created.profiles, ..l }
            &&& !l.profiles.contains_key(participant) ==> raised == l
            &&& l.profiles.contains_key(participant) ==> raised.profiles[participant].tier
                == new_tier && raised.profiles[participant].pool_count
                == l.profiles[participant].pool_count
                && raised.profiles[participant].lifetime_accuracy_bps
                == l.profiles[participant].lifetime_accuracy_bps
            &&& raised.profiles.remove(participant) == l.profiles.remove(participant)
            &&& raised == Ledger { profiles: raised.profiles, ..l }
        }),
{
    let a = EventModel::FrsCreated { participant, pool_id };
    let b = EventModel::TierUpgraded { participant, new_tier };
    lemma_event(l, d, a);
    lemma_event(l, d, b);
    assert(after_event(l, d, a).profiles.remove(participant) =~= l.profiles.remove(participant));
    assert(after_event(l, d, b).profiles.remove(participant) =~= l.profiles.remove(participant));
}

/// A settlement leaves its tier and its accuracy in the profile of its participant, and
/// the larger of the two counts; its first occurrence is recorded for the participant and
/// the pool with all its numbers and its transaction.
pub proof fn law_settlement_is_recorded(
    l: Ledger,
    d: Defaults,
    participant: Seq<char>,
    pool_id: Seq<char>,
    new_tier: u64,
    lifetime_accuracy_bps: u64,
    pool_count: u64,
    tx_digest: Seq<char>,
)
    requires
        new_tier <= i16::MAX,
        lifetime_accuracy_bps <= i64::MAX,
        pool_count <= i64::MAX,
    ensures
        ({
            let e = EventModel::FrsSettled {
                participant,
                pool_id,
                new_tier,
                lifetime_accuracy_bps,
                pool_count,
                tx_digest,
            };
            let after = after_event(l, d, e);
            let profile = after.profiles[participant];
            let key = (participant, pool_id);
            let s = after.settlements[key];
            &&& after.profiles.contains_key(participant)
            &&& profile.tier == new_tier
            &&& profile.lifetime_accuracy_bps == lifetime_accuracy_bps
            &&& profile.pool_count >= pool_count
            &&& profile.pool_count == pool_count || l.profiles.contains_key(participant)
                && profile.pool_count == l.profiles[participant].pool_count
            &&& after.settlements.contains_key(key)
            &&& !l.settlements.contains_key(key) ==> s.tier == new_tier
                && s.lifetime_accuracy_bps == lifetime_accuracy_bps && s.pool_count == pool_count
                && s.tx_digest == tx_digest
            &&& after.profiles.remove(participant) == l.profiles.remove(participant)
            &&& after.settlements.remove(key) == l.settlements.remove(key)
            &&& after == Ledger {
                profiles: after.profiles,
                settlements: after.settlements,
                ..l
            }
        }),
{
    let e = EventModel::FrsSettled {
        participant,
        pool_id,
        new_tier,
        lifetime_accuracy_bps,
        pool_count,
        tx_digest,
    };
    lemma_event(l, d, e);
    let key = (participant, pool_id);
    let after = after_event(l, d, e);
    assert(after.profiles.remove(participant) =~= l.profiles.remove(participant));
    assert(after.settlements.remove(key) =~= l.settlements.remove(key));
}

} // verus!
