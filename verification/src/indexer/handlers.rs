//! The database writes of an event. Every statement is an upsert or an overwrite,
//! so that an event that is processed again changes nothing.

use vstd::prelude::*;

use crate::indexer::events::{ApexEvent, EventModel};
use crate::text::{view_all, view_opt};

verus! {

/// A statement, with its parameters in the types of their columns.
#[allow(inconsistent_fields)]
#[derive(Debug, PartialEq, Eq)]
pub enum Write {
    UpsertPool {
        pool_id: String,
        leg_count: i64,
        commit_deadline_ms: i64,
        reveal_deadline_ms: i64,
        entry_fee_amount: i64,
    },
    UpsertCommit { pool_id: String, participant: String, entry_fee: i64, timestamp_ms: i64 },
    /// The aggregates of a pool are recomputed from its participants, never
    /// incremented.
    RecomputePool { pool_id: String },
    MarkRevealed { pool_id: String, participant: String, crowd_median_estimate: i64 },
    LockPool { pool_id: String, reveal_count: i64, forfeited_count: i64 },
    ScorePool { pool_id: String, total_weight: String },
    PayParticipant {
        pool_id: String,
        participant: String,
        apex_payout: i64,
        leg_hits: i16,
        composite_weight: String,
    },
    DistributePool { pool_id: String, total_prize: i64 },
    CreateProfile { participant: String, pool_id: Option<String> },
    SettleProfile {
        participant: String,
        tier: i16,
        lifetime_accuracy_bps: i64,
        pool_count: i64,
    },
    AddSettlement {
        participant: String,
        pool_id: String,
        tier: i16,
        lifetime_accuracy_bps: i64,
        pool_count: i64,
        tx_digest: String,
    },
    SetTier { participant: String, tier: i16 },
}

/// The model of a statement.
#[allow(inconsistent_fields)]
pub enum WriteModel {
    UpsertPool {
        pool_id: Seq<char>,
        leg_count: i64,
        commit_deadline_ms: i64,
        reveal_deadline_ms: i64,
        entry_fee_amount: i64,
    },
    UpsertCommit {
        pool_id: Seq<char>,
        participant: Seq<char>,
        entry_fee: i64,
        timestamp_ms: i64,
    },
    RecomputePool { pool_id: Seq<char> },
    MarkRevealed {
        pool_id: Seq<char>,
        participant: Seq<char>,
        crowd_median_estimate: i64,
    },
    LockPool { pool_id: Seq<char>, reveal_count: i64, forfeited_count: i64 },
    ScorePool { pool_id: Seq<char>, total_weight: Seq<char> },
    PayParticipant {
        pool_id: Seq<char>,
        participant: Seq<char>,
        apex_payout: i64,
        leg_hits: i16,
        composite_weight: Seq<char>,
    },
    DistributePool { pool_id: Seq<char>, total_prize: i64 },
    CreateProfile { participant: Seq<char>, pool_id: Option<Seq<char>> },
    SettleProfile {
        participant: Seq<char>,
        tier: i16,
        lifetime_accuracy_bps: i64,
        pool_count: i64,
    },
    AddSettlement {
        participant: Seq<char>,
        pool_id: Seq<char>,
        tier: i16,
        lifetime_accuracy_bps: i64,
        pool_count: i64,
        tx_digest: Seq<char>,
    },
    SetTier { participant: Seq<char>, tier: i16 },
}

impl View for Write {
    type V = WriteModel;

    open spec fn view(&self) -> WriteModel {
        match *self {
            Write::UpsertPool {
                pool_id,
                leg_count,
                commit_deadline_ms,
                reveal_deadline_ms,
                entry_fee_amount,
            } => WriteModel::UpsertPool {
                pool_id: pool_id@,
                leg_count,
                commit_deadline_ms,
                reveal_deadline_ms,
                entry_fee_amount,
            },
            Write::UpsertCommit { pool_id, participant, entry_fee, timestamp_ms } =>
                WriteModel::UpsertCommit {
                pool_id: pool_id@,
                participant: participant@,
                entry_fee,
                timestamp_ms,
            },
            Write::RecomputePool { pool_id } => WriteModel::RecomputePool { pool_id: pool_id@ },
            Write::MarkRevealed { pool_id, participant, crowd_median_estimate } =>
                WriteModel::MarkRevealed {
                pool_id: pool_id@,
                participant: participant@,
                crowd_median_estimate,
            },
            Write::LockPool { pool_id, reveal_count, forfeited_count } => WriteModel::LockPool {
                pool_id: pool_id@,
                reveal_count,
                forfeited_count,
            },
            Write::ScorePool { pool_id, total_weight } => WriteModel::ScorePool {
                pool_id: pool_id@,
                total_weight: total_weight@,
            },
            Write::PayParticipant {
                pool_id,
                participant,
                apex_payout,
                leg_hits,
                composite_weight,
            } => WriteModel::PayParticipant {
                pool_id: pool_id@,
                participant: participant@,
                apex_payout,
                leg_hits,
                composite_weight: composite_weight@,
            },
            Write::DistributePool { pool_id, total_prize } => WriteModel::DistributePool {
                pool_id: pool_id@,
                total_prize,
            },
            Write::CreateProfile { participant, pool_id } => WriteModel::CreateProfile {
                participant: participant@,
                pool_id: view_opt(pool_id),
            },
            Write::SettleProfile { participant, tier, lifetime_accuracy_bps, pool_count } =>
                WriteModel::SettleProfile {
                participant: participant@,
                tier,
                lifetime_accuracy_bps,
                pool_count,
            },
            Write::AddSettlement {
                participant,
                pool_id,
                tier,
                lifetime_accuracy_bps,
                pool_count,
                tx_digest,
            } => WriteModel::AddSettlement {
                participant: participant@,
                pool_id: pool_id@,
                tier,
                lifetime_accuracy_bps,
                pool_count,
                tx_digest: tx_digest@,
            },
            Write::SetTier { participant, tier } => WriteModel::SetTier {
                participant: participant@,
                tier,
            },
        }
    }
}

/// The statements of an event, in order. Numbers take the width of their column.
pub open spec fn event_writes(e: EventModel) -> Seq<WriteModel> {
    match e {
        EventModel::PoolCreated {
            pool_id,
            leg_count,
            commit_deadline,
            reveal_deadline,
            entry_fee_amount,
        } => seq![
            WriteModel::UpsertPool {
                pool_id,
                leg_count: leg_count as i64,
                commit_deadline_ms: commit_deadline as i64,
                reveal_deadline_ms: reveal_deadline as i64,
                entry_fee_amount: entry_fee_amount as i64,
            },
        ],
        EventModel::CommitSubmitted { pool_id, participant, entry_fee, timestamp } => seq![
            WriteModel::UpsertCommit {
                pool_id,
                participant,
                entry_fee: entry_fee as i64,
                timestamp_ms: timestamp as i64,
            },
            WriteModel::RecomputePool { pool_id },
        ],
        EventModel::RevealSubmitted { pool_id, participant, crowd_median_estimate } => seq![
            WriteModel::MarkRevealed {
                pool_id,
                participant,
                crowd_median_estimate: crowd_median_estimate as i64,
            },
            WriteModel::RecomputePool { pool_id },
        ],
        EventModel::PoolLocked { pool_id, reveal_count, forfeited_count } => seq![
            WriteModel::LockPool {
                pool_id,
                reveal_count: reveal_count as i64,
                forfeited_count: forfeited_count as i64,
            },
        ],
        EventModel::PoolResolved { pool_id, total_weight } => seq![
            WriteModel::ScorePool { pool_id, total_weight },
        ],
        EventModel::ParticipantPaid {
            pool_id,
            participant,
            apex_payout,
            leg_hits,
            composite_weight,
        } => seq![
            WriteModel::PayParticipant {
                pool_id,
                participant,
                apex_payout: apex_payout as i64,
                leg_hits: leg_hits as i16,
                composite_weight,
            },
        ],
        EventModel::PrizeDistributed { pool_id, total_prize } => seq![
            WriteModel::DistributePool { pool_id, total_prize: total_prize as i64 },
        ],
        EventModel::FrsCreated { participant, pool_id } => seq![
            WriteModel::CreateProfile { participant, pool_id },
        ],
        EventModel::FrsSettled {
            participant,
            pool_id,
            new_tier,
            lifetime_accuracy_bps,
            pool_count,
            tx_digest,
        } => seq![
            WriteModel::SettleProfile {
                participant,
                tier: new_tier as i16,
                lifetime_accuracy_bps: lifetime_accuracy_bps as i64,
                pool_count: pool_count as i64,
            },
            WriteModel::AddSettlement {
                participant,
                pool_id,
                tier: new_tier as i16,
                lifetime_accuracy_bps: lifetime_accuracy_bps as i64,
                pool_count: pool_count as i64,
                tx_digest,
            },
        ],
        EventModel::TierUpgraded { participant, new_tier } => seq![
            WriteModel::SetTier { participant, tier: new_tier as i16 },
        ],
    }
}

fn one(w: Write) -> (r: Vec<Write>)
    ensures
        view_all(r@) == seq![w@],
{
    let mut out: Vec<Write> = Vec::new();
    out.push(w);
    assert(view_all(out@) =~= seq![w@]);
    out
}

fn two(a: Write, b: Write) -> (r: Vec<Write>)
    ensures
        view_all(r@) == seq![a@, b@],
{
    let mut out: Vec<Write> = Vec::new();
    out.push(a);
    out.push(b);
    assert(view_all(out@) =~= seq![a@, b@]);
    out
}

/// The statements that record an event.
pub fn apply(event: ApexEvent) -> (r: Vec<Write>)
    ensures
        view_all(r@) == event_writes(event@),
{
    match event {
        ApexEvent::PoolCreated {
            pool_id,
            leg_count,
            commit_deadline,
            reveal_deadline,
            entry_fee_amount,
        } => one(
            Write::UpsertPool {
                pool_id,
                leg_count: leg_count as i64,
                commit_deadline_ms: commit_deadline as i64,
                reveal_deadline_ms: reveal_deadline as i64,
                entry_fee_amount: entry_fee_amount as i64,
            },
        ),
        ApexEvent::CommitSubmitted { pool_id, participant, entry_fee, timestamp } => {
            let pool = pool_id.clone();
            two(
                Write::UpsertCommit {
                    pool_id,
                    participant,
                    entry_fee: entry_fee as i64,
                    timestamp_ms: timestamp as i64,
                },
                Write::RecomputePool { pool_id: pool },
            )
        },
        ApexEvent::RevealSubmitted { pool_id, participant, crowd_median_estimate } => {
            let pool = pool_id.clone();
            two(
                Write::MarkRevealed {
                    pool_id,
                    participant,
                    crowd_median_estimate: crowd_median_estimate as i64,
                },
                Write::RecomputePool { pool_id: pool },
            )
        },
        ApexEvent::PoolLocked { pool_id, reveal_count, forfeited_count } => one(
            Write::LockPool {
                pool_id,
                reveal_count: reveal_count as i64,
                forfeited_count: forfeited_count as i64,
            },
        ),
        ApexEvent::PoolResolved { pool_id, total_weight } => one(
            Write::ScorePool { pool_id, total_weight },
        ),
        ApexEvent::ParticipantPaid {
            pool_id,
            participant,
            apex_payout,
            leg_hits,
            composite_weight,
        } => one(
            Write::PayParticipant {
                pool_id,
                participant,
                apex_payout: apex_payout as i64,
                leg_hits: leg_hits as i16,
                composite_weight,
            },
        ),
        ApexEvent::PrizeDistributed { pool_id, total_prize } => one(
            Write::DistributePool { pool_id, total_prize: total_prize as i64 },
        ),
        ApexEvent::FrsCreated { participant, pool_id } => one(
            Write::CreateProfile { participant, pool_id },
        ),
        ApexEvent::FrsSettled {
            participant,
            pool_id,
            new_tier,
            lifetime_accuracy_bps,
            pool_count,
            tx_digest,
        } => {
            let who = participant.clone();
            two(
                Write::SettleProfile {
                    participant,
                    tier: new_tier as i16,
                    lifetime_accuracy_bps: lifetime_accuracy_bps as i64,
                    pool_count: pool_count as i64,
                },
                Write::AddSettlement {
                    participant: who,
                    pool_id,
                    tier: new_tier as i16,
                    lifetime_accuracy_bps: lifetime_accuracy_bps as i64,
                    pool_count: pool_count as i64,
                    tx_digest,
                },
            )
        },
        ApexEvent::TierUpgraded { participant, new_tier } => one(
            Write::SetTier { participant, tier: new_tier as i16 },
        ),
    }
}

// ---------------------------------------------------------------------------
// SQL
// ---------------------------------------------------------------------------

pub const UPSERT_POOL: &'static str = "
    INSERT INTO pools (pool_id, leg_count, commit_deadline_ms, reveal_deadline_ms, entry_fee_amount)
    VALUES ($1, $2, $3, $4, $5)
    ON CONFLICT (pool_id) DO UPDATE SET
        leg_count = EXCLUDED.leg_count,
        commit_deadline_ms = EXCLUDED.commit_deadline_ms,
        reveal_deadline_ms = EXCLUDED.reveal_deadline_ms,
        entry_fee_amount = EXCLUDED.entry_fee_amount,
        updated_at = now()";

pub const UPSERT_COMMIT: &'static str = "
    INSERT INTO participants (pool_id, participant, entry_fee, commit_timestamp_ms)
    VALUES ($1, $2, $3, $4)
    ON CONFLICT (pool_id, participant) DO UPDATE SET
        entry_fee = EXCLUDED.entry_fee,
        commit_timestamp_ms = EXCLUDED.commit_timestamp_ms";

pub const RECOMPUTE_POOL: &'static str = "
    UPDATE pools SET
        participant_count = (SELECT count(*) FROM participants WHERE pool_id = $1),
        prize_pool        = COALESCE((SELECT sum(entry_fee) FROM participants WHERE pool_id = $1), 0),
        reveal_count      = (SELECT count(*) FROM participants WHERE pool_id = $1 AND revealed),
        updated_at        = now()
    WHERE pool_id = $1";

pub const MARK_REVEALED: &'static str = "
    UPDATE participants
    SET revealed = TRUE, crowd_median_estimate = $3
    WHERE pool_id = $1 AND participant = $2";

pub const LOCK_POOL: &'static str = "
    UPDATE pools
    SET state = 'Locked', reveal_count = $2, forfeited_count = $3, updated_at = now()
    WHERE pool_id = $1 AND state NOT IN ('Scored', 'Distributed')";

pub const SCORE_POOL: &'static str = "
    UPDATE pools
    SET state = 'Scored', total_weight = $2, updated_at = now()
    WHERE pool_id = $1 AND state <> 'Distributed'";

pub const PAY_PARTICIPANT: &'static str = "
    UPDATE participants
    SET apex_payout = $3, leg_hits = $4, composite_weight = $5, paid = TRUE
    WHERE pool_id = $1 AND participant = $2";

pub const DISTRIBUTE_POOL: &'static str = "
    UPDATE pools
    SET state = 'Distributed', total_prize = $2, updated_at = now()
    WHERE pool_id = $1";

pub const CREATE_PROFILE: &'static str = "
    INSERT INTO frs_profiles (participant, frs_pool_id)
    VALUES ($1, $2)
    ON CONFLICT (participant) DO NOTHING";

pub const SETTLE_PROFILE: &'static str = "
    INSERT INTO frs_profiles (participant, tier, lifetime_accuracy_bps, pool_count, updated_at)
    VALUES ($1, $2, $3, $4, now())
    ON CONFLICT (participant) DO UPDATE SET
        tier = EXCLUDED.tier,
        lifetime_accuracy_bps = EXCLUDED.lifetime_accuracy_bps,
        pool_count = GREATEST(frs_profiles.pool_count, EXCLUDED.pool_count),
        updated_at = now()";

pub const ADD_SETTLEMENT: &'static str = "
    INSERT INTO frs_settlements
        (participant, pool_id, new_tier, lifetime_accuracy_bps, pool_count, tx_digest)
    VALUES ($1, $2, $3, $4, $5, $6)
    ON CONFLICT (participant, pool_id) DO NOTHING";

pub const SET_TIER: &'static str = "
    UPDATE frs_profiles SET tier = $2, updated_at = now() WHERE participant = $1";

/// The statement in SQL. Its parameters are numbered in the order of the fields.
pub open spec fn sql_text(w: WriteModel) -> Seq<char> {
    match w {
        WriteModel::UpsertPool { .. } => UPSERT_POOL@,
        WriteModel::UpsertCommit { .. } => UPSERT_COMMIT@,
        WriteModel::RecomputePool { .. } => RECOMPUTE_POOL@,
        WriteModel::MarkRevealed { .. } => MARK_REVEALED@,
        WriteModel::LockPool { .. } => LOCK_POOL@,
        WriteModel::ScorePool { .. } => SCORE_POOL@,
        WriteModel::PayParticipant { .. } => PAY_PARTICIPANT@,
        WriteModel::DistributePool { .. } => DISTRIBUTE_POOL@,
        WriteModel::CreateProfile { .. } => CREATE_PROFILE@,
        WriteModel::SettleProfile { .. } => SETTLE_PROFILE@,
        WriteModel::AddSettlement { .. } => ADD_SETTLEMENT@,
        WriteModel::SetTier { .. } => SET_TIER@,
    }
}

impl Write {
    /// The statement in SQL.
    pub fn sql(&self) -> (r: &'static str)
        ensures
            r@ == sql_text(self@),
    {
        match self {
            Write::UpsertPool { .. } => UPSERT_POOL,
            Write::UpsertCommit { .. } => UPSERT_COMMIT,
            Write::RecomputePool { .. } => RECOMPUTE_POOL,
            Write::MarkRevealed { .. } => MARK_REVEALED,
            Write::LockPool { .. } => LOCK_POOL,
            Write::ScorePool { .. } => SCORE_POOL,
            Write::PayParticipant { .. } => PAY_PARTICIPANT,
            Write::DistributePool { .. } => DISTRIBUTE_POOL,
            Write::CreateProfile { .. } => CREATE_PROFILE,
            Write::SettleProfile { .. } => SETTLE_PROFILE,
            Write::AddSettlement { .. } => ADD_SETTLEMENT,
            Write::SetTier { .. } => SET_TIER,
        }
    }
}

/// The model of a statement has the statement's values, each under its own name, and the
/// SQL of its kind.
pub proof fn law_statements_keep_their_values(w: Write)
    ensures
        w matches Write::UpsertPool { pool_id, leg_count, commit_deadline_ms, reveal_deadline_ms, entry_fee_amount } ==> (w@ matches WriteModel::UpsertPool { pool_id: pool_id_, leg_count: leg_count_, commit_deadline_ms: commit_deadline_ms_, reveal_deadline_ms: reveal_deadline_ms_, entry_fee_amount: entry_fee_amount_ } && pool_id_ == pool_id@ && leg_count_ == leg_count && commit_deadline_ms_ == commit_deadline_ms && reveal_deadline_ms_ == reveal_deadline_ms && entry_fee_amount_ == entry_fee_amount) && sql_text(w@) == UPSERT_POOL@,
        w matches Write::UpsertCommit { pool_id, participant, entry_fee, timestamp_ms } ==> (w@ matches WriteModel::UpsertCommit { pool_id: pool_id_, participant: participant_, entry_fee: entry_fee_, timestamp_ms: timestamp_ms_ } && pool_id_ == pool_id@ && participant_ == participant@ && entry_fee_ == entry_fee && timestamp_ms_ == timestamp_ms) && sql_text(w@) == UPSERT_COMMIT@,
        w matches Write::RecomputePool { pool_id } ==> (w@ matches WriteModel::RecomputePool { pool_id: pool_id_ } && pool_id_ == pool_id@) && sql_text(w@) == RECOMPUTE_POOL@,
        w matches Write::MarkRevealed { pool_id, participant, crowd_median_estimate } ==> (w@ matches WriteModel::MarkRevealed { pool_id: pool_id_, participant: participant_, crowd_median_estimate: crowd_median_estimate_ } && pool_id_ == pool_id@ && participant_ == participant@ && crowd_median_estimate_ == crowd_median_estimate) && sql_text(w@) == MARK_REVEALED@,
        w matches Write::LockPool { pool_id, reveal_count, forfeited_count } ==> (w@ matches WriteModel::LockPool { pool_id: pool_id_, reveal_count: reveal_count_, forfeited_count: forfeited_count_ } && pool_id_ == pool_id@ && reveal_count_ == reveal_count && forfeited_count_ == forfeited_count) && sql_text(w@) == LOCK_POOL@,
        w matches Write::ScorePool { pool_id, total_weight } ==> (w@ matches WriteModel::ScorePool { pool_id: pool_id_, total_weight: total_weight_ } && pool_id_ == pool_id@ && total_weight_ == total_weight@) && sql_text(w@) == SCORE_POOL@,
        w matches Write::PayParticipant { pool_id, participant, apex_payout, leg_hits, composite_weight } ==> (w@ matches WriteModel::PayParticipant { pool_id: pool_id_, participant: participant_, apex_payout: apex_payout_, leg_hits: leg_hits_, composite_weight: composite_weight_ } && pool_id_ == pool_id@ && participant_ == participant@ && apex_payout_ == apex_payout && leg_hits_ == leg_hits && composite_weight_ == composite_weight@) && sql_text(w@) == PAY_PARTICIPANT@,
        w matches Write::DistributePool { pool_id, total_prize } ==> (w@ matches WriteModel::DistributePool { pool_id: pool_id_, total_prize: total_prize_ } && pool_id_ == pool_id@ && total_prize_ == total_prize) && sql_text(w@) == DISTRIBUTE_POOL@,
        w matches Write::CreateProfile { participant, pool_id } ==> (w@ matches WriteModel::CreateProfile { participant: participant_, pool_id: pool_id_ } && participant_ == participant@ && pool_id_ == view_opt(pool_id)) && sql_text(w@) == CREATE_PROFILE@,
        w matches Write::SettleProfile { participant, tier, lifetime_accuracy_bps, pool_count } ==> (w@ matches WriteModel::SettleProfile { participant: participant_, tier: tier_, lifetime_accuracy_bps: lifetime_accuracy_bps_, pool_count: pool_count_ } && participant_ == participant@ && tier_ == tier && lifetime_accuracy_bps_ == lifetime_accuracy_bps && pool_count_ == pool_count) && sql_text(w@) == SETTLE_PROFILE@,
        w matches Write::AddSettlement { participant, pool_id, tier, lifetime_accuracy_bps, pool_count, tx_digest } ==> (w@ matches WriteModel::AddSettlement { participant: participant_, pool_id: pool_id_, tier: tier_, lifetime_accuracy_bps: lifetime_accuracy_bps_, pool_count: pool_count_, tx_digest: tx_digest_ } && participant_ == participant@ && pool_id_ == pool_id@ && tier_ == tier && lifetime_accuracy_bps_ == lifetime_accuracy_bps && pool_count_ == pool_count && tx_digest_ == tx_digest@) && sql_text(w@) == ADD_SETTLEMENT@,
        w matches Write::SetTier { participant, tier } ==> (w@ matches WriteModel::SetTier { participant: participant_, tier: tier_ } && participant_ == participant@ && tier_ == tier) && sql_text(w@) == SET_TIER@,
{
}

} // verus!
