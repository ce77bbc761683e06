//! Decoding of the events of the pool module and the reputation module from
//! their JSON payload.

use vstd::prelude::*;

use crate::json::{
    first_entry, json_decimal, json_int, json_opt_text, json_text, member, number_text, owned, text,
    text_of, Json, Value,
};
use crate::sui::types::{
    field_u64, law_number_reads_back, number_of, SuiEvent, SuiEventView,
};
use crate::text::{
    decimal, last_segment, law_last_segment_follows_the_colons, same, segment, view_opt,
};

verus! {

/// A decoded event. Weights are 128-bit numbers and stay decimal text throughout.
#[allow(inconsistent_fields)]
#[derive(Debug, Clone, PartialEq, Eq)]
pub enum ApexEvent {
    PoolCreated {
        pool_id: String,
        leg_count: u64,
        commit_deadline: u64,
        reveal_deadline: u64,
        entry_fee_amount: u64,
    },
    CommitSubmitted { pool_id: String, participant: String, entry_fee: u64, timestamp: u64 },
    RevealSubmitted { pool_id: String, participant: String, crowd_median_estimate: u64 },
    PoolLocked { pool_id: String, reveal_count: u64, forfeited_count: u64 },
    PoolResolved { pool_id: String, total_weight: String },
    ParticipantPaid {
        pool_id: String,
        participant: String,
        apex_payout: u64,
        leg_hits: u64,
        composite_weight: String,
    },
    PrizeDistributed { pool_id: String, total_prize: u64 },
    FrsCreated { participant: String, pool_id: Option<String> },
    FrsSettled {
        participant: String,
        pool_id: String,
        new_tier: u64,
        lifetime_accuracy_bps: u64,
        pool_count: u64,
        tx_digest: String,
    },
    TierUpgraded { participant: String, new_tier: u64 },
}

/// The model of a decoded event.
#[allow(inconsistent_fields)]
pub enum EventModel {
    PoolCreated {
        pool_id: Seq<char>,
        leg_count: u64,
        commit_deadline: u64,
        reveal_deadline: u64,
        entry_fee_amount: u64,
    },
    CommitSubmitted {
        pool_id: Seq<char>,
        participant: Seq<char>,
        entry_fee: u64,
        timestamp: u64,
    },
    RevealSubmitted {
        pool_id: Seq<char>,
        participant: Seq<char>,
        crowd_median_estimate: u64,
    },
    PoolLocked { pool_id: Seq<char>, reveal_count: u64, forfeited_count: u64 },
    PoolResolved { pool_id: Seq<char>, total_weight: Seq<char> },
    ParticipantPaid {
        pool_id: Seq<char>,
        participant: Seq<char>,
        apex_payout: u64,
        leg_hits: u64,
        composite_weight: Seq<char>,
    },
    PrizeDistributed { pool_id: Seq<char>, total_prize: u64 },
    FrsCreated { participant: Seq<char>, pool_id: Option<Seq<char>> },
    FrsSettled {
        participant: Seq<char>,
        pool_id: Seq<char>,
        new_tier: u64,
        lifetime_accuracy_bps: u64,
        pool_count: u64,
        tx_digest: Seq<char>,
    },
    TierUpgraded { participant: Seq<char>, new_tier: u64 },
}

impl View for ApexEvent {
    type V = EventModel;

    open spec fn view(&self) -> EventModel {
        match *self {
            ApexEvent::PoolCreated {
                pool_id,
                leg_count,
                commit_deadline,
                reveal_deadline,
                entry_fee_amount,
            } => EventModel::PoolCreated {
                pool_id: pool_id@,
                leg_count,
                commit_deadline,
                reveal_deadline,
                entry_fee_amount,
            },
            ApexEvent::CommitSubmitted { pool_id, participant, entry_fee, timestamp } =>
                EventModel::CommitSubmitted {
                pool_id: pool_id@,
                participant: participant@,
                entry_fee,
                timestamp,
            },
            ApexEvent::RevealSubmitted { pool_id, participant, crowd_median_estimate } =>
                EventModel::RevealSubmitted {
                pool_id: pool_id@,
                participant: participant@,
                crowd_median_estimate,
            },
            ApexEvent::PoolLocked { pool_id, reveal_count, forfeited_count } =>
                EventModel::PoolLocked { pool_id: pool_id@, reveal_count, forfeited_count },
            ApexEvent::PoolResolved { pool_id, total_weight } => EventModel::PoolResolved {
                pool_id: pool_id@,
                total_weight: total_weight@,
            },
            ApexEvent::ParticipantPaid {
                pool_id,
                participant,
                apex_payout,
                leg_hits,
                composite_weight,
            } => EventModel::ParticipantPaid {
                pool_id: pool_id@,
                participant: participant@,
                apex_payout,
                leg_hits,
                composite_weight: composite_weight@,
            },
            ApexEvent::PrizeDistributed { pool_id, total_prize } =>
                EventModel::PrizeDistributed { pool_id: pool_id@, total_prize },
            ApexEvent::FrsCreated { participant, pool_id } => EventModel::FrsCreated {
                participant: participant@,
                pool_id: view_opt(pool_id),
            },
            ApexEvent::FrsSettled {
                participant,
                pool_id,
                new_tier,
                lifetime_accuracy_bps,
                pool_count,
                tx_digest,
            } => EventModel::FrsSettled {
                participant: participant@,
                pool_id: pool_id@,
                new_tier,
                lifetime_accuracy_bps,
                pool_count,
                tx_digest: tx_digest@,
            },
            ApexEvent::TierUpgraded { participant, new_tier } => EventModel::TierUpgraded {
                participant: participant@,
                new_tier,
            },
        }
    }
}

/// The text of a wide number: a string as it stands, or a number in decimal.
pub open spec fn wide_number(j: Option<Json>) -> Option<Seq<char>> {
    match j {
        Some(j) => match text(j) {
            Some(s) => Some(s),
            None => number_text(j),
        },
        None => None,
    }
}

fn pj_str(v: &Value, name: &str) -> (r: Option<String>)
    ensures
        view_opt(r) == text_of(member(v@, name@)),
{
    owned(v.get_str(name))
}

fn pj_u64(v: &Value, name: &str) -> (r: Option<u64>)
    ensures
        r == number_of(member(v@, name@)),
{
    field_u64(v, name)
}

/// 128-bit fields arrive as decimal strings and are kept as strings.
fn pj_u128_string(v: &Value, name: &str) -> (r: Option<String>)
    ensures
        view_opt(r) == wide_number(member(v@, name@)),
{
    match v.get(name) {
        None => None,
        Some(value) => match value {
            Value::String(s) => Some(s.clone()),
            Value::Number(n) => Some(n.to_text()),
            _ => None,
        },
    }
}

/// The event that a raw event denotes: the last segment of its type names it,
/// and every field of that kind of event must be readable. Only the pool of a
/// newly created reputation profile may be missing.
pub open spec fn decoded(e: SuiEventView) -> Option<EventModel> {
    let name = last_segment(e.event_type);
    let p = e.parsed_json;
    let pool = text_of(member(p, "pool_id"@));
    let who = text_of(member(p, "participant"@));
    if name == "PoolCreated"@ {
        match (
            pool,
            number_of(member(p, "leg_count"@)),
            number_of(member(p, "commit_deadline"@)),
            number_of(member(p, "reveal_deadline"@)),
            number_of(member(p, "entry_fee_amount"@)),
        ) {
            (
                Some(pool_id),
                Some(leg_count),
                Some(commit_deadline),
                Some(reveal_deadline),
                Some(entry_fee_amount),
            ) => Some(
                EventModel::PoolCreated {
                    pool_id,
                    leg_count,
                    commit_deadline,
                    reveal_deadline,
                    entry_fee_amount,
                },
            ),
            _ => None,
        }
    } else if name == "CommitSubmitted"@ {
        match (
            pool,
            who,
            number_of(member(p, "entry_fee"@)),
            number_of(member(p, "timestamp"@)),
        ) {
            (Some(pool_id), Some(participant), Some(entry_fee), Some(timestamp)) => Some(
                EventModel::CommitSubmitted { pool_id, participant, entry_fee, timestamp },
            ),
            _ => None,
        }
    } else if name == "RevealSubmitted"@ {
        match (pool, who, number_of(member(p, "crowd_median_estimate"@))) {
            (Some(pool_id), Some(participant), Some(crowd_median_estimate)) => Some(
                EventModel::RevealSubmitted { pool_id, participant, crowd_median_estimate },
            ),
            _ => None,
        }
    } else if name == "PoolLocked"@ {
        match (
            pool,
            number_of(member(p, "reveal_count"@)),
            number_of(member(p, "forfeited_count"@)),
        ) {
            (Some(pool_id), Some(reveal_count), Some(forfeited_count)) => Some(
                EventModel::PoolLocked { pool_id, reveal_count, forfeited_count },
            ),
            _ => None,
        }
    } else if name == "PoolResolved"@ {
        match (pool, wide_number(member(p, "total_weight"@))) {
            (Some(pool_id), Some(total_weight)) => Some(
                EventModel::PoolResolved { pool_id, total_weight },
            ),
            _ => None,
        }
    } else if name == "ParticipantPaid"@ {
        match (
            pool,
            who,
            number_of(member(p, "apex_payout"@)),
            number_of(member(p, "leg_hits"@)),
            wide_number(member(p, "composite_weight"@)),
        ) {
            (
                Some(pool_id),
                Some(participant),
                Some(apex_payout),
                Some(leg_hits),
                Some(composite_weight),
            ) => Some(
                EventModel::ParticipantPaid {
                    pool_id,
                    participant,
                    apex_payout,
                    leg_hits,
                    composite_weight,
                },
            ),
            _ => None,
        }
    } else if name == "PrizeDistributed"@ {
        match (pool, number_of(member(p, "total_prize"@))) {
            (Some(pool_id), Some(total_prize)) => Some(
                EventModel::PrizeDistributed { pool_id, total_prize },
            ),
            _ => None,
        }
    } else if name == "FRSCreated"@ {
        match who {
            Some(participant) => Some(EventModel::FrsCreated { participant, pool_id: pool }),
            None => None,
        }
    } else if name == "FRSSettled"@ {
        match (
            who,
            pool,
            number_of(member(p, "new_tier"@)),
            number_of(member(p, "lifetime_accuracy_bps"@)),
            number_of(member(p, "pool_count"@)),
        ) {
            (
                Some(participant),
                Some(pool_id),
                Some(new_tier),
                Some(lifetime_accuracy_bps),
                Some(pool_count),
            ) => Some(
                EventModel::FrsSettled {
                    participant,
                    pool_id,
                    new_tier,
                    lifetime_accuracy_bps,
                    pool_count,
                    tx_digest: e.id.tx_digest,
                },
            ),
            _ => None,
        }
    } else if name == "TierUpgraded"@ {
        match (who, number_of(member(p, "new_tier"@))) {
            (Some(participant), Some(new_tier)) => Some(
                EventModel::TierUpgraded { participant, new_tier },
            ),
            _ => None,
        }
    } else {
        None
    }
}

/// Decodes a raw event; `None` for one that is not known or malformed.
pub fn decode(event: &SuiEvent) -> (r: Option<ApexEvent>)
    ensures
        view_opt(r) == decoded(event@),
{
    let name = segment(event.event_type.as_str());
    let p = &event.parsed_json;
    if same(name, "PoolCreated") {
        match (
            pj_str(p, "pool_id"),
            pj_u64(p, "leg_count"),
            pj_u64(p, "commit_deadline"),
            pj_u64(p, "reveal_deadline"),
            pj_u64(p, "entry_fee_amount"),
        ) {
            (
                Some(pool_id),
                Some(leg_count),
                Some(commit_deadline),
                Some(reveal_deadline),
                Some(entry_fee_amount),
            ) => Some(
                ApexEvent::PoolCreated {
                    pool_id,
                    leg_count,
                    commit_deadline,
                    reveal_deadline,
                    entry_fee_amount,
                },
            ),
            _ => None,
        }
    } else if same(name, "CommitSubmitted") {
        match (
            pj_str(p, "pool_id"),
            pj_str(p, "participant"),
            pj_u64(p, "entry_fee"),
            pj_u64(p, "timestamp"),
        ) {
            (Some(pool_id), Some(participant), Some(entry_fee), Some(timestamp)) => Some(
                ApexEvent::CommitSubmitted { pool_id, participant, entry_fee, timestamp },
            ),
            _ => None,
        }
    } else if same(name, "RevealSubmitted") {
        match (
            pj_str(p, "pool_id"),
            pj_str(p, "participant"),
            pj_u64(p, "crowd_median_estimate"),
        ) {
            (Some(pool_id), Some(participant), Some(crowd_median_estimate)) => Some(
                ApexEvent::RevealSubmitted { pool_id, participant, crowd_median_estimate },
            ),
            _ => None,
        }
    } else if same(name, "PoolLocked") {
        match (pj_str(p, "pool_id"), pj_u64(p, "reveal_count"), pj_u64(p, "forfeited_count")) {
            (Some(pool_id), Some(reveal_count), Some(forfeited_count)) => Some(
                ApexEvent::PoolLocked { pool_id, reveal_count, forfeited_count },
            ),
            _ => None,
        }
    } else if same(name, "PoolResolved") {
        match (pj_str(p, "pool_id"), pj_u128_string(p, "total_weight")) {
            (Some(pool_id), Some(total_weight)) => Some(
                ApexEvent::PoolResolved { pool_id, total_weight },
            ),
            _ => None,
        }
    } else if same(name, "ParticipantPaid") {
        match (
            pj_str(p, "pool_id"),
            pj_str(p, "participant"),
            pj_u64(p, "apex_payout"),
            pj_u64(p, "leg_hits"),
            pj_u128_string(p, "composite_weight"),
        ) {
            (
                Some(pool_id),
                Some(participant),
                Some(apex_payout),
                Some(leg_hits),
                Some(composite_weight),
            ) => Some(
                ApexEvent::ParticipantPaid {
                    pool_id,
                    participant,
                    apex_payout,
                    leg_hits,
                    composite_weight,
                },
            ),
            _ => None,
        }
    } else if same(name, "PrizeDistributed") {
        match (pj_str(p, "pool_id"), pj_u64(p, "total_prize")) {
            (Some(pool_id), Some(total_prize)) => Some(
                ApexEvent::PrizeDistributed { pool_id, total_prize },
            ),
            _ => None,
        }
    } else if same(name, "FRSCreated") {
        match pj_str(p, "participant") {
            Some(participant) => Some(
                ApexEvent::FrsCreated { participant, pool_id: pj_str(p, "pool_id") },
            ),
            None => None,
        }
    } else if same(name, "FRSSettled") {
        match (
            pj_str(p, "participant"),
            pj_str(p, "pool_id"),
            pj_u64(p, "new_tier"),
            pj_u64(p, "lifetime_accuracy_bps"),
            pj_u64(p, "pool_count"),
        ) {
            (
                Some(participant),
                Some(pool_id),
                Some(new_tier),
                Some(lifetime_accuracy_bps),
                Some(pool_count),
            ) => Some(
                ApexEvent::FrsSettled {
                    participant,
                    pool_id,
                    new_tier,
                    lifetime_accuracy_bps,
                    pool_count,
                    tx_digest: event.id.tx_digest.clone(),
                },
            ),
            _ => None,
        }
    } else if same(name, "TierUpgraded") {
        match (pj_str(p, "participant"), pj_u64(p, "new_tier")) {
            (Some(participant), Some(new_tier)) => Some(
                ApexEvent::TierUpgraded { participant, new_tier },
            ),
            _ => None,
        }
    } else {
        None
    }
}

// ---------------------------------------------------------------------------
// Round trip
// ---------------------------------------------------------------------------

/// The name under which the chain emits an event.
pub open spec fn emitted_name(event: ApexEvent) -> Seq<char> {
    match event {
        ApexEvent::PoolCreated { .. } => "PoolCreated"@,
        ApexEvent::CommitSubmitted { .. } => "CommitSubmitted"@,
        ApexEvent::RevealSubmitted { .. } => "RevealSubmitted"@,
        ApexEvent::PoolLocked { .. } => "PoolLocked"@,
        ApexEvent::PoolResolved { .. } => "PoolResolved"@,
        ApexEvent::ParticipantPaid { .. } => "ParticipantPaid"@,
        ApexEvent::PrizeDistributed { .. } => "PrizeDistributed"@,
        ApexEvent::FrsCreated { .. } => "FRSCreated"@,
        ApexEvent::FrsSettled { .. } => "FRSSettled"@,
        ApexEvent::TierUpgraded { .. } => "TierUpgraded"@,
    }
}

/// The payload that the chain emits for an event: an object with every field of the event
/// under the field's own name, addresses and weights as they are, numbers in decimal.
pub open spec fn emitted_payload(event: ApexEvent) -> Json {
    match event {
        ApexEvent::PoolCreated { pool_id, leg_count, commit_deadline, reveal_deadline, entry_fee_amount } => Json::Object(
            seq![
                ("pool_id"@, json_text(pool_id@)),
                ("leg_count"@, json_decimal(leg_count as int)),
                ("commit_deadline"@, json_decimal(commit_deadline as int)),
                ("reveal_deadline"@, json_decimal(reveal_deadline as int)),
                ("entry_fee_amount"@, json_decimal(entry_fee_amount as int)),
            ],
        ),
        ApexEvent::CommitSubmitted { pool_id, participant, entry_fee, timestamp } => Json::Object(
            seq![
                ("pool_id"@, json_text(pool_id@)),
                ("participant"@, json_text(participant@)),
                ("entry_fee"@, json_decimal(entry_fee as int)),
                ("timestamp"@, json_decimal(timestamp as int)),
            ],
        ),
        ApexEvent::RevealSubmitted { pool_id, participant, crowd_median_estimate } => Json::Object(
            seq![
                ("pool_id"@, json_text(pool_id@)),
                ("participant"@, json_text(participant@)),
                ("crowd_median_estimate"@, json_decimal(crowd_median_estimate as int)),
            ],
        ),
        ApexEvent::PoolLocked { pool_id, reveal_count, forfeited_count } => Json::Object(
            seq![
                ("pool_id"@, json_text(pool_id@)),
                ("reveal_count"@, json_decimal(reveal_count as int)),
                ("forfeited_count"@, json_decimal(forfeited_count as int)),
            ],
        ),
        ApexEvent::PoolResolved { pool_id, total_weight } => Json::Object(
            seq![
                ("pool_id"@, json_text(pool_id@)),
                ("total_weight"@, json_text(total_weight@)),
            ],
        ),
        ApexEvent::ParticipantPaid { pool_id, participant, apex_payout, leg_hits, composite_weight } => Json::Object(
            seq![
                ("pool_id"@, json_text(pool_id@)),
                ("participant"@, json_text(participant@)),
                ("apex_payout"@, json_decimal(apex_payout as int)),
                ("leg_hits"@, json_decimal(leg_hits as int)),
                ("composite_weight"@, json_text(composite_weight@)),
            ],
        ),
        ApexEvent::PrizeDistributed { pool_id, total_prize } => Json::Object(
            seq![
                ("pool_id"@, json_text(pool_id@)),
                ("total_prize"@, json_decimal(total_prize as int)),
            ],
        ),
        ApexEvent::FrsCreated { participant, pool_id } => Json::Object(
            seq![
                ("participant"@, json_text(participant@)),
                ("pool_id"@, json_opt_text(view_opt(pool_id))),
            ],
        ),
        ApexEvent::FrsSettled { participant, pool_id, new_tier, lifetime_accuracy_bps, pool_count, .. } => Json::Object(
            seq![
                ("participant"@, json_text(participant@)),
                ("pool_id"@, json_text(pool_id@)),
                ("new_tier"@, json_decimal(new_tier as int)),
                ("lifetime_accuracy_bps"@, json_decimal(lifetime_accuracy_bps as int)),
                ("pool_count"@, json_decimal(pool_count as int)),
            ],
        ),
        ApexEvent::TierUpgraded { participant, new_tier } => Json::Object(
            seq![
                ("participant"@, json_text(participant@)),
                ("new_tier"@, json_decimal(new_tier as int)),
            ],
        ),
    }
}

/// The names differ.
proof fn lemma_field_names()
    ensures
        "pool_id"@.len() == 7,
        "leg_count"@.len() == 9,
        "commit_deadline"@.len() == 15,
        "reveal_deadline"@.len() == 15,
        "entry_fee_amount"@.len() == 16,
        "participant"@.len() == 11,
        "entry_fee"@.len() == 9,
        "timestamp"@.len() == 9,
        "crowd_median_estimate"@.len() == 21,
        "reveal_count"@.len() == 12,
        "forfeited_count"@.len() == 15,
        "total_weight"@.len() == 12,
        "apex_payout"@.len() == 11,
        "leg_hits"@.len() == 8,
        "composite_weight"@.len() == 16,
        "total_prize"@.len() == 11,
        "new_tier"@.len() == 8,
        "lifetime_accuracy_bps"@.len() == 21,
        "pool_count"@.len() == 10,
        "leg_count"@[0] != "entry_fee"@[0],
        "leg_count"@[0] != "timestamp"@[0],
        "commit_deadline"@[0] != "reveal_deadline"@[0],
        "commit_deadline"@[0] != "forfeited_count"@[0],
        "reveal_deadline"@[0] != "forfeited_count"@[0],
        "entry_fee_amount"@[0] != "composite_weight"@[0],
        "participant"@[0] != "apex_payout"@[0],
        "participant"@[0] != "total_prize"@[0],
        "entry_fee"@[0] != "timestamp"@[0],
        "crowd_median_estimate"@[0] != "lifetime_accuracy_bps"@[0],
        "reveal_count"@[0] != "total_weight"@[0],
        "apex_payout"@[0] != "total_prize"@[0],
        "leg_hits"@[0] != "new_tier"@[0],
{
    reveal_strlit("pool_id");
    reveal_strlit("leg_count");
    reveal_strlit("commit_deadline");
    reveal_strlit("reveal_deadline");
    reveal_strlit("entry_fee_amount");
    reveal_strlit("participant");
    reveal_strlit("entry_fee");
    reveal_strlit("timestamp");
    reveal_strlit("crowd_median_estimate");
    reveal_strlit("reveal_count");
    reveal_strlit("forfeited_count");
    reveal_strlit("total_weight");
    reveal_strlit("apex_payout");
    reveal_strlit("leg_hits");
    reveal_strlit("composite_weight");
    reveal_strlit("total_prize");
    reveal_strlit("new_tier");
    reveal_strlit("lifetime_accuracy_bps");
    reveal_strlit("pool_count");
}

/// The names differ.
proof fn lemma_kind_names()
    ensures
        "PoolCreated"@.len() == 11,
        "CommitSubmitted"@.len() == 15,
        "RevealSubmitted"@.len() == 15,
        "PoolLocked"@.len() == 10,
        "PoolResolved"@.len() == 12,
        "ParticipantPaid"@.len() == 15,
        "PrizeDistributed"@.len() == 16,
        "FRSCreated"@.len() == 10,
        "FRSSettled"@.len() == 10,
        "TierUpgraded"@.len() == 12,
        "CommitSubmitted"@[0] != "RevealSubmitted"@[0],
        "CommitSubmitted"@[0] != "ParticipantPaid"@[0],
        "RevealSubmitted"@[0] != "ParticipantPaid"@[0],
        "PoolLocked"@[0] != "FRSCreated"@[0],
        "PoolLocked"@[0] != "FRSSettled"@[0],
        "PoolResolved"@[0] != "TierUpgraded"@[0],
        "FRSCreated"@[3] != "FRSSettled"@[3],
{
    reveal_strlit("PoolCreated");
    reveal_strlit("CommitSubmitted");
    reveal_strlit("RevealSubmitted");
    reveal_strlit("PoolLocked");
    reveal_strlit("PoolResolved");
    reveal_strlit("ParticipantPaid");
    reveal_strlit("PrizeDistributed");
    reveal_strlit("FRSCreated");
    reveal_strlit("FRSSettled");
    reveal_strlit("TierUpgraded");
}

/// What the chain emits for an event, whatever package and module emit it, decodes to
/// that event. The digest of a settlement is that of the transaction.
pub proof fn law_events_decode_to_themselves(
    event: ApexEvent,
    path: Seq<char>,
    e: SuiEventView,
)
    requires
        e.event_type == path + seq![':', ':'] + emitted_name(event),
        e.parsed_json == emitted_payload(event),
        event matches ApexEvent::FrsSettled { tx_digest, .. } ==> e.id.tx_digest == tx_digest@,
    ensures
        decoded(e) == Some(event@),
{
    let name = emitted_name(event);
    assert forall|i: int| 0 <= i < name.len() implies #[trigger] name[i] != ':' by {
        reveal_strlit("PoolCreated");
        reveal_strlit("CommitSubmitted");
        reveal_strlit("RevealSubmitted");
        reveal_strlit("PoolLocked");
        reveal_strlit("PoolResolved");
        reveal_strlit("ParticipantPaid");
        reveal_strlit("PrizeDistributed");
        reveal_strlit("FRSCreated");
        reveal_strlit("FRSSettled");
        reveal_strlit("TierUpgraded");
    }
    law_last_segment_follows_the_colons(path, name);
    lemma_field_names();
    lemma_kind_names();
    reveal_with_fuel(first_entry, 6);
    match event {
        ApexEvent::PoolCreated { leg_count, commit_deadline, reveal_deadline, entry_fee_amount, .. } => {
            law_number_reads_back(leg_count);
            law_number_reads_back(commit_deadline);
            law_number_reads_back(reveal_deadline);
            law_number_reads_back(entry_fee_amount);
        },
        ApexEvent::CommitSubmitted { entry_fee, timestamp, .. } => {
            law_number_reads_back(entry_fee);
            law_number_reads_back(timestamp);
        },
        ApexEvent::RevealSubmitted { crowd_median_estimate, .. } => {
            law_number_reads_back(crowd_median_estimate);
        },
        ApexEvent::PoolLocked { reveal_count, forfeited_count, .. } => {
            law_number_reads_back(reveal_count);
            law_number_reads_back(forfeited_count);
        },
        ApexEvent::PoolResolved { .. } => {
        },
        ApexEvent::ParticipantPaid { apex_payout, leg_hits, .. } => {
            law_number_reads_back(apex_payout);
            law_number_reads_back(leg_hits);
        },
        ApexEvent::PrizeDistributed { total_prize, .. } => {
            law_number_reads_back(total_prize);
        },
        ApexEvent::FrsCreated { .. } => {
        },
        ApexEvent::FrsSettled { new_tier, lifetime_accuracy_bps, pool_count, .. } => {
            law_number_reads_back(new_tier);
            law_number_reads_back(lifetime_accuracy_bps);
            law_number_reads_back(pool_count);
        },
        ApexEvent::TierUpgraded { new_tier, .. } => {
            law_number_reads_back(new_tier);
        },
    }
}

/// The name of an event's kind.
pub open spec fn kind_name(event: EventModel) -> Seq<char> {
    match event {
        EventModel::PoolCreated { .. } => "PoolCreated"@,
        EventModel::CommitSubmitted { .. } => "CommitSubmitted"@,
        EventModel::RevealSubmitted { .. } => "RevealSubmitted"@,
        EventModel::PoolLocked { .. } => "PoolLocked"@,
        EventModel::PoolResolved { .. } => "PoolResolved"@,
        EventModel::ParticipantPaid { .. } => "ParticipantPaid"@,
        EventModel::PrizeDistributed { .. } => "PrizeDistributed"@,
        EventModel::FrsCreated { .. } => "FRSCreated"@,
        EventModel::FrsSettled { .. } => "FRSSettled"@,
        EventModel::TierUpgraded { .. } => "TierUpgraded"@,
    }
}

/// A raw event holds each value of an event under the value's own name.
pub open spec fn holds(e: SuiEventView, event: EventModel) -> bool {
    let p = e.parsed_json;
    match event {
        EventModel::PoolCreated { pool_id, leg_count, commit_deadline, reveal_deadline, entry_fee_amount } => {
            &&& text_of(member(p, "pool_id"@)) == Some(pool_id)
            &&& number_of(member(p, "leg_count"@)) == Some(leg_count)
            &&& number_of(member(p, "commit_deadline"@)) == Some(commit_deadline)
            &&& number_of(member(p, "reveal_deadline"@)) == Some(reveal_deadline)
            &&& number_of(member(p, "entry_fee_amount"@)) == Some(entry_fee_amount)
        },
        EventModel::CommitSubmitted { pool_id, participant, entry_fee, timestamp } => {
            &&& text_of(member(p, "pool_id"@)) == Some(pool_id)
            &&& text_of(member(p, "participant"@)) == Some(participant)
            &&& number_of(member(p, "entry_fee"@)) == Some(entry_fee)
            &&& number_of(member(p, "timestamp"@)) == Some(timestamp)
        },
        EventModel::RevealSubmitted { pool_id, participant, crowd_median_estimate } => {
            &&& text_of(member(p, "pool_id"@)) == Some(pool_id)
            &&& text_of(member(p, "participant"@)) == Some(participant)
            &&& number_of(member(p, "crowd_median_estimate"@)) == Some(crowd_median_estimate)
        },
        EventModel::PoolLocked { pool_id, reveal_count, forfeited_count } => {
            &&& text_of(member(p, "pool_id"@)) == Some(pool_id)
            &&& number_of(member(p, "reveal_count"@)) == Some(reveal_count)
            &&& number_of(member(p, "forfeited_count"@)) == Some(forfeited_count)
        },
        EventModel::PoolResolved { pool_id, total_weight } => {
            &&& text_of(member(p, "pool_id"@)) == Some(pool_id)
            &&& wide_number(member(p, "total_weight"@)) == Some(total_weight)
        },
        EventModel::ParticipantPaid { pool_id, participant, apex_payout, leg_hits, composite_weight } => {
            &&& text_of(member(p, "pool_id"@)) == Some(pool_id)
            &&& text_of(member(p, "participant"@)) == Some(participant)
            &&& number_of(member(p, "apex_payout"@)) == Some(apex_payout)
            &&& number_of(member(p, "leg_hits"@)) == Some(leg_hits)
            &&& wide_number(member(p, "composite_weight"@)) == Some(composite_weight)
        },
        EventModel::PrizeDistributed { pool_id, total_prize } => {
            &&& text_of(member(p, "pool_id"@)) == Some(pool_id)
            &&& number_of(member(p, "total_prize"@)) == Some(total_prize)
        },
        EventModel::FrsCreated { participant, pool_id } => {
            &&& text_of(member(p, "participant"@)) == Some(participant)
            &&& text_of(member(p, "pool_id"@)) == pool_id
        },
        EventModel::FrsSettled { participant, pool_id, new_tier, lifetime_accuracy_bps, pool_count, tx_digest } => {
            &&& text_of(member(p, "participant"@)) == Some(participant)
            &&& text_of(member(p, "pool_id"@)) == Some(pool_id)
            &&& number_of(member(p, "new_tier"@)) == Some(new_tier)
            &&& number_of(member(p, "lifetime_accuracy_bps"@)) == Some(lifetime_accuracy_bps)
            &&& number_of(member(p, "pool_count"@)) == Some(pool_count)
            &&& e.id.tx_digest == tx_digest
        },
        EventModel::TierUpgraded { participant, new_tier } => {
            &&& text_of(member(p, "participant"@)) == Some(participant)
            &&& number_of(member(p, "new_tier"@)) == Some(new_tier)
        },
    }
}

/// A raw event decodes to an event if and only if its type names that kind of event and
/// its payload holds all its values. So nothing is made up, and of two raw events that
/// decode to different events one holds a value that the other does not hold.
pub proof fn law_decoding_is_exact(e: SuiEventView, event: EventModel)
    ensures
        decoded(e) == Some(event) <==> last_segment(e.event_type) == kind_name(event) && holds(
            e,
            event,
        ),
{
    lemma_kind_names();
}

/// A wide number keeps its digits, whether it comes as a string or as a number.
pub proof fn law_wide_numbers_keep_their_digits(n: nat, s: Seq<char>)
    ensures
        wide_number(Some(json_decimal(n as int))) == Some(decimal(n as int)),
        wide_number(Some(json_int(n as int))) == Some(decimal(n as int)),
        wide_number(Some(json_text(s))) == Some(s),
        wide_number(None) is None,
        wide_number(Some(Json::Null)) is None,
{
}

} // verus!
