use apex_backend::indexer::handlers::{apply, Write};
use apex_backend::indexer::events::ApexEvent;
use apex_backend::indexer::{chunks, plan_page, sync_pool, sync_prediction, PoolSync, PredictionSync};
use apex_backend::json::Value;
use apex_backend::sui::types::{EventId, EventPage, ObjectData, SuiEvent};

fn text(s: &str) -> Value {
    Value::String(s.to_string())
}

fn object(entries: Vec<(&str, Value)>) -> Value {
    Value::Object(entries.into_iter().map(|(k, v)| (k.to_string(), v)).collect())
}

fn id(n: &str) -> EventId {
    EventId {
        tx_digest: "D".into(),
        event_seq: n.into(),
    }
}

fn event(kind: &str, entries: Vec<(&str, &str)>) -> SuiEvent {
    SuiEvent {
        id: id("0"),
        event_type: format!("0xabc::apex_pool::{kind}"),
        parsed_json: object(entries.into_iter().map(|(k, v)| (k, text(v))).collect()),
        timestamp_ms: None,
    }
}

#[test]
fn a_page_becomes_writes_and_a_cursor() {
    let page = EventPage {
        data: vec![
            event(
                "CommitSubmitted",
                vec![
                    ("pool_id", "0xp"),
                    ("participant", "0xa"),
                    ("entry_fee", "5"),
                    ("timestamp", "9"),
                ],
            ),
            event("Unheard", vec![]),
            event("PoolResolved", vec![("pool_id", "0xp"), ("total_weight", "12")]),
        ],
        next_cursor: Some(id("7")),
        has_next_page: true,
    };
    let plan = plan_page(&page).unwrap();
    assert_eq!(
        plan.writes,
        vec![
            Write::UpsertCommit {
                pool_id: "0xp".into(),
                participant: "0xa".into(),
                entry_fee: 5,
                timestamp_ms: 9
            },
            Write::RecomputePool { pool_id: "0xp".into() },
            Write::ScorePool {
                pool_id: "0xp".into(),
                total_weight: "12".into()
            },
        ]
    );
    assert_eq!(plan.cursor, Some(id("7")));
    assert!(plan.more);
    let empty = EventPage {
        data: vec![],
        next_cursor: None,
        has_next_page: true,
    };
    assert!(plan_page(&empty).is_none());
}

#[test]
fn numbers_take_the_width_of_their_column() {
    assert_eq!(
        apply(ApexEvent::ParticipantPaid {
            pool_id: "p".into(),
            participant: "a".into(),
            apex_payout: u64::MAX,
            leg_hits: 65_537,
            composite_weight: "1".into(),
        }),
        vec![Write::PayParticipant {
            pool_id: "p".into(),
            participant: "a".into(),
            apex_payout: -1,
            leg_hits: 1,
            composite_weight: "1".into(),
        }]
    );
}

#[test]
fn every_event_has_its_statements() {
    let p = || "p".to_string();
    let a = || "a".to_string();
    assert_eq!(
        apply(ApexEvent::PoolCreated {
            pool_id: p(),
            leg_count: 2,
            commit_deadline: 100,
            reveal_deadline: 200,
            entry_fee_amount: 5,
        }),
        vec![Write::UpsertPool {
            pool_id: p(),
            leg_count: 2,
            commit_deadline_ms: 100,
            reveal_deadline_ms: 200,
            entry_fee_amount: 5
        }]
    );
    assert_eq!(
        apply(ApexEvent::RevealSubmitted {
            pool_id: p(),
            participant: a(),
            crowd_median_estimate: 7,
        }),
        vec![
            Write::MarkRevealed {
                pool_id: p(),
                participant: a(),
                crowd_median_estimate: 7
            },
            Write::RecomputePool { pool_id: p() },
        ]
    );
    assert_eq!(
        apply(ApexEvent::PoolLocked {
            pool_id: p(),
            reveal_count: 3,
            forfeited_count: 1,
        }),
        vec![Write::LockPool {
            pool_id: p(),
            reveal_count: 3,
            forfeited_count: 1
        }]
    );
    assert_eq!(
        apply(ApexEvent::PrizeDistributed {
            pool_id: p(),
            total_prize: 8,
        }),
        vec![Write::DistributePool {
            pool_id: p(),
            total_prize: 8
        }]
    );
    assert_eq!(
        apply(ApexEvent::FrsCreated {
            participant: a(),
            pool_id: Some(p()),
        }),
        vec![Write::CreateProfile {
            participant: a(),
            pool_id: Some(p())
        }]
    );
    assert_eq!(
        apply(ApexEvent::FrsSettled {
            participant: a(),
            pool_id: p(),
            new_tier: 1,
            lifetime_accuracy_bps: 9000,
            pool_count: 4,
            tx_digest: "D".into(),
        }),
        vec![
            Write::SettleProfile {
                participant: a(),
                tier: 1,
                lifetime_accuracy_bps: 9000,
                pool_count: 4
            },
            Write::AddSettlement {
                participant: a(),
                pool_id: p(),
                tier: 1,
                lifetime_accuracy_bps: 9000,
                pool_count: 4,
                tx_digest: "D".into()
            },
        ]
    );
    let tier = apply(ApexEvent::TierUpgraded {
        participant: a(),
        new_tier: 2,
    });
    assert_eq!(tier, vec![Write::SetTier { participant: a(), tier: 2 }]);
    assert!(tier[0].sql().contains("UPDATE frs_profiles SET tier = $2"));
}

#[test]
fn locking_never_undoes_scoring() {
    let lock = apply(ApexEvent::PoolLocked {
        pool_id: "p".into(),
        reveal_count: 3,
        forfeited_count: 1,
    });
    assert!(lock[0].sql().contains("state NOT IN ('Scored', 'Distributed')"));
    let score = apply(ApexEvent::PoolResolved {
        pool_id: "p".into(),
        total_weight: "1".into(),
    });
    assert!(score[0].sql().contains("state <> 'Distributed'"));
}

#[test]
fn ids_are_cut_into_pieces() {
    let ids: Vec<String> = (0..120).map(|i| i.to_string()).collect();
    let cut = chunks(ids.clone());
    assert_eq!(cut.iter().map(|c| c.len()).collect::<Vec<_>>(), vec![50, 50, 20]);
    assert_eq!(cut.concat(), ids);
    assert!(chunks(vec![]).is_empty());
    assert_eq!(chunks(ids[..100].to_vec()).len(), 2);
}

fn chain_object(fields: Value) -> ObjectData {
    ObjectData {
        object_id: "0xp".into(),
        version: 3,
        digest: "d".into(),
        initial_shared_version: Some(9),
        fields,
        type_: None,
    }
}

#[test]
fn a_pool_is_synced_from_its_object() {
    let o = chain_object(object(vec![
        ("state", object(vec![("variant", text("Closed"))])),
        ("start_time", text("10")),
        ("oracle_expiry", text("20")),
        ("oracle_ids", Value::Array(vec![text("0x1")])),
        ("oracle_results", Value::Array(vec![text("30")])),
        (
            "predictions",
            object(vec![(
                "fields",
                object(vec![("id", object(vec![("id", text("0xt"))]))]),
            )]),
        ),
        ("total_weight", text("40")),
    ]));
    assert_eq!(
        sync_pool(&o),
        PoolSync {
            pool_id: "0xp".into(),
            state: Some("Closed".into()),
            start_time_ms: Some(10),
            oracle_expiry_ms: Some(20),
            oracle_ids: Some(Value::Array(vec![text("0x1")])),
            oracle_results: Some(Value::Array(vec![text("30")])),
            initial_shared_version: Some(9),
            predictions_table_id: Some("0xt".into()),
            total_weight: Some("40".into()),
        }
    );
    let bare = chain_object(object(vec![("oracle_results", Value::Array(vec![]))]));
    let sync = sync_pool(&bare);
    assert_eq!(sync.state, None);
    assert_eq!(sync.oracle_results, None);
    assert_eq!(sync.total_weight, None);
}

#[test]
fn scores_count_once_the_pool_is_scored() {
    let entry = chain_object(object(vec![(
        "value",
        object(vec![(
            "fields",
            object(vec![
                ("predicted_prices", Value::Array(vec![text("1"), text("2")])),
                ("acc_score", text("3")),
                ("time_bonus", text("4")),
                ("leg_hits", text("5")),
                ("composite_weight", text("6")),
                ("apex_payout", text("7")),
            ]),
        )]),
    )]));
    let prices = || Some(Value::Array(vec![text("1"), text("2")]));
    for state in ["Scored", "Distributed"] {
        assert_eq!(
            sync_prediction(&entry, state),
            Some(PredictionSync {
                predicted_prices: prices(),
                acc_score: Some(3),
                time_bonus: Some(4),
                leg_hits: Some(5),
                composite_weight: Some("6".into()),
                apex_payout: Some(7),
            })
        );
    }
    assert_eq!(
        sync_prediction(&entry, "Locked"),
        Some(PredictionSync {
            predicted_prices: prices(),
            acc_score: None,
            time_bonus: None,
            leg_hits: None,
            composite_weight: None,
            apex_payout: None,
        })
    );
    assert_eq!(sync_prediction(&chain_object(object(vec![])), "Scored"), None);
}
