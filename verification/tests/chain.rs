use apex_backend::indexer::events::{decode, ApexEvent};
use apex_backend::indexer::handlers::apply;
use apex_backend::indexer::plan_page;
use apex_backend::json::{Number, Value};
use apex_backend::sui::client::{
    execute_transaction, get_object, get_sui_coins, get_table_entry_by_address,
    multi_get_objects, query_module_events, read_execution, read_object, read_objects,
    read_sui_coins, read_table_entry, reference_gas_price, request_body, response_result,
    Execution, GasCoin, ObjectError, RpcError,
};
use apex_backend::sui::types::{
    field_enum_variant, field_id_vec, field_opt_u64, field_table_id, field_u64, field_u64_vec,
    parse_u64, EventId, EventPage, ObjectData, OracleSvi, PoolConfigData, SuiEvent,
};

fn text(s: &str) -> Value {
    Value::String(s.to_string())
}

fn num(n: u64) -> Value {
    Value::Number(Number::PosInt(n))
}

fn array(items: Vec<Value>) -> Value {
    Value::Array(items)
}

fn object(entries: Vec<(&str, Value)>) -> Value {
    Value::Object(entries.into_iter().map(|(k, v)| (k.to_string(), v)).collect())
}

fn ev(type_suffix: &str, parsed: Value) -> SuiEvent {
    SuiEvent {
        id: EventId {
            tx_digest: "Dig1".into(),
            event_seq: "0".into(),
        },
        event_type: format!("0xabc::apex_pool::{type_suffix}"),
        parsed_json: parsed,
        timestamp_ms: Some("1760000000000".into()),
    }
}

#[test]
fn decodes_pool_created() {
    let e = ev(
        "PoolCreated",
        object(vec![
            ("pool_id", text("0xp")),
            ("leg_count", text("2")),
            ("commit_deadline", text("100")),
            ("reveal_deadline", text("200")),
            ("entry_fee_amount", text("500000000")),
        ]),
    );
    match decode(&e).unwrap() {
        ApexEvent::PoolCreated {
            pool_id,
            leg_count,
            entry_fee_amount,
            ..
        } => {
            assert_eq!(pool_id, "0xp");
            assert_eq!(leg_count, 2);
            assert_eq!(entry_fee_amount, 500_000_000);
        }
        other => panic!("wrong variant: {other:?}"),
    }
}

#[test]
fn decodes_participant_paid_with_u128_weight() {
    let e = ev(
        "ParticipantPaid",
        object(vec![
            ("pool_id", text("0xp")),
            ("participant", text("0xa")),
            ("apex_payout", text("487500000")),
            ("leg_hits", num(2)),
            (
                "composite_weight",
                text("340282366920938463463374607431768211455"),
            ),
        ]),
    );
    match decode(&e).unwrap() {
        ApexEvent::ParticipantPaid {
            composite_weight, leg_hits, ..
        } => {
            assert_eq!(composite_weight, "340282366920938463463374607431768211455");
            assert_eq!(leg_hits, 2);
        }
        other => panic!("wrong variant: {other:?}"),
    }
}

#[test]
fn unknown_event_is_none() {
    let e = ev("SomethingElse", object(vec![]));
    assert!(decode(&e).is_none());
}

#[test]
fn a_page_is_decoded_event_by_event() {
    let page = EventPage {
        data: vec![SuiEvent {
            id: EventId {
                tx_digest: "8tGi".into(),
                event_seq: "0".into(),
            },
            event_type: "0xabc::apex_pool::CommitSubmitted".into(),
            parsed_json: object(vec![
                ("pool_id", text("0xdef")),
                ("participant", text("0x1")),
                ("entry_fee", text("500000000")),
                ("timestamp", text("1760000000000")),
            ]),
            timestamp_ms: Some("1760000000000".into()),
        }],
        next_cursor: Some(EventId {
            tx_digest: "8tGi".into(),
            event_seq: "0".into(),
        }),
        has_next_page: false,
    };
    assert_eq!(field_u64(&page.data[0].parsed_json, "entry_fee"), Some(500_000_000));
    let event = decode(&page.data[0]).unwrap();
    assert_eq!(
        event,
        ApexEvent::CommitSubmitted {
            pool_id: "0xdef".into(),
            participant: "0x1".into(),
            entry_fee: 500_000_000,
            timestamp: 1_760_000_000_000,
        }
    );
    let plan = plan_page(&page).unwrap();
    assert_eq!(plan.writes, apply(event));
    assert_eq!(plan.cursor.unwrap().event_seq, "0");
    assert!(!plan.more);
}

fn pool_object() -> Value {
    object(vec![
        ("objectId", text("0xpool")),
        ("version", text("42")),
        ("digest", text("9pXy")),
        (
            "owner",
            object(vec![(
                "Shared",
                object(vec![("initial_shared_version", text("7"))]),
            )]),
        ),
        (
            "content",
            object(vec![
                ("dataType", text("moveObject")),
                ("type", text("0xabc::apex_pool::Pool")),
                (
                    "fields",
                    object(vec![
                        (
                            "state",
                            object(vec![("variant", text("Open")), ("fields", object(vec![]))]),
                        ),
                        ("commit_deadline", text("1760000000000")),
                        ("oracle_ids", array(vec![text("0x1"), text("0x2")])),
                        ("oracle_results", array(vec![])),
                        (
                            "predictions",
                            object(vec![(
                                "fields",
                                object(vec![
                                    ("id", object(vec![("id", text("0xtable"))])),
                                    ("size", text("3")),
                                ]),
                            )]),
                        ),
                        ("total_weight", text("123456789012345678901")),
                    ]),
                ),
            ]),
        ),
    ])
}

#[test]
fn decodes_shared_object_with_enum_state() {
    let raw = pool_object();
    let obj = ObjectData::from_rpc(&raw).unwrap();
    assert_eq!(obj.version, 42);
    assert_eq!(obj.initial_shared_version, Some(7));
    assert_eq!(
        field_enum_variant(&obj.fields, "state").as_deref(),
        Some("Open")
    );
    assert_eq!(field_u64(&obj.fields, "commit_deadline"), Some(1_760_000_000_000));
    assert_eq!(
        field_id_vec(&obj.fields, "oracle_ids").unwrap(),
        vec!["0x1", "0x2"]
    );
    assert_eq!(field_table_id(&obj.fields, "predictions").as_deref(), Some("0xtable"));
}

fn svi_fields() -> Value {
    object(vec![(
        "fields",
        object(vec![
            ("a", text("40000000")),
            ("b", text("100000000")),
            (
                "rho",
                object(vec![(
                    "fields",
                    object(vec![
                        ("magnitude", text("300000000")),
                        ("is_negative", Value::Bool(true)),
                    ]),
                )]),
            ),
            (
                "m",
                object(vec![(
                    "fields",
                    object(vec![
                        ("magnitude", text("100000000")),
                        ("is_negative", Value::Bool(false)),
                    ]),
                )]),
            ),
            ("sigma", text("200000000")),
        ]),
    )])
}

#[test]
fn decodes_oracle_svi() {
    let raw = object(vec![
        ("underlying_asset", text("BTC")),
        ("expiry", text("1760000000000")),
        ("active", Value::Bool(true)),
        (
            "prices",
            object(vec![(
                "fields",
                object(vec![
                    ("spot", text("61200000000000")),
                    ("forward", text("61500000000000")),
                ]),
            )]),
        ),
        ("svi", svi_fields()),
        ("timestamp", text("1759990000000")),
        ("settlement_price", Value::Null),
    ]);
    let svi = OracleSvi::from_fields(&raw).unwrap();
    assert_eq!(svi.expiry_ms, 1_760_000_000_000);
    assert_eq!(svi.spot, Some(61_200_000_000_000));
    assert!(svi.svi_rho_neg);
    assert_eq!(svi.svi_m_mag, 100_000_000);
    assert_eq!(svi.settlement_price, None);

    let settled = object(vec![
        ("expiry", text("1760000000000")),
        ("svi", svi_fields()),
        ("settlement_price", text("62450000000000")),
    ]);
    let svi = OracleSvi::from_fields(&settled).unwrap();
    assert_eq!(svi.settlement_price, Some(62_450_000_000_000));
}

#[test]
fn every_kind_of_event_is_decoded() {
    let pool = ("pool_id", "0xp");
    let who = ("participant", "0xa");
    let fields = |entries: Vec<(&str, &str)>| {
        object(entries.into_iter().map(|(k, v)| (k, text(v))).collect())
    };
    assert_eq!(
        decode(&ev(
            "CommitSubmitted",
            fields(vec![pool, who, ("entry_fee", "5"), ("timestamp", "9")])
        )),
        Some(ApexEvent::CommitSubmitted {
            pool_id: "0xp".into(),
            participant: "0xa".into(),
            entry_fee: 5,
            timestamp: 9,
        })
    );
    assert_eq!(
        decode(&ev(
            "RevealSubmitted",
            fields(vec![pool, who, ("crowd_median_estimate", "7")])
        )),
        Some(ApexEvent::RevealSubmitted {
            pool_id: "0xp".into(),
            participant: "0xa".into(),
            crowd_median_estimate: 7,
        })
    );
    assert_eq!(
        decode(&ev(
            "PoolLocked",
            fields(vec![pool, ("reveal_count", "3"), ("forfeited_count", "1")])
        )),
        Some(ApexEvent::PoolLocked {
            pool_id: "0xp".into(),
            reveal_count: 3,
            forfeited_count: 1,
        })
    );
    assert_eq!(
        decode(&ev("PoolResolved", fields(vec![pool, ("total_weight", "12")]))),
        Some(ApexEvent::PoolResolved {
            pool_id: "0xp".into(),
            total_weight: "12".into(),
        })
    );
    assert_eq!(
        decode(&ev("PrizeDistributed", fields(vec![pool, ("total_prize", "8")]))),
        Some(ApexEvent::PrizeDistributed {
            pool_id: "0xp".into(),
            total_prize: 8,
        })
    );
    assert_eq!(
        decode(&ev("FRSCreated", fields(vec![who]))),
        Some(ApexEvent::FrsCreated {
            participant: "0xa".into(),
            pool_id: None,
        })
    );
    assert_eq!(
        decode(&ev(
            "FRSSettled",
            fields(vec![
                pool,
                who,
                ("new_tier", "1"),
                ("lifetime_accuracy_bps", "9000"),
                ("pool_count", "4")
            ])
        )),
        Some(ApexEvent::FrsSettled {
            participant: "0xa".into(),
            pool_id: "0xp".into(),
            new_tier: 1,
            lifetime_accuracy_bps: 9000,
            pool_count: 4,
            tx_digest: "Dig1".into(),
        })
    );
    assert_eq!(
        decode(&ev("TierUpgraded", fields(vec![who, ("new_tier", "2")]))),
        Some(ApexEvent::TierUpgraded {
            participant: "0xa".into(),
            new_tier: 2,
        })
    );
    // a field is missing
    assert_eq!(decode(&ev("TierUpgraded", fields(vec![who]))), None);
    // a weight may be a bare number
    assert_eq!(
        decode(&ev(
            "PoolResolved",
            object(vec![("pool_id", text("0xp")), ("total_weight", num(12))])
        )),
        Some(ApexEvent::PoolResolved {
            pool_id: "0xp".into(),
            total_weight: "12".into(),
        })
    );
}

#[test]
fn numbers_are_read_strictly() {
    assert_eq!(parse_u64(&text("18446744073709551615")), Some(u64::MAX));
    assert_eq!(parse_u64(&text("18446744073709551616")), None);
    assert_eq!(parse_u64(&text("+7")), Some(7));
    assert_eq!(parse_u64(&text("")), None);
    assert_eq!(parse_u64(&text("1 ")), None);
    assert_eq!(parse_u64(&num(5)), Some(5));
    assert_eq!(parse_u64(&Value::Number(Number::NegInt(-5))), None);
    assert_eq!(parse_u64(&Value::Number(Number::Float("1.5".into()))), None);
    let f = object(vec![
        ("plain", text("3")),
        ("none", Value::Null),
        ("list", array(vec![text("1"), num(2)])),
        ("mixed", array(vec![text("1"), text("x")])),
    ]);
    assert_eq!(field_opt_u64(&f, "plain"), Some(3));
    assert_eq!(field_opt_u64(&f, "none"), None);
    assert_eq!(field_u64_vec(&f, "list"), Some(vec![1, 2]));
    assert_eq!(field_u64_vec(&f, "mixed"), None);
    assert_eq!(field_id_vec(&f, "list"), None);
}

#[test]
fn pool_config_is_read_from_its_object() {
    let mut names = vec![];
    for (i, name) in [
        "epsilon_bps",
        "k_scaling",
        "protocol_fee_bps",
        "keeper_tip_bps",
        "min_strike",
        "tick_size",
        "max_strike",
    ]
    .into_iter()
    .enumerate()
    {
        names.push((name, num(i as u64 + 1)));
    }
    let mut obj = ObjectData {
        object_id: "0xc".into(),
        version: 1,
        digest: "d".into(),
        initial_shared_version: Some(9),
        fields: object(names),
        type_: None,
    };
    assert_eq!(
        PoolConfigData::from_object(&obj),
        Some(PoolConfigData {
            epsilon_bps: 1,
            k_scaling: 2,
            protocol_fee_bps: 3,
            keeper_tip_bps: 4,
            min_strike: 5,
            tick_size: 6,
            max_strike: 7,
            initial_shared_version: 9,
        })
    );
    obj.initial_shared_version = None;
    assert_eq!(PoolConfigData::from_object(&obj), None);
}

#[test]
fn requests_are_framed() {
    assert_eq!(
        request_body("m", array(vec![])),
        object(vec![
            ("jsonrpc", text("2.0")),
            ("id", num(1)),
            ("method", text("m")),
            ("params", array(vec![])),
        ])
    );
    let cursor = EventId {
        tx_digest: "D".into(),
        event_seq: "3".into(),
    };
    assert_eq!(
        query_module_events("0xp", "apex_pool", Some(&cursor), 100),
        array(vec![
            object(vec![(
                "MoveEventModule",
                object(vec![("package", text("0xp")), ("module", text("apex_pool"))]),
            )]),
            object(vec![("txDigest", text("D")), ("eventSeq", text("3"))]),
            num(100),
            Value::Bool(false),
        ])
    );
    assert_eq!(
        query_module_events("0xp", "m", None, 1).as_array().unwrap()[1],
        Value::Null
    );
    let options = object(vec![
        ("showContent", Value::Bool(true)),
        ("showOwner", Value::Bool(true)),
    ]);
    assert_eq!(
        get_object("0x1"),
        array(vec![text("0x1"), options])
    );
    assert!(multi_get_objects(&vec![]).is_none());
    assert_eq!(
        multi_get_objects(&vec!["0x1".into()]).unwrap().as_array().unwrap()[0],
        array(vec![text("0x1")])
    );
    assert_eq!(
        get_table_entry_by_address("0xt", "0xa"),
        array(vec![
            text("0xt"),
            object(vec![("type", text("address")), ("value", text("0xa"))]),
        ])
    );
    assert_eq!(
        get_sui_coins("0xa"),
        array(vec![text("0xa"), text("0x2::sui::SUI"), Value::Null, num(50)])
    );
    assert_eq!(reference_gas_price(), array(vec![]));
    assert_eq!(
        execute_transaction("tx", &vec!["sig".into()]),
        array(vec![
            text("tx"),
            array(vec![text("sig")]),
            object(vec![("showEffects", Value::Bool(true))]),
            text("WaitForLocalExecution"),
        ])
    );
}

#[test]
fn answers_are_read() {
    assert_eq!(
        response_result(&object(vec![("result", num(1)), ("error", text("no"))])),
        Err(RpcError::Reported(text("no")))
    );
    assert_eq!(response_result(&object(vec![("result", num(1))])), Ok(num(1)));
    assert_eq!(response_result(&object(vec![])), Err(RpcError::MissingResult));
    assert_eq!(
        RpcError::Reported(text("no")).message("m", "\"no\""),
        "m: rpc error: \"no\""
    );
    assert_eq!(RpcError::MissingResult.message("m", ""), "m: missing result");

    assert_eq!(read_object(&object(vec![])).unwrap_err(), ObjectError::NotFound);
    assert_eq!(
        read_object(&object(vec![("data", Value::Null)])).unwrap_err(),
        ObjectError::Unreadable
    );
    assert_eq!(
        ObjectError::NotFound.message("0x1", "{}"),
        "sui_getObject: object 0x1 not found: {}"
    );
    assert_eq!(
        ObjectError::Unreadable.message("0x1", "{}"),
        "sui_getObject: cannot parse object 0x1"
    );
    let found = object(vec![("data", pool_object())]);
    assert_eq!(read_object(&found).unwrap().object_id, "0xpool");
    assert_eq!(read_table_entry(&found).unwrap().object_id, "0xpool");
    assert!(read_table_entry(&object(vec![])).is_none());

    let batch = array(vec![object(vec![]), object(vec![("data", pool_object())])]);
    assert_eq!(read_objects(&batch).unwrap().len(), 1);
    assert!(read_objects(&Value::Null).is_none());

    let coins = object(vec![(
        "data",
        array(vec![
            object(vec![("coinObjectId", text("0xc"))]),
            object(vec![
                ("coinObjectId", text("0xc")),
                ("version", text("2")),
                ("digest", text("D")),
                ("balance", text("77")),
            ]),
        ]),
    )]);
    assert_eq!(
        read_sui_coins(&coins),
        vec![GasCoin {
            id: "0xc".into(),
            version: 2,
            digest: "D".into(),
            balance: 77,
        }]
    );
    assert_eq!(read_sui_coins(&object(vec![])), vec![]);
}

#[test]
fn executions_are_read() {
    let ok = object(vec![
        ("digest", text("D")),
        (
            "effects",
            object(vec![("status", object(vec![("status", text("success"))]))]),
        ),
    ]);
    assert_eq!(
        read_execution(&ok),
        Execution {
            digest: "D".into(),
            success: true,
            error: None,
        }
    );
    let failed = object(vec![(
        "effects",
        object(vec![(
            "status",
            object(vec![("status", text("failure")), ("error", text("abort"))]),
        )]),
    )]);
    assert_eq!(
        read_execution(&failed),
        Execution {
            digest: "".into(),
            success: false,
            error: Some("abort".into()),
        }
    );
}
