use apex_backend::json::Value;
use apex_backend::keeper::tx::{
    arguments_fit, key_from_payload, Call, CallArg, KeeperSigner, KeyError, Need, SignedCall,
    TxError,
};
use apex_backend::keeper::{
    config_initial_version, due, oracles_of, record_action, settlement_prices, Action,
    ActionRecord, Reply, Stage, Turn, WatchedPool,
};
use apex_backend::sui::client::{Execution, GasCoin};
use apex_backend::sui::types::ObjectData;
use base64::Engine;
use sui_crypto::SuiVerifier;

const PACKAGE: &str = "0x00000000000000000000000000000000000000000000000000000000000000ab";
const DIGEST: &str = "7opR9rFUYivSTqoJHvFb9p6p54THyHTatMG6id4JKZR9";

fn text(s: &str) -> Value {
    Value::String(s.to_string())
}

fn object(entries: Vec<(&str, Value)>) -> Value {
    Value::Object(entries.into_iter().map(|(k, v)| (k.to_string(), v)).collect())
}

fn secret(prefix: &str, payload: &[u8]) -> String {
    bech32::encode::<bech32::Bech32>(bech32::Hrp::parse(prefix).unwrap(), payload).unwrap()
}

fn key_text() -> String {
    let mut payload = vec![0u8];
    payload.extend([7u8; 32]);
    secret("suiprivkey", &payload)
}

fn signer() -> KeeperSigner {
    KeeperSigner::from_bech32(&key_text()).unwrap()
}

fn cap() -> ObjectData {
    ObjectData {
        object_id: "0xca".into(),
        version: 5,
        digest: DIGEST.into(),
        initial_shared_version: None,
        fields: Value::Null,
        type_: None,
    }
}

fn coin(id: &str, version: u64, balance: u64) -> GasCoin {
    GasCoin {
        id: id.into(),
        version,
        digest: DIGEST.into(),
        balance,
    }
}

fn decode_transaction(s: &SignedCall) -> sui_sdk_types::Transaction {
    let bytes = base64::engine::general_purpose::STANDARD
        .decode(&s.tx_bytes)
        .unwrap();
    bcs::from_bytes(&bytes).unwrap()
}

// ---------------------------------------------------------------------------
// Keys
// ---------------------------------------------------------------------------

#[test]
fn a_key_gives_its_own_address() {
    let key = sui_crypto::ed25519::Ed25519PrivateKey::new([7u8; 32]);
    let address = key.public_key().derive_address();
    let signer = signer();
    assert_eq!(signer.address, address.into_inner());
    assert_eq!(signer.address_text(), address.to_string());
    // the prefix may be in upper case
    let upper = KeeperSigner::from_bech32(&key_text().to_uppercase()).unwrap();
    assert_eq!(upper.address, signer.address);
}

#[test]
fn bad_keys_say_why() {
    let garbage = match KeeperSigner::from_bech32("not a key") {
        Err(e) => e,
        Ok(_) => panic!("garbage was taken for a key"),
    };
    assert!(matches!(garbage, KeyError::Bech32(_)));
    assert!(garbage.message().starts_with("invalid suiprivkey bech32: "));

    let mut payload = vec![0u8];
    payload.extend([7u8; 32]);
    let error = |s: String| match KeeperSigner::from_bech32(&s) {
        Err(e) => e,
        Ok(_) => panic!("a bad key was taken"),
    };
    let e = error(secret("other", &payload));
    assert_eq!(e, KeyError::WrongPrefix);
    assert_eq!(e.message(), "expected 'suiprivkey' HRP");
    let e = error(secret("suiprivkey", &[]));
    assert_eq!(e, KeyError::Empty);
    assert_eq!(e.message(), "suiprivkey payload is empty");
    payload[0] = 0xab;
    let e = error(secret("suiprivkey", &payload));
    assert_eq!(e, KeyError::WrongFlag(0xab));
    assert_eq!(e.message(), "expected Ed25519 flag 0x00, got 0xab");
    payload[0] = 1;
    assert_eq!(
        error(secret("suiprivkey", &payload)).message(),
        "expected Ed25519 flag 0x00, got 0x1"
    );
    let e = error(secret("suiprivkey", &[0, 1, 2]));
    assert_eq!(e, KeyError::WrongLength(2));
    assert_eq!(e.message(), "Ed25519 key must be 32 bytes, got 2");
}

#[test]
fn the_payload_is_the_key() {
    let mut data = vec![0u8];
    data.extend(1..=32u8);
    let key = key_from_payload(Ok(("suiprivkey".into(), data))).unwrap();
    assert_eq!(key.to_vec(), (1..=32u8).collect::<Vec<u8>>());
    assert_eq!(
        key_from_payload(Err("bad".into())),
        Err(KeyError::Bech32("bad".into()))
    );
}

// ---------------------------------------------------------------------------
// Calls
// ---------------------------------------------------------------------------

fn resolve_args() -> Vec<CallArg> {
    vec![
        CallArg::SharedMut {
            id: "0xb0".into(),
            initial_version: 11,
        },
        CallArg::PureU64Vec(vec![1, 258]),
        CallArg::SharedRef {
            id: "0xc0".into(),
            initial_version: 12,
        },
        CallArg::OwnedKeeperCap,
        CallArg::ClockRef,
    ]
}

#[test]
fn a_call_becomes_a_signed_transaction() {
    let signer = signer();
    let call = Call::start(PACKAGE, "resolve", resolve_args()).unwrap_or_else(|e| panic!("{e:?}"));
    let (call, need) = call.advance().unwrap_or_else(|e| panic!("{e:?}"));
    assert_eq!(need, Need::KeeperCap);
    let call = call.supply_cap(&cap()).unwrap_or_else(|e| panic!("{e:?}"));
    let (call, need) = call.advance().unwrap_or_else(|e| panic!("{e:?}"));
    assert_eq!(need, Need::Coins);
    let coins = vec![coin("0xd1", 1, 10), coin("0xd2", 2, 30), coin("0xd3", 3, 30)];
    let call = call.pay(&signer, &coins).unwrap_or_else(|e| panic!("{e:?}"));
    let signed = call.seal(750, &signer).unwrap_or_else(|e| panic!("{e:?}"));

    let tx = decode_transaction(&signed);
    let address = |s: &str| s.parse::<sui_sdk_types::Address>().unwrap();
    assert_eq!(tx.sender.into_inner(), signer.address);
    assert_eq!(tx.gas_payment.budget, 100_000_000);
    assert_eq!(tx.gas_payment.price, 750);
    assert_eq!(tx.gas_payment.objects.len(), 1);
    // of the two largest, the last pays
    assert_eq!(*tx.gas_payment.objects[0].object_id(), address("0xd3"));
    let sui_sdk_types::TransactionKind::ProgrammableTransaction(ptb) = &tx.kind else {
        panic!("not a programmable transaction");
    };
    assert_eq!(ptb.inputs.len(), 5);
    assert_eq!(
        ptb.inputs[0],
        sui_sdk_types::Input::Shared(sui_sdk_types::SharedInput::new(address("0xb0"), 11, true))
    );
    let mut numbers = vec![2u8];
    numbers.extend(1u64.to_le_bytes());
    numbers.extend(258u64.to_le_bytes());
    assert_eq!(ptb.inputs[1], sui_sdk_types::Input::Pure(numbers));
    assert_eq!(
        ptb.inputs[2],
        sui_sdk_types::Input::Shared(sui_sdk_types::SharedInput::new(address("0xc0"), 12, false))
    );
    assert_eq!(
        ptb.inputs[3],
        sui_sdk_types::Input::ImmutableOrOwned(sui_sdk_types::ObjectReference::new(
            address("0xca"),
            5,
            DIGEST.parse().unwrap(),
        ))
    );
    assert_eq!(
        ptb.inputs[4],
        sui_sdk_types::Input::Shared(sui_sdk_types::SharedInput::new(address("0x6"), 1, false))
    );
    let sui_sdk_types::Command::MoveCall(call) = &ptb.commands[0] else {
        panic!("not a call");
    };
    assert_eq!(ptb.commands.len(), 1);
    assert_eq!(call.package, address(PACKAGE));
    assert_eq!(call.module.as_str(), "apex_pool");
    assert_eq!(call.function.as_str(), "resolve");
    assert_eq!(
        call.arguments,
        (0..5u16).map(sui_sdk_types::Argument::Input).collect::<Vec<_>>()
    );

    let key = sui_crypto::ed25519::Ed25519PrivateKey::new([7u8; 32]);
    let signature = sui_sdk_types::UserSignature::from_base64(&signed.signature).unwrap();
    key.verifying_key().verify_transaction(&tx, &signature).unwrap();
}

#[test]
fn one_object_is_one_input() {
    let args = vec![
        CallArg::SharedRef {
            id: "0xb0".into(),
            initial_version: 11,
        },
        CallArg::PureU64(9),
        CallArg::SharedMut {
            id: "0xb0".into(),
            initial_version: 99,
        },
        CallArg::PureU64(9),
        CallArg::PureObjectIdVec(vec!["0x1".into(), "2".into()]),
    ];
    let signer = signer();
    let call = Call::start("0xab", "f", args).unwrap_or_else(|e| panic!("{e:?}"));
    let (call, _) = call.advance().unwrap_or_else(|e| panic!("{e:?}"));
    let call = call
        .pay(&signer, &vec![coin("0xd1", 1, 1)])
        .unwrap_or_else(|e| panic!("{e:?}"));
    let signed = call.seal(1, &signer).unwrap_or_else(|e| panic!("{e:?}"));
    let tx = decode_transaction(&signed);
    let sui_sdk_types::TransactionKind::ProgrammableTransaction(ptb) = &tx.kind else {
        panic!("not a programmable transaction");
    };
    assert_eq!(ptb.inputs.len(), 3);
    assert_eq!(
        ptb.inputs[0],
        sui_sdk_types::Input::Shared(sui_sdk_types::SharedInput::new(
            "0xb0".parse().unwrap(),
            11,
            true,
        ))
    );
    assert_eq!(ptb.inputs[1], sui_sdk_types::Input::Pure(9u64.to_le_bytes().to_vec()));
    let mut ids = vec![2u8];
    ids.extend([0u8; 31]);
    ids.push(1);
    ids.extend([0u8; 31]);
    ids.push(2);
    assert_eq!(ptb.inputs[2], sui_sdk_types::Input::Pure(ids));
    let sui_sdk_types::Command::MoveCall(call) = &ptb.commands[0] else {
        panic!("not a call");
    };
    assert_eq!(
        call.arguments,
        [0u16, 1, 0, 1, 2].map(sui_sdk_types::Argument::Input).to_vec()
    );
}

fn start_error(package: &str, function: &str, args: Vec<CallArg>) -> TxError {
    match Call::start(package, function, args) {
        Err(e) => e,
        Ok(call) => match call.advance() {
            Err(e) => e,
            Ok((call, _)) => match call.supply_cap(&ObjectData { digest: "0".into(), ..cap() }) {
                Err(e) => e,
                Ok(_) => panic!("a bad call was taken"),
            },
        },
    }
}

#[test]
fn bad_calls_say_why() {
    let clock = || vec![CallArg::ClockRef];
    assert_eq!(start_error("0x", "f", clock()), TxError::BadPackageId);
    assert_eq!(start_error("", "f", clock()), TxError::BadPackageId);
    assert_eq!(start_error("0xg", "f", clock()), TxError::BadPackageId);
    assert_eq!(
        start_error(&"1".repeat(65), "f", clock()),
        TxError::BadPackageId
    );
    assert_eq!(start_error("0xab", "", clock()), TxError::BadFunctionName);
    assert_eq!(start_error("0xab", "_", clock()), TxError::BadFunctionName);
    assert_eq!(start_error("0xab", "1f", clock()), TxError::BadFunctionName);
    assert_eq!(
        start_error(
            "0xab",
            "f",
            vec![CallArg::SharedMut {
                id: "x".into(),
                initial_version: 1
            }]
        ),
        TxError::BadSharedObjectId
    );
    assert_eq!(
        start_error(
            "0xab",
            "f",
            vec![CallArg::SharedRef {
                id: "x".into(),
                initial_version: 1
            }]
        ),
        TxError::BadSharedObjectId
    );
    assert_eq!(
        start_error("0xab", "f", vec![CallArg::PureObjectIdVec(vec!["0x1".into(), "x".into()])]),
        TxError::BadOracleId
    );
    assert_eq!(
        start_error("0xab", "f", vec![CallArg::OwnedKeeperCap]),
        TxError::BadKeeperCapDigest
    );
    let call = Call::start("0xab", "f", vec![CallArg::OwnedKeeperCap]).unwrap_or_else(|e| panic!("{e:?}"));
    let (call, _) = call.advance().unwrap_or_else(|e| panic!("{e:?}"));
    let nameless = ObjectData { object_id: "x".into(), ..cap() };
    assert_eq!(call.supply_cap(&nameless).err(), Some(TxError::BadKeeperCapId));
}

#[test]
fn gas_must_be_paid() {
    let signer = signer();
    let ready = || {
        let call = Call::start("0xab", "f", vec![CallArg::ClockRef]).unwrap_or_else(|e| panic!("{e:?}"));
        call.advance().unwrap_or_else(|e| panic!("{e:?}")).0
    };
    let broke = ready().pay(&signer, &vec![]).err().unwrap();
    assert_eq!(broke, TxError::NoGasCoins(signer.address));
    assert_eq!(
        broke.message(),
        format!("keeper address {} has no SUI gas coins", signer.address_text())
    );
    assert_eq!(
        ready().pay(&signer, &vec![coin("x", 1, 1)]).err(),
        Some(TxError::BadCoinId)
    );
    let bad = GasCoin { digest: "0".into(), ..coin("0x1", 1, 1) };
    assert_eq!(ready().pay(&signer, &vec![bad]).err(), Some(TxError::BadCoinDigest));
}

#[test]
fn messages_of_call_errors() {
    for (e, m) in [
        (TxError::BadPackageId, "bad package id"),
        (TxError::BadSharedObjectId, "bad shared object id"),
        (TxError::BadKeeperCapId, "bad keeper cap id"),
        (TxError::BadKeeperCapDigest, "bad keeper cap digest"),
        (TxError::BadOracleId, "bad oracle id"),
        (TxError::BadFunctionName, "bad function name"),
        (TxError::Serialize, "bcs serialize tx"),
        (TxError::Build("b".into()), "PTB build failed: b"),
        (TxError::Signing("s".into()), "signing failed: s"),
    ] {
        assert_eq!(e.message(), m);
    }
    let address = "x".parse::<sui_sdk_types::Address>().unwrap_err();
    assert_eq!(TxError::BadCoinId.message(), address.to_string());
    let digest = "0".parse::<sui_sdk_types::Digest>().unwrap_err();
    assert_eq!(TxError::BadCoinDigest.message(), digest.to_string());
}

#[test]
fn a_call_of_the_greatest_length_is_built() {
    let args: Vec<CallArg> = (0..65_535u64).map(CallArg::PureU64).collect();
    let call = Call::start(PACKAGE, "f", args).unwrap_or_else(|e| panic!("{e:?}"));
    let (call, need) = call.advance().unwrap_or_else(|e| panic!("{e:?}"));
    assert_eq!(need, Need::Coins);
    let call = call
        .pay(&signer(), &vec![coin("0x1", 1, 1)])
        .unwrap_or_else(|e| panic!("{e:?}"));
    let signed = call.seal(1, &signer()).unwrap_or_else(|e| panic!("{e:?}"));
    let tx = decode_transaction(&signed);
    let sui_sdk_types::TransactionKind::ProgrammableTransaction(ptb) = &tx.kind else {
        panic!("not programmable");
    };
    assert_eq!(ptb.inputs.len(), 65_535);
    let sui_sdk_types::Command::MoveCall(call) = &ptb.commands[0] else {
        panic!("not a call");
    };
    assert_eq!(call.arguments[65_534], sui_sdk_types::Argument::Input(65_534));
}

#[test]
fn ordinary_arguments_fit() {
    assert!(arguments_fit(&resolve_args()));
    assert!(arguments_fit(&(0..65_535u64).map(CallArg::PureU64).collect()));
    assert!(!arguments_fit(&(0..65_536u64).map(CallArg::PureU64).collect()));
}

// ---------------------------------------------------------------------------
// Turns
// ---------------------------------------------------------------------------

fn pool(state: &str) -> WatchedPool {
    WatchedPool {
        pool_id: "0xb0".into(),
        state: state.into(),
        commit_deadline_ms: 100,
        reveal_deadline_ms: 200,
        initial_shared_version: Some(11),
        oracle_ids: Some(Value::Array(vec![text("0x1"), text("0x2")])),
    }
}

#[test]
fn an_action_is_due_past_its_deadline() {
    assert_eq!(due(&pool("Open"), 100), None);
    assert_eq!(due(&pool("Open"), 101), Some(Action::ClosePool));
    assert_eq!(due(&pool("Closed"), 200), None);
    assert_eq!(due(&pool("Closed"), 201), Some(Action::LockPool));
    assert_eq!(due(&pool("Locked"), 0), Some(Action::Resolve));
    assert_eq!(due(&pool("Scored"), 0), Some(Action::Distribute));
    assert_eq!(due(&pool("Distributed"), i64::MAX), None);
    let unseen = WatchedPool { initial_shared_version: None, ..pool("Scored") };
    assert_eq!(due(&unseen, 0), None);
    assert_eq!(Action::ClosePool.function(), "close_pool");
    assert_eq!(Action::LockPool.function(), "lock_pool");
    assert_eq!(Action::Resolve.function(), "resolve");
    assert_eq!(Action::Distribute.function(), "distribute");
}

fn pool_object(state: &str) -> ObjectData {
    ObjectData {
        object_id: "0xb0".into(),
        version: 1,
        digest: "d".into(),
        initial_shared_version: Some(11),
        fields: object(vec![("state", object(vec![("variant", text(state))]))]),
        type_: None,
    }
}

fn oracle_object(id: &str, settlement: Value) -> ObjectData {
    let signed = |m: &str| {
        object(vec![(
            "fields",
            object(vec![("magnitude", text(m)), ("is_negative", Value::Bool(false))]),
        )])
    };
    ObjectData {
        object_id: id.into(),
        version: 1,
        digest: "d".into(),
        initial_shared_version: Some(1),
        fields: object(vec![
            ("expiry", text("1000")),
            (
                "svi",
                object(vec![(
                    "fields",
                    object(vec![
                        ("a", text("1")),
                        ("b", text("2")),
                        ("rho", signed("3")),
                        ("m", signed("4")),
                        ("sigma", text("5")),
                    ]),
                )]),
            ),
            ("settlement_price", settlement),
        ]),
        type_: None,
    }
}

#[test]
fn closing_asks_twice_before_it_sends() {
    let turn = Turn::begin(pool("Open"), 101).unwrap();
    assert_eq!(turn.stage(), Stage::Recent);
    let turn = turn.reply(Reply::Attempted(false)).unwrap();
    assert_eq!(turn.stage(), Stage::Chain);
    let turn = turn.reply(Reply::Pool(pool_object("Open"))).unwrap();
    assert_eq!(turn.stage(), Stage::Send);
    assert_eq!(
        turn.call_args("0xc0"),
        vec![
            CallArg::SharedMut {
                id: "0xb0".into(),
                initial_version: 11
            },
            CallArg::ClockRef,
        ]
    );
    // a turn that ended takes no reply
    assert!(turn.reply(Reply::Attempted(false)).is_none());
}

#[test]
fn a_turn_ends_when_the_call_is_not_warranted() {
    let turn = Turn::begin(pool("Open"), 101).unwrap();
    assert_eq!(turn.reply(Reply::Attempted(true)).unwrap().stage(), Stage::Over);
    let turn = Turn::begin(pool("Open"), 101).unwrap();
    let turn = turn.reply(Reply::Attempted(false)).unwrap();
    let turn = turn.reply(Reply::Pool(pool_object("Closed"))).unwrap();
    assert_eq!(turn.stage(), Stage::Over);
    assert!(Turn::begin(pool("Open"), 100).is_none());
    let turn = Turn::begin(pool("Open"), 101).unwrap();
    assert!(turn.reply(Reply::ConfigVersion(1)).is_none());
}

#[test]
fn resolving_needs_every_settlement_price() {
    let turn = Turn::begin(pool("Locked"), 0).unwrap();
    assert_eq!(turn.stage(), Stage::Oracles);
    let objects = vec![
        oracle_object("0x2", text("20")),
        oracle_object("1", text("10")),
    ];
    let turn = turn.reply(Reply::Oracles(objects)).unwrap();
    assert_eq!(turn.stage(), Stage::Config);
    let turn = turn.reply(Reply::ConfigVersion(12)).unwrap();
    let turn = turn.reply(Reply::Attempted(false)).unwrap();
    let turn = turn.reply(Reply::Pool(pool_object("Locked"))).unwrap();
    assert_eq!(turn.stage(), Stage::Send);
    assert_eq!(
        turn.call_args("0xc0"),
        vec![
            CallArg::SharedMut {
                id: "0xb0".into(),
                initial_version: 11
            },
            CallArg::PureU64Vec(vec![10, 20]),
            CallArg::SharedRef {
                id: "0xc0".into(),
                initial_version: 12
            },
            CallArg::OwnedKeeperCap,
            CallArg::ClockRef,
        ]
    );

    let turn = Turn::begin(pool("Locked"), 0).unwrap();
    let objects = vec![
        oracle_object("0x2", text("20")),
        oracle_object("0x1", Value::Null),
    ];
    assert_eq!(turn.reply(Reply::Oracles(objects)).unwrap().stage(), Stage::Over);
    let without = WatchedPool { oracle_ids: None, ..pool("Locked") };
    assert_eq!(Turn::begin(without, 0).unwrap().stage(), Stage::Over);
}

#[test]
fn distributing_needs_the_configuration() {
    let turn = Turn::begin(pool("Scored"), 0).unwrap();
    assert_eq!(turn.stage(), Stage::Config);
    let turn = turn.reply(Reply::ConfigVersion(12)).unwrap();
    let turn = turn.reply(Reply::Attempted(false)).unwrap();
    let turn = turn.reply(Reply::Pool(pool_object("Scored"))).unwrap();
    assert_eq!(
        turn.call_args("0xc0"),
        vec![
            CallArg::SharedMut {
                id: "0xb0".into(),
                initial_version: 11
            },
            CallArg::SharedRef {
                id: "0xc0".into(),
                initial_version: 12
            },
            CallArg::OwnedKeeperCap,
        ]
    );
}

#[test]
fn settlement_prices_follow_the_ids() {
    let ids: Vec<String> = vec!["0x1".into(), "0x2".into()];
    let both = vec![
        oracle_object("0x2", text("20")),
        oracle_object("0x1", text("10")),
    ];
    assert_eq!(settlement_prices(&ids, &both), Some(vec![10, 20]));
    assert_eq!(settlement_prices(&vec![], &vec![]), None);
    assert_eq!(settlement_prices(&ids, &vec![oracle_object("0x1", text("10"))]), None);
    let strangers = vec![
        oracle_object("0x3", text("20")),
        oracle_object("0x1", text("10")),
    ];
    assert_eq!(settlement_prices(&ids, &strangers), None);
    assert_eq!(oracles_of(&pool("Open").oracle_ids), ids);
    assert_eq!(oracles_of(&Some(Value::Array(vec![Value::Null]))), Vec::<String>::new());
    assert_eq!(oracles_of(&None), Vec::<String>::new());
}

#[test]
fn the_configuration_must_be_shared() {
    assert_eq!(config_initial_version(&pool_object("Open"), "0xc0"), Ok(11));
    assert_eq!(
        config_initial_version(&cap(), "0xc0"),
        Err("PoolConfig 0xc0 is not a shared object".to_string())
    );
}

#[test]
fn tries_are_recorded() {
    let run = |success: bool| Execution {
        digest: "D".into(),
        success,
        error: Some("abort".into()),
    };
    let ok = record_action(Ok(run(true)));
    assert_eq!(
        ok,
        ActionRecord {
            tx_digest: Some("D".into()),
            success: true,
            error: None
        }
    );
    assert_eq!(ok.status(), "success");
    let failed = record_action(Ok(run(false)));
    assert_eq!(
        failed,
        ActionRecord {
            tx_digest: Some("D".into()),
            success: false,
            error: Some("abort".into())
        }
    );
    assert_eq!(failed.status(), "failed");
    assert_eq!(
        record_action(Err("bad package id".into())),
        ActionRecord {
            tx_digest: None,
            success: false,
            error: Some("bad package id".into())
        }
    );
}
