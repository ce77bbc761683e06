use apex_backend::indexer::sync_pool;
use apex_backend::json::{Number, Value};
use apex_backend::keeper::oracles_of;
use apex_backend::keeper::tx::{Call, KeeperSigner, Need};
use apex_backend::math::{composite_weight, sqrt_fp, FLOAT_SCALING, MAX_TIME_BONUS};
use apex_backend::sui::client::GasCoin;
use apex_backend::sui::types::{field_u64_vec, parse_u64, ObjectData};
use apex_backend::text::{
    i64_text, join, join3, parse_list, parse_unsigned, segment, to_lower, trim, u128_text,
    u64_text, without_hex_prefix,
};
use base64::Engine;

#[test]
fn decimals_read_back() {
    for n in [0u64, 9, 10, 1_234_567_890, u64::MAX] {
        assert_eq!(u64_text(n), n.to_string());
        assert_eq!(parse_unsigned(&u64_text(n), u64::MAX), Some(n));
        assert_eq!(parse_u64(&Value::decimal(n)), Some(n));
    }
    assert_eq!(u128_text(u128::MAX), u128::MAX.to_string());
    for n in [i64::MIN, -1, 0, i64::MAX] {
        assert_eq!(i64_text(n), n.to_string());
    }
    assert_eq!(parse_unsigned("65536", 65_535), None);
    assert_eq!(parse_unsigned("65535", 65_535), Some(65_535));
    assert_eq!(parse_unsigned("+", 9), None);
    assert_eq!(parse_unsigned("-1", 9), None);
}

#[test]
fn different_numbers_have_different_texts() {
    assert_ne!(u64_text(12), u64_text(21));
    assert_ne!(u64_text(1), u64_text(10));
}

#[test]
fn texts_are_joined_and_trimmed() {
    assert_eq!(join("a", "b"), "ab");
    assert_eq!(join3("a", "", "c"), "ac");
    assert_eq!(trim(" \t a b\u{2003}\n"), "a b");
    assert_eq!(trim("\u{a0}"), "");
    assert_eq!(parse_list("a,, b ,c"), vec!["a", "b", "c"]);
    assert_eq!(parse_list(""), Vec::<String>::new());
}

#[test]
fn white_space_is_what_unicode_says() {
    let listed = [
        0x9, 0xa, 0xb, 0xc, 0xd, 0x20, 0x85, 0xa0, 0x1680, 0x2000, 0x2001, 0x2002, 0x2003, 0x2004,
        0x2005, 0x2006, 0x2007, 0x2008, 0x2009, 0x200a, 0x2028, 0x2029, 0x202f, 0x205f, 0x3000u32,
    ];
    for n in 0..=0x10ffffu32 {
        if let Some(c) = char::from_u32(n) {
            assert_eq!(trim(&c.to_string()).is_empty(), listed.contains(&n), "{n:#x}");
            assert_eq!(c.is_whitespace(), listed.contains(&n), "{n:#x}");
        }
    }
}

#[test]
fn only_ascii_letters_are_lowered() {
    for s in ["", "OPEN", "oPeN", "AZaz@[`{09_", "\u{c4}\u{130}K\u{212a}"] {
        assert_eq!(to_lower(s), s.to_ascii_lowercase());
    }
}

#[test]
fn names_and_prefixes_are_cut_off() {
    assert_eq!(segment("0xabc::apex_pool::PoolCreated"), "PoolCreated");
    assert_eq!(segment("plain"), "plain");
    assert_eq!(segment("a:::b"), "b");
    assert_eq!(segment("a::"), "");
    for s in ["0x12", "12", "0x0x12", "0X12", "0x", "x"] {
        assert_eq!(without_hex_prefix(s), s.trim_start_matches("0x"));
    }
}

#[test]
fn numbers_have_a_text() {
    assert_eq!(Number::PosInt(5).to_text(), "5");
    assert_eq!(Number::NegInt(-5).to_text(), "-5");
    assert_eq!(Number::Float("1.5".into()).to_text(), "1.5");
}

#[test]
fn lists_of_numbers_read_back() {
    let list = vec![0, 7, u64::MAX];
    let stored = Value::Object(vec![("v".to_string(), Value::decimal_array(&list))]);
    assert_eq!(field_u64_vec(&stored, "v"), Some(list));
}

#[test]
fn the_keeper_reads_the_oracles_that_were_stored() {
    let ids = vec!["0x1".to_string(), "0x2".to_string()];
    let object = ObjectData {
        object_id: "0xp".into(),
        version: 1,
        digest: "d".into(),
        initial_shared_version: None,
        fields: Value::Object(vec![("oracle_ids".to_string(), Value::text_array(&ids))]),
        type_: None,
    };
    assert_eq!(oracles_of(&sync_pool(&object).oracle_ids), ids);
}

#[test]
fn the_first_entry_of_a_name_counts() {
    let v = Value::Object(vec![
        ("a".to_string(), Value::unsigned(1)),
        ("a".to_string(), Value::unsigned(2)),
    ]);
    assert_eq!(v.get("a"), Some(&Value::unsigned(1)));
    assert_eq!(v.get("b"), None);
    assert_eq!(Value::Null.get("a"), None);
    assert_eq!(v.copy(), v);
}

#[test]
fn an_address_that_is_written_down_reads_back() {
    let mut payload = vec![0u8];
    payload.extend([9u8; 32]);
    let key = bech32::encode::<bech32::Bech32>(bech32::Hrp::parse("suiprivkey").unwrap(), &payload);
    let signer = KeeperSigner::from_bech32(&key.unwrap()).unwrap();
    // the keeper calls a package at its own address
    let call = Call::start(&signer.address_text(), "f", vec![]).unwrap_or_else(|e| panic!("{e:?}"));
    let (call, need) = call.advance().unwrap_or_else(|e| panic!("{e:?}"));
    assert_eq!(need, Need::Coins);
    let coin = GasCoin {
        id: signer.address_text(),
        version: 1,
        digest: "7opR9rFUYivSTqoJHvFb9p6p54THyHTatMG6id4JKZR9".into(),
        balance: 1,
    };
    let call = call.pay(&signer, &vec![coin]).unwrap_or_else(|e| panic!("{e:?}"));
    let signed = call.seal(1, &signer).unwrap_or_else(|e| panic!("{e:?}"));
    let bytes = base64::engine::general_purpose::STANDARD
        .decode(&signed.tx_bytes)
        .unwrap();
    let tx: sui_sdk_types::Transaction = bcs::from_bytes(&bytes).unwrap();
    assert_eq!(tx.gas_payment.objects[0].object_id().into_inner(), signer.address);
    assert_eq!(tx.sender.into_inner(), signer.address);
}

#[test]
fn roots_and_weights_are_bounded() {
    assert!(sqrt_fp(2 * FLOAT_SCALING) <= sqrt_fp(3 * FLOAT_SCALING));
    assert_eq!(sqrt_fp(9 * FLOAT_SCALING), 3 * FLOAT_SCALING);
    assert_eq!(composite_weight(1_000, FLOAT_SCALING, MAX_TIME_BONUS), 2_500);
    assert_eq!(composite_weight(1_000, 0, MAX_TIME_BONUS), 0);
}
