//! Values of the fullnode's JSON-RPC interface, and lenient readers for the JSON
//! of Move objects. The fullnode writes 64-bit and 128-bit integers as strings,
//! and Move enums as a plain string or as `{"variant": ...}` depending on its
//! version; both forms are read.

use vstd::prelude::*;

use crate::json::{
    first_entry, json_decimal, json_decimals, json_int, json_opt_text, json_text, json_texts, member, member_of, owned, text,
    text_of, Json, Number, Value,
};
use crate::text::{law_decimal_reads_back, law_numbers_are_digits, parse_unsigned, unsigned, view_all, view_opt};

verus! {

// ---------------------------------------------------------------------------
// Events
// ---------------------------------------------------------------------------

/// The position of an event, used as a cursor.
#[derive(Debug, Clone, PartialEq, Eq)]
pub struct EventId {
    pub tx_digest: String,
    pub event_seq: String,
}

pub struct EventIdView {
    pub tx_digest: Seq<char>,
    pub event_seq: Seq<char>,
}

impl View for EventId {
    type V = EventIdView;

    open spec fn view(&self) -> EventIdView {
        EventIdView { tx_digest: self.tx_digest@, event_seq: self.event_seq@ }
    }
}

impl EventId {
    pub fn copy(&self) -> (r: EventId)
        ensures
            r@ == self@,
    {
        EventId { tx_digest: self.tx_digest.clone(), event_seq: self.event_seq.clone() }
    }
}

#[derive(Debug, PartialEq, Eq)]
pub struct SuiEvent {
    pub id: EventId,
    pub event_type: String,
    pub parsed_json: Value,
    pub timestamp_ms: Option<String>,
}

pub struct SuiEventView {
    pub id: EventIdView,
    pub event_type: Seq<char>,
    pub parsed_json: Json,
}

impl View for SuiEvent {
    type V = SuiEventView;

    /// What the indexer reads of an event.
    open spec fn view(&self) -> SuiEventView {
        SuiEventView {
            id: self.id@,
            event_type: self.event_type@,
            parsed_json: self.parsed_json@,
        }
    }
}

/// One page of events, in ascending order.
#[derive(Debug, PartialEq, Eq)]
pub struct EventPage {
    pub data: Vec<SuiEvent>,
    pub next_cursor: Option<EventId>,
    pub has_next_page: bool,
}

// ---------------------------------------------------------------------------
// Field readers
// ---------------------------------------------------------------------------

/// An unsigned 64-bit number: a string that denotes one, or a JSON number.
pub open spec fn number(j: Json) -> Option<u64> {
    match j {
        Json::Text(s) => match unsigned(s, u64::MAX as int) {
            Some(n) => Some(n as u64),
            None => None,
        },
        Json::Unsigned(n) => if n <= u64::MAX {
            Some(n as u64)
        } else {
            None
        },
        _ => None,
    }
}

pub open spec fn number_of(j: Option<Json>) -> Option<u64> {
    match j {
        Some(j) => number(j),
        None => None,
    }
}

/// Reads a `u64` from a JSON string or a JSON number.
pub fn parse_u64(v: &Value) -> (r: Option<u64>)
    ensures
        r == number(v@),
{
    match v {
        Value::String(s) => parse_unsigned(s.as_str(), u64::MAX),
        Value::Number(n) => match n {
            Number::PosInt(n) => Some(*n),
            _ => None,
        },
        _ => None,
    }
}

/// The field `name` as a `u64`.
pub fn field_u64(fields: &Value, name: &str) -> (r: Option<u64>)
    ensures
        r == number_of(member(fields@, name@)),
{
    match fields.get(name) {
        Some(v) => parse_u64(v),
        None => None,
    }
}

/// The field `name` as a string.
pub fn field_str<'a>(fields: &'a Value, name: &str) -> (r: Option<&'a str>)
    ensures
        view_opt(r) == text_of(member(fields@, name@)),
{
    fields.get_str(name)
}

/// The first element of an array that may be absent.
pub open spec fn first_of(j: Option<Json>) -> Option<Json> {
    match j {
        Some(Json::Array(items)) => if items.len() > 0 {
            Some(items[0])
        } else {
            None
        },
        _ => None,
    }
}

/// An optional number: the number itself, or the first element of
/// `{"fields": {"vec": [...]}}`.
pub open spec fn optional_number(j: Option<Json>) -> Option<u64> {
    match number_of(j) {
        Some(n) => Some(n),
        None => number_of(first_of(member_of(member_of(j, "fields"@), "vec"@))),
    }
}

/// The field `name` as a Move `Option<u64>`: null or the value, or the wrapped
/// form of older nodes.
pub fn field_opt_u64(fields: &Value, name: &str) -> (r: Option<u64>)
    ensures
        r == optional_number(member(fields@, name@)),
{
    match fields.get(name) {
        None => None,
        Some(v) => {
            let direct = parse_u64(v);
            if direct.is_some() {
                return direct;
            }
            match v.get2("fields", "vec") {
                None => None,
                Some(vec) => match vec.as_array() {
                    None => None,
                    Some(items) => if items.len() > 0 {
                        parse_u64(&items[0])
                    } else {
                        None
                    },
                },
            }
        },
    }
}

/// The variant of a Move enum: a plain string, or the member `variant`.
pub open spec fn variant_name(j: Option<Json>) -> Option<Seq<char>> {
    match text_of(j) {
        Some(s) => Some(s),
        None => text_of(member_of(j, "variant"@)),
    }
}

/// The field `name` as the variant of a Move enum.
pub fn field_enum_variant(fields: &Value, name: &str) -> (r: Option<String>)
    ensures
        view_opt(r) == variant_name(member(fields@, name@)),
{
    match fields.get(name) {
        None => None,
        Some(v) => match v.as_str() {
            Some(s) => Some(s.to_owned()),
            None => owned(v.get_str("variant")),
        },
    }
}

/// A list of numbers: an array whose every element is one.
pub open spec fn number_list(j: Option<Json>) -> Option<Seq<u64>> {
    match j {
        Some(Json::Array(items)) => if forall|i: int|
            0 <= i < items.len() ==> number(#[trigger] items[i]) is Some {
            Some(Seq::new(items.len(), |i: int| number(items[i])->0))
        } else {
            None
        },
        _ => None,
    }
}

/// The field `name` as a `vector<u64>`.
pub fn field_u64_vec(fields: &Value, name: &str) -> (r: Option<Vec<u64>>)
    ensures
        view_opt(r) == number_list(member(fields@, name@)),
{
    let items = match fields.get(name) {
        None => return None,
        Some(v) => match v.as_array() {
            None => return None,
            Some(items) => items,
        },
    };
    let ghost all = view_all(items@);
    let mut out: Vec<u64> = Vec::new();
    let mut i: usize = 0;
    while i < items.len()
        invariant
            i <= items@.len(),
            all == view_all(items@),
            member(fields@, name@) == Some(Json::Array(all)),
            forall|k: int| 0 <= k < i ==> number(#[trigger] all[k]) is Some,
            out@ =~= Seq::new(i as nat, |k: int| number(all[k])->0),
        decreases items@.len() - i,
    {
        match parse_u64(&items[i]) {
            None => {
                assert(number(all[i as int]) is None);
                return None;
            },
            Some(n) => {
                assert(number(all[i as int]) == Some(n));
                out.push(n);
            },
        }
        i = i + 1;
    }
    Some(out)
}

/// A list of strings: an array whose every element is one.
pub open spec fn text_list(j: Option<Json>) -> Option<Seq<Seq<char>>> {
    match j {
        Some(Json::Array(items)) => if forall|i: int|
            0 <= i < items.len() ==> text(#[trigger] items[i]) is Some {
            Some(Seq::new(items.len(), |i: int| text(items[i])->0))
        } else {
            None
        },
        _ => None,
    }
}

/// The texts of a list that may be absent.
pub open spec fn texts_opt(v: Option<Vec<String>>) -> Option<Seq<Seq<char>>> {
    match v {
        Some(v) => Some(view_all(v@)),
        None => None,
    }
}

/// A JSON value as a list of strings.
pub fn string_list(v: &Value) -> (r: Option<Vec<String>>)
    ensures
        texts_opt(r) == text_list(Some(v@)),
{
    let items = match v.as_array() {
        None => return None,
        Some(items) => items,
    };
    let ghost all = view_all(items@);
    let mut out: Vec<String> = Vec::new();
    let mut i: usize = 0;
    while i < items.len()
        invariant
            i <= items@.len(),
            all == view_all(items@),
            v@ == Json::Array(all),
            forall|k: int| 0 <= k < i ==> text(#[trigger] all[k]) is Some,
            view_all(out@) =~= Seq::new(i as nat, |k: int| text(all[k])->0),
        decreases items@.len() - i,
    {
        match items[i].as_str() {
            None => {
                assert(text(all[i as int]) is None);
                return None;
            },
            Some(s) => {
                assert(text(all[i as int]) == Some(s@));
                let ghost before = out@;
                out.push(s.to_owned());
                assert(view_all(out@) =~= view_all(before).push(s@));
            },
        }
        i = i + 1;
    }
    Some(out)
}

/// The field `name` as a `vector<ID>`: IDs are plain strings.
pub fn field_id_vec(fields: &Value, name: &str) -> (r: Option<Vec<String>>)
    ensures
        texts_opt(r) == text_list(member(fields@, name@)),
{
    match fields.get(name) {
        None => None,
        Some(v) => string_list(v),
    }
}

/// A number that was written as a string reads back.
pub proof fn law_number_reads_back(n: u64)
    ensures
        number(json_decimal(n as int)) == Some(n),
{
    law_decimal_reads_back(n as nat, u64::MAX as int);
}

/// A list of numbers that was written as strings reads back.
pub proof fn law_number_list_reads_back(v: Seq<u64>)
    ensures
        number_list(Some(json_decimals(v))) == Some(v),
{
    let items = json_decimals(v)->Array_0;
    assert forall|i: int| 0 <= i < items.len() implies number(#[trigger] items[i]) == Some(
        v[i],
    ) by {
        law_number_reads_back(v[i]);
    }
    assert(number_list(Some(json_decimals(v)))->0 =~= v);
}

/// A list of strings reads back.
pub proof fn law_text_list_reads_back(v: Seq<Seq<char>>)
    ensures
        text_list(Some(json_texts(v))) == Some(v),
{
    let items = json_texts(v)->Array_0;
    assert forall|i: int| 0 <= i < items.len() implies text(#[trigger] items[i]) == Some(v[i]) by {}
    assert(text_list(Some(json_texts(v)))->0 =~= v);
}

/// The object id of a table: `fields.id.id`.
pub open spec fn table_id(j: Option<Json>) -> Option<Seq<char>> {
    text_of(member_of(member_of(member_of(j, "fields"@), "id"@), "id"@))
}

/// The object id of the table in the field `name`.
pub fn field_table_id(fields: &Value, name: &str) -> (r: Option<String>)
    ensures
        view_opt(r) == table_id(member(fields@, name@)),
{
    match fields.get2(name, "fields") {
        None => None,
        Some(v) => match v.get2("id", "id") {
            None => None,
            Some(id) => owned(id.as_str()),
        },
    }
}

// ---------------------------------------------------------------------------
// Objects
// ---------------------------------------------------------------------------

#[derive(Debug, PartialEq, Eq)]
pub struct ObjectData {
    pub object_id: String,
    pub version: u64,
    pub digest: String,
    /// Present if the object is shared.
    pub initial_shared_version: Option<u64>,
    /// The fields of a Move object; null without content.
    pub fields: Value,
    /// The full Move type.
    pub type_: Option<String>,
}

pub struct ObjectView {
    pub object_id: Seq<char>,
    pub version: u64,
    pub digest: Seq<char>,
    pub initial_shared_version: Option<u64>,
    pub fields: Json,
    pub type_: Option<Seq<char>>,
}

impl View for ObjectData {
    type V = ObjectView;

    open spec fn view(&self) -> ObjectView {
        ObjectView {
            object_id: self.object_id@,
            version: self.version,
            digest: self.digest@,
            initial_shared_version: self.initial_shared_version,
            fields: self.fields@,
            type_: view_opt(self.type_),
        }
    }
}

/// The object in a `data` payload: its id, version and digest must be there,
/// the rest is read where it is found.
pub open spec fn object(data: Json) -> Option<ObjectView> {
    match (
        text_of(member(data, "objectId"@)),
        number_of(member(data, "version"@)),
        text_of(member(data, "digest"@)),
    ) {
        (Some(object_id), Some(version), Some(digest)) => Some(
            ObjectView {
                object_id,
                version,
                digest,
                initial_shared_version: number_of(
                    member_of(
                        member_of(member(data, "owner"@), "Shared"@),
                        "initial_shared_version"@,
                    ),
                ),
                fields: match member_of(member(data, "content"@), "fields"@) {
                    Some(fields) => fields,
                    None => Json::Null,
                },
                type_: text_of(member_of(member(data, "content"@), "type"@)),
            },
        ),
        _ => None,
    }
}

pub open spec fn object_of(data: Option<Json>) -> Option<ObjectView> {
    match data {
        Some(data) => object(data),
        None => None,
    }
}

impl ObjectData {
    /// Reads a `data` payload of an object query.
    pub fn from_rpc(data: &Value) -> (r: Option<ObjectData>)
        ensures
            view_opt(r) == object(data@),
    {
        let object_id = match data.get_str("objectId") {
            Some(s) => s.to_owned(),
            None => return None,
        };
        let version = match field_u64(data, "version") {
            Some(n) => n,
            None => return None,
        };
        let digest = match data.get_str("digest") {
            Some(s) => s.to_owned(),
            None => return None,
        };
        let initial_shared_version = match data.get2("owner", "Shared") {
            Some(shared) => field_u64(shared, "initial_shared_version"),
            None => None,
        };
        let fields = match data.get2("content", "fields") {
            Some(fields) => fields.copy(),
            None => Value::Null,
        };
        let type_ = match data.get2("content", "type") {
            Some(t) => owned(t.as_str()),
            None => None,
        };
        Some(ObjectData { object_id, version, digest, initial_shared_version, fields, type_ })
    }
}

// ---------------------------------------------------------------------------
// Oracle
// ---------------------------------------------------------------------------

/// A price oracle with its volatility smile.
#[derive(Debug, Clone, PartialEq, Eq)]
pub struct OracleSvi {
    pub underlying_asset: Option<String>,
    pub expiry_ms: u64,
    pub spot: Option<u64>,
    pub svi_a: u64,
    pub svi_b: u64,
    pub svi_rho_mag: u64,
    pub svi_rho_neg: bool,
    pub svi_m_mag: u64,
    pub svi_m_neg: bool,
    pub svi_sigma: u64,
    pub settlement_price: Option<u64>,
}

pub struct OracleView {
    pub underlying_asset: Option<Seq<char>>,
    pub expiry_ms: u64,
    pub spot: Option<u64>,
    pub svi_a: u64,
    pub svi_b: u64,
    pub svi_rho_mag: u64,
    pub svi_rho_neg: bool,
    pub svi_m_mag: u64,
    pub svi_m_neg: bool,
    pub svi_sigma: u64,
    pub settlement_price: Option<u64>,
}

impl View for OracleSvi {
    type V = OracleView;

    open spec fn view(&self) -> OracleView {
        OracleView {
            underlying_asset: view_opt(self.underlying_asset),
            expiry_ms: self.expiry_ms,
            spot: self.spot,
            svi_a: self.svi_a,
            svi_b: self.svi_b,
            svi_rho_mag: self.svi_rho_mag,
            svi_rho_neg: self.svi_rho_neg,
            svi_m_mag: self.svi_m_mag,
            svi_m_neg: self.svi_m_neg,
            svi_sigma: self.svi_sigma,
            settlement_price: self.settlement_price,
        }
    }
}

/// A signed fixed-point value: `{"magnitude", "is_negative"}`, perhaps inside
/// `{"fields": ...}`. A missing sign means it is not negative.
pub open spec fn signed_value(v: Json) -> Option<(u64, bool)> {
    let f = match member(v, "fields"@) {
        Some(f) => f,
        None => v,
    };
    match number_of(member(f, "magnitude"@)) {
        Some(mag) => Some(
            (
                mag,
                match member(f, "is_negative"@) {
                    Some(Json::Bool(b)) => b,
                    _ => false,
                },
            ),
        ),
        None => None,
    }
}

pub open spec fn signed_value_of(v: Option<Json>) -> Option<(u64, bool)> {
    match v {
        Some(v) => signed_value(v),
        None => None,
    }
}

/// Reads a signed fixed-point value as magnitude and sign.
pub fn parse_i64_fp(v: &Value) -> (r: Option<(u64, bool)>)
    ensures
        r == signed_value(v@),
{
    let f = match v.get("fields") {
        Some(f) => f,
        None => v,
    };
    let mag = match field_u64(f, "magnitude") {
        Some(n) => n,
        None => return None,
    };
    let neg = match f.get("is_negative") {
        Some(b) => match b.as_bool() {
            Some(b) => b,
            None => false,
        },
        None => false,
    };
    Some((mag, neg))
}

/// The oracle in the fields of its object. The expiry and the five smile
/// parameters must be there.
pub open spec fn oracle(fields: Json) -> Option<OracleView> {
    let svi = member_of(member(fields, "svi"@), "fields"@);
    match (
        number_of(member(fields, "expiry"@)),
        signed_value_of(member_of(svi, "rho"@)),
        signed_value_of(member_of(svi, "m"@)),
        number_of(member_of(svi, "a"@)),
        number_of(member_of(svi, "b"@)),
        number_of(member_of(svi, "sigma"@)),
    ) {
        (Some(expiry_ms), Some(rho), Some(m), Some(a), Some(b), Some(sigma)) => Some(
            OracleView {
                underlying_asset: text_of(member(fields, "underlying_asset"@)),
                expiry_ms,
                spot: number_of(
                    member_of(member_of(member(fields, "prices"@), "fields"@), "spot"@),
                ),
                svi_a: a,
                svi_b: b,
                svi_rho_mag: rho.0,
                svi_rho_neg: rho.1,
                svi_m_mag: m.0,
                svi_m_neg: m.1,
                svi_sigma: sigma,
                settlement_price: optional_number(member(fields, "settlement_price"@)),
            },
        ),
        _ => None,
    }
}

impl OracleSvi {
    /// Reads an oracle from the fields of its object.
    pub fn from_fields(fields: &Value) -> (r: Option<OracleSvi>)
        ensures
            view_opt(r) == oracle(fields@),
    {
        let expiry_ms = match field_u64(fields, "expiry") {
            Some(n) => n,
            None => return None,
        };
        let spot = match fields.get2("prices", "fields") {
            Some(prices) => field_u64(prices, "spot"),
            None => None,
        };
        let svi = match fields.get2("svi", "fields") {
            Some(svi) => svi,
            None => return None,
        };
        let (rho_mag, rho_neg) = match svi.get("rho") {
            Some(v) => match parse_i64_fp(v) {
                Some(p) => p,
                None => return None,
            },
            None => return None,
        };
        let (m_mag, m_neg) = match svi.get("m") {
            Some(v) => match parse_i64_fp(v) {
                Some(p) => p,
                None => return None,
            },
            None => return None,
        };
        match (field_u64(svi, "a"), field_u64(svi, "b"), field_u64(svi, "sigma")) {
            (Some(svi_a), Some(svi_b), Some(svi_sigma)) => Some(
                OracleSvi {
                    underlying_asset: owned(field_str(fields, "underlying_asset")),
                    expiry_ms,
                    spot,
                    svi_a,
                    svi_b,
                    svi_rho_mag: rho_mag,
                    svi_rho_neg: rho_neg,
                    svi_m_mag: m_mag,
                    svi_m_neg: m_neg,
                    svi_sigma,
                    settlement_price: field_opt_u64(fields, "settlement_price"),
                },
            ),
            _ => None,
        }
    }

    pub fn copy(&self) -> (r: OracleSvi)
        ensures
            r@ == self@,
    {
        OracleSvi {
            underlying_asset: match &self.underlying_asset {
                Some(s) => Some(s.clone()),
                None => None,
            },
            expiry_ms: self.expiry_ms,
            spot: self.spot,
            svi_a: self.svi_a,
            svi_b: self.svi_b,
            svi_rho_mag: self.svi_rho_mag,
            svi_rho_neg: self.svi_rho_neg,
            svi_m_mag: self.svi_m_mag,
            svi_m_neg: self.svi_m_neg,
            svi_sigma: self.svi_sigma,
            settlement_price: self.settlement_price,
        }
    }
}

// ---------------------------------------------------------------------------
// Pool configuration
// ---------------------------------------------------------------------------

/// The shared configuration of all pools.
#[derive(Debug, Clone, Copy, PartialEq, Eq)]
pub struct PoolConfigData {
    pub epsilon_bps: u64,
    pub k_scaling: u64,
    pub protocol_fee_bps: u64,
    pub keeper_tip_bps: u64,
    pub min_strike: u64,
    pub tick_size: u64,
    pub max_strike: u64,
    pub initial_shared_version: u64,
}

/// The configuration in a shared object; every field must be there.
pub open spec fn pool_config(obj: ObjectView) -> Option<PoolConfigData> {
    let f = obj.fields;
    match (
        number_of(member(f, "epsilon_bps"@)),
        number_of(member(f, "k_scaling"@)),
        number_of(member(f, "protocol_fee_bps"@)),
        number_of(member(f, "keeper_tip_bps"@)),
        number_of(member(f, "min_strike"@)),
        number_of(member(f, "tick_size"@)),
        number_of(member(f, "max_strike"@)),
        obj.initial_shared_version,
    ) {
        (
            Some(epsilon_bps),
            Some(k_scaling),
            Some(protocol_fee_bps),
            Some(keeper_tip_bps),
            Some(min_strike),
            Some(tick_size),
            Some(max_strike),
            Some(initial_shared_version),
        ) => Some(
            PoolConfigData {
                epsilon_bps,
                k_scaling,
                protocol_fee_bps,
                keeper_tip_bps,
                min_strike,
                tick_size,
                max_strike,
                initial_shared_version,
            },
        ),
        _ => None,
    }
}

impl PoolConfigData {
    /// Reads the configuration from its object.
    pub fn from_object(obj: &ObjectData) -> (r: Option<PoolConfigData>)
        ensures
            r == pool_config(obj@),
    {
        let f = &obj.fields;
        match (
            field_u64(f, "epsilon_bps"),
            field_u64(f, "k_scaling"),
            field_u64(f, "protocol_fee_bps"),
            field_u64(f, "keeper_tip_bps"),
            field_u64(f, "min_strike"),
            field_u64(f, "tick_size"),
            field_u64(f, "max_strike"),
            obj.initial_shared_version,
        ) {
            (
                Some(epsilon_bps),
                Some(k_scaling),
                Some(protocol_fee_bps),
                Some(keeper_tip_bps),
                Some(min_strike),
                Some(tick_size),
                Some(max_strike),
                Some(initial_shared_version),
            ) => Some(
                PoolConfigData {
                    epsilon_bps,
                    k_scaling,
                    protocol_fee_bps,
                    keeper_tip_bps,
                    min_strike,
                    tick_size,
                    max_strike,
                    initial_shared_version,
                },
            ),
            _ => None,
        }
    }
}

// ---------------------------------------------------------------------------
// What the readers mean
// ---------------------------------------------------------------------------

/// A number is read from a JSON number or from a string, and from nothing else; a number
/// of more than 64 bits is none.
pub proof fn law_numbers_are_read(n: nat, s: Seq<char>, j: Json)
    ensures
        n <= u64::MAX ==> number(json_int(n as int)) == Some(n as u64),
        n > u64::MAX ==> number(json_int(n as int)) is None,
        number(Json::Text(s)) matches Some(k) ==> unsigned(s, u64::MAX as int) == Some(k as int),
        number(j) is Some ==> j is Text || j is Unsigned,
        number_of(None) is None,
        number_of(Some(j)) == number(j),
{
    law_numbers_are_digits(s, u64::MAX as int);
}

/// A Move option is `null`, the value, or a list of at most one value at `fields.vec`.
pub proof fn law_options_are_read(j: Json, items: Seq<Json>)
    ensures
        optional_number(None) is None,
        optional_number(Some(Json::Null)) is None,
        number(j) is Some ==> optional_number(Some(j)) == number(j),
        number(j) is None && member_of(member(j, "fields"@), "vec"@) == Some(Json::Array(items))
            ==> optional_number(Some(j)) == if items.len() > 0 {
            number(items[0])
        } else {
            None
        },
{
}

/// A Move enum is its name, or an object whose member `variant` is the name.
pub proof fn law_variants_are_read(s: Seq<char>, j: Json)
    ensures
        variant_name(None) is None,
        variant_name(Some(json_text(s))) == Some(s),
        member(j, "variant"@) == Some(json_text(s)) ==> variant_name(Some(j)) == Some(s),
        !(j is Text) && member(j, "variant"@) is None ==> variant_name(Some(j)) is None,
{
}

/// The id of a table is the text at `fields.id.id`.
pub proof fn law_table_ids_are_read(j: Json, a: Json, b: Json, s: Seq<char>)
    requires
        member(j, "fields"@) == Some(a),
        member(a, "id"@) == Some(b),
        member(b, "id"@) == Some(json_text(s)),
    ensures
        table_id(Some(j)) == Some(s),
{
}

/// Every element of a list must be readable, and each is read in its place.
pub proof fn law_lists_are_read(items: Seq<Json>, i: int)
    requires
        0 <= i < items.len(),
    ensures
        number(items[i]) is None ==> number_list(Some(Json::Array(items))) is None,
        number_list(Some(Json::Array(items))) matches Some(v) ==> v.len() == items.len() && Some(
            v[i],
        ) == number(items[i]),
        text(items[i]) is None ==> text_list(Some(Json::Array(items))) is None,
        text_list(Some(Json::Array(items))) matches Some(v) ==> v.len() == items.len() && Some(
            v[i],
        ) == text(items[i]),
        number_list(None) is None,
        text_list(None) is None,
{
}

/// A signed value has its magnitude and its sign, with or without `fields` around them;
/// without a sign it is not negative.
pub proof fn law_signed_values_are_read(v: Json, f: Json, magnitude: u64, negative: bool)
    requires
        member(v, "fields"@) == Some(f) || member(v, "fields"@) is None && v == f,
        number_of(member(f, "magnitude"@)) == Some(magnitude),
    ensures
        member(f, "is_negative"@) == Some(Json::Bool(negative)) ==> signed_value(v) == Some(
            (magnitude, negative),
        ),
        member(f, "is_negative"@) is None ==> signed_value(v) == Some((magnitude, false)),
{
}

/// An object has the id, the version and the digest that its payload gives under those
/// names, and none of them may be missing. A shared one has the version at which it was
/// shared; fields and type are those of its content.
pub proof fn law_objects_are_read(data: Json)
    ensures
        object(data) is Some <==> text_of(member(data, "objectId"@)) is Some && number_of(
            member(data, "version"@),
        ) is Some && text_of(member(data, "digest"@)) is Some,
        object(data) matches Some(o) ==> {
            let shared = member_of(member(data, "owner"@), "Shared"@);
            let content = member(data, "content"@);
            &&& member(data, "objectId"@) == Some(json_text(o.object_id))
            &&& number_of(member(data, "version"@)) == Some(o.version)
            &&& member(data, "digest"@) == Some(json_text(o.digest))
            &&& o.initial_shared_version == number_of(
                member_of(shared, "initial_shared_version"@),
            )
            &&& Some(o.fields) == member_of(content, "fields"@) || member_of(
                content,
                "fields"@,
            ) is None && o.fields == Json::Null
            &&& o.type_ == text_of(member_of(content, "type"@))
        },
{
}

/// An oracle has the expiry, the price, the asset and the settlement price of its object,
/// and the five parameters of its smile under their own names, skew and shift with their
/// signs. The expiry and the smile must be there.
pub proof fn law_oracles_are_read(fields: Json, svi: Json, rho: (u64, bool), m: (u64, bool))
    requires
        member_of(member(fields, "svi"@), "fields"@) == Some(svi),
        signed_value_of(member(svi, "rho"@)) == Some(rho),
        signed_value_of(member(svi, "m"@)) == Some(m),
    ensures
        oracle(fields) is Some <==> number_of(member(fields, "expiry"@)) is Some && number_of(
            member(svi, "a"@),
        ) is Some && number_of(member(svi, "b"@)) is Some && number_of(
            member(svi, "sigma"@),
        ) is Some,
        oracle(fields) matches Some(o) ==> {
            let prices = member_of(member(fields, "prices"@), "fields"@);
            &&& number_of(member(fields, "expiry"@)) == Some(o.expiry_ms)
            &&& number_of(member(svi, "a"@)) == Some(o.svi_a)
            &&& number_of(member(svi, "b"@)) == Some(o.svi_b)
            &&& number_of(member(svi, "sigma"@)) == Some(o.svi_sigma)
            &&& (o.svi_rho_mag, o.svi_rho_neg) == rho
            &&& (o.svi_m_mag, o.svi_m_neg) == m
            &&& o.spot == number_of(member_of(prices, "spot"@))
            &&& o.underlying_asset == text_of(member(fields, "underlying_asset"@))
            &&& o.settlement_price == optional_number(member(fields, "settlement_price"@))
        },
{
}

/// An object without a smile, or whose skew or shift cannot be read, is no oracle.
pub proof fn law_oracles_need_a_smile(fields: Json)
    requires
        ({
            let svi = member_of(member(fields, "svi"@), "fields"@);
            svi is None || signed_value_of(member_of(svi, "rho"@)) is None || signed_value_of(
                member_of(svi, "m"@),
            ) is None
        }),
    ensures
        oracle(fields) is None,
{
}

/// The pool configuration has each of its numbers from the field of the same name, and
/// the version at which its object was shared; all of them must be there.
pub proof fn law_pool_configurations_are_read(o: ObjectView)
    ensures
        ({
            let f = o.fields;
            pool_config(o) matches Some(c) ==> {
                &&& number_of(member(f, "epsilon_bps"@)) == Some(c.epsilon_bps)
                &&& number_of(member(f, "k_scaling"@)) == Some(c.k_scaling)
                &&& number_of(member(f, "protocol_fee_bps"@)) == Some(c.protocol_fee_bps)
                &&& number_of(member(f, "keeper_tip_bps"@)) == Some(c.keeper_tip_bps)
                &&& number_of(member(f, "min_strike"@)) == Some(c.min_strike)
                &&& number_of(member(f, "tick_size"@)) == Some(c.tick_size)
                &&& number_of(member(f, "max_strike"@)) == Some(c.max_strike)
                &&& o.initial_shared_version == Some(c.initial_shared_version)
            }
        }),
        pool_config(o) is None ==> {
            let f = o.fields;
            ||| number_of(member(f, "epsilon_bps"@)) is None
            ||| number_of(member(f, "k_scaling"@)) is None
            ||| number_of(member(f, "protocol_fee_bps"@)) is None
            ||| number_of(member(f, "keeper_tip_bps"@)) is None
            ||| number_of(member(f, "min_strike"@)) is None
            ||| number_of(member(f, "tick_size"@)) is None
            ||| number_of(member(f, "max_strike"@)) is None
            ||| o.initial_shared_version is None
        },
{
}

// ---------------------------------------------------------------------------
// Round trips
// ---------------------------------------------------------------------------

/// A value inside `{"fields": ...}`, as Move structs are written.
pub open spec fn wrapped(entries: Seq<(Seq<char>, Json)>) -> Json {
    Json::Object(seq![("fields"@, Json::Object(entries))])
}

/// A signed value as the chain writes it.
pub open spec fn written_signed(magnitude: u64, negative: bool) -> Json {
    wrapped(
        seq![
            ("magnitude"@, json_decimal(magnitude as int)),
            ("is_negative"@, Json::Bool(negative)),
        ],
    )
}

/// A number that may be missing, as the chain writes it.
pub open spec fn written_option(n: Option<u64>) -> Json {
    match n {
        Some(n) => json_decimal(n as int),
        None => Json::Null,
    }
}

/// The fields of an oracle as the chain writes them.
pub open spec fn written_oracle(o: OracleSvi) -> Json {
    Json::Object(
        seq![
            ("underlying_asset"@, json_opt_text(view_opt(o.underlying_asset))),
            ("expiry"@, json_decimal(o.expiry_ms as int)),
            ("prices"@, wrapped(seq![("spot"@, written_option(o.spot))])),
            (
                "svi"@,
                wrapped(
                    seq![
                        ("a"@, json_decimal(o.svi_a as int)),
                        ("b"@, json_decimal(o.svi_b as int)),
                        ("rho"@, written_signed(o.svi_rho_mag, o.svi_rho_neg)),
                        ("m"@, written_signed(o.svi_m_mag, o.svi_m_neg)),
                        ("sigma"@, json_decimal(o.svi_sigma as int)),
                    ],
                ),
            ),
            ("settlement_price"@, written_option(o.settlement_price)),
        ],
    )
}

/// The names differ.
proof fn lemma_oracle_names()
    ensures
        "expiry"@.len() == 6,
        "prices"@.len() == 6,
        "fields"@.len() == 6,
        "spot"@.len() == 4,
        "svi"@.len() == 3,
        "a"@.len() == 1,
        "b"@.len() == 1,
        "rho"@.len() == 3,
        "m"@.len() == 1,
        "sigma"@.len() == 5,
        "magnitude"@.len() == 9,
        "is_negative"@.len() == 11,
        "underlying_asset"@.len() == 16,
        "settlement_price"@.len() == 16,
        "expiry"@[0] != "prices"@[0],
        "expiry"@[0] != "fields"@[0],
        "prices"@[0] != "fields"@[0],
        "svi"@[0] != "rho"@[0],
        "a"@[0] != "b"@[0],
        "a"@[0] != "m"@[0],
        "b"@[0] != "m"@[0],
        "underlying_asset"@[0] != "settlement_price"@[0],
{
    reveal_strlit("expiry");
    reveal_strlit("prices");
    reveal_strlit("fields");
    reveal_strlit("spot");
    reveal_strlit("svi");
    reveal_strlit("a");
    reveal_strlit("b");
    reveal_strlit("rho");
    reveal_strlit("m");
    reveal_strlit("sigma");
    reveal_strlit("magnitude");
    reveal_strlit("is_negative");
    reveal_strlit("underlying_asset");
    reveal_strlit("settlement_price");
}

/// A signed value reads back with its sign.
pub proof fn law_signed_value_reads_back(magnitude: u64, negative: bool)
    ensures
        signed_value(written_signed(magnitude, negative)) == Some((magnitude, negative)),
{
    lemma_oracle_names();
    reveal_with_fuel(first_entry, 3);
    law_number_reads_back(magnitude);
}

/// An oracle reads back: each value that the chain writes for it is found where it was
/// written, whichever of the optional ones are there.
pub proof fn law_oracle_reads_back(o: OracleSvi)
    ensures
        oracle(written_oracle(o)) == Some(o@),
{
    lemma_oracle_names();
    reveal_with_fuel(first_entry, 6);
    law_signed_value_reads_back(o.svi_rho_mag, o.svi_rho_neg);
    law_signed_value_reads_back(o.svi_m_mag, o.svi_m_neg);
    law_number_reads_back(o.expiry_ms);
    law_number_reads_back(o.svi_a);
    law_number_reads_back(o.svi_b);
    law_number_reads_back(o.svi_sigma);
    if let Some(n) = o.spot {
        law_number_reads_back(n);
    }
    if let Some(n) = o.settlement_price {
        law_number_reads_back(n);
    }
}

/// The fields of the pool configuration as the chain writes them.
pub open spec fn written_pool_config(c: PoolConfigData) -> Json {
    Json::Object(
        seq![
            ("epsilon_bps"@, json_decimal(c.epsilon_bps as int)),
            ("k_scaling"@, json_decimal(c.k_scaling as int)),
            ("protocol_fee_bps"@, json_decimal(c.protocol_fee_bps as int)),
            ("keeper_tip_bps"@, json_decimal(c.keeper_tip_bps as int)),
            ("min_strike"@, json_decimal(c.min_strike as int)),
            ("tick_size"@, json_decimal(c.tick_size as int)),
            ("max_strike"@, json_decimal(c.max_strike as int)),
        ],
    )
}

/// The names differ.
proof fn lemma_config_names()
    ensures
        "epsilon_bps"@.len() == 11,
        "k_scaling"@.len() == 9,
        "protocol_fee_bps"@.len() == 16,
        "keeper_tip_bps"@.len() == 14,
        "min_strike"@.len() == 10,
        "tick_size"@.len() == 9,
        "max_strike"@.len() == 10,
        "k_scaling"@[0] != "tick_size"@[0],
        "min_strike"@[1] != "max_strike"@[1],
{
    reveal_strlit("epsilon_bps");
    reveal_strlit("k_scaling");
    reveal_strlit("protocol_fee_bps");
    reveal_strlit("keeper_tip_bps");
    reveal_strlit("min_strike");
    reveal_strlit("tick_size");
    reveal_strlit("max_strike");
}

/// The pool configuration reads back from its shared object.
pub proof fn law_pool_configuration_reads_back(c: PoolConfigData, obj: ObjectView)
    requires
        obj.fields == written_pool_config(c),
        obj.initial_shared_version == Some(c.initial_shared_version),
    ensures
        pool_config(obj) == Some(c),
{
    lemma_config_names();
    reveal_with_fuel(first_entry, 8);
    law_number_reads_back(c.epsilon_bps);
    law_number_reads_back(c.k_scaling);
    law_number_reads_back(c.protocol_fee_bps);
    law_number_reads_back(c.keeper_tip_bps);
    law_number_reads_back(c.min_strike);
    law_number_reads_back(c.tick_size);
    law_number_reads_back(c.max_strike);
}

/// An object as the node writes it: a shared one with the version at which it was shared,
/// and content where it has a type.
pub open spec fn written_object(o: ObjectData) -> Json {
    Json::Object(
        seq![
            ("objectId"@, json_text(o.object_id@)),
            ("version"@, json_decimal(o.version as int)),
            ("digest"@, json_text(o.digest@)),
            (
                "owner"@,
                match o.initial_shared_version {
                    Some(n) => Json::Object(
                        seq![
                            (
                                "Shared"@,
                                Json::Object(seq![("initial_shared_version"@, json_int(n as int))]),
                            ),
                        ],
                    ),
                    None => Json::Null,
                },
            ),
            (
                "content"@,
                Json::Object(
                    seq![
                        ("type"@, json_opt_text(view_opt(o.type_))),
                        ("fields"@, o.fields@),
                    ],
                ),
            ),
        ],
    )
}

/// The names differ.
proof fn lemma_object_names()
    ensures
        "objectId"@.len() == 8,
        "version"@.len() == 7,
        "digest"@.len() == 6,
        "owner"@.len() == 5,
        "Shared"@.len() == 6,
        "initial_shared_version"@.len() == 22,
        "content"@.len() == 7,
        "fields"@.len() == 6,
        "type"@.len() == 4,
        "version"@[0] != "content"@[0],
        "digest"@[0] != "Shared"@[0],
        "digest"@[0] != "fields"@[0],
        "Shared"@[0] != "fields"@[0],
{
    reveal_strlit("objectId");
    reveal_strlit("version");
    reveal_strlit("digest");
    reveal_strlit("owner");
    reveal_strlit("Shared");
    reveal_strlit("initial_shared_version");
    reveal_strlit("content");
    reveal_strlit("fields");
    reveal_strlit("type");
}

/// An object reads back.
pub proof fn law_object_reads_back(o: ObjectData)
    ensures
        object(written_object(o)) == Some(o@),
        object_of(Some(written_object(o))) == Some(o@),
        object_of(None) is None,
{
    lemma_object_names();
    reveal_with_fuel(first_entry, 6);
    law_number_reads_back(o.version);
}

} // verus!
