//! The JSON-RPC calls that are made: the parameters of each request and the
//! reading of each answer. Sending is left to the caller.

use vstd::prelude::*;

use crate::json::{
    elements, first_entry, json_decimal, json_int, json_opt_text, json_text, json_texts, member,
    member_of, owned, text_of, Fields, Json, Value,
};
use crate::sui::types::{
    field_u64, law_number_reads_back, number_of, object, object_of, EventId, EventIdView, ObjectData, ObjectView,
};
use crate::text::{join, join3, same, view_all, view_opt};

verus! {

// ---------------------------------------------------------------------------
// Envelope
// ---------------------------------------------------------------------------

/// The body of a request.
pub open spec fn request(method: Seq<char>, params: Json) -> Json {
    Json::Object(
        seq![
            ("jsonrpc"@, json_text("2.0"@)),
            ("id"@, json_int(1)),
            ("method"@, json_text(method)),
            ("params"@, params),
        ],
    )
}

/// Wraps the parameters of a call into a request.
pub fn request_body(method: &str, params: Value) -> (r: Value)
    ensures
        r@ == request(method@, params@),
{
    let mut o = Fields::new();
    o.put_text("jsonrpc", "2.0");
    o.put("id", Value::unsigned(1));
    o.put_text("method", method);
    o.put("params", params);
    assert(o@ =~= request(method@, params@)->Object_0);
    o.build()
}

/// Why an answer carries no result.
#[derive(Debug, PartialEq, Eq)]
pub enum RpcError {
    /// The node reported this error.
    Reported(Value),
    MissingResult,
}

pub enum RpcErrorView {
    Reported(Json),
    MissingResult,
}

impl View for RpcError {
    type V = RpcErrorView;

    open spec fn view(&self) -> RpcErrorView {
        match self {
            RpcError::Reported(e) => RpcErrorView::Reported(e@),
            RpcError::MissingResult => RpcErrorView::MissingResult,
        }
    }
}

/// What is said of a failed call: the method, and the reported error in JSON text.
pub open spec fn rpc_error_text(e: RpcErrorView, method: Seq<char>, json: Seq<char>) -> Seq<char> {
    match e {
        RpcErrorView::Reported(_) => method + ": rpc error: "@ + json,
        RpcErrorView::MissingResult => method + ": missing result"@,
    }
}

impl RpcError {
    /// The message of a failed call of `method`. `json` is the reported error as
    /// JSON text.
    pub fn message(&self, method: &str, json: &str) -> (r: String)
        ensures
            r@ == rpc_error_text(self@, method@, json@),
    {
        match self {
            RpcError::Reported(_) => join3(method, ": rpc error: ", json),
            RpcError::MissingResult => join(method, ": missing result"),
        }
    }
}

/// The result in an answer. An error wins over a result.
pub open spec fn answer(resp: Json) -> Result<Json, RpcErrorView> {
    match member(resp, "error"@) {
        Some(e) => Err(RpcErrorView::Reported(e)),
        None => match member(resp, "result"@) {
            Some(result) => Ok(result),
            None => Err(RpcErrorView::MissingResult),
        },
    }
}

/// The views of both sides of a result.
pub open spec fn view_result<T: View, E: View>(r: Result<T, E>) -> Result<T::V, E::V> {
    match r {
        Ok(v) => Ok(v@),
        Err(e) => Err(e@),
    }
}

/// Takes the result out of an answer.
pub fn response_result(resp: &Value) -> (r: Result<Value, RpcError>)
    ensures
        view_result(r) == answer(resp@),
{
    match resp.get("error") {
        Some(e) => Err(RpcError::Reported(e.copy())),
        None => match resp.get("result") {
            Some(result) => Ok(result.copy()),
            None => Err(RpcError::MissingResult),
        },
    }
}

// ---------------------------------------------------------------------------
// Events
// ---------------------------------------------------------------------------

pub open spec fn cursor_json(cursor: Option<EventIdView>) -> Json {
    match cursor {
        Some(c) => Json::Object(
            seq![("txDigest"@, json_text(c.tx_digest)), ("eventSeq"@, json_text(c.event_seq))],
        ),
        None => Json::Null,
    }
}

/// The events of one module.
pub open spec fn module_filter(package: Seq<char>, module: Seq<char>) -> Json {
    Json::Object(
        seq![
            (
                "MoveEventModule"@,
                Json::Object(
                    seq![("package"@, json_text(package)), ("module"@, json_text(module))],
                ),
            ),
        ],
    )
}

/// Events of one module after a cursor, oldest first.
pub open spec fn events_query(
    package: Seq<char>,
    module: Seq<char>,
    cursor: Option<EventIdView>,
    limit: int,
) -> Json {
    Json::Array(
        seq![
            module_filter(package, module),
            cursor_json(cursor),
            json_int(limit),
            Json::Bool(false),
        ],
    )
}

/// Parameters of `suix_queryEvents`.
pub fn query_module_events(
    package: &str,
    module: &str,
    cursor: Option<&EventId>,
    limit: u64,
) -> (r: Value)
    ensures
        r@ == events_query(package@, module@, view_opt(cursor), limit as int),
{
    let cursor_value = match cursor {
        Some(c) => {
            let mut o = Fields::new();
            o.put_text("txDigest", c.tx_digest.as_str());
            o.put_text("eventSeq", c.event_seq.as_str());
            assert(o@ =~= cursor_json(Some(c@))->Object_0);
            o.build()
        },
        None => Value::Null,
    };
    let mut names = Fields::new();
    names.put_text("package", package);
    names.put_text("module", module);
    assert(names@ =~= module_filter(package@, module@)->Object_0[0].1->Object_0);
    let mut filter = Fields::new();
    filter.put("MoveEventModule", names.build());
    assert(filter@ =~= module_filter(package@, module@)->Object_0);
    let mut params: Vec<Value> = Vec::new();
    params.push(filter.build());
    params.push(cursor_value);
    params.push(Value::unsigned(limit));
    params.push(Value::Bool(false));
    assert(view_all(params@) =~= events_query(
        package@,
        module@,
        view_opt(cursor),
        limit as int,
    )->Array_0);
    Value::array(params)
}

// ---------------------------------------------------------------------------
// Objects
// ---------------------------------------------------------------------------

/// Content and owner are asked for.
pub open spec fn object_options() -> Json {
    Json::Object(seq![("showContent"@, Json::Bool(true)), ("showOwner"@, Json::Bool(true))])
}

fn object_options_value() -> (r: Value)
    ensures
        r@ == object_options(),
{
    let mut o = Fields::new();
    o.put("showContent", Value::Bool(true));
    o.put("showOwner", Value::Bool(true));
    assert(o@ =~= object_options()->Object_0);
    o.build()
}

fn pair(a: Value, b: Value) -> (r: Value)
    ensures
        r@ == Json::Array(seq![a@, b@]),
{
    let mut items: Vec<Value> = Vec::new();
    items.push(a);
    items.push(b);
    assert(view_all(items@) =~= seq![a@, b@]);
    Value::array(items)
}

/// Parameters of `sui_getObject`.
pub fn get_object(object_id: &str) -> (r: Value)
    ensures
        r@ == Json::Array(seq![json_text(object_id@), object_options()]),
{
    pair(Value::text(object_id), object_options_value())
}

/// Why an object query gives no object.
#[derive(Debug, Clone, Copy, PartialEq, Eq, Structural)]
pub enum ObjectError {
    NotFound,
    Unreadable,
}

/// What is said of an object that is not there, or not readable. `json` is the
/// result as JSON text.
pub open spec fn object_error_text(
    e: ObjectError,
    object_id: Seq<char>,
    json: Seq<char>,
) -> Seq<char> {
    match e {
        ObjectError::NotFound => "sui_getObject: object "@ + object_id + " not found: "@ + json,
        ObjectError::Unreadable => "sui_getObject: cannot parse object "@ + object_id,
    }
}

impl ObjectError {
    pub fn message(self, object_id: &str, json: &str) -> (r: String)
        ensures
            r@ == object_error_text(self, object_id@, json@),
    {
        match self {
            ObjectError::NotFound => join(
                join3("sui_getObject: object ", object_id, " not found: ").as_str(),
                json,
            ),
            ObjectError::Unreadable => join("sui_getObject: cannot parse object ", object_id),
        }
    }
}

/// The object in the result of `sui_getObject`.
pub fn read_object(result: &Value) -> (r: Result<ObjectData, ObjectError>)
    ensures
        r matches Ok(o) ==> object_of(member(result@, "data"@)) == Some(o@),
        r == Err::<ObjectData, ObjectError>(ObjectError::NotFound) <==> member(result@, "data"@)
            is None,
        r == Err::<ObjectData, ObjectError>(ObjectError::Unreadable) <==> member(
            result@,
            "data"@,
        ) is Some && object_of(member(result@, "data"@)) is None,
{
    match result.get("data") {
        None => Err(ObjectError::NotFound),
        Some(data) => match ObjectData::from_rpc(data) {
            Some(o) => Ok(o),
            None => Err(ObjectError::Unreadable),
        },
    }
}

/// Parameters of `sui_multiGetObjects`; `None` if there is nothing to ask for.
pub fn multi_get_objects(ids: &Vec<String>) -> (r: Option<Value>)
    ensures
        ids@.len() == 0 <==> r is None,
        r matches Some(v) ==> v@ == Json::Array(
            seq![json_texts(view_all(ids@)), object_options()],
        ),
{
    if ids.len() == 0 {
        None
    } else {
        Some(pair(Value::text_array(ids), object_options_value()))
    }
}

/// The objects among the entries of a batch answer, in order; an entry that
/// cannot be read is skipped.
pub open spec fn objects_in(entries: Seq<Json>) -> Seq<ObjectView>
    decreases entries.len(),
{
    if entries.len() == 0 {
        seq![]
    } else {
        let head = objects_in(entries.drop_last());
        match object_of(member(entries.last(), "data"@)) {
            Some(o) => head.push(o),
            None => head,
        }
    }
}

/// The objects in the result of `sui_multiGetObjects`; `None` if it is no array.
pub fn read_objects(result: &Value) -> (r: Option<Vec<ObjectData>>)
    ensures
        r matches Some(v) ==> elements(result@) is Some && view_all(v@) == objects_in(
            elements(result@)->0,
        ),
        r is None <==> elements(result@) is None,
{
    let items = match result.as_array() {
        Some(items) => items,
        None => return None,
    };
    let ghost all = view_all(items@);
    let mut out: Vec<ObjectData> = Vec::new();
    let mut i: usize = 0;
    assert(all.take(0) =~= Seq::<Json>::empty());
    assert(view_all(out@) =~= seq![]);
    while i < items.len()
        invariant
            i <= items@.len(),
            all == view_all(items@),
            view_all(out@) == objects_in(all.take(i as int)),
        decreases items@.len() - i,
    {
        assert(all.take(i + 1).drop_last() =~= all.take(i as int));
        assert(all.take(i + 1).last() == items@[i as int]@);
        match items[i].get("data") {
            Some(data) => match ObjectData::from_rpc(data) {
                Some(o) => {
                    let ghost before = out@;
                    let ghost seen = o@;
                    out.push(o);
                    assert(view_all(out@) =~= view_all(before).push(seen));
                },
                None => {},
            },
            None => {},
        }
        i = i + 1;
    }
    assert(all.take(items@.len() as int) =~= all);
    Some(out)
}

/// A table key of the type `address`.
pub open spec fn address_key(address: Seq<char>) -> Json {
    Json::Object(seq![("type"@, json_text("address"@)), ("value"@, json_text(address))])
}

/// Parameters of `suix_getDynamicFieldObject` for a table keyed by address.
pub fn get_table_entry_by_address(table_id: &str, address: &str) -> (r: Value)
    ensures
        r@ == Json::Array(seq![json_text(table_id@), address_key(address@)]),
{
    let mut key = Fields::new();
    key.put_text("type", "address");
    key.put_text("value", address);
    assert(key@ =~= address_key(address@)->Object_0);
    pair(Value::text(table_id), key.build())
}

/// The table entry in the result, if there is one.
pub fn read_table_entry(result: &Value) -> (r: Option<ObjectData>)
    ensures
        view_opt(r) == object_of(member(result@, "data"@)),
{
    match result.get("data") {
        Some(data) => ObjectData::from_rpc(data),
        None => None,
    }
}

// ---------------------------------------------------------------------------
// Gas
// ---------------------------------------------------------------------------

/// A coin that can pay for gas.
#[derive(Debug, PartialEq, Eq)]
pub struct GasCoin {
    pub id: String,
    pub version: u64,
    pub digest: String,
    pub balance: u64,
}

pub struct GasCoinView {
    pub id: Seq<char>,
    pub version: u64,
    pub digest: Seq<char>,
    pub balance: u64,
}

impl View for GasCoin {
    type V = GasCoinView;

    open spec fn view(&self) -> GasCoinView {
        GasCoinView {
            id: self.id@,
            version: self.version,
            digest: self.digest@,
            balance: self.balance,
        }
    }
}

/// Parameters of `suix_getCoins`: the first fifty SUI coins of an owner.
pub fn get_sui_coins(owner: &str) -> (r: Value)
    ensures
        r@ == Json::Array(
            seq![json_text(owner@), json_text("0x2::sui::SUI"@), Json::Null, json_int(50)],
        ),
{
    let mut items: Vec<Value> = Vec::new();
    items.push(Value::text(owner));
    items.push(Value::text("0x2::sui::SUI"));
    items.push(Value::Null);
    items.push(Value::unsigned(50));
    assert(view_all(items@) =~= seq![
        json_text(owner@),
        json_text("0x2::sui::SUI"@),
        Json::Null,
        json_int(50),
    ]);
    Value::array(items)
}

/// A coin with all four of its fields.
pub open spec fn coin(c: Json) -> Option<GasCoinView> {
    match (
        text_of(member(c, "coinObjectId"@)),
        number_of(member(c, "version"@)),
        text_of(member(c, "digest"@)),
        number_of(member(c, "balance"@)),
    ) {
        (Some(id), Some(version), Some(digest), Some(balance)) => Some(
            GasCoinView { id, version, digest, balance },
        ),
        _ => None,
    }
}

/// The complete coins among the entries, in order.
pub open spec fn coins_in(entries: Seq<Json>) -> Seq<GasCoinView>
    decreases entries.len(),
{
    if entries.len() == 0 {
        seq![]
    } else {
        let head = coins_in(entries.drop_last());
        match coin(entries.last()) {
            Some(c) => head.push(c),
            None => head,
        }
    }
}

/// The coins in a result: the entries of `data`, none if that is no array.
pub open spec fn coins(result: Json) -> Seq<GasCoinView> {
    match member(result, "data"@) {
        Some(Json::Array(entries)) => coins_in(entries),
        _ => seq![],
    }
}

/// The coins in the result of `suix_getCoins`.
pub fn read_sui_coins(result: &Value) -> (r: Vec<GasCoin>)
    ensures
        view_all(r@) == coins(result@),
{
    let mut out: Vec<GasCoin> = Vec::new();
    assert(view_all(out@) =~= seq![]);
    let items = match result.get("data") {
        Some(data) => match data.as_array() {
            Some(items) => items,
            None => return out,
        },
        None => return out,
    };
    let ghost all = view_all(items@);
    let mut i: usize = 0;
    assert(all.take(0) =~= Seq::<Json>::empty());
    while i < items.len()
        invariant
            i <= items@.len(),
            all == view_all(items@),
            view_all(out@) == coins_in(all.take(i as int)),
        decreases items@.len() - i,
    {
        assert(all.take(i + 1).drop_last() =~= all.take(i as int));
        assert(all.take(i + 1).last() == items@[i as int]@);
        let c = &items[i];
        match (
            c.get_str("coinObjectId"),
            field_u64(c, "version"),
            c.get_str("digest"),
            field_u64(c, "balance"),
        ) {
            (Some(id), Some(version), Some(digest), Some(balance)) => {
                let ghost before = out@;
                let coin_read = GasCoin {
                    id: id.to_owned(),
                    version,
                    digest: digest.to_owned(),
                    balance,
                };
                let ghost seen = coin_read@;
                out.push(coin_read);
                assert(view_all(out@) =~= view_all(before).push(seen));
            },
            _ => {},
        }
        i = i + 1;
    }
    assert(all.take(items@.len() as int) =~= all);
    out
}

/// Parameters of `suix_getReferenceGasPrice`: none.
pub fn reference_gas_price() -> (r: Value)
    ensures
        r@ == Json::Array(seq![]),
{
    let items: Vec<Value> = Vec::new();
    assert(view_all(items@) =~= seq![]);
    Value::array(items)
}

// ---------------------------------------------------------------------------
// Execution
// ---------------------------------------------------------------------------

/// What became of an executed transaction.
#[derive(Debug, PartialEq, Eq)]
pub struct Execution {
    pub digest: String,
    pub success: bool,
    pub error: Option<String>,
}

pub struct ExecutionView {
    pub digest: Seq<char>,
    pub success: bool,
    pub error: Option<Seq<char>>,
}

impl View for Execution {
    type V = ExecutionView;

    open spec fn view(&self) -> ExecutionView {
        ExecutionView { digest: self.digest@, success: self.success, error: view_opt(self.error) }
    }
}

/// Parameters of `sui_executeTransactionBlock`.
pub fn execute_transaction(tx_bytes_b64: &str, signatures_b64: &Vec<String>) -> (r: Value)
    ensures
        r@ == Json::Array(
            seq![
                json_text(tx_bytes_b64@),
                json_texts(view_all(signatures_b64@)),
                Json::Object(seq![("showEffects"@, Json::Bool(true))]),
                json_text("WaitForLocalExecution"@),
            ],
        ),
{
    let mut options = Fields::new();
    options.put("showEffects", Value::Bool(true));
    let mut items: Vec<Value> = Vec::new();
    items.push(Value::text(tx_bytes_b64));
    items.push(Value::text_array(signatures_b64));
    items.push(options.build());
    items.push(Value::text("WaitForLocalExecution"));
    assert(view_all(items@) =~= seq![
        json_text(tx_bytes_b64@),
        json_texts(view_all(signatures_b64@)),
        Json::Object(seq![("showEffects"@, Json::Bool(true))]),
        json_text("WaitForLocalExecution"@),
    ]);
    Value::array(items)
}

/// The outcome in a result. Only the status `success` is a success; a missing
/// digest is empty.
pub open spec fn execution(result: Json) -> ExecutionView {
    let status = member_of(member(result, "effects"@), "status"@);
    ExecutionView {
        digest: match text_of(member(result, "digest"@)) {
            Some(d) => d,
            None => seq![],
        },
        success: text_of(member_of(status, "status"@)) == Some("success"@),
        error: text_of(member_of(status, "error"@)),
    }
}

/// Reads the result of `sui_executeTransactionBlock`.
pub fn read_execution(result: &Value) -> (r: Execution)
    ensures
        r@ == execution(result@),
{
    let digest = match result.get_str("digest") {
        Some(d) => d.to_owned(),
        None => String::new(),
    };
    match result.get2("effects", "status") {
        None => Execution { digest, success: false, error: None },
        Some(status) => {
            let success = match status.get_str("status") {
                Some(s) => same(s, "success"),
                None => false,
            };
            Execution { digest, success, error: owned(status.get_str("error")) }
        },
    }
}

// ---------------------------------------------------------------------------
// What the calls mean
// ---------------------------------------------------------------------------

/// The names differ.
proof fn lemma_request_names()
    ensures
        "jsonrpc"@.len() == 7,
        "id"@.len() == 2,
        "method"@.len() == 6,
        "params"@.len() == 6,
        "2.0"@.len() == 3,
        "method"@[0] != "params"@[0],
{
    reveal_strlit("jsonrpc");
    reveal_strlit("id");
    reveal_strlit("method");
    reveal_strlit("params");
    reveal_strlit("2.0");
}

/// A request names its method and hands over its parameters.
pub proof fn law_request_names_its_call(method: Seq<char>, params: Json)
    ensures
        member(request(method, params), "method"@) == Some(json_text(method)),
        member(request(method, params), "params"@) == Some(params),
        member(request(method, params), "jsonrpc"@) == Some(json_text("2.0"@)),
        member(request(method, params), "id"@) == Some(json_int(1)),
{
    lemma_request_names();
    reveal_with_fuel(first_entry, 5);
}

/// An answer with an error is that error, whatever else it holds; an answer without one is
/// its result, and an answer with neither is no answer.
pub proof fn law_answers(resp: Json, e: Json, result: Json)
    ensures
        member(resp, "error"@) == Some(e) ==> answer(resp) == Err::<Json, RpcErrorView>(
            RpcErrorView::Reported(e),
        ),
        member(resp, "error"@) is None && member(resp, "result"@) == Some(result) ==> answer(resp)
            == Ok::<Json, RpcErrorView>(result),
        member(resp, "error"@) is None && member(resp, "result"@) is None ==> answer(resp) == Err::<
            Json,
            RpcErrorView,
        >(RpcErrorView::MissingResult),
{
}

/// What is said of a failed call starts with the method, and ends with the reported error.
pub proof fn law_failures_name_the_call(e: RpcErrorView, method: Seq<char>, json: Seq<char>)
    ensures
        method.is_prefix_of(rpc_error_text(e, method, json)),
        e is Reported ==> json.is_suffix_of(rpc_error_text(e, method, json)),
        e is Reported ==> rpc_error_text(e, method, json).len() == method.len() + 13 + json.len(),
        e is MissingResult ==> rpc_error_text(e, method, json).len() == method.len() + 16,
{
    reveal_strlit(": rpc error: ");
    reveal_strlit(": missing result");
    assert(": rpc error: "@.len() == 13);
}

/// The names differ.
proof fn lemma_query_names()
    ensures
        "txDigest"@.len() == 8,
        "eventSeq"@.len() == 8,
        "MoveEventModule"@.len() == 15,
        "package"@.len() == 7,
        "module"@.len() == 6,
        "showContent"@.len() == 11,
        "showOwner"@.len() == 9,
        "type"@.len() == 4,
        "value"@.len() == 5,
        "address"@.len() == 7,
        "txDigest"@[0] != "eventSeq"@[0],
        "package"@[0] != "address"@[0],
{
    reveal_strlit("txDigest");
    reveal_strlit("eventSeq");
    reveal_strlit("MoveEventModule");
    reveal_strlit("package");
    reveal_strlit("module");
    reveal_strlit("showContent");
    reveal_strlit("showOwner");
    reveal_strlit("type");
    reveal_strlit("value");
    reveal_strlit("address");
}

/// A query for events asks for the events of the module in the package, after the cursor,
/// at most so many of them, oldest first.
pub proof fn law_events_query(
    package: Seq<char>,
    module: Seq<char>,
    cursor: EventIdView,
    limit: int,
)
    ensures
        elements(events_query(package, module, Some(cursor), limit)) matches Some(q) && {
            &&& q.len() == 4
            &&& member_of(member(q[0], "MoveEventModule"@), "package"@) == Some(json_text(package))
            &&& member_of(member(q[0], "MoveEventModule"@), "module"@) == Some(json_text(module))
            &&& member(q[1], "txDigest"@) == Some(json_text(cursor.tx_digest))
            &&& member(q[1], "eventSeq"@) == Some(json_text(cursor.event_seq))
            &&& q[2] == json_int(limit)
            &&& q[3] == Json::Bool(false)
        },
        elements(events_query(package, module, None, limit)) matches Some(q) && q[1] == Json::Null,
{
    lemma_query_names();
    reveal_with_fuel(first_entry, 3);
}

/// Content and owner of an object are asked for; an entry of a table is asked for by the
/// address.
pub proof fn law_object_queries(address: Seq<char>)
    ensures
        member(object_options(), "showContent"@) == Some(Json::Bool(true)),
        member(object_options(), "showOwner"@) == Some(Json::Bool(true)),
        member(address_key(address), "type"@) == Some(json_text("address"@)),
        member(address_key(address), "value"@) == Some(json_text(address)),
{
    lemma_query_names();
    reveal_with_fuel(first_entry, 3);
}

/// Every readable object of a batch stands in its place: the objects of two stretches are
/// those of the one, then those of the other.
pub proof fn law_objects_in(a: Seq<Json>, b: Seq<Json>, entry: Json)
    ensures
        objects_in(a + b) == objects_in(a) + objects_in(b),
        object_of(member(entry, "data"@)) matches Some(o) ==> objects_in(seq![entry]) == seq![o],
        object_of(member(entry, "data"@)) is None ==> objects_in(seq![entry]) == Seq::<
            ObjectView,
        >::empty(),
    decreases b.len(),
{
    reveal_with_fuel(objects_in, 2);
    assert(seq![entry].drop_last() =~= Seq::<Json>::empty());
    if b.len() == 0 {
        assert(a + b =~= a);
        assert(objects_in(a + b) =~= objects_in(a) + objects_in(b));
    } else {
        law_objects_in(a, b.drop_last(), entry);
        assert((a + b).drop_last() =~= a + b.drop_last());
        assert(objects_in(a + b) =~= objects_in(a) + objects_in(b));
    }
}

/// A coin as the node writes it.
pub open spec fn written_coin(c: GasCoin) -> Json {
    Json::Object(
        seq![
            ("coinObjectId"@, json_text(c.id@)),
            ("version"@, json_decimal(c.version as int)),
            ("digest"@, json_text(c.digest@)),
            ("balance"@, json_decimal(c.balance as int)),
        ],
    )
}

/// The names differ.
proof fn lemma_coin_names()
    ensures
        "coinObjectId"@.len() == 12,
        "version"@.len() == 7,
        "digest"@.len() == 6,
        "balance"@.len() == 7,
        "data"@.len() == 4,
        "version"@[0] != "balance"@[0],
{
    reveal_strlit("coinObjectId");
    reveal_strlit("version");
    reveal_strlit("digest");
    reveal_strlit("balance");
    reveal_strlit("data");
}

/// A coin reads back, and one without any of its four fields is no coin.
pub proof fn law_coin_reads_back(c: GasCoin, j: Json)
    ensures
        coin(written_coin(c)) == Some(c@),
        member(j, "coinObjectId"@) is None || member(j, "version"@) is None || member(
            j,
            "digest"@,
        ) is None || member(j, "balance"@) is None ==> coin(j) is None,
{
    lemma_coin_names();
    reveal_with_fuel(first_entry, 5);
    law_number_reads_back(c.version);
    law_number_reads_back(c.balance);
}

/// The coins of a list read back, in order.
pub proof fn law_coins_read_back(entries: Seq<GasCoin>)
    ensures
        coins(
            Json::Object(seq![("data"@, Json::Array(entries.map_values(|c: GasCoin| written_coin(c))))]),
        ) == entries.map_values(|c: GasCoin| c@),
{
    let written = entries.map_values(|c: GasCoin| written_coin(c));
    reveal_with_fuel(first_entry, 2);
    lemma_coins_read_back(entries, written);
}

proof fn lemma_coins_read_back(entries: Seq<GasCoin>, written: Seq<Json>)
    requires
        written.len() == entries.len(),
        forall|i: int| 0 <= i < entries.len() ==> #[trigger] written[i] == written_coin(entries[i]),
    ensures
        coins_in(written) == entries.map_values(|c: GasCoin| c@),
    decreases entries.len(),
{
    if entries.len() == 0 {
        assert(coins_in(written) =~= entries.map_values(|c: GasCoin| c@));
    } else {
        lemma_coins_read_back(entries.drop_last(), written.drop_last());
        law_coin_reads_back(entries.last(), written.last());
        assert(written[written.len() - 1] == written_coin(entries[entries.len() - 1]));
        assert(coins_in(written) =~= entries.map_values(|c: GasCoin| c@));
    }
}

/// The coins of two stretches are those of the one, then those of the other; what is no
/// coin is left out.
pub proof fn law_coins_in(a: Seq<Json>, b: Seq<Json>, entry: Json)
    ensures
        coins_in(a + b) == coins_in(a) + coins_in(b),
        coin(entry) is None ==> coins_in(seq![entry]) == Seq::<GasCoinView>::empty(),
    decreases b.len(),
{
    reveal_with_fuel(coins_in, 2);
    assert(seq![entry].drop_last() =~= Seq::<Json>::empty());
    if b.len() == 0 {
        assert(a + b =~= a);
        assert(coins_in(a + b) =~= coins_in(a) + coins_in(b));
    } else {
        law_coins_in(a, b.drop_last(), entry);
        assert((a + b).drop_last() =~= a + b.drop_last());
        assert(coins_in(a + b) =~= coins_in(a) + coins_in(b));
    }
}

/// The names differ.
proof fn lemma_execution_names()
    ensures
        "effects"@.len() == 7,
        "status"@.len() == 6,
        "digest"@.len() == 6,
        "error"@.len() == 5,
        "success"@.len() == 7,
        "effects"@[0] != "success"@[0],
        "status"@[0] != "digest"@[0],
{
    reveal_strlit("effects");
    reveal_strlit("status");
    reveal_strlit("digest");
    reveal_strlit("error");
    reveal_strlit("success");
}

/// An execution is a success if its status says so and in no other case; its digest and
/// its error are those of the answer.
pub proof fn law_execution_is_read(
    digest: Seq<char>,
    status: Seq<char>,
    error: Option<Seq<char>>,
)
    ensures
        ({
            let result = Json::Object(
                seq![
                    ("digest"@, json_text(digest)),
                    (
                        "effects"@,
                        Json::Object(
                            seq![
                                (
                                    "status"@,
                                    Json::Object(
                                        seq![
                                            ("status"@, json_text(status)),
                                            ("error"@, json_opt_text(error)),
                                        ],
                                    ),
                                ),
                            ],
                        ),
                    ),
                ],
            );
            let e = execution(result);
            &&& e.digest == digest
            &&& e.success <==> status == "success"@
            &&& e.error == error
        }),
{
    lemma_execution_names();
    reveal_with_fuel(first_entry, 3);
}

/// An execution without effects is no success.
pub proof fn law_no_effects_is_no_success(result: Json)
    requires
        member_of(member(result, "effects"@), "status"@) is None,
    ensures
        !execution(result).success,
        execution(result).error is None,
{
}

/// What is said of a failed call and of an object that cannot be had.
pub proof fn law_failures_are_worded(
    e: Json,
    method: Seq<char>,
    object_id: Seq<char>,
    json: Seq<char>,
)
    ensures
        rpc_error_text(RpcErrorView::Reported(e), method, json) == method + ": rpc error: "@
            + json,
        rpc_error_text(RpcErrorView::MissingResult, method, json) == method
            + ": missing result"@,
        object_error_text(ObjectError::NotFound, object_id, json) == "sui_getObject: object "@
            + object_id + " not found: "@ + json,
        object_error_text(ObjectError::Unreadable, object_id, json)
            == "sui_getObject: cannot parse object "@ + object_id,
{
}

/// The models of an execution and of a cursor have their values.
pub proof fn law_models_have_the_values(x: Execution, c: EventId)
    ensures
        x@.digest == x.digest@ && x@.success == x.success && x@.error == view_opt(x.error),
        c@.tx_digest == c.tx_digest@ && c@.event_seq == c.event_seq@,
{
}

} // verus!
