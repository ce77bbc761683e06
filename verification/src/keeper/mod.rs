//! The keeper: it drives pools through their states.
//!
//! | state    | when                         | call         |
//! |----------|------------------------------|--------------|
//! | `Open`   | past the commit deadline     | `close_pool` |
//! | `Closed` | past the reveal deadline     | `lock_pool`  |
//! | `Locked` | once every oracle is settled | `resolve`    |
//! | `Scored` | at once                      | `distribute` |
//!
//! The keeper only sends transactions. The stored state of a pool may lag behind
//! the chain, so the state on chain is looked at again before anything is sent.

pub mod sdk;
pub mod tx;

use vstd::prelude::*;

use crate::json::{json_texts, member, Json, Value};
use crate::keeper::tx::{CallArg, CallArgView};
use crate::sui::client::{view_result, Execution, ExecutionView};
use crate::sui::types::{
    field_enum_variant, law_text_list_reads_back, oracle, string_list, text_list, variant_name, ObjectData,
    ObjectView, OracleSvi,
};
use crate::text::{
    join3, law_hex_prefix_is_ignored, same, strip_hex_prefix, view_all, view_opt, without_hex_prefix,
};

verus! {

/// Seconds between two rounds.
pub const LOOP_INTERVAL_SECONDS: u64 = 10;

/// An action on a pool is not tried again within so many seconds.
pub const BACKOFF_SECONDS: i64 = 60;

/// What the keeper can do to a pool.
#[derive(Debug, Clone, Copy, PartialEq, Eq, Structural)]
pub enum Action {
    ClosePool,
    LockPool,
    Resolve,
    Distribute,
}

/// The function that performs an action.
pub open spec fn function_name(a: Action) -> Seq<char> {
    match a {
        Action::ClosePool => "close_pool"@,
        Action::LockPool => "lock_pool"@,
        Action::Resolve => "resolve"@,
        Action::Distribute => "distribute"@,
    }
}

/// The state that an action starts from.
pub open spec fn expected_state(a: Action) -> Seq<char> {
    match a {
        Action::ClosePool => "Open"@,
        Action::LockPool => "Closed"@,
        Action::Resolve => "Locked"@,
        Action::Distribute => "Scored"@,
    }
}

impl Action {
    pub fn function(self) -> (r: &'static str)
        ensures
            r@ == function_name(self),
    {
        match self {
            Action::ClosePool => "close_pool",
            Action::LockPool => "lock_pool",
            Action::Resolve => "resolve",
            Action::Distribute => "distribute",
        }
    }

    pub fn expected(self) -> (r: &'static str)
        ensures
            r@ == expected_state(self),
    {
        match self {
            Action::ClosePool => "Open",
            Action::LockPool => "Closed",
            Action::Resolve => "Locked",
            Action::Distribute => "Scored",
        }
    }
}

/// A pool that is not distributed, as it is stored.
#[derive(Debug, PartialEq, Eq)]
pub struct WatchedPool {
    pub pool_id: String,
    pub state: String,
    pub commit_deadline_ms: i64,
    pub reveal_deadline_ms: i64,
    /// Unknown until the pool object has been fetched once.
    pub initial_shared_version: Option<i64>,
    pub oracle_ids: Option<Value>,
}

pub struct WatchedPoolView {
    pub pool_id: Seq<char>,
    pub state: Seq<char>,
    pub commit_deadline_ms: i64,
    pub reveal_deadline_ms: i64,
    pub initial_shared_version: Option<i64>,
    pub oracle_ids: Option<Json>,
}

impl View for WatchedPool {
    type V = WatchedPoolView;

    open spec fn view(&self) -> WatchedPoolView {
        WatchedPoolView {
            pool_id: self.pool_id@,
            state: self.state@,
            commit_deadline_ms: self.commit_deadline_ms,
            reveal_deadline_ms: self.reveal_deadline_ms,
            initial_shared_version: self.initial_shared_version,
            oracle_ids: view_opt(self.oracle_ids),
        }
    }
}

/// The action that the stored state of a pool calls for.
pub open spec fn due_action(p: WatchedPoolView, now_ms: i64) -> Option<Action> {
    if p.initial_shared_version is None {
        None
    } else if p.state == "Open"@ {
        if now_ms > p.commit_deadline_ms {
            Some(Action::ClosePool)
        } else {
            None
        }
    } else if p.state == "Closed"@ {
        if now_ms > p.reveal_deadline_ms {
            Some(Action::LockPool)
        } else {
            None
        }
    } else if p.state == "Locked"@ {
        Some(Action::Resolve)
    } else if p.state == "Scored"@ {
        Some(Action::Distribute)
    } else {
        None
    }
}

/// Finds the action that is due.
pub fn due(p: &WatchedPool, now_ms: i64) -> (r: Option<Action>)
    ensures
        r == due_action(p@, now_ms),
{
    if p.initial_shared_version.is_none() {
        None
    } else if same(p.state.as_str(), "Open") {
        if now_ms > p.commit_deadline_ms {
            Some(Action::ClosePool)
        } else {
            None
        }
    } else if same(p.state.as_str(), "Closed") {
        if now_ms > p.reveal_deadline_ms {
            Some(Action::LockPool)
        } else {
            None
        }
    } else if same(p.state.as_str(), "Locked") {
        Some(Action::Resolve)
    } else if same(p.state.as_str(), "Scored") {
        Some(Action::Distribute)
    } else {
        None
    }
}

// ---------------------------------------------------------------------------
// Settlement
// ---------------------------------------------------------------------------

/// The oracles of a pool; none if the list is absent or no list of strings.
pub open spec fn oracle_list(ids: Option<Json>) -> Seq<Seq<char>> {
    match text_list(ids) {
        Some(ids) => ids,
        None => seq![],
    }
}

/// Reads the oracles of a pool.
pub fn oracles_of(ids: &Option<Value>) -> (r: Vec<String>)
    ensures
        view_all(r@) == oracle_list(view_opt(*ids)),
{
    let listed = match ids {
        Some(v) => string_list(v),
        None => None,
    };
    match listed {
        Some(ids) => ids,
        None => {
            let none: Vec<String> = Vec::new();
            assert(view_all(none@) =~= seq![]);
            none
        },
    }
}

/// Whether an object has an id, with or without the prefix `0x`.
pub open spec fn has_id(o: ObjectView, id: Seq<char>) -> bool {
    o.object_id == id || strip_hex_prefix(o.object_id) == strip_hex_prefix(id)
}

/// The first object with an id.
pub open spec fn find_object(objects: Seq<ObjectView>, id: Seq<char>) -> Option<ObjectView>
    decreases objects.len(),
{
    if objects.len() == 0 {
        None
    } else if has_id(objects[0], id) {
        Some(objects[0])
    } else {
        find_object(objects.skip(1), id)
    }
}

/// The price at which an oracle has settled.
pub open spec fn settled_price(objects: Seq<ObjectView>, id: Seq<char>) -> Option<u64> {
    match find_object(objects, id) {
        Some(o) => match oracle(o.fields) {
            Some(o) => o.settlement_price,
            None => None,
        },
        None => None,
    }
}

/// One settlement price for each leg, if every oracle was found and has settled.
pub open spec fn settled_prices(ids: Seq<Seq<char>>, objects: Seq<ObjectView>) -> Option<
    Seq<u64>,
> {
    if ids.len() > 0 && objects.len() == ids.len() && forall|i: int|
        0 <= i < ids.len() ==> settled_price(objects, #[trigger] ids[i]) is Some {
        Some(Seq::new(ids.len(), |i: int| settled_price(objects, ids[i])->0))
    } else {
        None
    }
}

fn price_of(objects: &Vec<ObjectData>, id: &str) -> (r: Option<u64>)
    ensures
        r == settled_price(view_all(objects@), id@),
{
    let ghost all = view_all(objects@);
    let mut i: usize = 0;
    assert(all.skip(0) =~= all);
    while i < objects.len()
        invariant
            i <= objects@.len(),
            all == view_all(objects@),
            find_object(all, id@) == find_object(all.skip(i as int), id@),
        decreases objects@.len() - i,
    {
        let o = &objects[i];
        assert(all.skip(i as int)[0] == o@);
        if same(o.object_id.as_str(), id) || same(
            without_hex_prefix(o.object_id.as_str()),
            without_hex_prefix(id),
        ) {
            return match OracleSvi::from_fields(&o.fields) {
                Some(svi) => svi.settlement_price,
                None => None,
            };
        }
        assert(all.skip(i as int).skip(1) =~= all.skip(i + 1));
        i = i + 1;
    }
    None
}

/// One settlement price for each oracle of a pool, or `None` while one is missing.
pub fn settlement_prices(ids: &Vec<String>, objects: &Vec<ObjectData>) -> (r: Option<Vec<u64>>)
    ensures
        view_opt(r) == settled_prices(view_all(ids@), view_all(objects@)),
{
    let ghost wanted = view_all(ids@);
    let ghost all = view_all(objects@);
    if ids.len() == 0 || objects.len() != ids.len() {
        return None;
    }
    let mut out: Vec<u64> = Vec::new();
    let mut i: usize = 0;
    while i < ids.len()
        invariant
            i <= ids@.len(),
            out@.len() == i,
            wanted == view_all(ids@),
            all == view_all(objects@),
            forall|k: int|
                0 <= k < i ==> settled_price(all, #[trigger] wanted[k]) == Some(out@[k]),
        decreases ids@.len() - i,
    {
        assert(wanted[i as int] == ids@[i as int]@);
        match price_of(objects, ids[i].as_str()) {
            Some(price) => out.push(price),
            None => return None,
        }
        i = i + 1;
    }
    assert(settled_prices(wanted, all)->0 =~= out@);
    Some(out)
}

/// The version at which an object was shared, or what to say if it is not shared.
pub fn config_initial_version(o: &ObjectData, config_id: &str) -> (r: Result<u64, String>)
    ensures
        match o@.initial_shared_version {
            Some(v) => r == Ok::<u64, String>(v),
            None => r matches Err(e) && e@ == unshared_text(config_id@),
        },
{
    match o.initial_shared_version {
        Some(v) => Ok(v),
        None => Err(join3("PoolConfig ", config_id, " is not a shared object")),
    }
}

pub open spec fn unshared_text(config_id: Seq<char>) -> Seq<char> {
    "PoolConfig "@ + config_id + " is not a shared object"@
}

// ---------------------------------------------------------------------------
// A turn
// ---------------------------------------------------------------------------

/// What a turn waits for.
#[derive(Debug, Clone, Copy, PartialEq, Eq, Structural)]
pub enum Stage {
    /// The oracle objects.
    Oracles,
    /// The pool configuration object.
    Config,
    /// Whether the action was tried recently.
    Recent,
    /// The pool object.
    Chain,
    /// Nothing: the call is to be sent.
    Send,
    /// Nothing: there is nothing to do.
    Over,
}

/// The turn of one pool in a round of the keeper.
pub struct Turn {
    pool: WatchedPool,
    action: Action,
    stage: Stage,
    prices: Vec<u64>,
    config_version: u64,
}

pub struct TurnView {
    pub pool: WatchedPoolView,
    pub action: Action,
    pub stage: Stage,
    pub prices: Seq<u64>,
    pub config_version: u64,
}

impl View for Turn {
    type V = TurnView;

    closed spec fn view(&self) -> TurnView {
        TurnView {
            pool: self.pool@,
            action: self.action,
            stage: self.stage,
            prices: self.prices@,
            config_version: self.config_version,
        }
    }
}

/// What comes back to a turn.
pub enum Reply {
    /// The oracle objects.
    Oracles(Vec<ObjectData>),
    /// The version at which the pool configuration was shared.
    ConfigVersion(u64),
    /// Whether the action was tried within the backoff.
    Attempted(bool),
    /// The pool object.
    Pool(ObjectData),
}

pub enum ReplyView {
    Oracles(Seq<ObjectView>),
    ConfigVersion(u64),
    Attempted(bool),
    Pool(ObjectView),
}

impl View for Reply {
    type V = ReplyView;

    open spec fn view(&self) -> ReplyView {
        match *self {
            Reply::Oracles(v) => ReplyView::Oracles(view_all(v@)),
            Reply::ConfigVersion(v) => ReplyView::ConfigVersion(v),
            Reply::Attempted(b) => ReplyView::Attempted(b),
            Reply::Pool(o) => ReplyView::Pool(o@),
        }
    }
}

/// What an action waits for first.
pub open spec fn first_stage(p: WatchedPoolView, a: Action) -> Stage {
    match a {
        Action::ClosePool => Stage::Recent,
        Action::LockPool => Stage::Recent,
        Action::Resolve => if oracle_list(p.oracle_ids).len() == 0 {
            Stage::Over
        } else {
            Stage::Oracles
        },
        Action::Distribute => Stage::Config,
    }
}

/// The turn of a pool at its start.
pub open spec fn first_turn(p: WatchedPoolView, now_ms: i64) -> Option<TurnView> {
    match due_action(p, now_ms) {
        Some(action) => Some(
            TurnView {
                pool: p,
                action,
                stage: first_stage(p, action),
                prices: seq![],
                config_version: 0,
            },
        ),
        None => None,
    }
}

/// The turn after a reply; `None` for a reply that the turn does not wait for.
pub open spec fn next_turn(t: TurnView, r: ReplyView) -> Option<TurnView> {
    match (t.stage, r) {
        (Stage::Oracles, ReplyView::Oracles(objects)) => match settled_prices(
            oracle_list(t.pool.oracle_ids),
            objects,
        ) {
            Some(prices) => Some(TurnView { stage: Stage::Config, prices, ..t }),
            None => Some(TurnView { stage: Stage::Over, ..t }),
        },
        (Stage::Config, ReplyView::ConfigVersion(config_version)) => Some(
            TurnView { stage: Stage::Recent, config_version, ..t },
        ),
        (Stage::Recent, ReplyView::Attempted(recently)) => Some(
            TurnView {
                stage: if recently {
                    Stage::Over
                } else {
                    Stage::Chain
                },
                ..t
            },
        ),
        (Stage::Chain, ReplyView::Pool(o)) => Some(
            TurnView {
                stage: if variant_name(member(o.fields, "state"@)) == Some(
                    expected_state(t.action),
                ) {
                    Stage::Send
                } else {
                    Stage::Over
                },
                ..t
            },
        ),
        _ => None,
    }
}

impl Turn {
    /// Starts the turn of a pool, if an action is due.
    pub fn begin(pool: WatchedPool, now_ms: i64) -> (r: Option<Turn>)
        ensures
            view_opt(r) == first_turn(pool@, now_ms),
    {
        match due(&pool, now_ms) {
            None => None,
            Some(action) => {
                let stage = match action {
                    Action::ClosePool => Stage::Recent,
                    Action::LockPool => Stage::Recent,
                    Action::Resolve => if oracles_of(&pool.oracle_ids).len() == 0 {
                        Stage::Over
                    } else {
                        Stage::Oracles
                    },
                    Action::Distribute => Stage::Config,
                };
                Some(Turn { pool, action, stage, prices: Vec::new(), config_version: 0 })
            },
        }
    }

    /// The pool whose turn it is.
    pub fn pool(&self) -> (r: &WatchedPool)
        ensures
            r@ == self@.pool,
    {
        &self.pool
    }

    /// The action that is due.
    pub fn action(&self) -> (r: Action)
        ensures
            r == self@.action,
    {
        self.action
    }

    /// What the turn waits for.
    pub fn stage(&self) -> (r: Stage)
        ensures
            r == self@.stage,
    {
        self.stage
    }

    /// Takes the reply that the turn waits for.
    pub fn reply(self, reply: Reply) -> (r: Option<Turn>)
        ensures
            view_opt(r) == next_turn(self@, reply@),
    {
        match (self.stage, reply) {
            (Stage::Oracles, Reply::Oracles(objects)) => {
                match settlement_prices(&oracles_of(&self.pool.oracle_ids), &objects) {
                    Some(prices) => Some(Turn { stage: Stage::Config, prices, ..self }),
                    None => Some(Turn { stage: Stage::Over, ..self }),
                }
            },
            (Stage::Config, Reply::ConfigVersion(config_version)) => Some(
                Turn { stage: Stage::Recent, config_version, ..self },
            ),
            (Stage::Recent, Reply::Attempted(recently)) => Some(
                Turn {
                    stage: if recently {
                        Stage::Over
                    } else {
                        Stage::Chain
                    },
                    ..self
                },
            ),
            (Stage::Chain, Reply::Pool(o)) => {
                let as_expected = match field_enum_variant(&o.fields, "state") {
                    Some(s) => same(s.as_str(), self.action.expected()),
                    None => false,
                };
                Some(
                    Turn {
                        stage: if as_expected {
                            Stage::Send
                        } else {
                            Stage::Over
                        },
                        ..self
                    },
                )
            },
            _ => None,
        }
    }

    /// The arguments of the call.
    pub fn call_args(&self, pool_config_id: &str) -> (r: Vec<CallArg>)
        ensures
            view_all(r@) == turn_args(self@, pool_config_id@),
    {
        let version: u64 = match self.pool.initial_shared_version {
            Some(v) => v as u64,
            None => 0,
        };
        let pool = CallArg::SharedMut { id: self.pool.pool_id.clone(), initial_version: version };
        let mut args: Vec<CallArg> = Vec::new();
        args.push(pool);
        match self.action {
            Action::ClosePool | Action::LockPool => {
                args.push(CallArg::ClockRef);
            },
            Action::Resolve => {
                args.push(CallArg::PureU64Vec(copy_numbers(&self.prices)));
                args.push(
                    CallArg::SharedRef {
                        id: pool_config_id.to_owned(),
                        initial_version: self.config_version,
                    },
                );
                args.push(CallArg::OwnedKeeperCap);
                args.push(CallArg::ClockRef);
            },
            Action::Distribute => {
                args.push(
                    CallArg::SharedRef {
                        id: pool_config_id.to_owned(),
                        initial_version: self.config_version,
                    },
                );
                args.push(CallArg::OwnedKeeperCap);
            },
        }
        assert(view_all(args@) =~= turn_args(self@, pool_config_id@));
        args
    }
}

fn copy_numbers(v: &Vec<u64>) -> (r: Vec<u64>)
    ensures
        r@ == v@,
{
    let mut out: Vec<u64> = Vec::new();
    let mut i: usize = 0;
    while i < v.len()
        invariant
            i <= v@.len(),
            out@ =~= v@.take(i as int),
        decreases v@.len() - i,
    {
        out.push(v[i]);
        i = i + 1;
    }
    assert(out@ =~= v@);
    out
}

/// The arguments of the call that ends a turn, in the order of the Move function.
pub open spec fn turn_args(t: TurnView, pool_config_id: Seq<char>) -> Seq<CallArgView> {
    let pool = CallArgView::SharedMut {
        id: t.pool.pool_id,
        initial_version: match t.pool.initial_shared_version {
            Some(v) => v as u64,
            None => 0,
        },
    };
    let config = CallArgView::SharedRef {
        id: pool_config_id,
        initial_version: t.config_version,
    };
    match t.action {
        Action::ClosePool => seq![pool, CallArgView::ClockRef],
        Action::LockPool => seq![pool, CallArgView::ClockRef],
        Action::Resolve => seq![
            pool,
            CallArgView::PureU64Vec(t.prices),
            config,
            CallArgView::OwnedKeeperCap,
            CallArgView::ClockRef,
        ],
        Action::Distribute => seq![pool, config, CallArgView::OwnedKeeperCap],
    }
}

/// A turn after a number of replies, each of which it waited for.
pub open spec fn turn_after(p: WatchedPoolView, now_ms: i64, replies: Seq<ReplyView>) -> Option<
    TurnView,
>
    decreases replies.len(),
{
    if replies.len() == 0 {
        first_turn(p, now_ms)
    } else {
        match turn_after(p, now_ms, replies.drop_last()) {
            Some(t) => next_turn(t, replies.last()),
            None => None,
        }
    }
}

/// What holds of a turn at each stage, whatever was replied.
pub open spec fn turn_justified(
    p: WatchedPoolView,
    now_ms: i64,
    replies: Seq<ReplyView>,
    t: TurnView,
) -> bool {
    &&& t.pool == p
    &&& due_action(p, now_ms) == Some(t.action)
    &&& (t.stage == Stage::Chain || t.stage == Stage::Send) ==> replies.contains(
        ReplyView::Attempted(false),
    )
    &&& t.stage == Stage::Send ==> replies.len() > 0 && (replies.last() matches ReplyView::Pool(o)
        && variant_name(member(o.fields, "state"@)) == Some(
        expected_state(t.action),
    ))
    &&& (t.action == Action::Resolve && (t.stage == Stage::Config || t.stage == Stage::Recent
        || t.stage == Stage::Chain || t.stage == Stage::Send)) ==> exists|objects: Seq<ObjectView>|
        #![trigger settled_prices(oracle_list(p.oracle_ids), objects)]
        replies.contains(ReplyView::Oracles(objects)) && settled_prices(
            oracle_list(p.oracle_ids),
            objects,
        ) == Some(t.prices)
}

proof fn lemma_turn_justified(p: WatchedPoolView, now_ms: i64, replies: Seq<ReplyView>)
    ensures
        turn_after(p, now_ms, replies) matches Some(t) ==> turn_justified(p, now_ms, replies, t),
    decreases replies.len(),
{
    if replies.len() > 0 {
        let head = replies.drop_last();
        lemma_turn_justified(p, now_ms, head);
        assert(replies.last() == replies[replies.len() - 1]);
        assert(replies.contains(replies.last()));
        assert forall|r: ReplyView| head.contains(r) implies replies.contains(r) by {
            let i = choose|i: int| 0 <= i < head.len() && head[i] == r;
            assert(replies[i] == r);
        }
        if turn_after(p, now_ms, head) is Some {
            let before = turn_after(p, now_ms, head)->0;
            match (before.stage, replies.last()) {
                (Stage::Oracles, ReplyView::Oracles(objects)) => {
                    assert(settled_prices(oracle_list(p.oracle_ids), objects)
                        == settled_prices(oracle_list(p.oracle_ids), objects));
                },
                _ => {},
            }
        }
    }
}

/// A call is sent only if the stored state called for it, it had not been tried
/// within the backoff, and the pool was, when last looked at, in the state that
/// the call starts from. A pool is resolved only with the settlement prices of all
/// its oracles.
pub proof fn law_sent_only_when_warranted(
    p: WatchedPoolView,
    now_ms: i64,
    replies: Seq<ReplyView>,
)
    requires
        turn_after(p, now_ms, replies) is Some,
        turn_after(p, now_ms, replies)->0.stage == Stage::Send,
    ensures
        ({
            let t = turn_after(p, now_ms, replies)->0;
            &&& due_action(p, now_ms) == Some(t.action)
            &&& replies.contains(ReplyView::Attempted(false))
            &&& replies.last() matches ReplyView::Pool(o) && variant_name(
                member(o.fields, "state"@),
            ) == Some(expected_state(t.action))
            &&& t.action == Action::Resolve ==> exists|objects: Seq<ObjectView>|
                #![trigger settled_prices(oracle_list(p.oracle_ids), objects)]
                replies.contains(ReplyView::Oracles(objects)) && settled_prices(
                    oracle_list(p.oracle_ids),
                    objects,
                ) == Some(t.prices)
        }),
{
    lemma_turn_justified(p, now_ms, replies);
}

/// A turn never goes on once it is over, nor once its call is to be sent.
pub proof fn law_turn_ends(t: TurnView, r: ReplyView)
    requires
        t.stage == Stage::Over || t.stage == Stage::Send,
    ensures
        next_turn(t, r) is None,
{
}

// ---------------------------------------------------------------------------
// Records
// ---------------------------------------------------------------------------

/// What is recorded of a try.
#[derive(Debug, PartialEq, Eq)]
pub struct ActionRecord {
    pub tx_digest: Option<String>,
    pub success: bool,
    pub error: Option<String>,
}

pub struct ActionRecordView {
    pub tx_digest: Option<Seq<char>>,
    pub success: bool,
    pub error: Option<Seq<char>>,
}

impl View for ActionRecord {
    type V = ActionRecordView;

    open spec fn view(&self) -> ActionRecordView {
        ActionRecordView {
            tx_digest: view_opt(self.tx_digest),
            success: self.success,
            error: view_opt(self.error),
        }
    }
}

/// A success has no error; a failure on chain has a digest, any other has none.
pub open spec fn action_record(result: Result<ExecutionView, Seq<char>>) -> ActionRecordView {
    match result {
        Ok(e) => ActionRecordView {
            tx_digest: Some(e.digest),
            success: e.success,
            error: if e.success {
                None
            } else {
                e.error
            },
        },
        Err(text) => ActionRecordView { tx_digest: None, success: false, error: Some(text) },
    }
}

/// The text that is stored for an outcome.
pub open spec fn status_text(success: bool) -> Seq<char> {
    if success {
        "success"@
    } else {
        "failed"@
    }
}

/// Turns the outcome of a try, or the text of the error that kept it from being
/// sent, into its record.
pub fn record_action(result: Result<Execution, String>) -> (r: ActionRecord)
    ensures
        r@ == action_record(view_result(result)),
{
    match result {
        Ok(e) => ActionRecord {
            tx_digest: Some(e.digest),
            success: e.success,
            error: if e.success {
                None
            } else {
                e.error
            },
        },
        Err(text) => ActionRecord { tx_digest: None, success: false, error: Some(text) },
    }
}

impl ActionRecord {
    pub fn status(&self) -> (r: &'static str)
        ensures
            r@ == status_text(self.success),
    {
        if self.success {
            "success"
        } else {
            "failed"
        }
    }
}

/// The names differ.
proof fn lemma_state_names()
    ensures
        "Open"@.len() == 4,
        "Closed"@.len() == 6,
        "Locked"@.len() == 6,
        "Scored"@.len() == 6,
        "Closed"@[0] != "Locked"@[0],
        "Closed"@[0] != "Scored"@[0],
        "Locked"@[0] != "Scored"@[0],
{
    reveal_strlit("Open");
    reveal_strlit("Closed");
    reveal_strlit("Locked");
    reveal_strlit("Scored");
}

/// The keeper closes an open pool past its commit deadline, locks a closed one past its
/// reveal deadline, resolves a locked one and distributes a scored one. It does nothing
/// else, and nothing to a pool whose object it has not seen.
pub proof fn law_actions_follow_the_states(p: WatchedPoolView, now_ms: i64)
    ensures
        due_action(p, now_ms) == Some(Action::ClosePool) <==> p.initial_shared_version is Some
            && p.state == "Open"@ && now_ms > p.commit_deadline_ms,
        due_action(p, now_ms) == Some(Action::LockPool) <==> p.initial_shared_version is Some
            && p.state == "Closed"@ && now_ms > p.reveal_deadline_ms,
        due_action(p, now_ms) == Some(Action::Resolve) <==> p.initial_shared_version is Some
            && p.state == "Locked"@,
        due_action(p, now_ms) == Some(Action::Distribute) <==> p.initial_shared_version is Some
            && p.state == "Scored"@,
{
    lemma_state_names();
}

/// Every action calls the function of the pool module that takes the pool out of the
/// state that calls for the action.
pub proof fn law_actions_start_where_they_are_due(p: WatchedPoolView, now_ms: i64)
    ensures
        due_action(p, now_ms) matches Some(a) ==> expected_state(a) == p.state,
        function_name(Action::ClosePool) == "close_pool"@,
        function_name(Action::LockPool) == "lock_pool"@,
        function_name(Action::Resolve) == "resolve"@,
        function_name(Action::Distribute) == "distribute"@,
{
}

/// Progress: if an action is due that was not tried within the backoff, and the chain
/// still shows the state that it starts from, the turn comes to the call. Resolving asks
/// for the oracles and the configuration first, and needs every oracle settled;
/// distributing asks for the configuration first.
pub proof fn law_due_actions_are_sent(
    p: WatchedPoolView,
    now_ms: i64,
    oracles: Seq<ObjectView>,
    config_version: u64,
    o: ObjectView,
)
    requires
        p.initial_shared_version is Some,
        variant_name(member(o.fields, "state"@)) == Some(p.state),
    ensures
        p.state == "Open"@ && now_ms > p.commit_deadline_ms ==> (turn_after(
            p,
            now_ms,
            seq![ReplyView::Attempted(false), ReplyView::Pool(o)],
        ) matches Some(t) && t.stage == Stage::Send && t.action == Action::ClosePool),
        p.state == "Closed"@ && now_ms > p.reveal_deadline_ms ==> (turn_after(
            p,
            now_ms,
            seq![ReplyView::Attempted(false), ReplyView::Pool(o)],
        ) matches Some(t) && t.stage == Stage::Send && t.action == Action::LockPool),
        p.state == "Locked"@ && settled_prices(oracle_list(p.oracle_ids), oracles) is Some ==> (
        turn_after(
            p,
            now_ms,
            seq![
                ReplyView::Oracles(oracles),
                ReplyView::ConfigVersion(config_version),
                ReplyView::Attempted(false),
                ReplyView::Pool(o),
            ],
        ) matches Some(t) && t.stage == Stage::Send && t.action == Action::Resolve && Some(t.prices)
            == settled_prices(oracle_list(p.oracle_ids), oracles) && t.config_version
            == config_version),
        p.state == "Scored"@ ==> (turn_after(
            p,
            now_ms,
            seq![
                ReplyView::ConfigVersion(config_version),
                ReplyView::Attempted(false),
                ReplyView::Pool(o),
            ],
        ) matches Some(t) && t.stage == Stage::Send && t.action == Action::Distribute
            && t.config_version == config_version),
{
    lemma_state_names();
    let c = ReplyView::ConfigVersion(config_version);
    let a = ReplyView::Attempted(false);
    let q = ReplyView::Pool(o);
    let r = ReplyView::Oracles(oracles);
    let none = Seq::<ReplyView>::empty();
    assert(turn_after(p, now_ms, none) == first_turn(p, now_ms));
    lemma_one_more_reply(p, now_ms, none, a);
    lemma_one_more_reply(p, now_ms, seq![a], q);
    lemma_one_more_reply(p, now_ms, none, c);
    lemma_one_more_reply(p, now_ms, seq![c], a);
    lemma_one_more_reply(p, now_ms, seq![c, a], q);
    lemma_one_more_reply(p, now_ms, none, r);
    lemma_one_more_reply(p, now_ms, seq![r], c);
    lemma_one_more_reply(p, now_ms, seq![r, c], a);
    lemma_one_more_reply(p, now_ms, seq![r, c, a], q);
    assert(none.push(a) =~= seq![a]);
    assert(seq![a].push(q) =~= seq![a, q]);
    assert(none.push(c) =~= seq![c]);
    assert(seq![c].push(a) =~= seq![c, a]);
    assert(seq![c, a].push(q) =~= seq![c, a, q]);
    assert(none.push(r) =~= seq![r]);
    assert(seq![r].push(c) =~= seq![r, c]);
    assert(seq![r, c].push(a) =~= seq![r, c, a]);
    assert(seq![r, c, a].push(q) =~= seq![r, c, a, q]);
}

proof fn lemma_one_more_reply(
    p: WatchedPoolView,
    now_ms: i64,
    replies: Seq<ReplyView>,
    r: ReplyView,
)
    ensures
        turn_after(p, now_ms, replies.push(r)) == match turn_after(p, now_ms, replies) {
            Some(t) => next_turn(t, r),
            None => None,
        },
{
    assert(replies.push(r).drop_last() =~= replies);
}

/// A turn is given up, with nothing sent, if the action was tried within the backoff, if
/// the chain shows another state, if an oracle has not settled, or if the pool lists no
/// oracle to settle.
pub proof fn law_unwarranted_turns_are_over(t: TurnView, oracles: Seq<ObjectView>, o: ObjectView)
    ensures
        t.stage == Stage::Recent ==> (next_turn(t, ReplyView::Attempted(true)) matches Some(u)
            && u.stage == Stage::Over),
        t.stage == Stage::Chain && variant_name(member(o.fields, "state"@)) != Some(
            expected_state(t.action),
        ) ==> (next_turn(t, ReplyView::Pool(o)) matches Some(u) && u.stage == Stage::Over),
        t.stage == Stage::Oracles && settled_prices(oracle_list(t.pool.oracle_ids), oracles) is None
            ==> (next_turn(t, ReplyView::Oracles(oracles)) matches Some(u) && u.stage
            == Stage::Over),
        forall|now_ms: i64|
            t.pool.state == "Locked"@ && t.pool.initial_shared_version is Some && oracle_list(
                t.pool.oracle_ids,
            ).len() == 0 ==> (#[trigger] first_turn(t.pool, now_ms) matches Some(u) && u.stage
                == Stage::Over),
{
    lemma_state_names();
}

/// Whether one of the objects has the id of an oracle, with or without the prefix `0x`,
/// and has settled at a price.
pub open spec fn settled_at(objects: Seq<ObjectView>, id: Seq<char>, price: u64) -> bool {
    exists|k: int|
        #![trigger objects[k]]
        0 <= k < objects.len() && (objects[k].object_id == id || strip_hex_prefix(
            objects[k].object_id,
        ) == strip_hex_prefix(id)) && (oracle(objects[k].fields) matches Some(svi)
            && svi.settlement_price == Some(price))
}

/// There is one settlement price for each oracle, in order, and each is the price at
/// which that oracle has settled.
pub proof fn law_prices_are_those_of_the_oracles(
    ids: Seq<Seq<char>>,
    objects: Seq<ObjectView>,
    i: int,
)
    requires
        settled_prices(ids, objects) is Some,
    ensures
        0 < ids.len(),
        ids.len() == objects.len(),
        settled_prices(ids, objects)->0.len() == ids.len(),
        0 <= i < ids.len() ==> settled_at(objects, ids[i], settled_prices(ids, objects)->0[i]),
{
    if 0 <= i < ids.len() {
        assert(settled_price(objects, ids[i]) is Some);
        lemma_found_object(objects, ids[i]);
        let o = find_object(objects, ids[i])->0;
        let k = choose|k: int|
            #![trigger objects[k]]
            0 <= k < objects.len() && objects[k] == o && has_id(o, ids[i]);
        assert(objects[k] == o);
    }
}

proof fn lemma_found_object(objects: Seq<ObjectView>, id: Seq<char>)
    ensures
        find_object(objects, id) matches Some(o) ==> exists|k: int|
            #![trigger objects[k]]
            0 <= k < objects.len() && objects[k] == o && has_id(o, id),
    decreases objects.len(),
{
    if objects.len() > 0 {
        if has_id(objects[0], id) {
            assert(objects[0] == objects[0]);
        } else {
            lemma_found_object(objects.skip(1), id);
            if find_object(objects, id) is Some {
                let o = find_object(objects, id)->0;
                let k = choose|k: int|
                    #![trigger objects.skip(1)[k]]
                    0 <= k < objects.skip(1).len() && objects.skip(1)[k] == o && has_id(o, id);
                assert(objects[k + 1] == o);
            }
        }
    }
}

/// If every oracle was fetched under its own id, in whatever order, and has settled, the
/// prices are known.
pub proof fn law_settled_oracles_give_prices(
    ids: Seq<Seq<char>>,
    objects: Seq<ObjectView>,
    prices: Seq<u64>,
    at: Seq<int>,
)
    requires
        0 < ids.len() == objects.len() == prices.len() == at.len(),
        forall|i: int|
            #![trigger at[i]]
            0 <= i < ids.len() ==> 0 <= at[i] < objects.len() && objects[at[i]].object_id == ids[i]
                && (oracle(objects[at[i]].fields) matches Some(svi) && svi.settlement_price == Some(
                prices[i],
            )),
        forall|i: int, k: int|
            #![trigger ids[i], objects[k]]
            0 <= i < ids.len() && 0 <= k < objects.len() && has_id(objects[k], ids[i]) ==> k
                == at[i],
    ensures
        settled_prices(ids, objects) == Some(prices),
{
    assert forall|i: int| 0 <= i < ids.len() implies settled_price(objects, #[trigger] ids[i])
        == Some(prices[i]) by {
        assert(0 <= at[i] < objects.len());
        lemma_found_object(objects, ids[i]);
        lemma_object_is_found(objects, ids[i], at[i]);
        let o = find_object(objects, ids[i])->0;
        let k = choose|k: int|
            #![trigger objects[k]]
            0 <= k < objects.len() && objects[k] == o && has_id(o, ids[i]);
        assert(has_id(objects[k], ids[i]));
        assert(k == at[i]);
    }
    assert(settled_prices(ids, objects)->0 =~= prices);
}

proof fn lemma_object_is_found(objects: Seq<ObjectView>, id: Seq<char>, k: int)
    requires
        0 <= k < objects.len(),
        has_id(objects[k], id),
    ensures
        find_object(objects, id) is Some,
    decreases objects.len(),
{
    if !has_id(objects[0], id) {
        assert(objects.skip(1)[k - 1] == objects[k]);
        lemma_object_is_found(objects.skip(1), id, k - 1);
    }
}

/// What a call may change is the pool, at the version at which it was shared; the
/// configuration is only read. Resolving hands over the prices, resolving and
/// distributing show the keeper capability, and all but distributing read the clock.
pub proof fn law_calls_are_about_the_pool(t: TurnView, pool_config_id: Seq<char>, version: i64)
    requires
        t.pool.initial_shared_version == Some(version),
        version >= 0,
    ensures
        ({
            let args = turn_args(t, pool_config_id);
            let pool = CallArgView::SharedMut {
                id: t.pool.pool_id,
                initial_version: version as u64,
            };
            let config = CallArgView::SharedRef {
                id: pool_config_id,
                initial_version: t.config_version,
            };
            &&& args.len() > 0
            &&& args[0] == pool
            &&& forall|i: int|
                0 < i < args.len() ==> !(#[trigger] args[i] is SharedMut)
            &&& t.action == Action::ClosePool || t.action == Action::LockPool ==> args.len() == 2
                && args[1] == CallArgView::ClockRef
            &&& t.action == Action::Resolve ==> args.len() == 5 && args[1]
                == CallArgView::PureU64Vec(t.prices) && args[2] == config && args[3]
                == CallArgView::OwnedKeeperCap && args[4] == CallArgView::ClockRef
            &&& t.action == Action::Distribute ==> args.len() == 3 && args[1] == config && args[2]
                == CallArgView::OwnedKeeperCap
        }),
{
}

/// A try is recorded as a success just when it was executed and succeeded; then it has
/// a digest and no error. A failure on chain keeps its digest and the error of the chain;
/// what was never executed has no digest, and the error says why.
pub proof fn law_tries_are_recorded(result: Result<ExecutionView, Seq<char>>)
    ensures
        action_record(result).success <==> (result matches Ok(e) && e.success),
        action_record(result).success ==> action_record(result).error is None,
        result matches Ok(e) ==> action_record(result).tx_digest == Some(e.digest),
        result matches Ok(e) ==> !e.success ==> action_record(result).error == e.error,
        result matches Err(text) ==> action_record(result).tx_digest is None && action_record(
            result,
        ).error == Some(text),
        status_text(true) == "success"@,
        status_text(false) == "failed"@,
{
}

/// A round every ten seconds, and no action tried twice within a minute.
pub proof fn law_rhythm()
    ensures
        LOOP_INTERVAL_SECONDS == 10,
        BACKOFF_SECONDS == 60,
{
}

/// The id of an object is the same with and without the prefix `0x`, and no other id is.
pub proof fn law_ids_are_the_same_without_their_prefix(o: ObjectView, id: Seq<char>)
    ensures
        o.object_id == id ==> has_id(o, id),
        o.object_id == seq!['0', 'x'] + id ==> has_id(o, id),
        id == seq!['0', 'x'] + o.object_id ==> has_id(o, id),
        has_id(o, id) ==> strip_hex_prefix(o.object_id) == strip_hex_prefix(id),
{
    law_hex_prefix_is_ignored(id);
    law_hex_prefix_is_ignored(o.object_id);
}

/// Of several objects with an id, the first counts: its settlement price is that of the
/// oracle.
pub proof fn law_first_object_counts(objects: Seq<ObjectView>, id: Seq<char>, k: int)
    requires
        0 <= k < objects.len(),
        has_id(objects[k], id),
        forall|i: int| 0 <= i < k ==> !has_id(#[trigger] objects[i], id),
    ensures
        settled_price(objects, id) == match oracle(objects[k].fields) {
            Some(svi) => svi.settlement_price,
            None => None,
        },
    decreases k,
{
    lemma_first_object(objects, id, k);
}

proof fn lemma_first_object(objects: Seq<ObjectView>, id: Seq<char>, k: int)
    requires
        0 <= k < objects.len(),
        has_id(objects[k], id),
        forall|i: int| 0 <= i < k ==> !has_id(#[trigger] objects[i], id),
    ensures
        find_object(objects, id) == Some(objects[k]),
    decreases k,
{
    if k > 0 {
        let rest = objects.skip(1);
        assert(!has_id(objects[0], id));
        assert(rest[k - 1] == objects[k]);
        assert forall|i: int| 0 <= i < k - 1 implies !has_id(#[trigger] rest[i], id) by {
            assert(rest[i] == objects[i + 1]);
        }
        lemma_first_object(rest, id, k - 1);
    }
}

/// The oracles of a pool are those that are stored as a list of texts; anything else is
/// no list of oracles.
pub proof fn law_oracles_are_listed(ids: Seq<Seq<char>>, j: Json)
    ensures
        oracle_list(Some(json_texts(ids))) == ids,
        oracle_list(None).len() == 0,
        !(j is Array) ==> oracle_list(Some(j)).len() == 0,
{
    law_text_list_reads_back(ids);
}

/// The models of a watched pool, of a reply and of a record have their values.
pub proof fn law_models_have_the_values(p: WatchedPool, r: Reply, a: ActionRecord)
    ensures
        p@.pool_id == p.pool_id@ && p@.state == p.state@,
        p@.commit_deadline_ms == p.commit_deadline_ms,
        p@.reveal_deadline_ms == p.reveal_deadline_ms,
        p@.initial_shared_version == p.initial_shared_version,
        p@.oracle_ids == view_opt(p.oracle_ids),
        r matches Reply::Oracles(v) ==> (r@ matches ReplyView::Oracles(w) && w == view_all(v@)),
        r matches Reply::ConfigVersion(v) ==> (r@ matches ReplyView::ConfigVersion(w) && w == v),
        r matches Reply::Attempted(v) ==> (r@ matches ReplyView::Attempted(w) && w == v),
        r matches Reply::Pool(v) ==> (r@ matches ReplyView::Pool(w) && w == v@),
        a@.tx_digest == view_opt(a.tx_digest) && a@.success == a.success,
        a@.error == view_opt(a.error),
{
}

/// A configuration that is not shared is named.
pub proof fn law_unshared_configuration_is_named(config_id: Seq<char>)
    ensures
        unshared_text(config_id).subrange(11, 11 + config_id.len() as int) == config_id,
        unshared_text(config_id).len() == 34 + config_id.len(),
{
    reveal_strlit("PoolConfig ");
    reveal_strlit(" is not a shared object");
    assert("PoolConfig "@.len() == 11);
    assert(" is not a shared object"@.len() == 23);
    assert(unshared_text(config_id).subrange(11, 11 + config_id.len() as int) =~= config_id);
}

/// A turn starts with nothing fetched.
pub proof fn law_turns_start_with_nothing(p: WatchedPoolView, now_ms: i64)
    ensures
        first_turn(p, now_ms) is Some <==> due_action(p, now_ms) is Some,
        first_turn(p, now_ms) matches Some(t) ==> t.pool == p && t.prices.len() == 0
            && t.config_version == 0 && Some(t.action) == due_action(p, now_ms),
{
}

} // verus!
