//! Admin requests: the creation of pools.

use vstd::prelude::*;

use crate::config::Config;
use crate::error::AppError;
use crate::json::{first_entry, json_int, json_text, member, Fields, Json, Value};
use crate::keeper::tx::{CallArg, CallArgView};
use crate::sui::client::Execution;
use crate::sui::types::ObjectData;
use crate::text::{join, same, view_all};

verus! {

/// What an admin may say of a new pool.
#[derive(Debug, PartialEq, Eq)]
pub struct CreatePoolRequest {
    /// The number of price legs; one unless it is said.
    pub leg_count: Option<u64>,
    /// The entry fee in base units; half a dollar unless it is said.
    pub entry_fee_amount: Option<u64>,
    /// The oracles; those of the configuration unless they are said.
    pub oracle_ids: Option<Vec<String>>,
    /// Milliseconds until the commit deadline; two and a half hours unless it is said.
    pub commit_window_ms: Option<u64>,
    /// Milliseconds until the reveal deadline; three and a half hours unless it is
    /// said.
    pub reveal_window_ms: Option<u64>,
}

pub const DEFAULT_LEG_COUNT: u64 = 1;

pub const DEFAULT_ENTRY_FEE: u64 = 500_000_000;

pub const DEFAULT_COMMIT_WINDOW_MS: u64 = 9_000_000;

pub const DEFAULT_REVEAL_WINDOW_MS: u64 = 12_600_000;

/// Whether a request carries the secret: the header `authorization` is `Bearer`, a
/// blank, and the secret.
pub fn check_bearer(authorization: Option<&str>, secret: &str) -> (r: bool)
    ensures
        r == (authorization matches Some(h) && h@ == "Bearer "@ + secret@),
{
    match authorization {
        Some(h) => same(h, join("Bearer ", secret).as_str()),
        None => false,
    }
}

/// Whether a request may create pools. Without a secret nobody may.
pub open spec fn authorized(cfg: Config, authorization: Option<&str>) -> bool {
    cfg.admin_secret matches Some(secret) && (authorization matches Some(h) && h@ == "Bearer "@
        + secret@)
}

/// What the configuration has to give for a pool to be created.
#[derive(Debug, PartialEq, Eq)]
pub struct Target {
    pub package_id: String,
    pub pool_config_id: String,
    pub keeper_key: String,
}

/// Lets a request in: first it must carry the secret, then the package, the pool
/// configuration and the key of the keeper must be configured.
pub fn authorize(cfg: &Config, authorization: Option<&str>) -> (r: Result<Target, AppError>)
    ensures
        !authorized(*cfg, authorization) ==> r == Err::<Target, AppError>(AppError::Unauthorized),
        authorized(*cfg, authorization) ==> match (
            cfg.apex_package_id,
            cfg.pool_config_id,
            cfg.sui_keeper_key,
        ) {
            (Some(package), Some(config), Some(key)) => r matches Ok(t) && t.package_id@
                == package@ && t.pool_config_id@ == config@ && t.keeper_key@ == key@,
            _ => r matches Err(AppError::BadRequest(m)) && m@
                == "keeper not configured (requires APEX_PACKAGE_ID, POOL_CONFIG_ID, SUI_KEEPER_KEY)"@,
        },
{
    let secret = match &cfg.admin_secret {
        Some(secret) => secret,
        None => return Err(AppError::Unauthorized),
    };
    if !check_bearer(authorization, secret.as_str()) {
        return Err(AppError::Unauthorized);
    }
    match (&cfg.apex_package_id, &cfg.pool_config_id, &cfg.sui_keeper_key) {
        (Some(package), Some(config), Some(key)) => Ok(
            Target {
                package_id: package.clone(),
                pool_config_id: config.clone(),
                keeper_key: key.clone(),
            },
        ),
        _ => Err(
            AppError::BadRequest(
                "keeper not configured (requires APEX_PACKAGE_ID, POOL_CONFIG_ID, SUI_KEEPER_KEY)".to_owned(),
            ),
        ),
    }
}

/// A pool that is to be created.
#[derive(Debug, PartialEq, Eq)]
pub struct PoolPlan {
    pub leg_count: u64,
    pub commit_deadline_ms: u64,
    pub reveal_deadline_ms: u64,
    pub entry_fee_amount: u64,
    pub oracle_ids: Vec<String>,
}

pub struct PoolPlanView {
    pub leg_count: u64,
    pub commit_deadline_ms: int,
    pub reveal_deadline_ms: int,
    pub entry_fee_amount: u64,
    pub oracle_ids: Seq<Seq<char>>,
}

impl View for PoolPlan {
    type V = PoolPlanView;

    open spec fn view(&self) -> PoolPlanView {
        PoolPlanView {
            leg_count: self.leg_count,
            commit_deadline_ms: self.commit_deadline_ms as int,
            reveal_deadline_ms: self.reveal_deadline_ms as int,
            entry_fee_amount: self.entry_fee_amount,
            oracle_ids: view_all(self.oracle_ids@),
        }
    }
}

pub open spec fn said_or(n: Option<u64>, default: u64) -> u64 {
    match n {
        Some(n) => n,
        None => default,
    }
}

fn or_default(n: Option<u64>, default: u64) -> (r: u64)
    ensures
        r == said_or(n, default),
{
    match n {
        Some(n) => n,
        None => default,
    }
}

/// The oracles of a new pool: those of the request, else those of the
/// configuration, else none.
pub open spec fn planned_oracles(cfg: Config, body: CreatePoolRequest) -> Seq<Seq<char>> {
    match (body.oracle_ids, cfg.pool_oracle_ids) {
        (Some(ids), _) => view_all(ids@),
        (None, Some(ids)) => view_all(ids@),
        (None, None) => seq![],
    }
}

/// The pool that a request asks for at a time.
pub open spec fn planned(cfg: Config, body: CreatePoolRequest, now_ms: u64) -> PoolPlanView {
    PoolPlanView {
        leg_count: said_or(body.leg_count, DEFAULT_LEG_COUNT),
        commit_deadline_ms: now_ms + said_or(body.commit_window_ms, DEFAULT_COMMIT_WINDOW_MS),
        reveal_deadline_ms: now_ms + said_or(body.reveal_window_ms, DEFAULT_REVEAL_WINDOW_MS),
        entry_fee_amount: said_or(body.entry_fee_amount, DEFAULT_ENTRY_FEE),
        oracle_ids: planned_oracles(cfg, body),
    }
}

/// Both deadlines are times.
pub open spec fn plan_in_range(body: CreatePoolRequest, now_ms: u64) -> bool {
    &&& now_ms + said_or(body.commit_window_ms, DEFAULT_COMMIT_WINDOW_MS) <= u64::MAX
    &&& now_ms + said_or(body.reveal_window_ms, DEFAULT_REVEAL_WINDOW_MS) <= u64::MAX
}

/// Whether [`plan_pool`] can be computed.
pub fn plan_evaluates(body: &CreatePoolRequest, now_ms: u64) -> (r: bool)
    ensures
        r == plan_in_range(*body, now_ms),
{
    or_default(body.commit_window_ms, DEFAULT_COMMIT_WINDOW_MS) <= u64::MAX - now_ms
        && or_default(body.reveal_window_ms, DEFAULT_REVEAL_WINDOW_MS) <= u64::MAX - now_ms
}

fn copy_texts(v: &Vec<String>) -> (r: Vec<String>)
    ensures
        view_all(r@) == view_all(v@),
{
    let mut out: Vec<String> = Vec::new();
    let mut i: usize = 0;
    while i < v.len()
        invariant
            i <= v@.len(),
            view_all(out@) =~= view_all(v@).take(i as int),
        decreases v@.len() - i,
    {
        let ghost before = out@;
        out.push(v[i].clone());
        assert(view_all(out@) =~= view_all(before).push(v@[i as int]@));
        i = i + 1;
    }
    assert(view_all(out@) =~= view_all(v@));
    out
}

/// Plans the pool that a request asks for now.
pub fn plan_pool(cfg: &Config, body: CreatePoolRequest, now_ms: u64) -> (r: PoolPlan)
    requires
        plan_in_range(body, now_ms),
    ensures
        r@ == planned(*cfg, body, now_ms),
{
    let leg_count = or_default(body.leg_count, DEFAULT_LEG_COUNT);
    let commit_deadline_ms: u64 = now_ms + or_default(
        body.commit_window_ms,
        DEFAULT_COMMIT_WINDOW_MS,
    );
    let reveal_deadline_ms: u64 = now_ms + or_default(
        body.reveal_window_ms,
        DEFAULT_REVEAL_WINDOW_MS,
    );
    let entry_fee_amount = or_default(body.entry_fee_amount, DEFAULT_ENTRY_FEE);
    let oracle_ids = match body.oracle_ids {
        Some(ids) => ids,
        None => match &cfg.pool_oracle_ids {
            Some(ids) => copy_texts(ids),
            None => Vec::new(),
        },
    };
    let plan = PoolPlan {
        leg_count,
        commit_deadline_ms,
        reveal_deadline_ms,
        entry_fee_amount,
        oracle_ids,
    };
    assert(plan@.oracle_ids =~= planned(*cfg, body, now_ms).oracle_ids);
    plan
}

/// What to say if the key of the keeper cannot be read.
pub fn bad_key() -> (r: AppError)
    ensures
        r matches AppError::Internal(m) && m@
            == "bad keeper key: failed to decode SUI_KEEPER_KEY"@,
{
    AppError::Internal("bad keeper key: failed to decode SUI_KEEPER_KEY".to_owned())
}

/// The version at which the pool configuration was shared, from the object, or from
/// the text of the error that fetching it gave.
pub fn config_version(fetched: Result<ObjectData, String>) -> (r: Result<u64, AppError>)
    ensures
        match fetched {
            Err(e) => r matches Err(AppError::Internal(m)) && m@ == "fetch pool config: "@ + e@,
            Ok(o) => match o.initial_shared_version {
                Some(v) => r == Ok::<u64, AppError>(v),
                None => r matches Err(AppError::Internal(m)) && m@
                    == "PoolConfig is not a shared object"@,
            },
        },
{
    match fetched {
        Err(e) => Err(AppError::Internal(join("fetch pool config: ", e.as_str()))),
        Ok(o) => match o.initial_shared_version {
            Some(v) => Ok(v),
            None => Err(AppError::Internal("PoolConfig is not a shared object".to_owned())),
        },
    }
}

/// The arguments of the call that creates a pool, in the order of the Move function.
pub open spec fn create_args(
    p: PoolPlanView,
    pool_config_id: Seq<char>,
    config_version: u64,
) -> Seq<CallArgView> {
    seq![
        CallArgView::SharedMut { id: pool_config_id, initial_version: config_version },
        CallArgView::PureU64(p.leg_count),
        CallArgView::PureU64(p.commit_deadline_ms as u64),
        CallArgView::PureU64(p.reveal_deadline_ms as u64),
        CallArgView::PureU64(p.entry_fee_amount),
        CallArgView::PureObjectIdVec(p.oracle_ids),
        CallArgView::ClockRef,
    ]
}

/// The arguments of the call that creates a pool.
pub fn call_args(plan: &PoolPlan, pool_config_id: &str, config_version: u64) -> (r: Vec<CallArg>)
    ensures
        view_all(r@) == create_args(plan@, pool_config_id@, config_version),
{
    let mut args: Vec<CallArg> = Vec::new();
    args.push(
        CallArg::SharedMut { id: pool_config_id.to_owned(), initial_version: config_version },
    );
    args.push(CallArg::PureU64(plan.leg_count));
    args.push(CallArg::PureU64(plan.commit_deadline_ms));
    args.push(CallArg::PureU64(plan.reveal_deadline_ms));
    args.push(CallArg::PureU64(plan.entry_fee_amount));
    args.push(CallArg::PureObjectIdVec(copy_texts(&plan.oracle_ids)));
    args.push(CallArg::ClockRef);
    assert(view_all(args@) =~= create_args(plan@, pool_config_id@, config_version));
    args
}

/// The answer for a pool that was created.
pub open spec fn created_json(p: PoolPlanView, digest: Seq<char>) -> Json {
    Json::Object(
        seq![
            ("status"@, json_text("ok"@)),
            ("digest"@, json_text(digest)),
            ("commit_deadline_ms"@, json_int(p.commit_deadline_ms)),
            ("reveal_deadline_ms"@, json_int(p.reveal_deadline_ms)),
        ],
    )
}

/// The answer for the outcome of the call, or for the text of the error that kept it
/// from being executed.
pub fn create_pool(plan: &PoolPlan, executed: Result<Execution, String>) -> (r: Result<
    Value,
    AppError,
>)
    ensures
        match executed {
            Err(e) => r matches Err(AppError::Internal(m)) && m@ == "execute_call: "@ + e@,
            Ok(x) => if x.success {
                r matches Ok(v) && v@ == created_json(plan@, x.digest@)
            } else {
                r matches Err(AppError::Internal(m)) && m@ == "create_pool failed on-chain: "@
                    + match x.error {
                    Some(e) => e@,
                    None => seq![],
                }
            },
        },
{
    match executed {
        Err(e) => Err(AppError::Internal(join("execute_call: ", e.as_str()))),
        Ok(x) => if x.success {
            let mut o = Fields::new();
            o.put_text("status", "ok");
            o.put_text("digest", x.digest.as_str());
            o.put("commit_deadline_ms", Value::unsigned(plan.commit_deadline_ms));
            o.put("reveal_deadline_ms", Value::unsigned(plan.reveal_deadline_ms));
            assert(o@ =~= created_json(plan@, x.digest@)->Object_0);
            Ok(o.build())
        } else {
            let text = match x.error {
                Some(e) => e,
                None => String::new(),
            };
            Err(AppError::Internal(join("create_pool failed on-chain: ", text.as_str())))
        },
    }
}

/// Whoever may create a pool has sent the secret, whole and after `Bearer` and a
/// blank. While no secret is configured, nobody may.
pub proof fn law_no_pool_without_the_secret(cfg: Config, authorization: Option<&str>)
    requires
        authorized(cfg, authorization),
    ensures
        cfg.admin_secret is Some,
        authorization is Some,
        authorization->0@.len() == 7 + cfg.admin_secret->0@.len(),
        authorization->0@.skip(7) == cfg.admin_secret->0@,
{
    reveal_strlit("Bearer ");
    assert(authorization->0@.skip(7) =~= cfg.admin_secret->0@);
}

/// Unless a request says otherwise, reveals stay open an hour after commits close.
pub proof fn law_default_windows(cfg: Config, body: CreatePoolRequest, now_ms: u64)
    requires
        body.commit_window_ms is None,
        body.reveal_window_ms is None,
    ensures
        planned(cfg, body, now_ms).reveal_deadline_ms - planned(
            cfg,
            body,
            now_ms,
        ).commit_deadline_ms == 3_600_000,
        planned(cfg, body, now_ms).commit_deadline_ms - now_ms == 9_000_000,
{
}

/// Whoever sends `Bearer`, a blank and the secret may create pools.
pub proof fn law_the_secret_opens(cfg: Config, secret: String, h: &str)
    requires
        cfg.admin_secret == Some(secret),
        h@ == "Bearer "@ + secret@,
    ensures
        authorized(cfg, Some(h)),
{
}

/// What a request says of a pool is done: its legs, its fee, its oracles, and deadlines
/// that lie so far from now as it says.
pub proof fn law_requests_are_followed(
    cfg: Config,
    body: CreatePoolRequest,
    now_ms: u64,
    n: u64,
    ids: Vec<String>,
)
    ensures
        ({
            let p = planned(cfg, body, now_ms);
            &&& body.leg_count == Some(n) ==> p.leg_count == n
            &&& body.entry_fee_amount == Some(n) ==> p.entry_fee_amount == n
            &&& body.commit_window_ms == Some(n) ==> p.commit_deadline_ms - now_ms == n
            &&& body.reveal_window_ms == Some(n) ==> p.reveal_deadline_ms - now_ms == n
            &&& body.oracle_ids == Some(ids) ==> p.oracle_ids == view_all(ids@)
        }),
{
}

/// What a request does not say is one leg, a fee of half a dollar, two and a half hours
/// for commits and three and a half for reveals, and the oracles of the configuration, or
/// none.
pub proof fn law_defaults(cfg: Config, body: CreatePoolRequest, now_ms: u64, ids: Vec<String>)
    ensures
        ({
            let p = planned(cfg, body, now_ms);
            &&& body.leg_count is None ==> p.leg_count == 1
            &&& body.entry_fee_amount is None ==> p.entry_fee_amount == 500_000_000
            &&& body.commit_window_ms is None ==> p.commit_deadline_ms - now_ms == 9_000_000
            &&& body.reveal_window_ms is None ==> p.reveal_deadline_ms - now_ms == 12_600_000
            &&& body.oracle_ids is None && cfg.pool_oracle_ids == Some(ids) ==> p.oracle_ids
                == view_all(ids@)
            &&& body.oracle_ids is None && cfg.pool_oracle_ids is None ==> p.oracle_ids.len() == 0
        }),
{
}

/// A pool is planned if and only if both of its deadlines are times.
pub proof fn law_plans_are_times(cfg: Config, body: CreatePoolRequest, now_ms: u64)
    ensures
        plan_in_range(body, now_ms) <==> planned(cfg, body, now_ms).commit_deadline_ms <= u64::MAX
            && planned(cfg, body, now_ms).reveal_deadline_ms <= u64::MAX,
{
}

/// The call that creates a pool hands over the configuration, which it changes, the legs,
/// the commit deadline, the reveal deadline, the fee, the oracles and the clock, in this
/// order.
pub proof fn law_creation_hands_over_the_plan(
    plan: PoolPlan,
    pool_config_id: Seq<char>,
    config_version: u64,
)
    ensures
        ({
            let args = create_args(plan@, pool_config_id, config_version);
            &&& args.len() == 7
            &&& args[0] matches CallArgView::SharedMut { id, initial_version } && id
                == pool_config_id && initial_version == config_version
            &&& args[1] == CallArgView::PureU64(plan.leg_count)
            &&& args[2] == CallArgView::PureU64(plan.commit_deadline_ms)
            &&& args[3] == CallArgView::PureU64(plan.reveal_deadline_ms)
            &&& args[4] == CallArgView::PureU64(plan.entry_fee_amount)
            &&& args[5] == CallArgView::PureObjectIdVec(view_all(plan.oracle_ids@))
            &&& args[6] is ClockRef
        }),
{
}

/// The names differ.
proof fn lemma_created_names()
    ensures
        "status"@.len() == 6,
        "digest"@.len() == 6,
        "commit_deadline_ms"@.len() == 18,
        "reveal_deadline_ms"@.len() == 18,
        "status"@[0] != "digest"@[0],
        "commit_deadline_ms"@[0] != "reveal_deadline_ms"@[0],
{
    reveal_strlit("status");
    reveal_strlit("digest");
    reveal_strlit("commit_deadline_ms");
    reveal_strlit("reveal_deadline_ms");
}

/// The answer for a new pool shows the transaction and the two deadlines of the plan.
pub proof fn law_created_pool_is_shown(plan: PoolPlan, digest: Seq<char>)
    ensures
        ({
            let j = created_json(plan@, digest);
            &&& member(j, "status"@) == Some(json_text("ok"@))
            &&& member(j, "digest"@) == Some(json_text(digest))
            &&& member(j, "commit_deadline_ms"@) == Some(json_int(plan.commit_deadline_ms as int))
            &&& member(j, "reveal_deadline_ms"@) == Some(json_int(plan.reveal_deadline_ms as int))
        }),
{
    lemma_created_names();
    reveal_with_fuel(first_entry, 5);
}

} // verus!
