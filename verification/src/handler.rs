//! Requests of remote clients.
//!
//! A handler serves either a bare table of goals or a running agent, which has
//! sessions and, for each thread, a runtime. What it wants clients to hear goes
//! to an outbox, which the host empties.

use crate::extension;
use crate::extension::{ExtErrorView, ExtensionError, GoalChangeType};
use crate::json;
use crate::json::{Field, Json, JsonView};
use crate::listing;
use crate::metrics;
use crate::metrics::Counter;
use crate::runtime;
use crate::runtime::{GoalRuntimeHandle, PlannedTurn, RuntimeView, TurnView};
use crate::service::{Env, GoalService, GoalServiceError, GoalSetOutcome, ServiceErrorView, ServiceView};
use crate::store;
use crate::store::StoreView;
use crate::table::Table;
use crate::text;
use crate::types;
use crate::types::{Goal, GoalStatus, GoalView};
use vstd::prelude::*;
use vstd::string::*;

verus! {

/// What a handler serves.
#[derive(Debug, Clone, Copy, PartialEq, Eq, Structural)]
pub enum BackendKind {
    Unbound,
    Store,
    Agent,
}

/// A session: its thread, and who owns it.
#[derive(Debug)]
pub struct SessionEntry {
    pub thread_id: String,
    pub owner_principal: String,
}

/// The mathematical value of a [`SessionEntry`].
pub struct SessionView {
    pub thread_id: Seq<char>,
    pub owner: Seq<char>,
}

impl View for SessionEntry {
    type V = SessionView;

    open spec fn view(&self) -> SessionView {
        SessionView { thread_id: self.thread_id@, owner: self.owner_principal@ }
    }
}

/// Who asks, and under which circumstances.
#[derive(Debug)]
pub struct RequestContext {
    pub session_id: Option<String>,
    pub principal: String,
    /// Why the server's policy refuses the request, if it does.
    pub denied: Option<String>,
    /// Whether the host holds the lock that keeps idle turns and users apart.
    pub locked: bool,
    /// The present date and time.
    pub now_iso: String,
}

/// The mathematical value of a [`RequestContext`].
pub struct ContextView {
    pub session_id: Option<Seq<char>>,
    pub principal: Seq<char>,
    pub denied: Option<Seq<char>>,
    pub locked: bool,
    pub now_iso: Seq<char>,
}

impl View for RequestContext {
    type V = ContextView;

    open spec fn view(&self) -> ContextView {
        ContextView {
            session_id: text::opt_text(self.session_id),
            principal: self.principal@,
            denied: text::opt_text(self.denied),
            locked: self.locked,
            now_iso: self.now_iso@,
        }
    }
}

/// Something for clients to hear.
#[derive(Debug, PartialEq, Eq)]
pub enum Outbound {
    /// For every connection.
    Notification { method: String, params: Json },
    /// For the session.
    SessionGoal { session_id: String, goal: Json },
}

/// The mathematical value of an [`Outbound`].
pub enum OutboundView {
    Notification { method: Seq<char>, params: JsonView },
    SessionGoal { session_id: Seq<char>, goal: JsonView },
}

impl View for Outbound {
    type V = OutboundView;

    open spec fn view(&self) -> OutboundView {
        match self {
            Outbound::Notification { method, params } => OutboundView::Notification {
                method: method@,
                params: params@,
            },
            Outbound::SessionGoal { session_id, goal } => OutboundView::SessionGoal {
                session_id: session_id@,
                goal: goal@,
            },
        }
    }
}

/// An answer: its value, a turn for the host to start, and whether the host
/// should see to an idle turn.
#[derive(Debug)]
pub struct Reply {
    pub value: Json,
    pub turn: Option<PlannedTurn>,
    pub kick: bool,
}

/// The mathematical value of a [`Reply`].
pub struct ReplyView {
    pub value: JsonView,
    pub turn: Option<TurnView>,
    pub kick: bool,
}

impl View for Reply {
    type V = ReplyView;

    open spec fn view(&self) -> ReplyView {
        ReplyView { value: self.value@, turn: runtime::opt_turn(self.turn), kick: self.kick }
    }
}

/// An answer with a value alone.
pub open spec fn plain(value: JsonView) -> ReplyView {
    ReplyView { value, turn: None, kick: false }
}

fn plain_reply(value: Json) -> (r: Reply)
    ensures
        r@ == plain(value@),
{
    Reply { value, turn: None, kick: false }
}

/// The value of an answer, or of the error in its place.
pub open spec fn reply_view(r: Result<Reply, ExtensionError>) -> Result<ReplyView, ExtErrorView> {
    match r {
        Ok(a) => Ok(a@),
        Err(e) => Err(e@),
    }
}

/// Serves requests.
pub struct GoalHandler {
    kind: BackendKind,
    agent_alive: bool,
    db_error: Option<String>,
    sessions: Table<SessionEntry>,
    runtimes: Table<GoalRuntimeHandle>,
    service: GoalService,
    connected: bool,
    idempotency: Table<String>,
    generation: u64,
    outbox: Vec<Outbound>,
}

/// The mathematical value of a [`GoalHandler`].
#[verifier::ext_equal]
pub struct HandlerView {
    pub kind: BackendKind,
    /// Whether the agent is still there.
    pub alive: bool,
    /// Why the agent's database cannot be used, if it cannot.
    pub db_error: Option<Seq<char>>,
    pub sessions: Map<Seq<char>, SessionView>,
    pub runtimes: Map<Seq<char>, RuntimeView>,
    pub svc: ServiceView,
    /// Whether there are connections to tell.
    pub connected: bool,
    /// The goals that were started under a key.
    pub keys: Map<Seq<char>, Seq<char>>,
    /// How often goals changed.
    pub generation: u64,
    pub outbox: Seq<OutboundView>,
}

/// The values of a table of sessions.
pub open spec fn session_views(m: Map<Seq<char>, SessionEntry>) -> Map<Seq<char>, SessionView> {
    m.map_values(|e: SessionEntry| e@)
}

/// The values of a table of runtimes.
pub open spec fn runtime_views(m: Map<Seq<char>, GoalRuntimeHandle>) -> Map<Seq<char>, RuntimeView> {
    m.map_values(|h: GoalRuntimeHandle| h@)
}

/// The values of an outbox.
pub open spec fn outbound_views(v: Seq<Outbound>) -> Seq<OutboundView> {
    v.map_values(|o: Outbound| o@)
}

impl View for GoalHandler {
    type V = HandlerView;

    closed spec fn view(&self) -> HandlerView {
        HandlerView {
            kind: self.kind,
            alive: self.agent_alive,
            db_error: text::opt_text(self.db_error),
            sessions: session_views(self.sessions@),
            runtimes: runtime_views(self.runtimes@),
            svc: self.service@,
            connected: self.connected,
            keys: store::text_views(self.idempotency@),
            generation: self.generation,
            outbox: outbound_views(self.outbox@),
        }
    }
}

impl HandlerView {
    /// Each runtime is its thread's, and the table is consistent.
    pub open spec fn wf(self) -> bool {
        &&& self.svc.store.wf()
        &&& forall|t: Seq<char>| #[trigger]
            self.runtimes.contains_key(t) ==> self.runtimes[t].wf() && self.runtimes[t].thread_id
                == t
    }

    /// The runtime of thread `t`, made when it is first needed; none behind a
    /// bare table.
    pub open spec fn opened(self, t: Seq<char>) -> Result<Option<RuntimeView>, ExtErrorView> {
        match self.kind {
            BackendKind::Unbound => Err(
                extension::internal_view(
                    "goal backend not bound (degraded runtime); goal wiring disabled"@,
                ),
            ),
            BackendKind::Store => Ok(None),
            BackendKind::Agent => if !self.alive {
                Err(extension::internal_view("goal backend unavailable (agent dropped)"@))
            } else if self.db_error is Some {
                Err(extension::internal_view("goal backend unavailable (task db open failed?)"@))
            } else if self.runtimes.contains_key(t) {
                Ok(Some(self.runtimes[t]))
            } else {
                Ok(Some(runtime::unknown_thread(t)))
            },
        }
    }

    /// With `rt` as the runtime of thread `t`.
    pub open spec fn with_runtime(self, t: Seq<char>, rt: Option<RuntimeView>) -> HandlerView {
        match rt {
            Some(r) => HandlerView { runtimes: self.runtimes.insert(t, r), ..self },
            None => self,
        }
    }

    /// Why the table cannot be read, if it cannot.
    pub open spec fn unreadable(self) -> Option<ExtErrorView> {
        match self.kind {
            BackendKind::Unbound => Some(extension::internal_view("goal backend not bound"@)),
            BackendKind::Store => None,
            BackendKind::Agent => if !self.alive {
                Some(extension::internal_view("goal backend unavailable (agent dropped)"@))
            } else {
                match self.db_error {
                    Some(e) => Some(extension::internal_view(e)),
                    None => None,
                }
            },
        }
    }

    /// The thread of session `sid`, for `principal`. Behind a bare table a
    /// session is its own thread, and so is one that the agent does not know.
    pub open spec fn thread_of(self, sid: Seq<char>, principal: Seq<char>) -> Result<
        Seq<char>,
        ExtErrorView,
    > {
        if self.kind != BackendKind::Agent {
            Ok(sid)
        } else if !self.alive {
            Err(extension::internal_view("goal backend unavailable (agent dropped)"@))
        } else if !self.sessions.contains_key(sid) {
            Ok(sid)
        } else if self.sessions[sid].owner != principal {
            Err(extension::forbidden_view("session is owned by a different principal"@))
        } else {
            Ok(self.sessions[sid].thread_id)
        }
    }

    /// With one more message for every connection, if there are any.
    pub open spec fn told(self, method: Seq<char>, params: JsonView) -> HandlerView {
        if self.connected {
            HandlerView {
                outbox: self.outbox.push(OutboundView::Notification { method, params }),
                ..self
            }
        } else {
            self
        }
    }

    /// After a change: cursors are void, every connection is told, and so is the
    /// session where there is an agent.
    pub open spec fn published(self, sid: Seq<char>, goal: Option<GoalView>) -> HandlerView {
        let told = (HandlerView { generation: metrics::next(self.generation), ..self }).told(
            UPDATED_METHOD@,
            extension::opt_snapshot(goal),
        );
        if self.kind == BackendKind::Agent && self.alive {
            HandlerView {
                outbox: told.outbox.push(
                    OutboundView::SessionGoal {
                        session_id: sid,
                        goal: extension::opt_snapshot(goal),
                    },
                ),
                ..told
            }
        } else {
            told
        }
    }

    /// With both messages about a change, if there are connections.
    pub open spec fn broadcast(self, changed: JsonView, updated: JsonView) -> HandlerView {
        self.told(CHANGED_METHOD@, changed).told(UPDATED_METHOD@, updated)
    }

    /// Whether users' changes have to wait for the lock.
    pub open spec fn lock_missing(self, ctx: ContextView) -> bool {
        self.kind == BackendKind::Agent && !ctx.locked
    }
}

/// A handler that serves nothing yet.
pub open spec fn unbound() -> HandlerView {
    HandlerView {
        kind: BackendKind::Unbound,
        alive: false,
        db_error: None,
        sessions: Map::empty(),
        runtimes: Map::empty(),
        svc: ServiceView {
            store: StoreView {
                rows: Map::empty(),
                deferred: Set::empty(),
                goals_dir: None,
                files: Map::empty(),
            },
            metrics: metrics::MetricsView { counts: metrics::no_counts(), events: Seq::empty() },
        },
        connected: false,
        keys: Map::empty(),
        generation: 0,
        outbox: Seq::empty(),
    }
}

/// The message that a goal changed.
pub const CHANGED_METHOD: &'static str = "_anureo.dev/goal/changed";

/// The message that carries the goal itself.
pub const UPDATED_METHOD: &'static str = "_anureo.dev/goal/updated";

/// Why a request is refused that nobody stands behind.
pub const NO_PRINCIPAL: &'static str = "principal required";

/// Why the request is not allowed, if it is not.
pub open spec fn refusal(ctx: ContextView) -> Option<ExtErrorView> {
    if ctx.principal.len() == 0 {
        Some(extension::forbidden_view(NO_PRINCIPAL@))
    } else {
        match ctx.denied {
            Some(m) => Some(extension::forbidden_view(m)),
            None => None,
        }
    }
}

/// Refuses what nobody stands behind, or what the server's policy refuses.
pub fn check_server_policy(ctx: &RequestContext) -> (r: Result<(), ExtensionError>)
    ensures
        match refusal(ctx@) {
            Some(e) => r is Err && r->Err_0@ == e,
            None => r is Ok,
        },
{
    if ctx.principal.as_str().is_empty() {
        return Err(ExtensionError::forbidden(NO_PRINCIPAL.to_owned()));
    }
    match &ctx.denied {
        Some(m) => Err(ExtensionError::forbidden(m.clone())),
        None => Ok(()),
    }
}

/// What a request leaves behind.
pub struct End {
    pub h: HandlerView,
    pub reply: Result<ReplyView, ExtErrorView>,
}

/// A request that fails with nothing changed.
pub open spec fn refused(h: HandlerView, e: ExtErrorView) -> End {
    End { h, reply: Err(e) }
}

/// An object with one entry, the goal.
pub open spec fn goal_value(v: JsonView) -> JsonView {
    JsonView::Obj(seq![extension::entry("goal"@, v)])
}

fn goal_reply(v: Json) -> (r: Json)
    ensures
        r@ == goal_value(v@),
{
    let mut f: Vec<Field> = json::no_fields();
    json::put(&mut f, "goal", v);
    assert(json::fields_view(f@) =~= goal_value(v@)->Obj_0);
    json::object(f)
}

/// The budget that a request to set a goal asks for.
pub open spec fn asked_budget(params: JsonView) -> Result<Option<i64>, ExtErrorView> {
    match params.field("tokenBudget"@) {
        None => Ok(None),
        Some(JsonView::Null) => Ok(None),
        Some(v) => match v.signed() {
            None => Err(extension::invalid_params_view("tokenBudget must be an integer"@)),
            Some(n) => if n <= 0 {
                Err(extension::invalid_params_view("tokenBudget must be positive"@))
            } else {
                Ok(Some(n as i64))
            },
        },
    }
}

fn parse_budget(params: &Json) -> (r: Result<Option<i64>, ExtensionError>)
    ensures
        match asked_budget(params@) {
            Ok(b) => r == Ok::<Option<i64>, ExtensionError>(b),
            Err(e) => r is Err && r->Err_0@ == e,
        },
{
    match params.get("tokenBudget") {
        None => Ok(None),
        Some(Json::Null) => Ok(None),
        Some(v) => match v.as_i64() {
            None => Err(
                ExtensionError::invalid_params("tokenBudget must be an integer".to_owned()),
            ),
            Some(n) => if n <= 0 {
                Err(ExtensionError::invalid_params("tokenBudget must be positive".to_owned()))
            } else {
                Ok(Some(n))
            },
        },
    }
}

/// The runtime after a goal was set.
pub open spec fn rearmed(rt: Option<RuntimeView>, id: Seq<char>) -> Option<RuntimeView> {
    match rt {
        Some(r) => Some(runtime::armed(r, id, runtime::known_usage(r))),
        None => None,
    }
}

/// Setting a goal on thread `t`.
pub open spec fn control_set(
    h: HandlerView,
    t: Seq<char>,
    sid: Seq<char>,
    rt: Option<RuntimeView>,
    params: JsonView,
    ctx: ContextView,
    goal_id: Seq<char>,
    env: Env,
) -> End {
    match extension::required_text(params, "objective"@) {
        Err(e) => refused(h.with_runtime(t, rt), e),
        Ok(objective) => match asked_budget(params) {
            Err(e) => refused(h.with_runtime(t, rt), e),
            Ok(budget) => if h.lock_missing(ctx) {
                refused(
                    h.with_runtime(t, rt),
                    extension::mapped_error("set"@, ServiceErrorView::LockTimeout),
                )
            } else {
                let svc = h.svc.after_set(t, objective, budget, None, goal_id, env);
                let h1 = HandlerView { svc, ..h };
                match h.svc.set_result(t, objective, budget, None, goal_id, env) {
                    Err(e) => refused(
                        h1.with_runtime(t, rt),
                        extension::mapped_error("set"@, e),
                    ),
                    Ok(g) => {
                        let rt1 = rearmed(rt, g.goal_id);
                        let full = svc.store.resolved(g);
                        End {
                            h: h1.published(sid, Some(full)).with_runtime(t, rt1),
                            reply: Ok(
                                ReplyView {
                                    value: goal_value(extension::snapshot_json(full)),
                                    turn: match rt1 {
                                        Some(r) => runtime::next_turn(r, svc.store, true),
                                        None => None,
                                    },
                                    kick: false,
                                },
                            ),
                        }
                    },
                }
            },
        },
    }
}

/// The runtime and the table after a user paused or resumed.
pub open spec fn status_noted(
    rt: Option<RuntimeView>,
    svc: ServiceView,
    status: GoalStatus,
    env: Env,
) -> (Option<RuntimeView>, ServiceView) {
    match rt {
        Some(r) => (
            Some(runtime::status_changed(r, svc, status, env.now).rt),
            runtime::status_changed(r, svc, status, env.now).svc,
        ),
        None => (None, svc),
    }
}

/// Pausing or resuming the goal of thread `t`, by `r` and counted as `c`.
pub open spec fn control_status(
    h: HandlerView,
    t: Seq<char>,
    sid: Seq<char>,
    rt: Option<RuntimeView>,
    op: Seq<char>,
    r: Result<GoalView, ServiceErrorView>,
    c: Counter,
    status: GoalStatus,
    env: Env,
) -> End {
    match r {
        Err(e) => refused(h.with_runtime(t, rt), extension::mapped_error(op, e)),
        Ok(g) => {
            let (rt1, svc) = status_noted(rt, h.svc.after(t, r, c), status, env);
            let full = svc.store.resolved(g);
            End {
                h: (HandlerView { svc, ..h }).published(sid, Some(full)).with_runtime(t, rt1),
                reply: Ok(
                    ReplyView {
                        value: goal_value(extension::snapshot_json(full)),
                        turn: None,
                        kick: status == GoalStatus::Active && rt is Some,
                    },
                ),
            }
        },
    }
}

/// Changing the budget of the goal of thread `t`.
pub open spec fn control_budget(
    h: HandlerView,
    t: Seq<char>,
    sid: Seq<char>,
    rt: Option<RuntimeView>,
    params: JsonView,
    env: Env,
) -> End {
    let asked = match params.field("tokenBudget"@) {
        Some(v) => v.signed(),
        None => None,
    };
    match asked {
        None => refused(
            h.with_runtime(t, rt),
            extension::invalid_params_view("tokenBudget must be an integer"@),
        ),
        Some(n) => match h.svc.budget_result(t, n as i64, env) {
            Err(e) => refused(h.with_runtime(t, rt), extension::mapped_error("editBudget"@, e)),
            Ok(g) => {
                let svc = ServiceView { store: h.svc.store.with_goal(t, g), ..h.svc };
                let full = svc.store.resolved(g);
                End {
                    h: (HandlerView { svc, ..h }).published(sid, Some(full)).with_runtime(t, rt),
                    reply: Ok(
                        plain(
                            JsonView::Obj(
                                seq![
                                    extension::entry("goal"@, extension::snapshot_json(full)),
                                    extension::entry(
                                        "resumeHint"@,
                                        JsonView::Bool(full.status == GoalStatus::BudgetLimited),
                                    ),
                                ],
                            ),
                        ),
                    ),
                }
            },
        },
    }
}

/// Changing the objective of the goal of thread `t`.
pub open spec fn control_edit(
    h: HandlerView,
    t: Seq<char>,
    sid: Seq<char>,
    rt: Option<RuntimeView>,
    params: JsonView,
    env: Env,
) -> End {
    let asked = match params.field("objective"@) {
        Some(v) => v.text(),
        None => None,
    };
    match asked {
        None => refused(
            h.with_runtime(t, rt),
            extension::invalid_params_view("objective must be a string"@),
        ),
        Some(objective) => {
            let svc = h.svc.after_edit(t, objective, env);
            let h1 = HandlerView { svc, ..h };
            match h.svc.edit_result(t, objective, env) {
                Err(e) => refused(h1.with_runtime(t, rt), extension::mapped_error("edit"@, e)),
                Ok(g) => {
                    let full = svc.store.resolved(g);
                    End {
                        h: h1.published(sid, Some(full)).with_runtime(t, rt),
                        reply: Ok(plain(goal_value(extension::snapshot_json(full)))),
                    }
                },
            }
        },
    }
}

/// The runtime after a goal was cleared.
pub open spec fn cleared_runtime(rt: Option<RuntimeView>) -> Option<RuntimeView> {
    match rt {
        Some(r) => Some(runtime::disarmed(r)),
        None => None,
    }
}

/// Clearing thread `t`.
pub open spec fn control_clear(
    h: HandlerView,
    t: Seq<char>,
    sid: Seq<char>,
    rt: Option<RuntimeView>,
    ctx: ContextView,
) -> End {
    if h.lock_missing(ctx) {
        refused(
            h.with_runtime(t, rt),
            extension::mapped_error("clear"@, ServiceErrorView::LockTimeout),
        )
    } else {
        End {
            h: (HandlerView { svc: h.svc.after_clear(t), ..h }).published(sid, None).with_runtime(
                t,
                cleared_runtime(rt),
            ),
            reply: Ok(
                plain(
                    JsonView::Obj(
                        seq![
                            extension::entry(
                                "cleared"@,
                                JsonView::Bool(h.svc.store.rows.contains_key(t)),
                            ),
                            extension::entry("goal"@, JsonView::Null),
                        ],
                    ),
                ),
            ),
        }
    }
}

/// Whether a client may ask for an action.
pub open spec fn is_action(a: Seq<char>) -> bool {
    a == "set"@ || a == "pause"@ || a == "resume"@ || a == "clear"@ || a == "edit"@ || a
        == "editBudget"@
}

/// The end of the message on an action that there is not.
pub const SUPPORTED_ACTIONS: &'static str =
    "'; supported: [\"set\", \"pause\", \"resume\", \"clear\", \"edit\", \"editBudget\"]";

/// A request of the neutral control method.
pub open spec fn control(
    h: HandlerView,
    params: JsonView,
    ctx: ContextView,
    goal_id: Seq<char>,
    env: Env,
) -> End {
    match extension::required_text(params, "sessionId"@) {
        Err(e) => refused(h, e),
        Ok(sid) => match extension::required_text(params, "action"@) {
            Err(e) => refused(h, e),
            Ok(action) => if !is_action(action) {
                refused(
                    h,
                    extension::invalid_params_view(
                        "unknown or unsupported goal action '"@ + action + SUPPORTED_ACTIONS@,
                    ),
                )
            } else {
                match refusal(ctx) {
                    Some(e) => refused(h, e),
                    None => match h.thread_of(sid, ctx.principal) {
                        Err(e) => refused(h, e),
                        Ok(t) => match h.opened(t) {
                            Err(e) => refused(h, e),
                            Ok(rt) => control_action(
                                h,
                                t,
                                sid,
                                rt,
                                action,
                                params,
                                ctx,
                                goal_id,
                                env,
                            ),
                        },
                    },
                }
            },
        },
    }
}

/// Carrying out an action on thread `t`.
pub open spec fn control_action(
    h: HandlerView,
    t: Seq<char>,
    sid: Seq<char>,
    rt: Option<RuntimeView>,
    action: Seq<char>,
    params: JsonView,
    ctx: ContextView,
    goal_id: Seq<char>,
    env: Env,
) -> End {
    if action == "set"@ {
        control_set(h, t, sid, rt, params, ctx, goal_id, env)
    } else if action == "pause"@ {
        control_status(
            h,
            t,
            sid,
            rt,
            "pause"@,
            h.svc.pause_result(t, env.now.wall_ms),
            Counter::GoalsPaused,
            GoalStatus::Paused,
            env,
        )
    } else if action == "resume"@ {
        control_status(
            h,
            t,
            sid,
            rt,
            "resume"@,
            h.svc.resume_result(t, env.now.wall_ms),
            Counter::GoalsResumed,
            GoalStatus::Active,
            env,
        )
    } else if action == "editBudget"@ {
        control_budget(h, t, sid, rt, params, env)
    } else if action == "edit"@ {
        control_edit(h, t, sid, rt, params, env)
    } else {
        control_clear(h, t, sid, rt, ctx)
    }
}

impl GoalHandler {
    /// The parts belong together.
    pub closed spec fn wf(self) -> bool {
        &&& self.sessions.wf()
        &&& self.runtimes.wf()
        &&& self.idempotency.wf()
        &&& self.service.wf()
        &&& self@.wf()
    }

    /// A handler that serves nothing yet.
    pub fn new() -> (r: GoalHandler)
        ensures
            r.wf(),
            r@ == unbound(),
    {
        let r: GoalHandler = GoalHandler {
            kind: BackendKind::Unbound,
            agent_alive: false,
            db_error: None,
            sessions: Table::new(),
            runtimes: Table::new(),
            service: GoalService::new(store::GoalStore::new()),
            connected: false,
            idempotency: Table::new(),
            generation: 0,
            outbox: Vec::new(),
        };
        proof {
            r.service.store.lemma_wf();
            assert(r@.sessions =~= Map::<Seq<char>, SessionView>::empty());
            assert(r@.runtimes =~= Map::<Seq<char>, RuntimeView>::empty());
            assert(r@.keys =~= Map::<Seq<char>, Seq<char>>::empty());
            assert(r@.outbox =~= Seq::<OutboundView>::empty());
        }
        r
    }

    /// Tells connections of changes from now on.
    pub fn with_connections(self) -> (r: GoalHandler)
        requires
            self.wf(),
        ensures
            r.wf(),
            r@ == (HandlerView { connected: true, ..self@ }),
    {
        GoalHandler { connected: true, ..self }
    }

    /// Serves a bare table.
    pub fn bind_store(&mut self, store: store::GoalStore)
        requires
            old(self).wf(),
            store.wf(),
        ensures
            final(self).wf(),
            final(self)@ == (HandlerView {
                kind: BackendKind::Store,
                svc: ServiceView { store: store@, ..old(self)@.svc },
                ..old(self)@
            }),
    {
        proof {
            store.lemma_wf();
        }
        self.kind = BackendKind::Store;
        self.service.store = store;
    }

    /// Serves an agent and its table.
    pub fn bind(&mut self, store: store::GoalStore)
        requires
            old(self).wf(),
            store.wf(),
        ensures
            final(self).wf(),
            final(self)@ == (HandlerView {
                kind: BackendKind::Agent,
                alive: true,
                db_error: None,
                svc: ServiceView { store: store@, ..old(self)@.svc },
                ..old(self)@
            }),
    {
        proof {
            store.lemma_wf();
        }
        self.kind = BackendKind::Agent;
        self.agent_alive = true;
        self.db_error = None;
        self.service.store = store;
    }

    /// The agent is gone.
    pub fn agent_dropped(&mut self)
        requires
            old(self).wf(),
        ensures
            final(self).wf(),
            final(self)@ == (HandlerView { alive: false, ..old(self)@ }),
    {
        self.agent_alive = false;
    }

    /// The agent's database can, or cannot, be used.
    pub fn set_db_error(&mut self, error: Option<String>)
        requires
            old(self).wf(),
        ensures
            final(self).wf(),
            final(self)@ == (HandlerView { db_error: text::opt_text(error), ..old(self)@ }),
    {
        self.db_error = error;
    }

    /// The agent has a session.
    pub fn put_session(&mut self, session_id: &str, entry: SessionEntry)
        requires
            old(self).wf(),
        ensures
            final(self).wf(),
            final(self)@ == (HandlerView {
                sessions: old(self)@.sessions.insert(session_id@, entry@),
                ..old(self)@
            }),
    {
        self.sessions.insert(session_id, entry);
        assert(self@.sessions =~= old(self)@.sessions.insert(session_id@, entry@));
    }

    /// The table and its counts.
    pub fn service(&self) -> (r: &GoalService)
        requires
            self.wf(),
        ensures
            r.wf(),
            r@ == self@.svc,
    {
        &self.service
    }

    /// Puts another table in place of the one that is served.
    pub fn set_store(&mut self, store: store::GoalStore)
        requires
            old(self).wf(),
            store.wf(),
        ensures
            final(self).wf(),
            final(self)@ == (HandlerView {
                svc: ServiceView { store: store@, ..old(self)@.svc },
                ..old(self)@
            }),
    {
        proof {
            store.lemma_wf();
        }
        self.service.store = store;
    }

    /// Takes the table and its counts out; an empty one stays behind.
    pub fn take_service(&mut self) -> (r: GoalService)
        requires
            old(self).wf(),
        ensures
            r.wf(),
            r@ == old(self)@.svc,
            final(self).wf(),
            final(self)@.svc.store.rows == Map::<Seq<char>, GoalView>::empty(),
            final(self)@ == (HandlerView { svc: final(self)@.svc, ..old(self)@ }),
    {
        let mut out: GoalService = GoalService::new(store::GoalStore::new());
        std::mem::swap(&mut out, &mut self.service);
        proof {
            self.service.store.lemma_wf();
        }
        out
    }

    /// Puts the table and its counts back.
    pub fn put_service(&mut self, service: GoalService)
        requires
            old(self).wf(),
            service.wf(),
        ensures
            final(self).wf(),
            final(self)@ == (HandlerView { svc: service@, ..old(self)@ }),
    {
        proof {
            service.store.lemma_wf();
        }
        self.service = service;
    }

    /// Hands out what clients should hear.
    pub fn take_outbox(&mut self) -> (r: Vec<Outbound>)
        requires
            old(self).wf(),
        ensures
            final(self).wf(),
            outbound_views(r@) == old(self)@.outbox,
            final(self)@ == (HandlerView { outbox: Seq::empty(), ..old(self)@ }),
    {
        let mut out: Vec<Outbound> = Vec::new();
        std::mem::swap(&mut out, &mut self.outbox);
        assert(self@.outbox =~= Seq::empty());
        out
    }

    /// Takes the runtime of thread `t` out, or makes it; there is none behind a
    /// bare table.
    pub fn open(&mut self, t: &str) -> (r: Result<Option<GoalRuntimeHandle>, ExtensionError>)
        requires
            old(self).wf(),
        ensures
            final(self).wf(),
            match old(self)@.opened(t@) {
                Ok(rt) => {
                    &&& r is Ok
                    &&& match rt {
                        Some(v) => {
                            &&& r->Ok_0 is Some
                            &&& r->Ok_0->Some_0@ == v
                            &&& r->Ok_0->Some_0.wf()
                            &&& v.thread_id == t@
                            &&& final(self)@ == (HandlerView {
                                runtimes: old(self)@.runtimes.remove(t@),
                                ..old(self)@
                            })
                        },
                        None => r->Ok_0 is None && final(self)@ == old(self)@,
                    }
                },
                Err(e) => r is Err && r->Err_0@ == e && final(self)@ == old(self)@,
            },
    {
        match self.kind {
            BackendKind::Unbound => Err(
                extension::internal_error(
                    "goal backend not bound (degraded runtime); goal wiring disabled".to_owned(),
                ),
            ),
            BackendKind::Store => Ok(None),
            BackendKind::Agent => {
                if !self.agent_alive {
                    return Err(
                        extension::internal_error(
                            "goal backend unavailable (agent dropped)".to_owned(),
                        ),
                    );
                }
                if self.db_error.is_some() {
                    return Err(
                        extension::internal_error(
                            "goal backend unavailable (task db open failed?)".to_owned(),
                        ),
                    );
                }
                let known: Option<GoalRuntimeHandle> = self.runtimes.remove(t);
                assert(self@.runtimes =~= old(self)@.runtimes.remove(t@));
                match known {
                    Some(h) => {
                        assert(old(self)@.runtimes[t@] == h@);
                        Ok(Some(h))
                    },
                    None => Ok(Some(GoalRuntimeHandle::new(t))),
                }
            },
        }
    }

    /// Puts the runtime of thread `t` back.
    pub fn close(&mut self, t: &str, rt: Option<GoalRuntimeHandle>)
        requires
            old(self).wf(),
            rt matches Some(h) ==> h.wf() && h@.thread_id == t@,
        ensures
            final(self).wf(),
            final(self)@ == old(self)@.with_runtime(
                t@,
                match rt {
                    Some(h) => Some(h@),
                    None => None,
                },
            ),
    {
        match rt {
            Some(h) => {
                self.runtimes.insert(t, h);
                assert(self@.runtimes =~= old(self)@.runtimes.insert(t@, h@));
            },
            None => {},
        }
    }

    /// The thread of a session.
    pub fn resolve_thread_key(&self, session_id: &str, principal: &str) -> (r: Result<
        String,
        ExtensionError,
    >)
        requires
            self.wf(),
        ensures
            match self@.thread_of(session_id@, principal@) {
                Ok(t) => r is Ok && r->Ok_0@ == t,
                Err(e) => r is Err && r->Err_0@ == e,
            },
    {
        if self.kind != BackendKind::Agent {
            return Ok(session_id.to_owned());
        }
        if !self.agent_alive {
            return Err(
                extension::internal_error("goal backend unavailable (agent dropped)".to_owned()),
            );
        }
        match self.sessions.get(session_id) {
            Some(entry) => {
                assert(self@.sessions[session_id@] == entry@);
                if !text::same(entry.owner_principal.as_str(), principal) {
                    Err(
                        ExtensionError::forbidden(
                            "session is owned by a different principal".to_owned(),
                        ),
                    )
                } else {
                    Ok(entry.thread_id.clone())
                }
            },
            None => Ok(session_id.to_owned()),
        }
    }

    fn tell(&mut self, method: &str, params: Json)
        requires
            old(self).wf(),
        ensures
            final(self).wf(),
            final(self)@ == old(self)@.told(method@, params@),
    {
        if self.connected {
            self.outbox.push(Outbound::Notification { method: method.to_owned(), params });
            assert(self@.outbox =~= old(self)@.told(method@, params@).outbox);
        }
    }

    fn publish(&mut self, session_id: &str, goal: Option<&Goal>)
        requires
            old(self).wf(),
        ensures
            final(self).wf(),
            final(self)@ == old(self)@.published(
                session_id@,
                match goal {
                    Some(g) => Some(g@),
                    None => None,
                },
            ),
    {
        self.bump_generation();
        self.tell(UPDATED_METHOD, extension::neutral_meta(goal));
        if self.kind == BackendKind::Agent && self.agent_alive {
            let ghost before = self@;
            let o: Outbound = Outbound::SessionGoal {
                session_id: session_id.to_owned(),
                goal: extension::neutral_meta(goal),
            };
            self.outbox.push(o);
            assert(self@.outbox =~= before.outbox.push(o@));
        }
    }

    fn bump_generation(&mut self)
        requires
            old(self).wf(),
        ensures
            final(self).wf(),
            final(self)@ == (HandlerView {
                generation: metrics::next(old(self)@.generation),
                ..old(self)@
            }),
    {
        self.generation = self.generation.wrapping_add(1);
    }

    fn do_set(
        &mut self,
        t: &str,
        session_id: &str,
        rt: &mut Option<GoalRuntimeHandle>,
        params: &Json,
        ctx: &RequestContext,
        goal_id: &str,
        env: Env,
    ) -> (r: Result<Reply, ExtensionError>)
        requires
            old(self).wf(),
            *old(rt) matches Some(h) ==> h.wf() && h@.thread_id == t@,
        ensures
            final(self).wf(),
            *final(rt) matches Some(h) ==> h.wf() && h@.thread_id == t@,
            ended(
                old(self)@,
                t@,
                rt_view(*final(rt)),
                final(self)@,
                reply_view(r),
                control_set(
                    old(self)@,
                    t@,
                    session_id@,
                    rt_view(*old(rt)),
                    params@,
                    ctx@,
                    goal_id@,
                    env,
                ),
            ),
    {
        let objective: String = match extension::require_param_str(params, "objective") {
            Ok(o) => o,
            Err(e) => {
                return Err(e);
            },
        };
        let token_budget: Option<i64> = match parse_budget(params) {
            Ok(b) => b,
            Err(e) => {
                return Err(e);
            },
        };
        if self.kind == BackendKind::Agent && !ctx.locked {
            return Err(extension::map_service_error("set", GoalServiceError::LockTimeout));
        }
        let outcome: GoalSetOutcome = match self.service.set_with_verify_outcome(
            t,
            objective.as_str(),
            token_budget,
            None,
            goal_id,
            env,
        ) {
            Ok(o) => o,
            Err(e) => {
                proof {
                    self.service.store.lemma_wf();
                }
                return Err(extension::map_service_error("set", e));
            },
        };
        proof {
            self.service.store.lemma_wf();
        }
        match rt {
            Some(h) => h.note_goal_armed(outcome.goal.goal_id.as_str()),
            None => {},
        }
        let full: Goal = self.service.resolve_objective(outcome.goal);
        self.publish(session_id, Some(&full));
        let turn: Option<PlannedTurn> = match rt {
            Some(h) => h.continue_if_idle(&mut self.service, true),
            None => None,
        };
        proof {
            self.service.store.lemma_wf();
        }
        Ok(
            Reply {
                value: goal_reply(extension::neutral_goal_snapshot(&full)),
                turn,
                kick: false,
            },
        )
    }
}

/// The value of an optional runtime.
pub open spec fn rt_view(rt: Option<GoalRuntimeHandle>) -> Option<RuntimeView> {
    match rt {
        Some(h) => Some(h@),
        None => None,
    }
}

/// Whether a request on thread `t` that began with `before` has left `after` and
/// the runtime `rt` behind with the answer `r`, as `want` says.
pub open spec fn ended(
    before: HandlerView,
    t: Seq<char>,
    rt: Option<RuntimeView>,
    after: HandlerView,
    r: Result<ReplyView, ExtErrorView>,
    want: End,
) -> bool {
    r == want.reply && after.with_runtime(t, rt) == want.h && after.runtimes == before.runtimes
}

impl GoalHandler {
    fn do_pause(
        &mut self,
        t: &str,
        session_id: &str,
        rt: &mut Option<GoalRuntimeHandle>,
        env: Env,
    ) -> (r: Result<Reply, ExtensionError>)
        requires
            old(self).wf(),
            *old(rt) matches Some(h) ==> h.wf() && h@.thread_id == t@,
        ensures
            final(self).wf(),
            *final(rt) matches Some(h) ==> h.wf() && h@.thread_id == t@,
            ended(
                old(self)@,
                t@,
                rt_view(*final(rt)),
                final(self)@,
                reply_view(r),
                control_status(
                    old(self)@,
                    t@,
                    session_id@,
                    rt_view(*old(rt)),
                    "pause"@,
                    old(self)@.svc.pause_result(t@, env.now.wall_ms),
                    Counter::GoalsPaused,
                    GoalStatus::Paused,
                    env,
                ),
            ),
    {
        let goal: Goal = match self.service.pause(t, env.now.wall_ms) {
            Ok(g) => g,
            Err(e) => {
                return Err(extension::map_service_error("pause", e));
            },
        };
        match rt {
            Some(h) => {
                let noted: Result<(), store::GoalStoreError> = h.on_goal_status_changed(
                    &mut self.service,
                    GoalStatus::Paused,
                    env.now,
                );
            },
            None => {},
        }
        proof {
            self.service.store.lemma_wf();
        }
        let full: Goal = self.service.resolve_objective(goal);
        self.publish(session_id, Some(&full));
        Ok(plain_reply(goal_reply(extension::neutral_goal_snapshot(&full))))
    }

    fn do_resume(
        &mut self,
        t: &str,
        session_id: &str,
        rt: &mut Option<GoalRuntimeHandle>,
        env: Env,
    ) -> (r: Result<Reply, ExtensionError>)
        requires
            old(self).wf(),
            *old(rt) matches Some(h) ==> h.wf() && h@.thread_id == t@,
        ensures
            final(self).wf(),
            *final(rt) matches Some(h) ==> h.wf() && h@.thread_id == t@,
            ended(
                old(self)@,
                t@,
                rt_view(*final(rt)),
                final(self)@,
                reply_view(r),
                control_status(
                    old(self)@,
                    t@,
                    session_id@,
                    rt_view(*old(rt)),
                    "resume"@,
                    old(self)@.svc.resume_result(t@, env.now.wall_ms),
                    Counter::GoalsResumed,
                    GoalStatus::Active,
                    env,
                ),
            ),
    {
        let goal: Goal = match self.service.resume(t, env.now.wall_ms) {
            Ok(g) => g,
            Err(e) => {
                return Err(extension::map_service_error("resume", e));
            },
        };
        match rt {
            Some(h) => {
                let noted: Result<(), store::GoalStoreError> = h.on_goal_status_changed(
                    &mut self.service,
                    GoalStatus::Active,
                    env.now,
                );
            },
            None => {},
        }
        proof {
            self.service.store.lemma_wf();
        }
        let full: Goal = self.service.resolve_objective(goal);
        self.publish(session_id, Some(&full));
        let kick: bool = rt.is_some();
        Ok(
            Reply {
                value: goal_reply(extension::neutral_goal_snapshot(&full)),
                turn: None,
                kick,
            },
        )
    }

    fn do_budget(&mut self, t: &str, session_id: &str, params: &Json, env: Env) -> (r: Result<
        Reply,
        ExtensionError,
    >)
        requires
            old(self).wf(),
        ensures
            final(self).wf(),
            ended(
                old(self)@,
                t@,
                None,
                final(self)@,
                reply_view(r),
                control_budget(old(self)@, t@, session_id@, None, params@, env),
            ),
    {
        let asked: Option<i64> = match params.get("tokenBudget") {
            Some(v) => v.as_i64(),
            None => None,
        };
        let token_budget: i64 = match asked {
            Some(n) => n,
            None => {
                return Err(
                    ExtensionError::invalid_params("tokenBudget must be an integer".to_owned()),
                );
            },
        };
        let goal: Goal = match self.service.update_budget(t, token_budget, env) {
            Ok(g) => g,
            Err(e) => {
                return Err(extension::map_service_error("editBudget", e));
            },
        };
        proof {
            self.service.store.lemma_wf();
        }
        let full: Goal = self.service.resolve_objective(goal);
        self.publish(session_id, Some(&full));
        let mut f: Vec<Field> = json::no_fields();
        json::put(&mut f, "goal", extension::neutral_goal_snapshot(&full));
        json::put(&mut f, "resumeHint", Json::Bool(full.status == GoalStatus::BudgetLimited));
        assert(json::fields_view(f@) =~= seq![
            extension::entry("goal"@, extension::snapshot_json(full@)),
            extension::entry(
                "resumeHint"@,
                JsonView::Bool(full@.status == GoalStatus::BudgetLimited),
            ),
        ]);
        Ok(plain_reply(json::object(f)))
    }

    fn do_edit(&mut self, t: &str, session_id: &str, params: &Json, env: Env) -> (r: Result<
        Reply,
        ExtensionError,
    >)
        requires
            old(self).wf(),
        ensures
            final(self).wf(),
            ended(
                old(self)@,
                t@,
                None,
                final(self)@,
                reply_view(r),
                control_edit(old(self)@, t@, session_id@, None, params@, env),
            ),
    {
        let asked: Option<String> = match params.get("objective") {
            Some(v) => text::own_opt(v.as_str()),
            None => None,
        };
        let objective: String = match asked {
            Some(o) => o,
            None => {
                return Err(
                    ExtensionError::invalid_params("objective must be a string".to_owned()),
                );
            },
        };
        let edited: Result<Goal, GoalServiceError> = self.service.edit(t, objective.as_str(), env);
        proof {
            self.service.store.lemma_wf();
        }
        let goal: Goal = match edited {
            Ok(g) => g,
            Err(e) => {
                return Err(extension::map_service_error("edit", e));
            },
        };
        let full: Goal = self.service.resolve_objective(goal);
        self.publish(session_id, Some(&full));
        Ok(plain_reply(goal_reply(extension::neutral_goal_snapshot(&full))))
    }

    fn do_clear(
        &mut self,
        t: &str,
        session_id: &str,
        rt: &mut Option<GoalRuntimeHandle>,
        ctx: &RequestContext,
    ) -> (r: Result<Reply, ExtensionError>)
        requires
            old(self).wf(),
            *old(rt) matches Some(h) ==> h.wf() && h@.thread_id == t@,
        ensures
            final(self).wf(),
            *final(rt) matches Some(h) ==> h.wf() && h@.thread_id == t@,
            ended(
                old(self)@,
                t@,
                rt_view(*final(rt)),
                final(self)@,
                reply_view(r),
                control_clear(old(self)@, t@, session_id@, rt_view(*old(rt)), ctx@),
            ),
    {
        if self.kind == BackendKind::Agent && !ctx.locked {
            return Err(extension::map_service_error("clear", GoalServiceError::LockTimeout));
        }
        let cleared: bool = self.service.clear(t);
        proof {
            self.service.store.lemma_wf();
        }
        match rt {
            Some(h) => h.on_goal_replaced(None, crate::accounting::TokenTotals::default()),
            None => {},
        }
        self.publish(session_id, None);
        let mut f: Vec<Field> = json::no_fields();
        json::put(&mut f, "cleared", Json::Bool(cleared));
        json::put(&mut f, "goal", Json::Null);
        assert(json::fields_view(f@) =~= seq![
            extension::entry(
                "cleared"@,
                JsonView::Bool(old(self)@.svc.store.rows.contains_key(t@)),
            ),
            extension::entry("goal"@, JsonView::Null),
        ]);
        Ok(plain_reply(json::object(f)))
    }

    fn act(
        &mut self,
        t: &str,
        sid: &str,
        rt: &mut Option<GoalRuntimeHandle>,
        a: &str,
        params: &Json,
        ctx: &RequestContext,
        goal_id: &str,
        env: Env,
    ) -> (r: Result<Reply, ExtensionError>)
        requires
            old(self).wf(),
            *old(rt) matches Some(h) ==> h.wf() && h@.thread_id == t@,
        ensures
            final(self).wf(),
            *final(rt) matches Some(h) ==> h.wf() && h@.thread_id == t@,
            ended(
                old(self)@,
                t@,
                rt_view(*final(rt)),
                final(self)@,
                reply_view(r),
                control_action(
                    old(self)@,
                    t@,
                    sid@,
                    rt_view(*old(rt)),
                    a@,
                    params@,
                    ctx@,
                    goal_id@,
                    env,
                ),
            ),
    {
        if text::same(a, "set") {
            self.do_set(t, sid, rt, params, ctx, goal_id, env)
        } else if text::same(a, "pause") {
            self.do_pause(t, sid, rt, env)
        } else if text::same(a, "resume") {
            self.do_resume(t, sid, rt, env)
        } else if text::same(a, "editBudget") {
            self.do_budget(t, sid, params, env)
        } else if text::same(a, "edit") {
            self.do_edit(t, sid, params, env)
        } else {
            self.do_clear(t, sid, rt, ctx)
        }
    }

    /// The neutral control method.
    pub fn handle_session_control(
        &mut self,
        params: &Json,
        ctx: &RequestContext,
        goal_id: &str,
        env: Env,
    ) -> (r: Result<Reply, ExtensionError>)
        requires
            old(self).wf(),
        ensures
            final(self).wf(),
            final(self)@ == control(old(self)@, params@, ctx@, goal_id@, env).h,
            reply_view(r) == control(old(self)@, params@, ctx@, goal_id@, env).reply,
    {
        let session_id: String = match extension::require_param_str(params, "sessionId") {
            Ok(s) => s,
            Err(e) => {
                return Err(e);
            },
        };
        let action: String = match extension::require_param_str(params, "action") {
            Ok(s) => s,
            Err(e) => {
                return Err(e);
            },
        };
        let a: &str = action.as_str();
        if !(text::same(a, "set") || text::same(a, "pause") || text::same(a, "resume")
            || text::same(a, "clear") || text::same(a, "edit") || text::same(a, "editBudget")) {
            let mut m: String = "unknown or unsupported goal action '".to_owned();
            m.append(a);
            m.append(SUPPORTED_ACTIONS);
            return Err(ExtensionError::invalid_params(m));
        }
        match check_server_policy(ctx) {
            Ok(()) => {},
            Err(e) => {
                return Err(e);
            },
        }
        let sid: &str = session_id.as_str();
        let thread_id: String = match self.resolve_thread_key(sid, ctx.principal.as_str()) {
            Ok(t) => t,
            Err(e) => {
                return Err(e);
            },
        };
        let t: &str = thread_id.as_str();
        let mut rt: Option<GoalRuntimeHandle> = match self.open(t) {
            Ok(o) => o,
            Err(e) => {
                return Err(e);
            },
        };
        let ghost was = rt_view(rt);
        let reply: Result<Reply, ExtensionError> = self.act(
            t,
            sid,
            &mut rt,
            a,
            params,
            ctx,
            goal_id,
            env,
        );
        self.close(t, rt);
        proof {
            lemma_control_action_reopens(
                old(self)@,
                t@,
                sid@,
                was,
                a@,
                params@,
                ctx@,
                goal_id@,
                env,
            );
        }
        reply
    }
}

/// It does not matter to an action whether the runtime that it gets is still
/// listed.
proof fn lemma_control_action_reopens(
    h: HandlerView,
    t: Seq<char>,
    sid: Seq<char>,
    rt: Option<RuntimeView>,
    action: Seq<char>,
    params: JsonView,
    ctx: ContextView,
    goal_id: Seq<char>,
    env: Env,
)
    ensures
        rt is Some ==> ({
            let out = HandlerView { runtimes: h.runtimes.remove(t), ..h };
            let a = control_action(out, t, sid, rt, action, params, ctx, goal_id, env);
            let b = control_action(h, t, sid, rt, action, params, ctx, goal_id, env);
            a.h == b.h && a.reply == b.reply
        }),
{
    assert forall|r: RuntimeView| h.runtimes.remove(t).insert(t, r) == #[trigger] h.runtimes.insert(
        t,
        r,
    ) by {
        assert(h.runtimes.remove(t).insert(t, r) =~= h.runtimes.insert(t, r));
    }
}

/// What a request to list goals comes to before the table is read.
pub enum ListPlan {
    /// The answer is known.
    Answer(Result<ReplyView, ExtErrorView>),
    /// A page has to be read.
    Read { wanted: Option<Seq<GoalStatus>>, offset: nat, limit: nat },
}

/// A list without goals.
pub open spec fn empty_list() -> JsonView {
    JsonView::Obj(
        seq![
            extension::entry("items"@, JsonView::Arr(Seq::empty())),
            extension::entry("nextCursor"@, JsonView::Null),
            extension::entry("hasMore"@, JsonView::Bool(false)),
        ],
    )
}

/// What a request to list goals comes to before the table is read.
pub open spec fn list_plan(h: HandlerView, params: JsonView) -> ListPlan {
    if h.kind == BackendKind::Unbound {
        ListPlan::Answer(Ok(plain(empty_list())))
    } else {
        let offset = match extension::optional_text(params, "cursor"@) {
            Some(c) => extension::cursor_offset(c, h.generation),
            None => Some(0u64),
        };
        match offset {
            None => ListPlan::Answer(
                Err(extension::invalid_params_view("invalid list cursor"@)),
            ),
            Some(o) => match h.unreadable() {
                Some(e) => ListPlan::Answer(Err(e)),
                None => ListPlan::Read {
                    wanted: match extension::optional_text(params, "status"@) {
                        Some(f) => Some(extension::filtered(f)),
                        None => None,
                    },
                    offset: o as nat,
                    limit: listing::limit_of(
                        match params.field("limit"@) {
                            Some(v) => v.unsigned(),
                            None => None,
                        },
                    ) as nat,
                },
            },
        }
    }
}

/// Whether `r` answers a request to list goals: rows of the same age may come in
/// any order. A page that is not the last one has a cursor to where it ends.
pub open spec fn lists(
    h: HandlerView,
    params: JsonView,
    now: Seq<char>,
    r: Result<ReplyView, ExtErrorView>,
) -> bool {
    match list_plan(h, params) {
        ListPlan::Answer(a) => r == a,
        ListPlan::Read { wanted, offset, limit } => exists|l: Seq<(Seq<char>, GoalView)>| #[trigger]
            store::lists_rows(l, h.svc.store.rows) && r == Ok::<ReplyView, ExtErrorView>(
                plain(
                    listing::page_json(
                        listing::shown(l, wanted),
                        offset,
                        limit,
                        h.svc.store,
                        now,
                        h.generation,
                    ),
                ),
            ) && listing::leads_on(listing::shown(l, wanted), offset, limit, h.generation),
    }
}

/// A cursor that leads on is followed: a request to list that carries it is
/// answered from where it leads to, as long as the table can be read.
pub proof fn law_cursor_is_followed(h: HandlerView, params: JsonView, cursor: Seq<char>, offset: u64)
    requires
        h.kind != BackendKind::Unbound,
        h.unreadable() is None,
        extension::leads_to(cursor, h.generation, offset),
        params.field("cursor"@) == Some(JsonView::Str(cursor)),
    ensures
        list_plan(h, params) matches ListPlan::Read { offset: from, .. } && from == offset,
{
}

/// The goal with an identifier is nowhere.
pub open spec fn no_such_goal(id: Seq<char>) -> ExtErrorView {
    extension::not_found_view("goal '"@ + id + "' not found"@)
}

fn not_there(id: &str) -> (r: ExtensionError)
    ensures
        r@ == no_such_goal(id@),
{
    let mut m: String = "goal '".to_owned();
    m.append(id);
    m.append("' not found");
    ExtensionError::not_found(m)
}

/// Whether `r` answers a request for the goal with identifier `id`.
pub open spec fn gets(
    h: HandlerView,
    id: Seq<char>,
    now: Seq<char>,
    r: Result<ReplyView, ExtErrorView>,
) -> bool {
    if h.kind == BackendKind::Unbound {
        r == Err::<ReplyView, ExtErrorView>(no_such_goal(id))
    } else {
        match h.unreadable() {
            Some(e) => r == Err::<ReplyView, ExtErrorView>(e),
            None => {
                ||| (forall|t: Seq<char>| !#[trigger] h.svc.store.holds(t, id)) && r == Err::<
                    ReplyView,
                    ExtErrorView,
                >(no_such_goal(id))
                ||| exists|t: Seq<char>| #[trigger]
                    h.svc.store.holds(t, id) && r == Ok::<ReplyView, ExtErrorView>(
                        plain(
                            extension::wire_json(
                                h.svc.store.resolved(h.svc.store.rows[t]),
                                None,
                                now,
                                true,
                            ),
                        ),
                    )
            },
        }
    }
}

impl GoalHandler {
    fn store_for_read(&self) -> (r: Result<(), ExtensionError>)
        requires
            self.wf(),
        ensures
            match self@.unreadable() {
                Some(e) => r is Err && r->Err_0@ == e,
                None => r is Ok,
            },
    {
        match self.kind {
            BackendKind::Unbound => Err(
                extension::internal_error("goal backend not bound".to_owned()),
            ),
            BackendKind::Store => Ok(()),
            BackendKind::Agent => {
                if !self.agent_alive {
                    return Err(
                        extension::internal_error(
                            "goal backend unavailable (agent dropped)".to_owned(),
                        ),
                    );
                }
                match &self.db_error {
                    Some(e) => Err(extension::internal_error(e.clone())),
                    None => Ok(()),
                }
            },
        }
    }

    /// Lists goals, the newest first, page by page.
    pub fn handle_list(&self, params: &Json, ctx: &RequestContext) -> (r: Result<
        Reply,
        ExtensionError,
    >)
        requires
            self.wf(),
        ensures
            lists(self@, params@, ctx@.now_iso, reply_view(r)),
    {
        if self.kind == BackendKind::Unbound {
            let none: Vec<Json> = Vec::new();
            assert(json::items_view(none@) =~= Seq::empty());
            let mut f: Vec<Field> = json::no_fields();
            json::put(&mut f, "items", json::array(none));
            json::put(&mut f, "nextCursor", Json::Null);
            json::put(&mut f, "hasMore", Json::Bool(false));
            assert(json::fields_view(f@) =~= empty_list()->Obj_0);
            return Ok(plain_reply(json::object(f)));
        }
        let asked: Option<u64> = match params.get("limit") {
            Some(v) => v.as_u64(),
            None => None,
        };
        let limit: usize = listing::page_limit(asked);
        let offset: usize = match extension::optional_param_str(params, "cursor") {
            Some(c) => match extension::decode_cursor(c.as_str(), self.generation) {
                Ok(o) => o,
                Err(e) => {
                    return Err(e);
                },
            },
            None => 0,
        };
        match self.store_for_read() {
            Ok(()) => {},
            Err(e) => {
                return Err(e);
            },
        }
        let wanted: Option<Vec<GoalStatus>> = match extension::optional_param_str(
            params,
            "status",
        ) {
            Some(f) => Some(extension::filter_statuses(f.as_str())),
            None => None,
        };
        let all: Vec<(String, Goal)> = self.service.store.list_all();
        let picked: Vec<Goal> = listing::select(&all, &wanted);
        let page: Json = listing::show_page(
            &picked,
            offset,
            limit,
            &self.service.store,
            ctx.now_iso.as_str(),
            self.generation,
        );
        proof {
            let l = store::listing(all@);
            assert(store::lists_rows(l, self@.svc.store.rows));
        }
        Ok(plain_reply(page))
    }

    /// Shows one goal.
    pub fn handle_get(&self, params: &Json, ctx: &RequestContext) -> (r: Result<
        Reply,
        ExtensionError,
    >)
        requires
            self.wf(),
        ensures
            match extension::required_text(params@, "id"@) {
                Err(e) => reply_view(r) == Err::<ReplyView, ExtErrorView>(e),
                Ok(id) => gets(self@, id, ctx@.now_iso, reply_view(r)),
            },
    {
        let id: String = match extension::require_param_str(params, "id") {
            Ok(s) => s,
            Err(e) => {
                return Err(e);
            },
        };
        if self.kind == BackendKind::Unbound {
            return Err(not_there(id.as_str()));
        }
        match self.store_for_read() {
            Ok(()) => {},
            Err(e) => {
                return Err(e);
            },
        }
        match self.service.store.find_by_goal_id(id.as_str()) {
            None => Err(not_there(id.as_str())),
            Some((t, g)) => {
                assert(self@.svc.store.holds(t@, id@));
                let full: Goal = self.service.resolve_objective(g);
                Ok(plain_reply(extension::goal_json(&full, None, ctx.now_iso.as_str(), true)))
            },
        }
    }
}

/// A change that a client asks for by the goal's identifier.
pub enum Change {
    Pause,
    Resume,
    Cancel { reason: Option<Seq<char>> },
}

/// The answer to a change: `word` names the status and `at` the time `stamp`.
pub open spec fn change_reply(
    id: Seq<char>,
    word: Seq<char>,
    at: Seq<char>,
    stamp: Seq<char>,
    notification: JsonView,
    updated: JsonView,
) -> JsonView {
    JsonView::Obj(
        seq![
            extension::entry("id"@, JsonView::Str(id)),
            extension::entry("status"@, JsonView::Str(word)),
            extension::entry(at, JsonView::Str(stamp)),
            extension::entry("notification"@, notification),
            extension::entry("updated"@, updated),
        ],
    )
}

fn make_change_reply(
    id: &str,
    word: &str,
    at: &str,
    stamp: &str,
    notification: Json,
    updated: Json,
) -> (r: Json)
    ensures
        r@ == change_reply(id@, word@, at@, stamp@, notification@, updated@),
{
    let mut f: Vec<Field> = json::no_fields();
    json::put(&mut f, "id", json::string(id));
    json::put(&mut f, "status", json::string(word));
    json::put(&mut f, at, json::string(stamp));
    json::put(&mut f, "notification", notification);
    json::put(&mut f, "updated", updated);
    assert(json::fields_view(f@) =~= change_reply(
        id@,
        word@,
        at@,
        stamp@,
        notification@,
        updated@,
    )->Obj_0);
    json::object(f)
}

/// Pausing or resuming, by `r` and counted as `c`, the goal of thread `t` that a
/// client knows as `id`.
pub open spec fn changed_status(
    h: HandlerView,
    t: Seq<char>,
    id: Seq<char>,
    rt: Option<RuntimeView>,
    r: Result<GoalView, ServiceErrorView>,
    resume: bool,
    now: Seq<char>,
    env: Env,
) -> End {
    let status = if resume {
        GoalStatus::Active
    } else {
        GoalStatus::Paused
    };
    match r {
        Err(e) => refused(
            h.with_runtime(t, rt),
            extension::mapped_error(
                if resume {
                    "resume"@
                } else {
                    "pause"@
                },
                e,
            ),
        ),
        Ok(g) => {
            let c = if resume {
                Counter::GoalsResumed
            } else {
                Counter::GoalsPaused
            };
            let (rt1, svc) = status_noted(rt, h.svc.after(t, r, c), status, env);
            let full = svc.store.resolved(g);
            let notification = extension::notification_json(
                id,
                if resume {
                    GoalChangeType::Resumed
                } else {
                    GoalChangeType::Paused
                },
                extension::projected(full.status),
            );
            let updated = extension::wire_json(full, None, now, false);
            let stamp = extension::iso(full.updated_at_ms, now);
            End {
                h: (HandlerView {
                    svc,
                    generation: metrics::next(h.generation),
                    ..h
                }).broadcast(notification, updated).with_runtime(t, rt1),
                reply: Ok(
                    ReplyView {
                        value: if resume {
                            change_reply(
                                id,
                                "active"@,
                                "resumedAt"@,
                                stamp,
                                notification,
                                updated,
                            )
                        } else {
                            change_reply(id, "paused"@, "pausedAt"@, stamp, notification, updated)
                        },
                        turn: None,
                        kick: resume && rt is Some,
                    },
                ),
            }
        },
    }
}

/// Cancelling the goal of thread `t` that a client knows as `id`: it is cleared,
/// unless it has ended already.
pub open spec fn cancelled_goal(
    h: HandlerView,
    t: Seq<char>,
    id: Seq<char>,
    rt: Option<RuntimeView>,
    reason: Option<Seq<char>>,
    ctx: ContextView,
    env: Env,
) -> End {
    let full = h.svc.store.resolved(h.svc.store.rows[t]);
    let over = types::terminal(h.svc.store.rows[t].status);
    let notification = extension::notification_json(
        id,
        GoalChangeType::Cancelled,
        extension::GoalStatus::Cancelled,
    );
    let updated = extension::wire_json(
        full,
        if over {
            None
        } else {
            reason
        },
        ctx.now_iso,
        false,
    );
    let reply = Ok(
        plain(
            change_reply(
                id,
                "cancelled"@,
                "cancelledAt"@,
                extension::iso(env.now.wall_ms, ctx.now_iso),
                notification,
                updated,
            ),
        ),
    );
    if over {
        End { h: h.with_runtime(t, rt), reply }
    } else if h.lock_missing(ctx) {
        refused(
            h.with_runtime(t, rt),
            extension::mapped_error("cancel"@, ServiceErrorView::LockTimeout),
        )
    } else {
        End {
            h: (HandlerView {
                svc: h.svc.after_clear(t),
                generation: metrics::next(h.generation),
                ..h
            }).broadcast(notification, updated).with_runtime(t, cleared_runtime(rt)),
            reply,
        }
    }
}

/// Making a change to the goal of thread `t` that a client knows as `id`.
pub open spec fn change_on(
    h: HandlerView,
    t: Seq<char>,
    id: Seq<char>,
    rt: Option<RuntimeView>,
    what: Change,
    ctx: ContextView,
    env: Env,
) -> End {
    match what {
        Change::Pause => changed_status(
            h,
            t,
            id,
            rt,
            h.svc.pause_result(t, env.now.wall_ms),
            false,
            ctx.now_iso,
            env,
        ),
        Change::Resume => changed_status(
            h,
            t,
            id,
            rt,
            h.svc.resume_result(t, env.now.wall_ms),
            true,
            ctx.now_iso,
            env,
        ),
        Change::Cancel { reason } => cancelled_goal(h, t, id, rt, reason, ctx, env),
    }
}

/// Whether a change that was asked for with `params` has left `after` behind
/// with the answer `r`.
pub open spec fn changes(
    h: HandlerView,
    params: JsonView,
    what: Change,
    ctx: ContextView,
    env: Env,
    after: HandlerView,
    r: Result<ReplyView, ExtErrorView>,
) -> bool {
    match refusal(ctx) {
        Some(e) => after == h && r == Err::<ReplyView, ExtErrorView>(e),
        None => match extension::required_text(params, "id"@) {
            Err(e) => after == h && r == Err::<ReplyView, ExtErrorView>(e),
            Ok(id) => changes_goal(h, id, what, ctx, env, after, r),
        },
    }
}

/// Whether a change to the goal with identifier `id` has left `after` behind
/// with the answer `r`.
pub open spec fn changes_goal(
    h: HandlerView,
    id: Seq<char>,
    what: Change,
    ctx: ContextView,
    env: Env,
    after: HandlerView,
    r: Result<ReplyView, ExtErrorView>,
) -> bool {
    match h.unreadable() {
        Some(e) => after == h && r == Err::<ReplyView, ExtErrorView>(e),
        None => {
            ||| (forall|t: Seq<char>| !#[trigger] h.svc.store.holds(t, id)) && after == h && r
                == Err::<ReplyView, ExtErrorView>(no_such_goal(id))
            ||| exists|t: Seq<char>| #[trigger]
                h.svc.store.holds(t, id) && h.opened(t) is Ok && {
                    let want = change_on(h, t, id, h.opened(t)->Ok_0, what, ctx, env);
                    after == want.h && r == want.reply
                }
        },
    }
}

/// It does not matter to a change whether the runtime that it gets is still
/// listed.
proof fn lemma_change_on_reopens(
    h: HandlerView,
    t: Seq<char>,
    id: Seq<char>,
    rt: Option<RuntimeView>,
    what: Change,
    ctx: ContextView,
    env: Env,
)
    ensures
        rt is Some ==> ({
            let out = HandlerView { runtimes: h.runtimes.remove(t), ..h };
            let a = change_on(out, t, id, rt, what, ctx, env);
            let b = change_on(h, t, id, rt, what, ctx, env);
            a.h == b.h && a.reply == b.reply
        }),
{
    assert forall|r: RuntimeView| h.runtimes.remove(t).insert(t, r) == #[trigger] h.runtimes.insert(
        t,
        r,
    ) by {
        assert(h.runtimes.remove(t).insert(t, r) =~= h.runtimes.insert(t, r));
    }
}

impl GoalHandler {
    fn resolve_goal_by_id(&mut self, id: &str) -> (r: Result<
        (String, Goal, Option<GoalRuntimeHandle>),
        ExtensionError,
    >)
        requires
            old(self).wf(),
        ensures
            final(self).wf(),
            match r {
                Ok((t, g, rt)) => {
                    &&& old(self)@.unreadable() is None
                    &&& old(self)@.svc.store.holds(t@, id@)
                    &&& g@ == old(self)@.svc.store.rows[t@]
                    &&& old(self)@.opened(t@) == Ok::<Option<RuntimeView>, ExtErrorView>(
                        rt_view(rt),
                    )
                    &&& rt matches Some(h) ==> h.wf() && h@.thread_id == t@
                    &&& final(self)@ == if rt is Some {
                        HandlerView { runtimes: old(self)@.runtimes.remove(t@), ..old(self)@ }
                    } else {
                        old(self)@
                    }
                },
                Err(e) => {
                    &&& final(self)@ == old(self)@
                    &&& match old(self)@.unreadable() {
                        Some(u) => e@ == u,
                        None => (forall|t: Seq<char>|
                            !#[trigger] old(self)@.svc.store.holds(t, id@)) && e@ == no_such_goal(
                            id@,
                        ),
                    }
                },
            },
    {
        match self.store_for_read() {
            Ok(()) => {},
            Err(e) => {
                return Err(e);
            },
        }
        match self.service.store.find_by_goal_id(id) {
            None => Err(not_there(id)),
            Some((t, g)) => match self.open(t.as_str()) {
                Ok(rt) => Ok((t, g, rt)),
                Err(e) => Err(e),
            },
        }
    }

    fn announce(&mut self, id: &str, change: GoalChangeType, status: extension::GoalStatus, updated: Json)
        requires
            old(self).wf(),
        ensures
            final(self).wf(),
            final(self)@ == old(self)@.broadcast(
                extension::notification_json(id@, change, status),
                updated@,
            ),
    {
        self.tell(CHANGED_METHOD, extension::change_json(id, change, status));
        self.tell(UPDATED_METHOD, updated);
    }

    fn change_status(
        &mut self,
        t: &str,
        id: &str,
        rt: &mut Option<GoalRuntimeHandle>,
        resume: bool,
        ctx: &RequestContext,
        env: Env,
    ) -> (r: Result<Reply, ExtensionError>)
        requires
            old(self).wf(),
            *old(rt) matches Some(h) ==> h.wf() && h@.thread_id == t@,
        ensures
            final(self).wf(),
            *final(rt) matches Some(h) ==> h.wf() && h@.thread_id == t@,
            ended(
                old(self)@,
                t@,
                rt_view(*final(rt)),
                final(self)@,
                reply_view(r),
                change_on(
                    old(self)@,
                    t@,
                    id@,
                    rt_view(*old(rt)),
                    if resume {
                        Change::Resume
                    } else {
                        Change::Pause
                    },
                    ctx@,
                    env,
                ),
            ),
    {
        let outcome: Result<Goal, GoalServiceError> = if resume {
            self.service.resume(t, env.now.wall_ms)
        } else {
            self.service.pause(t, env.now.wall_ms)
        };
        proof {
            self.service.store.lemma_wf();
        }
        let goal: Goal = match outcome {
            Ok(g) => g,
            Err(e) => {
                return Err(
                    extension::map_service_error(
                        if resume {
                            "resume"
                        } else {
                            "pause"
                        },
                        e,
                    ),
                );
            },
        };
        let status: GoalStatus = if resume {
            GoalStatus::Active
        } else {
            GoalStatus::Paused
        };
        match rt {
            Some(h) => {
                let noted: Result<(), store::GoalStoreError> = h.on_goal_status_changed(
                    &mut self.service,
                    status,
                    env.now,
                );
            },
            None => {},
        }
        proof {
            self.service.store.lemma_wf();
        }
        self.bump_generation();
        let full: Goal = self.service.resolve_objective(goal);
        let now: &str = ctx.now_iso.as_str();
        let change: GoalChangeType = if resume {
            GoalChangeType::Resumed
        } else {
            GoalChangeType::Paused
        };
        let shown: extension::GoalStatus = extension::project_status(full.status);
        self.announce(id, change, shown, extension::goal_json(&full, None, now, false));
        let kick: bool = resume && rt.is_some();
        let stamp: String = extension::ms_to_iso(full.updated_at_ms, now);
        let value: Json = make_change_reply(
            id,
            if resume {
                "active"
            } else {
                "paused"
            },
            if resume {
                "resumedAt"
            } else {
                "pausedAt"
            },
            stamp.as_str(),
            extension::change_json(id, change, shown),
            extension::goal_json(&full, None, now, false),
        );
        Ok(Reply { value, turn: None, kick })
    }

    /// Pauses a goal.
    pub fn handle_pause(&mut self, params: &Json, ctx: &RequestContext, env: Env) -> (r: Result<
        Reply,
        ExtensionError,
    >)
        requires
            old(self).wf(),
        ensures
            final(self).wf(),
            changes(old(self)@, params@, Change::Pause, ctx@, env, final(self)@, reply_view(r)),
    {
        self.handle_status(params, false, ctx, env)
    }

    /// Resumes a goal.
    pub fn handle_resume(&mut self, params: &Json, ctx: &RequestContext, env: Env) -> (r: Result<
        Reply,
        ExtensionError,
    >)
        requires
            old(self).wf(),
        ensures
            final(self).wf(),
            changes(old(self)@, params@, Change::Resume, ctx@, env, final(self)@, reply_view(r)),
    {
        self.handle_status(params, true, ctx, env)
    }

    fn handle_status(
        &mut self,
        params: &Json,
        resume: bool,
        ctx: &RequestContext,
        env: Env,
    ) -> (r: Result<Reply, ExtensionError>)
        requires
            old(self).wf(),
        ensures
            final(self).wf(),
            changes(
                old(self)@,
                params@,
                if resume {
                    Change::Resume
                } else {
                    Change::Pause
                },
                ctx@,
                env,
                final(self)@,
                reply_view(r),
            ),
    {
        match check_server_policy(ctx) {
            Ok(()) => {},
            Err(e) => {
                return Err(e);
            },
        }
        let id: String = match extension::require_param_str(params, "id") {
            Ok(s) => s,
            Err(e) => {
                return Err(e);
            },
        };
        match self.resolve_goal_by_id(id.as_str()) {
            Err(e) => Err(e),
            Ok((thread_id, existing, opened)) => {
                let mut rt: Option<GoalRuntimeHandle> = opened;
                let t: &str = thread_id.as_str();
                let reply: Result<Reply, ExtensionError> = self.change_status(
                    t,
                    id.as_str(),
                    &mut rt,
                    resume,
                    ctx,
                    env,
                );
                self.close(t, rt);
                proof {
                    lemma_change_on_reopens(
                        old(self)@,
                        t@,
                        id@,
                        rt_view(opened),
                        if resume {
                            Change::Resume
                        } else {
                            Change::Pause
                        },
                        ctx@,
                        env,
                    );
                    assert(old(self)@.svc.store.holds(t@, id@));
                }
                reply
            },
        }
    }
}

impl GoalHandler {
    fn cancel(
        &mut self,
        t: &str,
        id: &str,
        existing: Goal,
        rt: &mut Option<GoalRuntimeHandle>,
        reason: Option<&str>,
        ctx: &RequestContext,
        env: Env,
    ) -> (r: Result<Reply, ExtensionError>)
        requires
            old(self).wf(),
            old(self)@.svc.store.rows.contains_key(t@),
            existing@ == old(self)@.svc.store.rows[t@],
            *old(rt) matches Some(h) ==> h.wf() && h@.thread_id == t@,
        ensures
            final(self).wf(),
            *final(rt) matches Some(h) ==> h.wf() && h@.thread_id == t@,
            ended(
                old(self)@,
                t@,
                rt_view(*final(rt)),
                final(self)@,
                reply_view(r),
                change_on(
                    old(self)@,
                    t@,
                    id@,
                    rt_view(*old(rt)),
                    Change::Cancel { reason: text::opt_str(reason) },
                    ctx@,
                    env,
                ),
            ),
    {
        let now: &str = ctx.now_iso.as_str();
        let stamp: String = extension::ms_to_iso(env.now.wall_ms, now);
        let over: bool = existing.status.is_terminal();
        let why: Option<&str> = if over {
            None
        } else {
            reason
        };
        let full: Goal = self.service.resolve_objective(existing);
        let value: Json = make_change_reply(
            id,
            "cancelled",
            "cancelledAt",
            stamp.as_str(),
            extension::change_json(
                id,
                GoalChangeType::Cancelled,
                extension::GoalStatus::Cancelled,
            ),
            extension::goal_json(&full, why, now, false),
        );
        if over {
            return Ok(plain_reply(value));
        }
        if self.kind == BackendKind::Agent && !ctx.locked {
            return Err(extension::map_service_error("cancel", GoalServiceError::LockTimeout));
        }
        let cleared: bool = self.service.clear(t);
        proof {
            self.service.store.lemma_wf();
        }
        match rt {
            Some(h) => h.on_goal_replaced(None, crate::accounting::TokenTotals::default()),
            None => {},
        }
        self.bump_generation();
        self.announce(
            id,
            GoalChangeType::Cancelled,
            extension::GoalStatus::Cancelled,
            extension::goal_json(&full, why, now, false),
        );
        Ok(plain_reply(value))
    }

    /// Cancels a goal.
    pub fn handle_cancel(&mut self, params: &Json, ctx: &RequestContext, env: Env) -> (r: Result<
        Reply,
        ExtensionError,
    >)
        requires
            old(self).wf(),
        ensures
            final(self).wf(),
            changes(
                old(self)@,
                params@,
                Change::Cancel { reason: extension::optional_text(params@, "reason"@) },
                ctx@,
                env,
                final(self)@,
                reply_view(r),
            ),
    {
        match check_server_policy(ctx) {
            Ok(()) => {},
            Err(e) => {
                return Err(e);
            },
        }
        let id: String = match extension::require_param_str(params, "id") {
            Ok(s) => s,
            Err(e) => {
                return Err(e);
            },
        };
        let given: Option<String> = extension::optional_param_str(params, "reason");
        let reason: Option<&str> = match &given {
            Some(s) => Some(s.as_str()),
            None => None,
        };
        match self.resolve_goal_by_id(id.as_str()) {
            Err(e) => Err(e),
            Ok((thread_id, existing, opened)) => {
                let mut rt: Option<GoalRuntimeHandle> = opened;
                let t: &str = thread_id.as_str();
                let reply: Result<Reply, ExtensionError> = self.cancel(
                    t,
                    id.as_str(),
                    existing,
                    &mut rt,
                    reason,
                    ctx,
                    env,
                );
                self.close(t, rt);
                proof {
                    lemma_change_on_reopens(
                        old(self)@,
                        t@,
                        id@,
                        rt_view(opened),
                        Change::Cancel { reason: text::opt_str(reason) },
                        ctx@,
                        env,
                    );
                    assert(old(self)@.svc.store.holds(t@, id@));
                }
                reply
            },
        }
    }
}

/// What a client asks for who starts a goal.
pub struct StartView {
    pub title: Seq<char>,
    pub description: Seq<char>,
    pub sid: Seq<char>,
    pub key: Option<Seq<char>>,
}

/// What a request to start a goal asks for.
pub open spec fn start_asked(params: JsonView, ctx: ContextView) -> Result<StartView, ExtErrorView> {
    match extension::required_text(params, "title"@) {
        Err(e) => Err(e),
        Ok(title) => match extension::required_text(params, "description"@) {
            Err(e) => Err(e),
            Ok(description) => {
                let sid = match extension::optional_text(params, "sessionId"@) {
                    Some(s) => Some(s),
                    None => ctx.session_id,
                };
                match sid {
                    None => Err(
                        extension::invalid_params_view("missing required parameter: sessionId"@),
                    ),
                    Some(sid) => Ok(
                        StartView {
                            title,
                            description,
                            sid,
                            key: extension::optional_text(params, "idempotencyKey"@),
                        },
                    ),
                }
            },
        },
    }
}

/// The objective that a title and a description make: both, or one of them where
/// they are the same.
pub open spec fn joined_objective(title: Seq<char>, description: Seq<char>) -> Seq<char> {
    if description == title {
        title
    } else {
        title + ": "@ + description
    }
}

/// Makes the objective of a start from its title and description.
pub fn join_objective(title: &str, description: &str) -> (r: String)
    ensures
        r@ == joined_objective(title@, description@),
{
    let mut objective: String = title.to_owned();
    if !text::same(description, title) {
        objective.append(": ");
        objective.append(description);
    }
    objective
}

/// The answer to a start that has led to goal `g`.
pub open spec fn start_reply(g: GoalView, sid: Seq<char>, now: Seq<char>) -> JsonView {
    let status = extension::projected(g.status);
    JsonView::Obj(
        seq![
            extension::entry("id"@, JsonView::Str(g.goal_id)),
            extension::entry("title"@, JsonView::Str(extension::title_of(g.objective))),
            extension::entry("status"@, JsonView::Str(extension::wire_status_text(status))),
            extension::entry("sessionId"@, JsonView::Str(sid)),
            extension::entry("createdAt"@, JsonView::Str(extension::iso(g.created_at_ms, now))),
            extension::entry(
                "notification"@,
                extension::notification_json(g.goal_id, GoalChangeType::Started, status),
            ),
            extension::entry("updated"@, extension::wire_json(g, None, now, false)),
        ],
    )
}

fn make_start_reply(g: &Goal, sid: &str, now: &str) -> (r: Json)
    ensures
        r@ == start_reply(g@, sid@, now@),
{
    let w: extension::Goal = extension::project_goal(g, now);
    let mut f: Vec<Field> = json::no_fields();
    json::put(&mut f, "id", json::string(w.id.as_str()));
    json::put(&mut f, "title", json::string(w.title.as_str()));
    json::put(&mut f, "status", json::string(w.status.as_str()));
    json::put(&mut f, "sessionId", json::string(sid));
    json::put(&mut f, "createdAt", json::string(w.created_at.as_str()));
    json::put(
        &mut f,
        "notification",
        extension::change_json(w.id.as_str(), GoalChangeType::Started, w.status),
    );
    json::put(&mut f, "updated", extension::goal_json(g, None, now, false));
    assert(json::fields_view(f@) =~= start_reply(g@, sid@, now@)->Obj_0);
    json::object(f)
}

/// Starting a goal on thread `t` that no earlier start stands for. Where it takes
/// the place of another goal, the next goal turn is put off.
pub open spec fn start_new(
    h: HandlerView,
    t: Seq<char>,
    asked: StartView,
    rt: Option<RuntimeView>,
    ctx: ContextView,
    goal_id: Seq<char>,
    env: Env,
) -> End {
    let objective = joined_objective(asked.title, asked.description);
    if h.lock_missing(ctx) {
        refused(
            h.with_runtime(t, rt),
            extension::mapped_error("start"@, ServiceErrorView::LockTimeout),
        )
    } else {
        let set = h.svc.after_set(t, objective, None, None, goal_id, env);
        match h.svc.set_result(t, objective, None, None, goal_id, env) {
            Err(e) => refused(
                (HandlerView { svc: set, ..h }).with_runtime(t, rt),
                extension::mapped_error("start"@, e),
            ),
            Ok(g) => {
                let svc = if rt is Some && h.svc.store.rows.contains_key(t) {
                    runtime::put_off_on(set, t)
                } else {
                    set
                };
                let full = svc.store.resolved(g);
                End {
                    h: (HandlerView {
                        svc,
                        generation: metrics::next(h.generation),
                        keys: match asked.key {
                            Some(k) => h.keys.insert(k, g.goal_id),
                            None => h.keys,
                        },
                        ..h
                    }).broadcast(
                        extension::notification_json(
                            full.goal_id,
                            GoalChangeType::Started,
                            extension::projected(full.status),
                        ),
                        extension::wire_json(full, None, ctx.now_iso, false),
                    ).with_runtime(t, rearmed(rt, g.goal_id)),
                    reply: Ok(plain(start_reply(full, asked.sid, ctx.now_iso))),
                }
            },
        }
    }
}

/// Whether an earlier start under the same key stands for this one: its goal is
/// still there.
pub open spec fn known_start(h: HandlerView, asked: StartView) -> bool {
    asked.key matches Some(k) && h.keys.contains_key(k) && exists|t: Seq<char>| #[trigger]
        h.svc.store.holds(t, h.keys[k])
}

/// The thread and the objective of a start that comes to setting a goal.
pub open spec fn start_objective(h: HandlerView, params: JsonView, ctx: ContextView) -> Option<
    (Seq<char>, Seq<char>),
> {
    if refusal(ctx) is Some || start_asked(params, ctx) is Err || h.lock_missing(ctx) {
        None
    } else {
        let asked = start_asked(params, ctx)->Ok_0;
        match h.thread_of(asked.sid, ctx.principal) {
            Err(_) => None,
            Ok(t) => if h.opened(t) is Err || known_start(h, asked) {
                None
            } else {
                Some((t, joined_objective(asked.title, asked.description)))
            },
        }
    }
}

/// The thread and the objective of a request of the control method that comes to
/// setting or editing a goal.
pub open spec fn control_objective(h: HandlerView, params: JsonView, ctx: ContextView) -> Option<
    (Seq<char>, Seq<char>),
> {
    match (
        extension::required_text(params, "sessionId"@),
        extension::required_text(params, "action"@),
    ) {
        (Ok(sid), Ok(action)) => match h.thread_of(sid, ctx.principal) {
            Err(_) => None,
            Ok(t) => if refusal(ctx) is Some || h.opened(t) is Err {
                None
            } else if action == "set"@ {
                match extension::required_text(params, "objective"@) {
                    Err(_) => None,
                    Ok(objective) => if asked_budget(params) is Err || h.lock_missing(ctx) {
                        None
                    } else {
                        Some((t, objective))
                    },
                }
            } else if action == "edit"@ && h.svc.store.rows.contains_key(t) {
                match params.field("objective"@) {
                    Some(JsonView::Str(objective)) => Some((t, objective)),
                    _ => None,
                }
            } else {
                None
            },
        },
        _ => None,
    }
}

/// The values of two texts, if they are there.
pub open spec fn opt_pair(p: Option<(String, String)>) -> Option<(Seq<char>, Seq<char>)> {
    match p {
        Some((a, b)) => Some((a@, b@)),
        None => None,
    }
}

/// Whether starting a goal has left `after` behind with the answer `r`.
pub open spec fn starts(
    h: HandlerView,
    params: JsonView,
    ctx: ContextView,
    goal_id: Seq<char>,
    env: Env,
    after: HandlerView,
    r: Result<ReplyView, ExtErrorView>,
) -> bool {
    match refusal(ctx) {
        Some(e) => after == h && r == Err::<ReplyView, ExtErrorView>(e),
        None => match start_asked(params, ctx) {
            Err(e) => after == h && r == Err::<ReplyView, ExtErrorView>(e),
            Ok(asked) => match h.thread_of(asked.sid, ctx.principal) {
                Err(e) => after == h && r == Err::<ReplyView, ExtErrorView>(e),
                Ok(t) => match h.opened(t) {
                    Err(e) => after == h && r == Err::<ReplyView, ExtErrorView>(e),
                    Ok(rt) => if known_start(h, asked) {
                        after == h.with_runtime(t, rt) && exists|o: Seq<char>| #[trigger]
                            h.svc.store.holds(o, h.keys[asked.key->Some_0]) && r == Ok::<
                                ReplyView,
                                ExtErrorView,
                            >(
                                plain(
                                    start_reply(
                                        h.svc.store.resolved(h.svc.store.rows[o]),
                                        asked.sid,
                                        ctx.now_iso,
                                    ),
                                ),
                            )
                    } else {
                        let want = start_new(h, t, asked, rt, ctx, goal_id, env);
                        after == want.h && r == want.reply
                    },
                },
            },
        },
    }
}

impl GoalHandler {
    fn started_before(&self, key: &Option<String>) -> (r: Option<Goal>)
        requires
            self.wf(),
        ensures
            match r {
                Some(g) => {
                    &&& *key is Some
                    &&& self@.keys.contains_key((*key)->Some_0@)
                    &&& exists|t: Seq<char>| #[trigger]
                        self@.svc.store.holds(t, self@.keys[(*key)->Some_0@]) && g@
                            == self@.svc.store.rows[t]
                },
                None => match *key {
                    Some(k) => !(self@.keys.contains_key(k@) && exists|t: Seq<char>| #[trigger]
                        self@.svc.store.holds(t, self@.keys[k@])),
                    None => true,
                },
            },
    {
        match key {
            None => None,
            Some(k) => match self.idempotency.get(k.as_str()) {
                None => None,
                Some(id) => {
                    assert(self@.keys[k@] == id@);
                    match self.service.store.find_by_goal_id(id.as_str()) {
                        Some((t, g)) => {
                            assert(self@.svc.store.holds(t@, id@));
                            Some(g)
                        },
                        None => None,
                    }
                },
            },
        }
    }

    fn can_open(&self) -> (r: bool)
        requires
            self.wf(),
        ensures
            forall|t: Seq<char>| #[trigger] self@.opened(t) is Ok == r,
    {
        match self.kind {
            BackendKind::Unbound => false,
            BackendKind::Store => true,
            BackendKind::Agent => self.agent_alive && self.db_error.is_none(),
        }
    }

    fn start_to_keep(&self, params: &Json, ctx: &RequestContext) -> (r: Option<(String, String)>)
        requires
            self.wf(),
        ensures
            opt_pair(r) == start_objective(self@, params@, ctx@),
    {
        if check_server_policy(ctx).is_err() || (self.kind == BackendKind::Agent && !ctx.locked)
            || !self.can_open() {
            return None;
        }
        let title: String = match extension::require_param_str(params, "title") {
            Ok(s) => s,
            Err(_) => {
                return None;
            },
        };
        let description: String = match extension::require_param_str(params, "description") {
            Ok(s) => s,
            Err(_) => {
                return None;
            },
        };
        let given: Option<String> = match extension::optional_param_str(params, "sessionId") {
            Some(s) => Some(s),
            None => text::clone_opt(&ctx.session_id),
        };
        let sid: String = match given {
            Some(s) => s,
            None => {
                return None;
            },
        };
        let key: Option<String> = extension::optional_param_str(params, "idempotencyKey");
        match self.resolve_thread_key(sid.as_str(), ctx.principal.as_str()) {
            Err(_) => None,
            Ok(t) => match self.started_before(&key) {
                Some(_) => None,
                None => Some((t, join_objective(title.as_str(), description.as_str()))),
            },
        }
    }

    fn control_to_keep(&self, params: &Json, ctx: &RequestContext) -> (r: Option<(String, String)>)
        requires
            self.wf(),
        ensures
            opt_pair(r) == control_objective(self@, params@, ctx@),
    {
        let sid: String = match extension::require_param_str(params, "sessionId") {
            Ok(s) => s,
            Err(_) => {
                return None;
            },
        };
        let action: String = match extension::require_param_str(params, "action") {
            Ok(s) => s,
            Err(_) => {
                return None;
            },
        };
        let t: String = match self.resolve_thread_key(sid.as_str(), ctx.principal.as_str()) {
            Ok(t) => t,
            Err(_) => {
                return None;
            },
        };
        if check_server_policy(ctx).is_err() || !self.can_open() {
            return None;
        }
        if text::same(action.as_str(), "set") {
            match extension::require_param_str(params, "objective") {
                Err(_) => None,
                Ok(objective) => if parse_budget(params).is_err() || (self.kind
                    == BackendKind::Agent && !ctx.locked) {
                    None
                } else {
                    Some((t, objective))
                },
            }
        } else if text::same(action.as_str(), "edit") && self.service.show(t.as_str()).is_some() {
            match params.get("objective") {
                Some(Json::Str(objective)) => Some((t, objective.clone())),
                _ => None,
            }
        } else {
            None
        }
    }

    /// The thread and the objective whose file has to be written before a request
    /// is served, if the objective needs one. A request that is refused, that is
    /// answered from an earlier one, or that keeps no objective has none.
    pub fn objective_to_keep(&self, method: &str, params: &Json, ctx: &RequestContext) -> (r: Option<
        (String, String),
    >)
        requires
            self.wf(),
        ensures
            opt_pair(r) == if method@ == "start"@ {
                start_objective(self@, params@, ctx@)
            } else if method@ == "session_control"@ {
                control_objective(self@, params@, ctx@)
            } else {
                None
            },
    {
        if text::same(method, "start") {
            self.start_to_keep(params, ctx)
        } else if text::same(method, "session_control") {
            self.control_to_keep(params, ctx)
        } else {
            None
        }
    }

    fn start(
        &mut self,
        t: &str,
        rt: &mut Option<GoalRuntimeHandle>,
        title: &str,
        description: &str,
        sid: &str,
        key: &Option<String>,
        ctx: &RequestContext,
        goal_id: &str,
        env: Env,
    ) -> (r: Result<Reply, ExtensionError>)
        requires
            old(self).wf(),
            *old(rt) matches Some(h) ==> h.wf() && h@.thread_id == t@,
        ensures
            final(self).wf(),
            *final(rt) matches Some(h) ==> h.wf() && h@.thread_id == t@,
            ended(
                old(self)@,
                t@,
                rt_view(*final(rt)),
                final(self)@,
                reply_view(r),
                start_new(
                    old(self)@,
                    t@,
                    (StartView {
                        title: title@,
                        description: description@,
                        sid: sid@,
                        key: text::opt_text(*key),
                    }),
                    rt_view(*old(rt)),
                    ctx@,
                    goal_id@,
                    env,
                ),
            ),
    {
        if self.kind == BackendKind::Agent && !ctx.locked {
            return Err(extension::map_service_error("start", GoalServiceError::LockTimeout));
        }
        let objective: String = join_objective(title, description);
        let outcome: Result<GoalSetOutcome, GoalServiceError> =
            self.service.set_with_verify_outcome(
            t,
            objective.as_str(),
            None,
            None,
            goal_id,
            env,
        );
        proof {
            self.service.store.lemma_wf();
        }
        let created: GoalSetOutcome = match outcome {
            Ok(o) => o,
            Err(e) => {
                return Err(extension::map_service_error("start", e));
            },
        };
        match rt {
            Some(h) => {
                h.note_goal_armed(created.goal.goal_id.as_str());
                if created.replaced_existing {
                    let put_off: bool = h.defer_continuation(&mut self.service);
                }
            },
            None => {},
        }
        proof {
            self.service.store.lemma_wf();
        }
        self.bump_generation();
        match key {
            Some(k) => {
                let ghost keys = self@.keys;
                self.idempotency.insert(k.as_str(), created.goal.goal_id.clone());
                assert(self@.keys =~= keys.insert(k@, created.goal.goal_id@));
            },
            None => {},
        }
        let full: Goal = self.service.resolve_objective(created.goal);
        let now: &str = ctx.now_iso.as_str();
        self.announce(
            full.goal_id.as_str(),
            GoalChangeType::Started,
            extension::project_status(full.status),
            extension::goal_json(&full, None, now, false),
        );
        Ok(plain_reply(make_start_reply(&full, sid, now)))
    }

    /// Starts a goal.
    pub fn handle_start(
        &mut self,
        params: &Json,
        ctx: &RequestContext,
        goal_id: &str,
        env: Env,
    ) -> (r: Result<Reply, ExtensionError>)
        requires
            old(self).wf(),
        ensures
            final(self).wf(),
            starts(old(self)@, params@, ctx@, goal_id@, env, final(self)@, reply_view(r)),
    {
        match check_server_policy(ctx) {
            Ok(()) => {},
            Err(e) => {
                return Err(e);
            },
        }
        let title: String = match extension::require_param_str(params, "title") {
            Ok(s) => s,
            Err(e) => {
                return Err(e);
            },
        };
        let description: String = match extension::require_param_str(params, "description") {
            Ok(s) => s,
            Err(e) => {
                return Err(e);
            },
        };
        let given: Option<String> = match extension::optional_param_str(params, "sessionId") {
            Some(s) => Some(s),
            None => text::clone_opt(&ctx.session_id),
        };
        let sid: String = match given {
            Some(s) => s,
            None => {
                return Err(
                    ExtensionError::invalid_params(
                        "missing required parameter: sessionId".to_owned(),
                    ),
                );
            },
        };
        let key: Option<String> = extension::optional_param_str(params, "idempotencyKey");
        let thread_id: String = match self.resolve_thread_key(
            sid.as_str(),
            ctx.principal.as_str(),
        ) {
            Ok(t) => t,
            Err(e) => {
                return Err(e);
            },
        };
        let t: &str = thread_id.as_str();
        let mut rt: Option<GoalRuntimeHandle> = match self.open(t) {
            Ok(o) => o,
            Err(e) => {
                return Err(e);
            },
        };
        let ghost was = rt_view(rt);
        let reply: Result<Reply, ExtensionError> = match self.started_before(&key) {
            Some(g) => {
                let full: Goal = self.service.resolve_objective(g);
                Ok(plain_reply(make_start_reply(&full, sid.as_str(), ctx.now_iso.as_str())))
            },
            None => self.start(
                t,
                &mut rt,
                title.as_str(),
                description.as_str(),
                sid.as_str(),
                &key,
                ctx,
                goal_id,
                env,
            ),
        };
        self.close(t, rt);
        proof {
            lemma_start_new_reopens(
                old(self)@,
                t@,
                StartView {
                    title: title@,
                    description: description@,
                    sid: sid@,
                    key: text::opt_text(key),
                },
                was,
                ctx@,
                goal_id@,
                env,
            );
        }
        reply
    }
}

/// It does not matter to a start whether the runtime that it gets is still
/// listed.
proof fn lemma_start_new_reopens(
    h: HandlerView,
    t: Seq<char>,
    asked: StartView,
    rt: Option<RuntimeView>,
    ctx: ContextView,
    goal_id: Seq<char>,
    env: Env,
)
    ensures
        rt is Some ==> ({
            let out = HandlerView { runtimes: h.runtimes.remove(t), ..h };
            let a = start_new(out, t, asked, rt, ctx, goal_id, env);
            let b = start_new(h, t, asked, rt, ctx, goal_id, env);
            a.h == b.h && a.reply == b.reply && out.with_runtime(t, rt) == h.with_runtime(t, rt)
        }),
{
    assert forall|r: RuntimeView| h.runtimes.remove(t).insert(t, r) == #[trigger] h.runtimes.insert(
        t,
        r,
    ) by {
        assert(h.runtimes.remove(t).insert(t, r) =~= h.runtimes.insert(t, r));
    }
}

/// Whether a request has left `after` behind with the answer `r`.
pub open spec fn handles(
    h: HandlerView,
    method: Seq<char>,
    params: JsonView,
    ctx: ContextView,
    goal_id: Seq<char>,
    env: Env,
    after: HandlerView,
    r: Result<ReplyView, ExtErrorView>,
) -> bool {
    if method == "list"@ {
        after == h && lists(h, params, ctx.now_iso, r)
    } else if method == "get"@ {
        after == h && match extension::required_text(params, "id"@) {
            Err(e) => r == Err::<ReplyView, ExtErrorView>(e),
            Ok(id) => gets(h, id, ctx.now_iso, r),
        }
    } else if method == "start"@ {
        starts(h, params, ctx, goal_id, env, after, r)
    } else if method == "pause"@ {
        changes(h, params, Change::Pause, ctx, env, after, r)
    } else if method == "resume"@ {
        changes(h, params, Change::Resume, ctx, env, after, r)
    } else if method == "cancel"@ {
        changes(
            h,
            params,
            Change::Cancel { reason: extension::optional_text(params, "reason"@) },
            ctx,
            env,
            after,
            r,
        )
    } else if method == "session_control"@ {
        after == control(h, params, ctx, goal_id, env).h && r == control(
            h,
            params,
            ctx,
            goal_id,
            env,
        ).reply
    } else {
        after == h && r == Err::<ReplyView, ExtErrorView>(extension::method_not_found_view())
    }
}

impl GoalHandler {
    /// Serves a request.
    pub fn handle(
        &mut self,
        method: &str,
        params: &Json,
        ctx: &RequestContext,
        goal_id: &str,
        env: Env,
    ) -> (r: Result<Reply, ExtensionError>)
        requires
            old(self).wf(),
        ensures
            final(self).wf(),
            handles(
                old(self)@,
                method@,
                params@,
                ctx@,
                goal_id@,
                env,
                final(self)@,
                reply_view(r),
            ),
    {
        if text::same(method, "list") {
            self.handle_list(params, ctx)
        } else if text::same(method, "get") {
            self.handle_get(params, ctx)
        } else if text::same(method, "start") {
            self.handle_start(params, ctx, goal_id, env)
        } else if text::same(method, "pause") {
            self.handle_pause(params, ctx, env)
        } else if text::same(method, "resume") {
            self.handle_resume(params, ctx, env)
        } else if text::same(method, "cancel") {
            self.handle_cancel(params, ctx, env)
        } else if text::same(method, "session_control") {
            self.handle_session_control(params, ctx, goal_id, env)
        } else {
            Err(ExtensionError::method_not_found())
        }
    }

    /// What clients are told that the handler can do: nothing. The older methods
    /// are served but not advertised.
    pub fn capabilities(&self) -> (r: Json)
        ensures
            r@ == JsonView::Obj(Seq::empty()),
    {
        let f: Vec<Field> = json::no_fields();
        assert(json::fields_view(f@) =~= Seq::empty());
        json::object(f)
    }
}

impl Default for GoalHandler {
    fn default() -> (r: GoalHandler)
        ensures
            r.wf(),
            r@ == unbound(),
    {
        GoalHandler::new()
    }
}

/// A key stands for its goal: once a start under a key has succeeded, another
/// one under the same key is answered with the goal that is there and starts
/// nothing.
pub proof fn law_key_stands_for_its_goal(
    h: HandlerView,
    t: Seq<char>,
    asked: StartView,
    rt: Option<RuntimeView>,
    ctx: ContextView,
    goal_id: Seq<char>,
    env: Env,
    again: StartView,
)
    requires
        asked.key is Some,
        again.key == asked.key,
        start_new(h, t, asked, rt, ctx, goal_id, env).reply is Ok,
    ensures
        known_start(start_new(h, t, asked, rt, ctx, goal_id, env).h, again),
{
    let end = start_new(h, t, asked, rt, ctx, goal_id, env);
    assert(end.h.svc.store.holds(t, end.h.keys[asked.key->Some_0]));
}

/// The goal `id` that a start has led to, in the answer `v`.
pub open spec fn tells_of(s: StoreView, id: Seq<char>, v: JsonView) -> bool {
    exists|o: Seq<char>, sid: Seq<char>, now: Seq<char>|
        s.holds(o, id) && v == #[trigger] start_reply(s.resolved(s.rows[o]), sid, now)
}

/// A start under a key that succeeds, the first time or again, leaves the key with
/// the goal that it tells of.
proof fn lemma_start_tells_of_its_goal(
    h: HandlerView,
    params: JsonView,
    ctx: ContextView,
    goal_id: Seq<char>,
    env: Env,
    after: HandlerView,
    r: Result<ReplyView, ExtErrorView>,
)
    requires
        starts(h, params, ctx, goal_id, env, after, r),
        r is Ok,
        start_asked(params, ctx)->Ok_0.key is Some,
    ensures
        ({
            let k = start_asked(params, ctx)->Ok_0.key->Some_0;
            after.keys.contains_key(k) && tells_of(after.svc.store, after.keys[k], r->Ok_0.value)
        }),
{
    let asked = start_asked(params, ctx)->Ok_0;
    let k = asked.key->Some_0;
    let t = h.thread_of(asked.sid, ctx.principal)->Ok_0;
    if known_start(h, asked) {
        let o = choose|o: Seq<char>| #[trigger]
            h.svc.store.holds(o, h.keys[k]) && r == Ok::<ReplyView, ExtErrorView>(
                plain(start_reply(h.svc.store.resolved(h.svc.store.rows[o]), asked.sid, ctx.now_iso)),
            );
        assert(after.svc.store.holds(o, after.keys[k]));
    } else {
        assert(after.svc.store.holds(t, after.keys[k]));
        assert(r->Ok_0.value == start_reply(
            after.svc.store.resolved(after.svc.store.rows[t]),
            asked.sid,
            ctx.now_iso,
        ));
    }
}

proof fn lemma_start_reply_fields(g: GoalView, sid: Seq<char>, now: Seq<char>)
    ensures
        start_reply(g, sid, now).field("id"@) == Some(JsonView::Str(g.goal_id)),
        start_reply(g, sid, now).field("title"@) == Some(
            JsonView::Str(extension::title_of(g.objective)),
        ),
{
    reveal_strlit("id");
    reveal_strlit("title");
    reveal_with_fuel(json::lookup, 3);
    let f = start_reply(g, sid, now)->Obj_0;
    assert("id"@.len() != "title"@.len());
    assert(f[0].key == "id"@);
    assert(f.drop_first()[0].key == "title"@);
}

/// A retried start repeats the first answer: after a start under a key was
/// answered with `first`, another one under that key is answered with the same
/// `id` and `title`, whatever title and description it brings, and neither adds,
/// replaces nor changes a goal. `later` is any state in which the key has its goal
/// and the goal, still there, reads as it did.
pub proof fn law_retried_start_repeats_the_answer(
    h: HandlerView,
    params: JsonView,
    ctx: ContextView,
    goal_id: Seq<char>,
    env: Env,
    mid: HandlerView,
    first: ReplyView,
    later: HandlerView,
    params2: JsonView,
    ctx2: ContextView,
    goal_id2: Seq<char>,
    env2: Env,
    after: HandlerView,
    r: Result<ReplyView, ExtErrorView>,
    k: Seq<char>,
)
    requires
        starts(h, params, ctx, goal_id, env, mid, Ok(first)),
        start_asked(params, ctx) matches Ok(asked) && asked.key == Some(k),
        later.keys.contains_key(k),
        later.keys[k] == mid.keys[k],
        exists|o: Seq<char>| #[trigger] later.svc.store.holds(o, mid.keys[k]),
        forall|o: Seq<char>, o2: Seq<char>|
            #![trigger mid.svc.store.holds(o, mid.keys[k]), later.svc.store.holds(o2, mid.keys[k])]
            mid.svc.store.holds(o, mid.keys[k]) && later.svc.store.holds(o2, mid.keys[k])
                ==> later.svc.store.resolved(later.svc.store.rows[o2]).objective
                == mid.svc.store.resolved(mid.svc.store.rows[o]).objective,
        starts(later, params2, ctx2, goal_id2, env2, after, r),
        refusal(ctx2) is None,
        start_asked(params2, ctx2) matches Ok(again) && again.key == Some(k) && (later.thread_of(
            again.sid,
            ctx2.principal,
        ) matches Ok(t) && later.opened(t) is Ok),
    ensures
        r matches Ok(second) && second.value.field("id"@) == first.value.field("id"@)
            && second.value.field("title"@) == first.value.field("title"@),
        after.svc == later.svc,
{
    lemma_start_tells_of_its_goal(h, params, ctx, goal_id, env, mid, Ok(first));
    lemma_start_tells_of_its_goal(later, params2, ctx2, goal_id2, env2, after, r);
    let id = mid.keys[k];
    let s = mid.svc.store;
    let s2 = after.svc.store;
    let (o, sid, now) = choose|o: Seq<char>, sid: Seq<char>, now: Seq<char>|
        s.holds(o, id) && first.value == #[trigger] start_reply(s.resolved(s.rows[o]), sid, now);
    let (o2, sid2, now2) = choose|o2: Seq<char>, sid2: Seq<char>, now2: Seq<char>|
        s2.holds(o2, id) && r->Ok_0.value == #[trigger] start_reply(
            s2.resolved(s2.rows[o2]),
            sid2,
            now2,
        );
    lemma_start_reply_fields(s.resolved(s.rows[o]), sid, now);
    lemma_start_reply_fields(s2.resolved(s2.rows[o2]), sid2, now2);
}

/// Cancelling a goal that has ended already changes nothing and is answered all
/// the same.
pub proof fn law_cancel_spares_ended_goals(
    h: HandlerView,
    t: Seq<char>,
    id: Seq<char>,
    rt: Option<RuntimeView>,
    reason: Option<Seq<char>>,
    ctx: ContextView,
    env: Env,
)
    requires
        types::terminal(h.svc.store.rows[t].status),
    ensures
        change_on(h, t, id, rt, Change::Cancel { reason }, ctx, env).h == h.with_runtime(t, rt),
        change_on(h, t, id, rt, Change::Cancel { reason }, ctx, env).reply is Ok,
{
}

/// Whether the rows are as they were, or the generation has moved on.
spec fn moves_on(h: HandlerView, after: HandlerView) -> bool {
    after.svc.store.rows == h.svc.store.rows || after.generation == metrics::next(h.generation)
}

proof fn lemma_control_moves_on(
    h: HandlerView,
    t: Seq<char>,
    sid: Seq<char>,
    rt: Option<RuntimeView>,
    action: Seq<char>,
    params: JsonView,
    ctx: ContextView,
    goal_id: Seq<char>,
    env: Env,
)
    ensures
        moves_on(h, control_action(h, t, sid, rt, action, params, ctx, goal_id, env).h),
{
    if action == "set"@ {
        assert(moves_on(h, control_set(h, t, sid, rt, params, ctx, goal_id, env).h));
    } else if action == "editBudget"@ {
        assert(moves_on(h, control_budget(h, t, sid, rt, params, env).h));
    } else if action == "edit"@ {
        assert(moves_on(h, control_edit(h, t, sid, rt, params, env).h));
    }
}

proof fn lemma_change_moves_on(
    h: HandlerView,
    t: Seq<char>,
    id: Seq<char>,
    rt: Option<RuntimeView>,
    what: Change,
    ctx: ContextView,
    env: Env,
)
    ensures
        moves_on(h, change_on(h, t, id, rt, what, ctx, env).h),
{
}

proof fn lemma_start_moves_on(
    h: HandlerView,
    t: Seq<char>,
    asked: StartView,
    rt: Option<RuntimeView>,
    ctx: ContextView,
    goal_id: Seq<char>,
    env: Env,
)
    ensures
        moves_on(h, start_new(h, t, asked, rt, ctx, goal_id, env).h),
{
}

proof fn lemma_starts_move_on(
    h: HandlerView,
    params: JsonView,
    ctx: ContextView,
    goal_id: Seq<char>,
    env: Env,
    after: HandlerView,
    r: Result<ReplyView, ExtErrorView>,
)
    requires
        starts(h, params, ctx, goal_id, env, after, r),
    ensures
        moves_on(h, after),
{
    if refusal(ctx) is None && start_asked(params, ctx) is Ok {
        let asked = start_asked(params, ctx)->Ok_0;
        if h.thread_of(asked.sid, ctx.principal) is Ok {
            let t = h.thread_of(asked.sid, ctx.principal)->Ok_0;
            if h.opened(t) is Ok {
                lemma_start_moves_on(h, t, asked, h.opened(t)->Ok_0, ctx, goal_id, env);
            }
        }
    }
}

proof fn lemma_changes_move_on(
    h: HandlerView,
    params: JsonView,
    what: Change,
    ctx: ContextView,
    env: Env,
    after: HandlerView,
    r: Result<ReplyView, ExtErrorView>,
)
    requires
        changes(h, params, what, ctx, env, after, r),
    ensures
        moves_on(h, after),
{
    if after != h {
        let id = extension::required_text(params, "id"@)->Ok_0;
        let t = choose|t: Seq<char>| #[trigger]
            h.svc.store.holds(t, id) && h.opened(t) is Ok && {
                let want = change_on(h, t, id, h.opened(t)->Ok_0, what, ctx, env);
                after == want.h && r == want.reply
            };
        lemma_change_moves_on(h, t, id, h.opened(t)->Ok_0, what, ctx, env);
    }
}

proof fn lemma_controls_move_on(
    h: HandlerView,
    params: JsonView,
    ctx: ContextView,
    goal_id: Seq<char>,
    env: Env,
)
    ensures
        moves_on(h, control(h, params, ctx, goal_id, env).h),
{
    let sid = extension::required_text(params, "sessionId"@)->Ok_0;
    let action = extension::required_text(params, "action"@)->Ok_0;
    let t = h.thread_of(sid, ctx.principal)->Ok_0;
    let rt = h.opened(t)->Ok_0;
    lemma_control_moves_on(h, t, sid, rt, action, params, ctx, goal_id, env);
}

/// If a request of the control method changes what there is to list, it voids the
/// cursors that are out.
pub proof fn law_control_voids_cursors(
    h: HandlerView,
    params: JsonView,
    ctx: ContextView,
    goal_id: Seq<char>,
    env: Env,
    cursor: Seq<char>,
)
    requires
        control(h, params, ctx, goal_id, env).h.svc.store.rows != h.svc.store.rows,
        extension::cursor_offset(cursor, h.generation) is Some,
    ensures
        extension::cursor_offset(cursor, control(h, params, ctx, goal_id, env).h.generation)
            is None,
{
    lemma_controls_move_on(h, params, ctx, goal_id, env);
    assert(metrics::next(h.generation) != h.generation);
}

/// So does a request to pause, resume or cancel a goal.
pub proof fn law_change_voids_cursors(
    h: HandlerView,
    params: JsonView,
    what: Change,
    ctx: ContextView,
    env: Env,
    after: HandlerView,
    r: Result<ReplyView, ExtErrorView>,
    cursor: Seq<char>,
)
    requires
        changes(h, params, what, ctx, env, after, r),
        after.svc.store.rows != h.svc.store.rows,
        extension::cursor_offset(cursor, h.generation) is Some,
    ensures
        extension::cursor_offset(cursor, after.generation) is None,
{
    lemma_changes_move_on(h, params, what, ctx, env, after, r);
    assert(metrics::next(h.generation) != h.generation);
}

/// And so does a request to start a goal.
pub proof fn law_start_voids_cursors(
    h: HandlerView,
    params: JsonView,
    ctx: ContextView,
    goal_id: Seq<char>,
    env: Env,
    after: HandlerView,
    r: Result<ReplyView, ExtErrorView>,
    cursor: Seq<char>,
)
    requires
        starts(h, params, ctx, goal_id, env, after, r),
        after.svc.store.rows != h.svc.store.rows,
        extension::cursor_offset(cursor, h.generation) is Some,
    ensures
        extension::cursor_offset(cursor, after.generation) is None,
{
    lemma_starts_move_on(h, params, ctx, goal_id, env, after, r);
    assert(metrics::next(h.generation) != h.generation);
}

/// A request of the control method that keeps no objective writes no file: whatever
/// file there is afterwards was there before, with the same text.
pub proof fn law_control_writes_for_objectives(
    h: HandlerView,
    params: JsonView,
    ctx: ContextView,
    goal_id: Seq<char>,
    env: Env,
)
    requires
        control_objective(h, params, ctx) is None,
    ensures
        control(h, params, ctx, goal_id, env).h.svc.store.files.submap_of(h.svc.store.files),
{
    let sid = extension::required_text(params, "sessionId"@)->Ok_0;
    let action = extension::required_text(params, "action"@)->Ok_0;
    let t = h.thread_of(sid, ctx.principal)->Ok_0;
    reveal_strlit("set");
    reveal_strlit("edit");
    if action == "set"@ || action == "edit"@ {
        assert(control(h, params, ctx, goal_id, env).h.svc.store.files == h.svc.store.files);
    }
}

/// Nor does a start that keeps no objective.
pub proof fn law_start_writes_for_objectives(
    h: HandlerView,
    params: JsonView,
    ctx: ContextView,
    goal_id: Seq<char>,
    env: Env,
    after: HandlerView,
    r: Result<ReplyView, ExtErrorView>,
)
    requires
        start_objective(h, params, ctx) is None,
        starts(h, params, ctx, goal_id, env, after, r),
    ensures
        after.svc.store.files == h.svc.store.files,
{
}

/// A session answers to its owner alone: with the session of somebody else, the
/// control method changes nothing and fails, whatever the action.
pub proof fn law_control_is_the_owners(
    h: HandlerView,
    sid: Seq<char>,
    params: JsonView,
    ctx: ContextView,
    goal_id: Seq<char>,
    env: Env,
)
    requires
        h.kind == BackendKind::Agent,
        h.sessions.contains_key(sid),
        h.sessions[sid].owner != ctx.principal,
        extension::required_text(params, "sessionId"@) == Ok::<Seq<char>, ExtErrorView>(sid),
    ensures
        control(h, params, ctx, goal_id, env).h == h,
        control(h, params, ctx, goal_id, env).reply is Err,
{
}

/// Nor does a start in the session of somebody else change anything or succeed.
pub proof fn law_start_is_the_owners(
    h: HandlerView,
    sid: Seq<char>,
    params: JsonView,
    ctx: ContextView,
    goal_id: Seq<char>,
    env: Env,
    after: HandlerView,
    r: Result<ReplyView, ExtErrorView>,
)
    requires
        h.kind == BackendKind::Agent,
        h.sessions.contains_key(sid),
        h.sessions[sid].owner != ctx.principal,
        extension::required_text(params, "sessionId"@) == Ok::<Seq<char>, ExtErrorView>(sid),
        starts(h, params, ctx, goal_id, env, after, r),
    ensures
        after == h,
        r is Err,
{
}

/// A request that the policy refuses changes nothing, whatever it asks for.
pub proof fn law_refused_request_changes_nothing(
    h: HandlerView,
    method: Seq<char>,
    params: JsonView,
    ctx: ContextView,
    goal_id: Seq<char>,
    env: Env,
    after: HandlerView,
    r: Result<ReplyView, ExtErrorView>,
)
    requires
        refusal(ctx) is Some,
        handles(h, method, params, ctx, goal_id, env, after, r),
    ensures
        after == h,
{
}

/// The names of the actions differ.
proof fn lemma_actions_differ()
    ensures
        "set"@ != "pause"@,
        "set"@ != "resume"@,
        "set"@ != "clear"@,
        "set"@ != "edit"@,
        "set"@ != "editBudget"@,
        "pause"@ != "resume"@,
        "pause"@ != "clear"@,
        "pause"@ != "edit"@,
        "pause"@ != "editBudget"@,
        "resume"@ != "clear"@,
        "resume"@ != "edit"@,
        "resume"@ != "editBudget"@,
        "clear"@ != "edit"@,
        "clear"@ != "editBudget"@,
        "edit"@ != "editBudget"@,
{
    reveal_strlit("set");
    reveal_strlit("pause");
    reveal_strlit("resume");
    reveal_strlit("clear");
    reveal_strlit("edit");
    reveal_strlit("editBudget");
    assert("set"@.len() != "pause"@.len());
    assert("set"@.len() != "resume"@.len());
    assert("set"@.len() != "clear"@.len());
    assert("set"@.len() != "edit"@.len());
    assert("set"@.len() != "editBudget"@.len());
    assert("pause"@.len() != "resume"@.len());
    assert("pause"@[0] != "clear"@[0]);
    assert("pause"@.len() != "edit"@.len());
    assert("pause"@.len() != "editBudget"@.len());
    assert("resume"@.len() != "clear"@.len());
    assert("resume"@.len() != "edit"@.len());
    assert("resume"@.len() != "editBudget"@.len());
    assert("clear"@.len() != "edit"@.len());
    assert("clear"@.len() != "editBudget"@.len());
    assert("edit"@.len() != "editBudget"@.len());
}

/// Who may ask: somebody must stand behind a request, and the policy must not refuse it.
/// A session belongs to its owner, who speaks of its thread; one that is not known, or
/// has no agent behind it, is its own thread.
pub proof fn law_who_may_ask(h: HandlerView, ctx: ContextView, sid: Seq<char>)
    ensures
        refusal(ctx) is None <==> ctx.principal.len() > 0 && ctx.denied is None,
        refusal(ctx) matches Some(e) ==> e.code == -32002,
        ctx.principal.len() > 0 ==> (ctx.denied matches Some(m) ==> refusal(ctx) == Some(
            extension::forbidden_view(m),
        )),
        !(h.kind is Agent) ==> h.thread_of(sid, ctx.principal) == Ok::<Seq<char>, ExtErrorView>(sid),
        h.kind is Agent && h.alive && !h.sessions.contains_key(sid) ==> h.thread_of(
            sid,
            ctx.principal,
        ) == Ok::<Seq<char>, ExtErrorView>(sid),
        h.kind is Agent && h.alive && h.sessions.contains_key(sid) && h.sessions[sid].owner
            == ctx.principal ==> h.thread_of(sid, ctx.principal) == Ok::<Seq<char>, ExtErrorView>(
            h.sessions[sid].thread_id,
        ),
        h.kind is Agent && h.alive && h.sessions.contains_key(sid) && h.sessions[sid].owner
            != ctx.principal ==> (h.thread_of(sid, ctx.principal) matches Err(e) && e.code == -32002),
        h.kind is Agent && !h.alive ==> (h.thread_of(sid, ctx.principal) matches Err(e) && e.code
            == -32603),
        h.lock_missing(ctx) <==> h.kind is Agent && !ctx.locked,
{
}

/// What a handler can serve: a bare table without runtimes, and an agent that is there
/// and has its database, with the runtime of the thread or a new one.
pub proof fn law_what_is_served(h: HandlerView, t: Seq<char>)
    ensures
        h.kind is Unbound ==> h.opened(t) is Err && h.unreadable() is Some,
        h.kind is Store ==> h.opened(t) == Ok::<Option<RuntimeView>, ExtErrorView>(None)
            && h.unreadable() is None,
        h.kind is Agent && (!h.alive || h.db_error is Some) ==> h.opened(t) is Err
            && h.unreadable() is Some,
        h.kind is Agent && h.alive && h.db_error is None ==> h.unreadable() is None && h.opened(t)
            == Ok::<Option<RuntimeView>, ExtErrorView>(
            Some(
                if h.runtimes.contains_key(t) {
                    h.runtimes[t]
                } else {
                    runtime::unknown_thread(t)
                },
            ),
        ),
        h.opened(t) matches Err(e) ==> e.code == -32603,
        h.unreadable() matches Some(e) ==> e.code == -32603,
{
}

/// Who hears of a change of the control method: every connection, if there are any, and
/// the session where there is an agent. Each hears the goal as it then is, or that there
/// is none.
pub proof fn law_changes_are_heard(h: HandlerView, sid: Seq<char>, goal: Option<GoalView>)
    ensures
        ({
            let after = h.published(sid, goal);
            let told = OutboundView::Notification {
                method: "_anureo.dev/goal/updated"@,
                params: extension::opt_snapshot(goal),
            };
            let session = OutboundView::SessionGoal {
                session_id: sid,
                goal: extension::opt_snapshot(goal),
            };
            let agent = h.kind is Agent && h.alive;
            &&& !h.connected && !agent ==> after.outbox == h.outbox
            &&& h.connected && !agent ==> after.outbox == h.outbox.push(told)
            &&& !h.connected && agent ==> after.outbox == h.outbox.push(session)
            &&& h.connected && agent ==> after.outbox == h.outbox.push(told).push(session)
            &&& h.generation < u64::MAX ==> after.generation == h.generation + 1
            &&& after.svc == h.svc && after.keys == h.keys && after.runtimes == h.runtimes
                && after.sessions == h.sessions && after.kind == h.kind
        }),
{
}

/// Who hears of a change of the older methods: every connection, what changed and then
/// the goal.
pub proof fn law_older_changes_are_heard(h: HandlerView, changed: JsonView, updated: JsonView)
    ensures
        ({
            let after = h.broadcast(changed, updated);
            &&& !h.connected ==> after == h
            &&& h.connected ==> after.outbox == h.outbox.push(
                OutboundView::Notification {
                    method: "_anureo.dev/goal/changed"@,
                    params: changed,
                },
            ).push(
                OutboundView::Notification {
                    method: "_anureo.dev/goal/updated"@,
                    params: updated,
                },
            )
            &&& after.svc == h.svc && after.keys == h.keys && after.runtimes == h.runtimes
                && after.generation == h.generation
        }),
{
}

/// What the control method comes to: each action is carried out on the thread of the
/// session, one that there is not is refused, and so is one that is not allowed.
pub proof fn law_control_goes_by_action(
    h: HandlerView,
    params: JsonView,
    ctx: ContextView,
    goal_id: Seq<char>,
    env: Env,
    sid: Seq<char>,
    action: Seq<char>,
    t: Seq<char>,
    rt: Option<RuntimeView>,
)
    requires
        extension::required_text(params, "sessionId"@) == Ok::<Seq<char>, ExtErrorView>(sid),
        extension::required_text(params, "action"@) == Ok::<Seq<char>, ExtErrorView>(action),
        refusal(ctx) is None,
        h.thread_of(sid, ctx.principal) == Ok::<Seq<char>, ExtErrorView>(t),
        h.opened(t) == Ok::<Option<RuntimeView>, ExtErrorView>(rt),
    ensures
        ({
            let end = control(h, params, ctx, goal_id, env);
            let known = action == "set"@ || action == "pause"@ || action == "resume"@ || action
                == "clear"@ || action == "edit"@ || action == "editBudget"@;
            let there = h.svc.store.rows.contains_key(t);
            let g = h.svc.store.rows[t];
            let k = end.h.svc.store.rows[t];
            &&& !known ==> end.h == h && (end.reply matches Err(e) && e.code == -32602)
            &&& action == "pause"@ ==> {
                &&& end.reply is Ok <==> there && g.status is Active
                &&& end.reply is Ok ==> k.status is Paused && k.goal_id == g.goal_id && k.objective
                    == g.objective && k.token_budget == g.token_budget && k.tokens_used
                    == g.tokens_used && !end.reply->Ok_0.kick && end.reply->Ok_0.turn is None
                &&& end.reply is Err ==> end.h.svc == h.svc
            }
            &&& action == "resume"@ ==> {
                &&& end.reply is Ok <==> there && (g.status is Paused || g.status is Blocked
                    || g.status is UsageLimited || g.status is BudgetLimited)
                &&& end.reply is Ok ==> k.status is Active && store::same_work(g, k)
                    && end.reply->Ok_0.kick == (rt is Some) && end.reply->Ok_0.turn is None
                &&& end.reply is Err ==> end.h.svc == h.svc
            }
            &&& action == "clear"@ ==> {
                &&& end.reply is Ok <==> !(h.kind is Agent && !ctx.locked)
                &&& end.reply is Ok ==> !end.h.svc.store.rows.contains_key(t)
                &&& end.reply is Err ==> end.h.svc == h.svc
            }
            &&& end.reply is Ok && h.generation < u64::MAX ==> end.h.generation == h.generation + 1
            &&& end.reply is Err ==> end.h.generation == h.generation && end.h.outbox == h.outbox
            &&& end.h.keys == h.keys && end.h.sessions == h.sessions
        }),
{
    lemma_actions_differ();
}

/// What clients set and edit by the control method: a budget changes the budget of the
/// goal, an edit its objective, and setting puts a new goal with the objective and the
/// budget of the request in its place.
pub proof fn law_control_changes_what_it_names(
    h: HandlerView,
    params: JsonView,
    ctx: ContextView,
    goal_id: Seq<char>,
    env: Env,
    sid: Seq<char>,
    action: Seq<char>,
    t: Seq<char>,
    rt: Option<RuntimeView>,
)
    requires
        extension::required_text(params, "sessionId"@) == Ok::<Seq<char>, ExtErrorView>(sid),
        extension::required_text(params, "action"@) == Ok::<Seq<char>, ExtErrorView>(action),
        refusal(ctx) is None,
        h.thread_of(sid, ctx.principal) == Ok::<Seq<char>, ExtErrorView>(t),
        h.opened(t) == Ok::<Option<RuntimeView>, ExtErrorView>(rt),
    ensures
        ({
            let end = control(h, params, ctx, goal_id, env);
            let there = h.svc.store.rows.contains_key(t);
            let g = h.svc.store.rows[t];
            let k = end.h.svc.store.rows[t];
            &&& action == "editBudget"@ && there ==> (params.field("tokenBudget"@) matches Some(
                JsonView::Int(n),
            ) ==> {
                &&& end.reply is Ok <==> 1 <= n <= env.cap && !(g.status is Complete)
                &&& end.reply is Ok ==> (k.token_budget matches Some(b) && b == n) && k.status == g.status
                    && k.tokens_used == g.tokens_used && k.goal_id == g.goal_id && k.objective
                    == g.objective
            })
            &&& action == "edit"@ && there && end.reply is Ok ==> {
                &&& k.goal_id == g.goal_id && k.status == g.status && k.tokens_used == g.tokens_used
                &&& k.token_budget == g.token_budget && k.time_used_seconds == g.time_used_seconds
                &&& k.objective_revision == g.objective_revision + 1
                &&& k.updated_at_ms == env.now.wall_ms
            }
            &&& action == "edit"@ && !there ==> end.reply is Err && end.h.svc == h.svc
            &&& action == "set"@ && end.reply is Ok ==> {
                &&& end.h.svc.store.rows.contains_key(t)
                &&& k.goal_id == goal_id && k.thread_id == t && k.status is Active
                &&& k.tokens_used == 0 && k.verify_command is None && k.iteration_count == 0
                &&& params.field("tokenBudget"@) is None ==> k.token_budget is None
                &&& (params.field("tokenBudget"@) matches Some(JsonView::Int(n)) ==> (k.token_budget matches Some(
                    b,
                ) && b == n))
                &&& !end.reply->Ok_0.kick
                &&& rt is None ==> end.reply->Ok_0.turn is None
                &&& !end.h.svc.store.deferred.contains(t)
            }
            &&& action == "set"@ && end.reply is Ok && rt is Some ==> end.h.runtimes.contains_key(t)
                && end.h.runtimes[t].account.baseline == Some((goal_id, runtime::known_usage(rt->0)))
            &&& action == "set"@ && h.kind is Agent && !ctx.locked ==> end.reply is Err && end.h.svc
                == h.svc
        }),
{
    lemma_actions_differ();
    crate::service::law_set_starts_anew(
        h.svc,
        t,
        t,
        extension::required_text(params, "objective"@)->Ok_0,
        asked_budget(params)->Ok_0,
        None,
        goal_id,
        env,
    );
}

/// Which budgets a request may name: none, or a positive integer.
pub proof fn law_asked_budgets(params: JsonView, n: int)
    ensures
        params.field("tokenBudget"@) is None ==> asked_budget(params) == Ok::<
            Option<i64>,
            ExtErrorView,
        >(None),
        params.field("tokenBudget"@) == Some(JsonView::Null) ==> asked_budget(params) == Ok::<
            Option<i64>,
            ExtErrorView,
        >(None),
        params.field("tokenBudget"@) == Some(JsonView::Int(n)) && 1 <= n <= i64::MAX
            ==> asked_budget(params) == Ok::<Option<i64>, ExtErrorView>(Some(n as i64)),
        params.field("tokenBudget"@) == Some(JsonView::Int(n)) && !(1 <= n <= i64::MAX)
            ==> asked_budget(params) is Err,
{
}

/// What clients change by a goal's identifier: pausing and resuming move the goal as
/// users do, and cancelling clears it, unless it has ended, when it is left as it is. The
/// answer names the goal and what it then is.
pub proof fn law_changes_by_identifier(
    h: HandlerView,
    t: Seq<char>,
    id: Seq<char>,
    rt: Option<RuntimeView>,
    reason: Option<Seq<char>>,
    ctx: ContextView,
    env: Env,
)
    requires
        h.svc.store.rows.contains_key(t),
    ensures
        ({
            let g = h.svc.store.rows[t];
            let paused = change_on(h, t, id, rt, Change::Pause, ctx, env);
            let resumed = change_on(h, t, id, rt, Change::Resume, ctx, env);
            let gone = change_on(h, t, id, rt, Change::Cancel { reason }, ctx, env);
            let over = g.status is Complete || g.status is BudgetLimited;
            &&& paused.reply is Ok <==> g.status is Active
            &&& paused.reply is Ok ==> paused.h.svc.store.rows[t].status is Paused
                && paused.h.svc.store.rows[t].goal_id == g.goal_id && paused.h.svc.store.rows[t].tokens_used
                == g.tokens_used && !paused.reply->Ok_0.kick
            &&& resumed.reply is Ok <==> (g.status is Paused || g.status is Blocked
                || g.status is UsageLimited || g.status is BudgetLimited)
            &&& resumed.reply is Ok ==> resumed.h.svc.store.rows[t].status is Active && store::same_work(
                g,
                resumed.h.svc.store.rows[t],
            ) && resumed.reply->Ok_0.kick == (rt is Some)
            &&& paused.reply is Err ==> paused.h.svc == h.svc && paused.h.generation == h.generation
            &&& resumed.reply is Err ==> resumed.h.svc == h.svc && resumed.h.generation
                == h.generation
            &&& over ==> gone.reply is Ok && gone.h.svc == h.svc && gone.h.generation == h.generation
                && gone.h.outbox == h.outbox
            &&& !over && h.kind is Agent && !ctx.locked ==> gone.reply is Err && gone.h.svc == h.svc
            &&& !over && !(h.kind is Agent && !ctx.locked) ==> gone.reply is Ok
                && !gone.h.svc.store.rows.contains_key(t)
            &&& h.generation < u64::MAX ==> {
                &&& paused.reply is Ok ==> paused.h.generation == h.generation + 1
                &&& resumed.reply is Ok ==> resumed.h.generation == h.generation + 1
                &&& !over && gone.reply is Ok ==> gone.h.generation == h.generation + 1
            }
        }),
{
}

/// What a change is answered with, key by key.
pub proof fn law_change_answer_by_key(
    id: Seq<char>,
    word: Seq<char>,
    at: Seq<char>,
    stamp: Seq<char>,
    notification: JsonView,
    updated: JsonView,
)
    requires
        at != "id"@ && at != "status"@ && at != "notification"@ && at != "updated"@,
    ensures
        ({
            let v = change_reply(id, word, at, stamp, notification, updated);
            &&& v.field("id"@) == Some(JsonView::Str(id))
            &&& v.field("status"@) == Some(JsonView::Str(word))
            &&& v.field(at) == Some(JsonView::Str(stamp))
            &&& v.field("notification"@) == Some(notification)
            &&& v.field("updated"@) == Some(updated)
        }),
{
    lemma_change_keys();
    let f = change_reply(id, word, at, stamp, notification, updated)->Obj_0;
    assert(f[0].key == "id"@ && f[1].key == "status"@ && f[2].key == at && f[3].key
        == "notification"@ && f[4].key == "updated"@);
    extension::lemma_value_at(f, 0, "id"@);
    extension::lemma_value_at(f, 1, "status"@);
    extension::lemma_value_at(f, 2, at);
    extension::lemma_value_at(f, 3, "notification"@);
    extension::lemma_value_at(f, 4, "updated"@);
}

/// The keys of an answer to a change differ.
proof fn lemma_change_keys()
    ensures
        "id"@ != "status"@,
        "id"@ != "notification"@,
        "id"@ != "updated"@,
        "status"@ != "notification"@,
        "status"@ != "updated"@,
        "notification"@ != "updated"@,
{
    reveal_strlit("id");
    reveal_strlit("status");
    reveal_strlit("notification");
    reveal_strlit("updated");
    assert("id"@.len() != "status"@.len());
    assert("id"@.len() != "notification"@.len());
    assert("id"@.len() != "updated"@.len());
    assert("status"@.len() != "notification"@.len());
    assert("status"@.len() != "updated"@.len());
    assert("notification"@.len() != "updated"@.len());
}

/// What the answers to pausing, resuming and cancelling say of the goal.
pub proof fn law_changes_are_answered(
    h: HandlerView,
    t: Seq<char>,
    id: Seq<char>,
    rt: Option<RuntimeView>,
    reason: Option<Seq<char>>,
    ctx: ContextView,
    env: Env,
)
    requires
        h.svc.store.rows.contains_key(t),
    ensures
        ({
            let answer = |what: Change| change_on(h, t, id, rt, what, ctx, env).reply;
            &&& answer(Change::Pause) matches Ok(r) ==> r.value.field("id"@) == Some(JsonView::Str(id))
                && r.value.field("status"@) == Some(JsonView::Str("paused"@)) && r.value.field(
                "pausedAt"@,
            ) is Some
            &&& answer(Change::Resume) matches Ok(r) ==> r.value.field("id"@) == Some(
                JsonView::Str(id),
            ) && r.value.field("status"@) == Some(JsonView::Str("active"@)) && r.value.field(
                "resumedAt"@,
            ) is Some
            &&& answer(Change::Cancel { reason }) matches Ok(r) ==> r.value.field("id"@) == Some(
                JsonView::Str(id),
            ) && r.value.field("status"@) == Some(JsonView::Str("cancelled"@)) && r.value.field(
                "cancelledAt"@,
            ) is Some
        }),
{
    lemma_stamp_keys();
    assert forall|at: Seq<char>, word: Seq<char>, stamp: Seq<char>, n: JsonView, u: JsonView|
        (at == "pausedAt"@ || at == "resumedAt"@ || at == "cancelledAt"@) implies {
        let v = #[trigger] change_reply(id, word, at, stamp, n, u);
        &&& v.field("id"@) == Some(JsonView::Str(id))
        &&& v.field("status"@) == Some(JsonView::Str(word))
        &&& v.field(at) == Some(JsonView::Str(stamp))
    } by {
        law_change_answer_by_key(id, word, at, stamp, n, u);
    }
}

/// The keys of the times differ from all others.
proof fn lemma_stamp_keys()
    ensures
        "id"@ != "status"@,
        "id"@ != "notification"@,
        "id"@ != "updated"@,
        "id"@ != "pausedAt"@,
        "id"@ != "resumedAt"@,
        "id"@ != "cancelledAt"@,
        "status"@ != "notification"@,
        "status"@ != "updated"@,
        "status"@ != "pausedAt"@,
        "status"@ != "resumedAt"@,
        "status"@ != "cancelledAt"@,
        "notification"@ != "updated"@,
        "notification"@ != "pausedAt"@,
        "notification"@ != "resumedAt"@,
        "notification"@ != "cancelledAt"@,
        "updated"@ != "pausedAt"@,
        "updated"@ != "resumedAt"@,
        "updated"@ != "cancelledAt"@,
        "pausedAt"@ != "resumedAt"@,
        "pausedAt"@ != "cancelledAt"@,
        "resumedAt"@ != "cancelledAt"@,
{
    reveal_strlit("id");
    reveal_strlit("status");
    reveal_strlit("notification");
    reveal_strlit("updated");
    reveal_strlit("pausedAt");
    reveal_strlit("resumedAt");
    reveal_strlit("cancelledAt");
    assert("id"@.len() != "status"@.len());
    assert("id"@.len() != "notification"@.len());
    assert("id"@.len() != "updated"@.len());
    assert("id"@.len() != "pausedAt"@.len());
    assert("id"@.len() != "resumedAt"@.len());
    assert("id"@.len() != "cancelledAt"@.len());
    assert("status"@.len() != "notification"@.len());
    assert("status"@.len() != "updated"@.len());
    assert("status"@.len() != "pausedAt"@.len());
    assert("status"@.len() != "resumedAt"@.len());
    assert("status"@.len() != "cancelledAt"@.len());
    assert("notification"@.len() != "updated"@.len());
    assert("notification"@.len() != "pausedAt"@.len());
    assert("notification"@.len() != "resumedAt"@.len());
    assert("notification"@.len() != "cancelledAt"@.len());
    assert("updated"@.len() != "pausedAt"@.len());
    assert("updated"@.len() != "resumedAt"@.len());
    assert("updated"@.len() != "cancelledAt"@.len());
    assert("pausedAt"@.len() != "resumedAt"@.len());
    assert("pausedAt"@.len() != "cancelledAt"@.len());
    assert("resumedAt"@.len() != "cancelledAt"@.len());
}

/// What a start makes: a goal for its title and description, on the thread, without a
/// budget. Its key stands for it from then on; where it takes the place of another goal
/// its turns are put off, and a start that fails leaves goals and keys alone.
pub proof fn law_start_sets_a_goal(
    h: HandlerView,
    t: Seq<char>,
    asked: StartView,
    rt: Option<RuntimeView>,
    ctx: ContextView,
    goal_id: Seq<char>,
    env: Env,
    other: Seq<char>,
)
    ensures
        ({
            let end = start_new(h, t, asked, rt, ctx, goal_id, env);
            let objective = joined_objective(asked.title, asked.description);
            let k = end.h.svc.store.rows[t];
            let text = text::trimmed(objective);
            &&& asked.title == asked.description ==> objective == asked.title
            &&& asked.title != asked.description ==> objective == asked.title + ": "@
                + asked.description
            &&& h.kind is Agent && !ctx.locked ==> end.reply is Err && end.h.svc == h.svc
            &&& end.reply is Err ==> end.h.svc.store.rows == h.svc.store.rows && end.h.keys == h.keys
                && end.h.outbox == h.outbox && end.h.generation == h.generation
            &&& end.reply is Ok ==> {
                &&& end.h.svc.store.rows.contains_key(t)
                &&& k.goal_id == goal_id && k.thread_id == t && k.status is Active
                &&& k.token_budget is None && k.verify_command is None && k.tokens_used == 0
                &&& text.len() <= 4000 && text::byte_len(text) <= 4000 ==> k.objective == text
                &&& asked.key matches Some(key) ==> end.h.keys.contains_key(key) && end.h.keys[key]
                    == goal_id
                &&& asked.key != Some(other) ==> end.h.keys.contains_key(other)
                    == h.keys.contains_key(other)
                &&& end.h.svc.store.deferred.contains(t) <==> rt is Some
                    && h.svc.store.rows.contains_key(t)
                &&& rt is Some ==> end.h.runtimes.contains_key(t)
                    && end.h.runtimes[t].account.baseline == Some(
                    (goal_id, runtime::known_usage(rt->0)),
                )
                &&& !end.reply->Ok_0.kick && end.reply->Ok_0.turn is None
                &&& end.reply->Ok_0.value == start_reply(
                    end.h.svc.store.resolved(k),
                    asked.sid,
                    ctx.now_iso,
                )
            }
        }),
{
    let objective = joined_objective(asked.title, asked.description);
    crate::service::law_set_starts_anew(h.svc, t, t, objective, None, None, goal_id, env);
    text::lemma_trimmed_idempotent(objective);
}

/// What a start is answered with, key by key.
pub proof fn law_start_answer_by_key(g: GoalView, sid: Seq<char>, now: Seq<char>)
    ensures
        ({
            let v = start_reply(g, sid, now);
            &&& v.field("id"@) == Some(JsonView::Str(g.goal_id))
            &&& v.field("title"@) == Some(JsonView::Str(extension::title_of(g.objective)))
            &&& v.field("sessionId"@) == Some(JsonView::Str(sid))
            &&& v.field("createdAt"@) == Some(JsonView::Str(extension::iso(g.created_at_ms, now)))
            &&& v.field("updated"@) == Some(extension::wire_json(g, None, now, false))
            &&& g.status is Active ==> v.field("status"@) == Some(JsonView::Str("active"@))
        }),
{
    lemma_start_keys();
    let f = start_reply(g, sid, now)->Obj_0;
    assert(f[0].key == "id"@ && f[1].key == "title"@ && f[2].key == "status"@ && f[3].key
        == "sessionId"@ && f[4].key == "createdAt"@ && f[5].key == "notification"@ && f[6].key
        == "updated"@);
    extension::lemma_value_at(f, 0, "id"@);
    extension::lemma_value_at(f, 1, "title"@);
    extension::lemma_value_at(f, 2, "status"@);
    extension::lemma_value_at(f, 3, "sessionId"@);
    extension::lemma_value_at(f, 4, "createdAt"@);
    extension::lemma_value_at(f, 6, "updated"@);
}

/// The keys of an answer to a start differ.
proof fn lemma_start_keys()
    ensures
        "id"@ != "title"@,
        "id"@ != "status"@,
        "id"@ != "sessionId"@,
        "id"@ != "createdAt"@,
        "id"@ != "notification"@,
        "id"@ != "updated"@,
        "title"@ != "status"@,
        "title"@ != "sessionId"@,
        "title"@ != "createdAt"@,
        "title"@ != "notification"@,
        "title"@ != "updated"@,
        "status"@ != "sessionId"@,
        "status"@ != "createdAt"@,
        "status"@ != "notification"@,
        "status"@ != "updated"@,
        "sessionId"@ != "createdAt"@,
        "sessionId"@ != "notification"@,
        "sessionId"@ != "updated"@,
        "createdAt"@ != "notification"@,
        "createdAt"@ != "updated"@,
        "notification"@ != "updated"@,
{
    reveal_strlit("id");
    reveal_strlit("title");
    reveal_strlit("status");
    reveal_strlit("sessionId");
    reveal_strlit("createdAt");
    reveal_strlit("notification");
    reveal_strlit("updated");
    assert("id"@.len() != "title"@.len());
    assert("id"@.len() != "status"@.len());
    assert("id"@.len() != "sessionId"@.len());
    assert("id"@.len() != "createdAt"@.len());
    assert("id"@.len() != "notification"@.len());
    assert("id"@.len() != "updated"@.len());
    assert("title"@.len() != "status"@.len());
    assert("title"@.len() != "sessionId"@.len());
    assert("title"@.len() != "createdAt"@.len());
    assert("title"@.len() != "notification"@.len());
    assert("title"@.len() != "updated"@.len());
    assert("status"@.len() != "sessionId"@.len());
    assert("status"@.len() != "createdAt"@.len());
    assert("status"@.len() != "notification"@.len());
    assert("status"@.len() != "updated"@.len());
    assert("sessionId"@[0] != "createdAt"@[0]);
    assert("sessionId"@.len() != "notification"@.len());
    assert("sessionId"@.len() != "updated"@.len());
    assert("createdAt"@.len() != "notification"@.len());
    assert("createdAt"@.len() != "updated"@.len());
    assert("notification"@.len() != "updated"@.len());
}

/// What a start needs: a title, a description, and a session, which the connection may
/// stand in for.
pub proof fn law_what_a_start_needs(params: JsonView, ctx: ContextView)
    ensures
        ({
            let title = extension::required_text(params, "title"@);
            let description = extension::required_text(params, "description"@);
            let sid = extension::optional_text(params, "sessionId"@);
            let r = start_asked(params, ctx);
            &&& r is Ok <==> title is Ok && description is Ok && (sid is Some || ctx.session_id is Some)
            &&& r matches Ok(a) ==> {
                &&& a.title == title->Ok_0 && a.description == description->Ok_0
                &&& sid is Some ==> a.sid == sid->0
                &&& sid is None ==> a.sid == ctx.session_id->0
                &&& a.key == extension::optional_text(params, "idempotencyKey"@)
            }
            &&& r matches Err(e) ==> e.code == -32602
        }),
{
}

/// How a list is read: without a cursor from the start, with all goals unless a status
/// is named, and fifty at a time. A cursor that leads nowhere is refused, and where
/// nothing is served there is nothing to list.
pub proof fn law_how_a_list_is_read(h: HandlerView, params: JsonView)
    ensures
        h.kind is Unbound ==> (list_plan(h, params) matches ListPlan::Answer(Ok(r))),
        !(h.kind is Unbound) ==> (extension::optional_text(params, "cursor"@) matches Some(c) ==> (
        extension::cursor_offset(c, h.generation) is None ==> (list_plan(
            h,
            params,
        ) matches ListPlan::Answer(Err(e)) && e.code == -32602))),
        !(h.kind is Unbound) && h.unreadable() is None && extension::optional_text(
            params,
            "cursor"@,
        ) is None ==> (list_plan(h, params) matches ListPlan::Read { wanted, offset, limit } && offset
            == 0 && (extension::optional_text(params, "status"@) is None ==> wanted is None) && (
        extension::optional_text(params, "status"@) matches Some(f) ==> wanted == Some(
            extension::filtered(f),
        )) && (params.field("limit"@) is None ==> limit == 50) && (params.field(
            "limit"@,
        ) matches Some(JsonView::Int(n)) ==> (1 <= n <= 200 ==> limit == n))),
{
}

/// Which methods there are, and what only reads: listing and getting change nothing, and
/// a method that there is not is refused.
pub proof fn law_methods(
    h: HandlerView,
    method: Seq<char>,
    params: JsonView,
    ctx: ContextView,
    goal_id: Seq<char>,
    env: Env,
    after: HandlerView,
    r: Result<ReplyView, ExtErrorView>,
)
    requires
        handles(h, method, params, ctx, goal_id, env, after, r),
    ensures
        method == "list"@ || method == "get"@ ==> after == h,
        method == "list"@ ==> lists(h, params, ctx.now_iso, r),
        method == "start"@ ==> starts(h, params, ctx, goal_id, env, after, r),
        method == "pause"@ ==> changes(h, params, Change::Pause, ctx, env, after, r),
        method == "resume"@ ==> changes(h, params, Change::Resume, ctx, env, after, r),
        method == "cancel"@ ==> changes(
            h,
            params,
            Change::Cancel { reason: extension::optional_text(params, "reason"@) },
            ctx,
            env,
            after,
            r,
        ),
        method == "session_control"@ ==> after == control(h, params, ctx, goal_id, env).h && r
            == control(h, params, ctx, goal_id, env).reply,
        method != "list"@ && method != "get"@ && method != "start"@ && method != "pause"@ && method
            != "resume"@ && method != "cancel"@ && method != "session_control"@ ==> after == h && (
        r matches Err(e) && e.code == -32601),
{
    lemma_methods_differ();
}

/// The names of the methods differ.
proof fn lemma_methods_differ()
    ensures
        "list"@ != "get"@,
        "list"@ != "start"@,
        "list"@ != "pause"@,
        "list"@ != "resume"@,
        "list"@ != "cancel"@,
        "list"@ != "session_control"@,
        "get"@ != "start"@,
        "get"@ != "pause"@,
        "get"@ != "resume"@,
        "get"@ != "cancel"@,
        "get"@ != "session_control"@,
        "start"@ != "pause"@,
        "start"@ != "resume"@,
        "start"@ != "cancel"@,
        "start"@ != "session_control"@,
        "pause"@ != "resume"@,
        "pause"@ != "cancel"@,
        "pause"@ != "session_control"@,
        "resume"@ != "cancel"@,
        "resume"@ != "session_control"@,
        "cancel"@ != "session_control"@,
{
    reveal_strlit("list");
    reveal_strlit("get");
    reveal_strlit("start");
    reveal_strlit("pause");
    reveal_strlit("resume");
    reveal_strlit("cancel");
    reveal_strlit("session_control");
    assert("list"@.len() != "get"@.len());
    assert("list"@.len() != "start"@.len());
    assert("list"@.len() != "pause"@.len());
    assert("list"@.len() != "resume"@.len());
    assert("list"@.len() != "cancel"@.len());
    assert("list"@.len() != "session_control"@.len());
    assert("get"@.len() != "start"@.len());
    assert("get"@.len() != "pause"@.len());
    assert("get"@.len() != "resume"@.len());
    assert("get"@.len() != "cancel"@.len());
    assert("get"@.len() != "session_control"@.len());
    assert("start"@[0] != "pause"@[0]);
    assert("start"@.len() != "resume"@.len());
    assert("start"@.len() != "cancel"@.len());
    assert("start"@.len() != "session_control"@.len());
    assert("pause"@.len() != "resume"@.len());
    assert("pause"@.len() != "cancel"@.len());
    assert("pause"@.len() != "session_control"@.len());
    assert("resume"@[0] != "cancel"@[0]);
    assert("resume"@.len() != "session_control"@.len());
    assert("cancel"@.len() != "session_control"@.len());
}

/// A goal is found by its identifier, whichever thread it is on, and shown with its full
/// objective; one that is nowhere is not found.
pub proof fn law_goal_is_got_by_identifier(
    h: HandlerView,
    id: Seq<char>,
    now: Seq<char>,
    r: Result<ReplyView, ExtErrorView>,
    t: Seq<char>,
)
    requires
        gets(h, id, now, r),
        !(h.kind is Unbound),
        h.unreadable() is None,
    ensures
        (forall|u: Seq<char>| !(h.svc.store.rows.contains_key(u) && #[trigger] h.svc.store.rows[u].goal_id
            == id)) ==> (r matches Err(e) && e.code == -32003),
        h.svc.store.rows.contains_key(t) && h.svc.store.rows[t].goal_id == id && (forall|u: Seq<char>|
            h.svc.store.rows.contains_key(u) && #[trigger] h.svc.store.rows[u].goal_id == id ==> u == t)
            ==> r == Ok::<ReplyView, ExtErrorView>(
            plain(extension::wire_json(h.svc.store.resolved(h.svc.store.rows[t]), None, now, true)),
        ),
{
    if h.svc.store.rows.contains_key(t) && h.svc.store.rows[t].goal_id == id {
        assert(h.svc.store.holds(t, id));
    }
    if exists|u: Seq<char>| #[trigger] h.svc.store.holds(u, id) {
        let u = choose|u: Seq<char>| #[trigger] h.svc.store.holds(u, id);
        assert(h.svc.store.rows[u].goal_id == id);
    }
}

/// The keys of the control method's answers differ.
proof fn lemma_answer_keys()
    ensures
        "goal"@ != "resumeHint"@,
        "goal"@ != "cleared"@,
        "resumeHint"@ != "cleared"@,
{
    reveal_strlit("goal");
    reveal_strlit("resumeHint");
    reveal_strlit("cleared");
    assert("goal"@.len() != "resumeHint"@.len());
    assert("goal"@.len() != "cleared"@.len());
    assert("resumeHint"@.len() != "cleared"@.len());
}

/// An answer with the goal alone has the goal under its key.
proof fn lemma_goal_value(v: JsonView)
    ensures
        goal_value(v).field("goal"@) == Some(v),
{
    let f = goal_value(v)->Obj_0;
    assert(f[0].key == "goal"@);
    extension::lemma_value_at(f, 0, "goal"@);
}

/// Setting and editing a goal are answered with the goal that the thread then has, with
/// its objective in full, and all who hear of changes hear of that goal.
pub proof fn law_set_and_edit_are_answered(
    h: HandlerView,
    t: Seq<char>,
    sid: Seq<char>,
    rt: Option<RuntimeView>,
    params: JsonView,
    ctx: ContextView,
    goal_id: Seq<char>,
    env: Env,
)
    ensures
        ({
            let set = control_set(h, t, sid, rt, params, ctx, goal_id, env);
            let edit = control_edit(h, t, sid, rt, params, env);
            let after_set = set.h.svc.store.resolved(set.h.svc.store.rows[t]);
            let after_edit = edit.h.svc.store.resolved(edit.h.svc.store.rows[t]);
            &&& set.reply matches Ok(r) ==> r.value.field("goal"@) == Some(
                extension::snapshot_json(after_set),
            ) && set.h.outbox == h.published(sid, Some(after_set)).outbox
            &&& edit.reply matches Ok(r) ==> r.value.field("goal"@) == Some(
                extension::snapshot_json(after_edit),
            ) && edit.h.outbox == h.published(sid, Some(after_edit)).outbox
        }),
{
    let set = control_set(h, t, sid, rt, params, ctx, goal_id, env);
    let edit = control_edit(h, t, sid, rt, params, env);
    lemma_goal_value(
        extension::snapshot_json(set.h.svc.store.resolved(set.h.svc.store.rows[t])),
    );
    lemma_goal_value(
        extension::snapshot_json(edit.h.svc.store.resolved(edit.h.svc.store.rows[t])),
    );
}

/// A new budget is answered with the goal, and with whether it waits to be resumed, which
/// a budget-limited one does. Clearing is answered with whether there was a goal, and
/// with none.
pub proof fn law_budget_and_clear_are_answered(
    h: HandlerView,
    t: Seq<char>,
    sid: Seq<char>,
    rt: Option<RuntimeView>,
    params: JsonView,
    ctx: ContextView,
    env: Env,
)
    ensures
        ({
            let fund = control_budget(h, t, sid, rt, params, env);
            let g = fund.h.svc.store.resolved(fund.h.svc.store.rows[t]);
            let clear = control_clear(h, t, sid, rt, ctx);
            &&& fund.reply matches Ok(r) ==> {
                &&& r.value.field("goal"@) == Some(extension::snapshot_json(g))
                &&& r.value.field("resumeHint"@) == Some(JsonView::Bool(g.status is BudgetLimited))
                &&& fund.h.outbox == h.published(sid, Some(g)).outbox
            }
            &&& clear.reply matches Ok(r) ==> {
                &&& r.value.field("cleared"@) == Some(JsonView::Bool(h.svc.store.rows.contains_key(t)))
                &&& r.value.field("goal"@) == Some(JsonView::Null)
                &&& clear.h.outbox == h.published(sid, None).outbox
            }
        }),
{
    lemma_answer_keys();
    let fund = control_budget(h, t, sid, rt, params, env);
    let clear = control_clear(h, t, sid, rt, ctx);
    if fund.reply is Ok {
        let f = fund.reply->Ok_0.value->Obj_0;
        assert(f[0].key == "goal"@ && f[1].key == "resumeHint"@);
        extension::lemma_value_at(f, 0, "goal"@);
        extension::lemma_value_at(f, 1, "resumeHint"@);
    }
    if clear.reply is Ok {
        let f = clear.reply->Ok_0.value->Obj_0;
        assert(f[0].key == "cleared"@ && f[1].key == "goal"@);
        extension::lemma_value_at(f, 0, "cleared"@);
        extension::lemma_value_at(f, 1, "goal"@);
    }
}

} // verus!
