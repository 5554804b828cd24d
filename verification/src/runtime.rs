//! How a goal drives turns.
//!
//! The host calls a hook at each edge of a turn. A hook books usage, moves the
//! goal to the status that follows, and may plan a turn for the host to start;
//! the host reports back whether it did.

use crate::accounting;
use crate::accounting::{AccountingView, Clock, GoalAccounting, TokenTotals};
use crate::metrics::Counter;
use crate::service;
use crate::service::{GoalService, GoalServiceError, ServiceErrorView, ServiceView};
use crate::steering;
use crate::store;
use crate::store::{GoalStoreError, StoreErrorView, StoreView};
use crate::tool_accounting::{ToolAccounting, ToolsView};
use crate::types::{AccountingMode, AccountingOutcome, Goal, GoalStatus, GoalView};
use vstd::prelude::*;
use vstd::string::*;

verus! {

/// Why a goal drives a turn.
#[derive(Debug, Clone, Copy, PartialEq, Eq, Structural)]
pub enum GoalTurnReason {
    /// The goal is active and the session idle.
    ActiveGoal,
    /// The budget is exhausted: one turn to wrap up.
    BudgetLimit,
    /// A user changed the objective.
    ObjectiveUpdated,
}

/// What a turn that a goal drives is about.
#[derive(Debug)]
pub struct GoalTurnMeta {
    pub goal_id: String,
    pub iteration: i64,
    pub reason: GoalTurnReason,
}

/// A turn for the host to start.
#[derive(Debug)]
pub struct PlannedTurn {
    /// What the turn begins with.
    pub message: String,
    pub meta: GoalTurnMeta,
    /// The objective in full, as the turn tells it.
    pub objective: String,
    /// The revision of the objective that the turn tells.
    pub revision: i64,
}

/// The mathematical value of a [`PlannedTurn`].
#[verifier::ext_equal]
pub struct TurnView {
    pub message: Seq<char>,
    pub goal_id: Seq<char>,
    pub iteration: i64,
    pub reason: GoalTurnReason,
    pub objective: Seq<char>,
    pub revision: i64,
}

impl View for PlannedTurn {
    type V = TurnView;

    open spec fn view(&self) -> TurnView {
        TurnView {
            message: self.message@,
            goal_id: self.meta.goal_id@,
            iteration: self.meta.iteration,
            reason: self.meta.reason,
            objective: self.objective@,
            revision: self.revision,
        }
    }
}

/// The value of an optional turn.
pub open spec fn opt_turn(t: Option<PlannedTurn>) -> Option<TurnView> {
    match t {
        Some(t) => Some(t@),
        None => None,
    }
}

/// The goal that a turn works on.
pub struct TurnBinding {
    turn_token: String,
    goal_id: String,
    account: bool,
}

/// The mathematical value of a [`TurnBinding`].
pub struct BindingView {
    pub token: Seq<char>,
    pub goal_id: Seq<char>,
    /// Whether the turn counts for the goal at all.
    pub account: bool,
}

impl View for TurnBinding {
    type V = BindingView;

    closed spec fn view(&self) -> BindingView {
        BindingView { token: self.turn_token@, goal_id: self.goal_id@, account: self.account }
    }
}

/// What is remembered of a thread between hooks.
pub struct GoalRuntimeHandle {
    thread_id: String,
    accounting: GoalAccounting,
    turn_binding: Option<TurnBinding>,
    notifying: bool,
    notifications: Vec<Goal>,
    tool_accounting: ToolAccounting,
    last_seen_revision: i64,
    goal_tools_visibility: Option<bool>,
}

/// The mathematical value of a [`GoalRuntimeHandle`].
#[verifier::ext_equal]
pub struct RuntimeView {
    pub thread_id: Seq<char>,
    pub account: AccountingView,
    /// The goal that the running turn works on.
    pub binding: Option<BindingView>,
    /// Whether the host wants to hear of changes.
    pub notifying: bool,
    /// Changes that the host has not heard of yet.
    pub notifications: Seq<GoalView>,
    pub tools: ToolsView,
    /// The last revision of the objective that a turn was told.
    pub last_seen: i64,
    /// Whether the model can see the goal tools, once that is known.
    pub visible: Option<bool>,
}

/// The values of a list of goals.
pub open spec fn goals_view(v: Seq<Goal>) -> Seq<GoalView> {
    v.map_values(|g: Goal| g@)
}

impl View for GoalRuntimeHandle {
    type V = RuntimeView;

    closed spec fn view(&self) -> RuntimeView {
        RuntimeView {
            thread_id: self.thread_id@,
            account: self.accounting@,
            binding: match self.turn_binding {
                Some(b) => Some(b@),
                None => None,
            },
            notifying: self.notifying,
            notifications: goals_view(self.notifications@),
            tools: self.tool_accounting@,
            last_seen: self.last_seen_revision,
            visible: self.goal_tools_visibility,
        }
    }
}

/// A thread of which nothing is known yet.
pub open spec fn unknown_thread(t: Seq<char>) -> RuntimeView {
    RuntimeView {
        thread_id: t,
        account: AccountingView { thread_id: t, baseline: None, since: None, reported: None },
        binding: None,
        notifying: false,
        notifications: Seq::empty(),
        tools: ToolsView { failed: false, succeeded: false, goal: None, streak: 0 },
        last_seen: 0,
        visible: None,
    }
}

impl RuntimeView {
    /// The account is the thread's, and the tool streak is within its limit.
    pub open spec fn wf(self) -> bool {
        self.account.thread_id == self.thread_id && self.tools.wf()
    }

    /// After the host was told of a change, where it wants to hear of it.
    pub open spec fn notified(self, g: GoalView) -> RuntimeView {
        if self.notifying {
            RuntimeView { notifications: self.notifications.push(g), ..self }
        } else {
            self
        }
    }

    /// Without a goal bound to the turn.
    pub open spec fn unbound(self) -> RuntimeView {
        RuntimeView { binding: None, ..self }
    }

    /// Whether the running turn counts for nothing.
    pub open spec fn exempt(self) -> bool {
        self.binding matches Some(b) && !b.account
    }
}

/// Whether the turn count of the goal of thread `t` can go up.
pub open spec fn can_count(s: StoreView, t: Seq<char>) -> bool {
    s.rows.contains_key(t) ==> s.rows[t].iteration_count < i64::MAX
}

/// Whether the goal of thread `t` is active.
pub open spec fn is_active(s: StoreView, t: Seq<char>) -> bool {
    s.rows.contains_key(t) && s.rows[t].status == GoalStatus::Active
}

/// What a hook leaves behind.
pub struct Step {
    pub rt: RuntimeView,
    pub svc: ServiceView,
    pub turn: Result<Option<TurnView>, StoreErrorView>,
}

/// Whether `r` is the turn, or the error, `want`.
pub open spec fn turn_is(
    r: Result<Option<PlannedTurn>, GoalStoreError>,
    want: Result<Option<TurnView>, StoreErrorView>,
) -> bool {
    match want {
        Ok(t) => r is Ok && opt_turn(r->Ok_0) == t,
        Err(e) => r is Err && r->Err_0@ == e,
    }
}

/// The table without the mark that puts off the next goal turn.
pub open spec fn undeferred(s: StoreView, t: Seq<char>) -> StoreView {
    StoreView { deferred: s.deferred.remove(t), ..s }
}

/// The thread at the start of a turn: the mark is gone, the clock runs for an
/// active goal, and no tool has finished.
pub open spec fn started(rt: RuntimeView, s: StoreView, now: Clock) -> RuntimeView {
    RuntimeView {
        account: accounting::clock_started(rt.account, s, now),
        tools: rt.tools.new_turn(),
        ..rt
    }
}

/// The thread at the start of a turn that is bound to the active goal, if there
/// is one.
pub open spec fn started_for(
    rt: RuntimeView,
    s: StoreView,
    token: Seq<char>,
    counts: bool,
    now: Clock,
) -> RuntimeView {
    let r = started(rt, s, now);
    if is_active(s, rt.thread_id) {
        RuntimeView {
            last_seen: s.rows[rt.thread_id].objective_revision,
            binding: Some(
                BindingView { token, goal_id: s.rows[rt.thread_id].goal_id, account: counts },
            ),
            ..r
        }
    } else {
        r
    }
}

/// The turn that wraps up a goal whose budget is exhausted.
pub open spec fn wrap_up_turn(s: StoreView, t: Seq<char>, text: Seq<char>) -> TurnView {
    TurnView {
        message: text,
        goal_id: s.rows[t].goal_id,
        iteration: (s.rows[t].iteration_count + 1) as i64,
        reason: GoalTurnReason::BudgetLimit,
        objective: s.rows[t].objective,
        revision: s.rows[t].objective_revision,
    }
}

/// After a booking with `outcome`: where it exhausted the budget and this goal
/// was not reported yet, the host hears of it and a turn to wrap up is planned.
pub open spec fn wrapped_up(rt: RuntimeView, svc: ServiceView, outcome: AccountingOutcome) -> Step {
    let t = rt.thread_id;
    match accounting::budget_steering(rt.account, svc.store, outcome) {
        None => Step { rt, svc, turn: Ok(None) },
        Some(text) => Step {
            rt: (RuntimeView {
                account: accounting::after_budget_steering(rt.account, svc.store, outcome),
                ..rt
            }).notified(svc.store.rows[t]),
            svc: ServiceView {
                metrics: svc.metrics.recorded(Counter::GoalsBudgetLimited, t),
                ..svc
            },
            turn: Ok(Some(wrap_up_turn(svc.store, t, text))),
        },
    }
}

/// Why a goal is blocked whose commands no longer run.
pub const EXECUTION_UNAVAILABLE: &'static str =
    "execution unavailable after 3 consecutive failed execution turns";

/// The thread after blocking `g`.
pub open spec fn blocked_by(rt: RuntimeView, svc: ServiceView, g: GoalView) -> Step {
    Step {
        rt: rt.notified(g),
        svc: ServiceView {
            store: svc.store.with_goal(rt.thread_id, g),
            metrics: svc.metrics.recorded(Counter::GoalsBlocked, rt.thread_id),
        },
        turn: Ok(None),
    }
}

/// The end of a turn. A turn that counts for nothing changes nothing. Otherwise
/// its usage is booked; one failed turn too many blocks the goal that the turn
/// was bound to; and an exhausted budget plans a turn to wrap up.
pub open spec fn finished(
    rt: RuntimeView,
    svc: ServiceView,
    totals: Option<TokenTotals>,
    now: Clock,
) -> Step {
    let t = rt.thread_id;
    let b = accounting::booked(
        rt.account,
        svc.store,
        totals,
        AccountingMode::ActiveOnly,
        true,
        now,
    );
    let rt1 = RuntimeView { account: b.account, ..rt.unbound() };
    let svc1 = ServiceView { store: b.store, ..svc };
    if rt.exempt() {
        Step { rt: rt.unbound(), svc, turn: Ok(None) }
    } else {
        match b.outcome {
            Err(e) => Step { rt: rt1, svc: svc1, turn: Err(e) },
            Ok(outcome) => match rt.binding {
                None => wrapped_up(rt1, svc1, outcome),
                Some(bound) => {
                    let rt2 = RuntimeView { tools: rt1.tools.turn_ended(bound.goal_id), ..rt1 };
                    if rt1.tools.too_many(bound.goal_id) {
                        match svc1.store.blocked(
                            t,
                            bound.goal_id,
                            EXECUTION_UNAVAILABLE@,
                            now.wall_ms,
                        ) {
                            Ok(g) => blocked_by(rt2, svc1, g),
                            Err(_) => wrapped_up(rt2, svc1, outcome),
                        }
                    } else {
                        wrapped_up(rt2, svc1, outcome)
                    }
                },
            },
        }
    }
}

/// A turn that was stopped: unless it counts for nothing, its usage is booked.
/// No turn is planned.
pub open spec fn aborted(
    rt: RuntimeView,
    svc: ServiceView,
    totals: Option<TokenTotals>,
    now: Clock,
) -> Step {
    let b = accounting::booked(
        rt.account,
        svc.store,
        totals,
        AccountingMode::ActiveOrStopped,
        true,
        now,
    );
    if rt.exempt() {
        Step { rt: rt.unbound(), svc, turn: Ok(None) }
    } else {
        Step {
            rt: RuntimeView { account: b.account, ..rt.unbound() },
            svc: ServiceView { store: b.store, ..svc },
            turn: match b.outcome {
                Ok(_) => Ok(None),
                Err(e) => Err(e),
            },
        }
    }
}

/// The goal to block after a failed turn, if any: the one that the turn was
/// bound to, while it is the thread's and active; where the turn was bound to
/// none, the thread's.
pub open spec fn to_block(
    rt: RuntimeView,
    s: StoreView,
    reason: Seq<char>,
    now_ms: i64,
) -> Option<GoalView> {
    let t = rt.thread_id;
    let id = match rt.binding {
        Some(b) => b.goal_id,
        None => s.rows[t].goal_id,
    };
    if s.rows.contains_key(t) {
        match s.blocked(t, id, reason, now_ms) {
            Ok(g) => Some(g),
            Err(_) => None,
        }
    } else {
        None
    }
}

/// A turn that failed for good: unless it counts for nothing, its usage is
/// booked, its goal blocked, and an exhausted budget plans a turn to wrap up.
pub open spec fn failed(
    rt: RuntimeView,
    svc: ServiceView,
    reason: Seq<char>,
    totals: Option<TokenTotals>,
    now: Clock,
) -> Step {
    let b = accounting::booked(
        rt.account,
        svc.store,
        totals,
        AccountingMode::ActiveOrStopped,
        true,
        now,
    );
    let rt1 = RuntimeView { account: b.account, ..rt.unbound() };
    let svc1 = ServiceView { store: b.store, ..svc };
    if rt.exempt() {
        Step { rt: rt.unbound(), svc, turn: Ok(None) }
    } else {
        match b.outcome {
            Err(e) => Step { rt: rt1, svc: svc1, turn: Err(e) },
            Ok(outcome) => match to_block(rt, svc1.store, reason, now.wall_ms) {
                Some(g) => {
                    let blocked = blocked_by(rt1, svc1, g);
                    wrapped_up(blocked.rt, blocked.svc, outcome)
                },
                None => wrapped_up(rt1, svc1, outcome),
            },
        }
    }
}

/// Quota ran out: usage is booked, and the goal becomes usage-limited where it
/// was active or budget-limited.
pub open spec fn quota_exhausted(
    rt: RuntimeView,
    svc: ServiceView,
    reason: Seq<char>,
    totals: Option<TokenTotals>,
    now: Clock,
) -> Step {
    let t = rt.thread_id;
    let b = accounting::booked(
        rt.account,
        svc.store,
        totals,
        AccountingMode::ActiveOrStopped,
        true,
        now,
    );
    let rt1 = RuntimeView { account: b.account, ..rt };
    let svc1 = ServiceView { store: b.store, ..svc };
    match b.outcome {
        Err(e) => Step { rt: rt1, svc: svc1, turn: Err(e) },
        Ok(_) => if !b.store.rows.contains_key(t) {
            Step { rt: rt1, svc: svc1, turn: Ok(None) }
        } else {
            match b.store.usage_limited(t, b.store.rows[t].goal_id, reason, now.wall_ms) {
                Ok(g) => Step {
                    rt: rt1.notified(g),
                    svc: ServiceView {
                        store: b.store.with_goal(t, g),
                        metrics: svc.metrics.recorded(Counter::GoalsUsageLimited, t),
                    },
                    turn: Ok(None),
                },
                Err(_) => Step { rt: rt1, svc: svc1, turn: Ok(None) },
            }
        },
    }
}

/// Before the model changes its goal's status: usage and time are booked while
/// the goal can still take them.
pub open spec fn settled(
    rt: RuntimeView,
    svc: ServiceView,
    totals: Option<TokenTotals>,
    now: Clock,
) -> Step {
    let first = match totals {
        Some(c) => accounting::booked(
            rt.account,
            svc.store,
            Some(c),
            AccountingMode::ActiveStatusOnly,
            false,
            now,
        ),
        None => accounting::Booking {
            account: rt.account,
            store: svc.store,
            outcome: Ok(AccountingOutcome::Unchanged),
        },
    };
    match first.outcome {
        Err(e) => Step {
            rt: RuntimeView { account: first.account, ..rt },
            svc: ServiceView { store: first.store, ..svc },
            turn: Err(e),
        },
        Ok(_) => {
            let second = accounting::booked(
                first.account,
                first.store,
                None,
                AccountingMode::ActiveOrStopped,
                true,
                now,
            );
            Step {
                rt: RuntimeView { account: second.account, ..rt },
                svc: ServiceView { store: second.store, ..svc },
                turn: match second.outcome {
                    Ok(_) => Ok(None),
                    Err(e) => Err(e),
                },
            }
        },
    }
}

/// The turn that an idle thread's goal drives next, if any: the goal must be
/// active and not put off, the model must be able to see the goal tools as far
/// as is known, and the host must hold the lock.
pub open spec fn next_turn(rt: RuntimeView, s: StoreView, locked: bool) -> Option<TurnView> {
    let t = rt.thread_id;
    if rt.visible == Some(false) || !locked || s.deferred.contains(t) || !is_active(s, t) {
        None
    } else {
        let g = s.resolved(s.rows[t]);
        let changed = g.objective_revision > rt.last_seen;
        Some(
            TurnView {
                message: if changed {
                    steering::objective_updated_text(g)
                } else {
                    steering::continuation_text(g, None)
                },
                goal_id: g.goal_id,
                iteration: (g.iteration_count + 1) as i64,
                reason: if changed {
                    GoalTurnReason::ObjectiveUpdated
                } else {
                    GoalTurnReason::ActiveGoal
                },
                objective: g.objective,
                revision: g.objective_revision,
            },
        )
    }
}

/// Whether an idle thread is put off: everything else would let it go on as far
/// as the lock and the tools.
pub open spec fn put_off(rt: RuntimeView, s: StoreView, locked: bool) -> bool {
    rt.visible != Some(false) && locked && s.deferred.contains(rt.thread_id)
}

/// A service on whose thread `t` the next goal turn is put off.
pub open spec fn put_off_on(svc: ServiceView, t: Seq<char>) -> ServiceView {
    ServiceView {
        store: StoreView { deferred: svc.store.deferred.insert(t), ..svc.store },
        ..svc
    }
}

/// After the host started a planned turn: the goal counts it; where the goal
/// goes on, the start itself is counted, the host hears of the goal, and a new
/// objective counts as told.
pub open spec fn turn_begun(rt: RuntimeView, svc: ServiceView, turn: TurnView, now_ms: i64) -> Step {
    let t = rt.thread_id;
    let counted = svc.store.counted(t, turn.goal_id, turn.iteration, now_ms);
    let store = svc.store.after(t, counted);
    if turn.reason == GoalTurnReason::BudgetLimit {
        Step { rt, svc: ServiceView { store, ..svc }, turn: Ok(None) }
    } else {
        let told = match counted {
            Ok(g) => rt.notified(GoalView { objective: turn.objective, ..g }),
            Err(_) => rt,
        };
        Step {
            rt: if turn.reason == GoalTurnReason::ObjectiveUpdated {
                RuntimeView { last_seen: turn.revision, ..told }
            } else {
                told
            },
            svc: ServiceView {
                store,
                metrics: svc.metrics.recorded(Counter::ContinuationsStarted, t),
            },
            turn: Ok(None),
        }
    }
}

impl GoalRuntimeHandle {
    /// The parts belong together.
    pub open spec fn wf(self) -> bool {
        self@.wf()
    }

    /// A thread of which nothing is known yet.
    pub fn new(thread_id: &str) -> (r: GoalRuntimeHandle)
        ensures
            r.wf(),
            r@ == unknown_thread(thread_id@),
    {
        let r: GoalRuntimeHandle = GoalRuntimeHandle {
            thread_id: thread_id.to_owned(),
            accounting: GoalAccounting::new_unarmed(thread_id),
            turn_binding: None,
            notifying: false,
            notifications: Vec::new(),
            tool_accounting: ToolAccounting::new(),
            last_seen_revision: 0,
            goal_tools_visibility: None,
        };
        assert(r@.notifications =~= Seq::empty());
        r
    }

    /// Notes whether the model can see the goal tools.
    pub fn record_goal_tools_visibility(&mut self, visible: bool)
        requires
            old(self).wf(),
        ensures
            final(self).wf(),
            final(self)@ == (RuntimeView { visible: Some(visible), ..old(self)@ }),
    {
        self.goal_tools_visibility = Some(visible);
    }

    /// Whether the model can see the goal tools, once that is known.
    pub fn goal_tools_visible(&self) -> (r: Option<bool>)
        ensures
            r == self@.visible,
    {
        self.goal_tools_visibility
    }

    /// Keeps changes for the host to hear of from now on.
    pub fn set_status_notifier(&mut self)
        requires
            old(self).wf(),
        ensures
            final(self).wf(),
            final(self)@ == (RuntimeView { notifying: true, ..old(self)@ }),
    {
        self.notifying = true;
    }

    /// Hands out the changes that the host has not heard of yet.
    pub fn take_notifications(&mut self) -> (r: Vec<Goal>)
        requires
            old(self).wf(),
        ensures
            final(self).wf(),
            goals_view(r@) == old(self)@.notifications,
            final(self)@ == (RuntimeView { notifications: Seq::empty(), ..old(self)@ }),
    {
        let mut out: Vec<Goal> = Vec::new();
        std::mem::swap(&mut out, &mut self.notifications);
        assert(self@.notifications =~= Seq::empty());
        out
    }

    fn notify_status_change(&mut self, goal: Goal)
        ensures
            final(self)@ == old(self)@.notified(goal@),
    {
        if self.notifying {
            self.notifications.push(goal);
            assert(self@.notifications =~= old(self)@.notifications.push(goal@));
        }
    }

    /// The thread.
    pub fn thread_id(&self) -> (r: &str)
        ensures
            r@ == self@.thread_id,
    {
        self.thread_id.as_str()
    }

    /// The thread's account.
    pub fn accounting(&self) -> (r: &GoalAccounting)
        ensures
            r@ == self@.account,
    {
        &self.accounting
    }

    /// A turn starts.
    pub fn on_turn_start(&mut self, service: &mut GoalService, now: Clock)
        requires
            old(self).wf(),
            old(service).wf(),
        ensures
            final(self).wf(),
            final(service).wf(),
            final(self)@ == started(old(self)@, old(service)@.store, now),
            final(service)@ == (ServiceView {
                store: undeferred(old(service)@.store, old(self)@.thread_id),
                ..old(service)@
            }),
    {
        service.store.clear_continuation_deferral(self.thread_id.as_str());
        self.accounting.start_wall_clock_if_active(&service.store, now);
        self.tool_accounting.begin_turn();
        assert(self@ =~= started(old(self)@, old(service)@.store, now));
    }

    fn start_bound(&mut self, service: &mut GoalService, turn_token: &str, counts: bool, now: Clock)
        requires
            old(self).wf(),
            old(service).wf(),
        ensures
            final(self).wf(),
            final(service).wf(),
            final(self)@ == started_for(
                old(self)@,
                old(service)@.store,
                turn_token@,
                counts,
                now,
            ),
            final(service)@ == (ServiceView {
                store: undeferred(old(service)@.store, old(self)@.thread_id),
                ..old(service)@
            }),
    {
        self.on_turn_start(service, now);
        match service.store.read(self.thread_id.as_str()) {
            Some(goal) => {
                if goal.status == GoalStatus::Active {
                    self.last_seen_revision = goal.objective_revision;
                    self.turn_binding = Some(
                        TurnBinding {
                            turn_token: turn_token.to_owned(),
                            goal_id: goal.goal_id,
                            account: counts,
                        },
                    );
                }
            },
            None => {},
        }
    }

    /// A turn starts, and works on the active goal.
    pub fn on_turn_start_for(&mut self, service: &mut GoalService, turn_token: &str, now: Clock)
        requires
            old(self).wf(),
            old(service).wf(),
        ensures
            final(self).wf(),
            final(service).wf(),
            final(self)@ == started_for(old(self)@, old(service)@.store, turn_token@, true, now),
            final(service)@ == (ServiceView {
                store: undeferred(old(service)@.store, old(self)@.thread_id),
                ..old(service)@
            }),
    {
        self.start_bound(service, turn_token, true, now);
    }

    /// A turn starts that counts for nothing, such as one that only plans.
    pub fn on_turn_start_exempt(&mut self, service: &mut GoalService, turn_token: &str, now: Clock)
        requires
            old(self).wf(),
            old(service).wf(),
        ensures
            final(self).wf(),
            final(service).wf(),
            final(self)@ == started_for(old(self)@, old(service)@.store, turn_token@, false, now),
            final(service)@ == (ServiceView {
                store: undeferred(old(service)@.store, old(self)@.thread_id),
                ..old(service)@
            }),
    {
        self.start_bound(service, turn_token, false, now);
    }

    /// A tool finished.
    pub fn record_tool_outcome(&mut self, tool: &str, failed: bool)
        requires
            old(self).wf(),
        ensures
            final(self).wf(),
            final(self)@ == (RuntimeView {
                tools: old(self)@.tools.with_outcome(tool@, failed),
                ..old(self)@
            }),
    {
        self.tool_accounting.record_tool_outcome(tool, failed);
    }

    fn take_turn_binding(&mut self) -> (r: Option<TurnBinding>)
        ensures
            match r {
                Some(b) => old(self)@.binding == Some(b@),
                None => old(self)@.binding is None,
            },
            final(self)@ == old(self)@.unbound(),
    {
        self.turn_binding.take()
    }

    fn inject_budget_steering_if_flipped(
        &mut self,
        service: &mut GoalService,
        outcome: AccountingOutcome,
    ) -> (r: Option<PlannedTurn>)
        requires
            old(self).wf(),
            old(service).wf(),
            can_count(old(service)@.store, old(self)@.thread_id),
        ensures
            final(self).wf(),
            final(service).wf(),
            final(self)@ == wrapped_up(old(self)@, old(service)@, outcome).rt,
            final(service)@ == wrapped_up(old(self)@, old(service)@, outcome).svc,
            Ok::<Option<TurnView>, StoreErrorView>(opt_turn(r)) == wrapped_up(
                old(self)@,
                old(service)@,
                outcome,
            ).turn,
    {
        let text: String = match self.accounting.take_budget_steering_if_flipped(
            &service.store,
            &outcome,
        ) {
            Some(t) => t,
            None => {
                return None;
            },
        };
        service.metrics.record_budget_limited(self.thread_id.as_str());
        match service.store.read(self.thread_id.as_str()) {
            Some(goal) => {
                self.notify_status_change(goal.clone());
                Some(
                    PlannedTurn {
                        message: text,
                        meta: GoalTurnMeta {
                            goal_id: goal.goal_id,
                            iteration: goal.iteration_count + 1,
                            reason: GoalTurnReason::BudgetLimit,
                        },
                        objective: goal.objective,
                        revision: goal.objective_revision,
                    },
                )
            },
            None => None,
        }
    }

    /// A turn ended. The turn that comes back, if any, is for the host to start.
    pub fn on_turn_finish(
        &mut self,
        service: &mut GoalService,
        totals: Option<TokenTotals>,
        now: Clock,
    ) -> (r: Result<Option<PlannedTurn>, GoalStoreError>)
        requires
            old(self).wf(),
            old(service).wf(),
            can_count(old(service)@.store, old(self)@.thread_id),
        ensures
            final(self).wf(),
            final(service).wf(),
            final(self)@ == finished(old(self)@, old(service)@, totals, now).rt,
            final(service)@ == finished(old(self)@, old(service)@, totals, now).svc,
            turn_is(r, finished(old(self)@, old(service)@, totals, now).turn),
    {
        let bound: Option<TurnBinding> = self.take_turn_binding();
        match &bound {
            Some(b) => {
                if !b.account {
                    return Ok(None);
                }
            },
            None => {},
        }
        let outcome: AccountingOutcome = match self.accounting.finish_turn(
            &mut service.store,
            totals,
            now,
        ) {
            Ok(o) => o,
            Err(e) => {
                return Err(e);
            },
        };
        match bound {
            Some(b) => {
                match self.tool_accounting.execution_failure_goal(Some(b.goal_id.as_str())) {
                    Some(goal_id) => {
                        match service.store.mark_blocked(
                            self.thread_id.as_str(),
                            goal_id.as_str(),
                            EXECUTION_UNAVAILABLE,
                            now.wall_ms,
                        ) {
                            Ok(goal) => {
                                service.metrics.record_blocked(self.thread_id.as_str());
                                self.notify_status_change(goal);
                                return Ok(None);
                            },
                            Err(_) => {},
                        }
                    },
                    None => {},
                }
            },
            None => {},
        }
        Ok(self.inject_budget_steering_if_flipped(service, outcome))
    }

    /// A turn was stopped.
    pub fn on_turn_abort(
        &mut self,
        service: &mut GoalService,
        totals: Option<TokenTotals>,
        now: Clock,
    ) -> (r: Result<(), GoalStoreError>)
        requires
            old(self).wf(),
            old(service).wf(),
        ensures
            final(self).wf(),
            final(service).wf(),
            final(self)@ == aborted(old(self)@, old(service)@, totals, now).rt,
            final(service)@ == aborted(old(self)@, old(service)@, totals, now).svc,
            match aborted(old(self)@, old(service)@, totals, now).turn {
                Ok(_) => r is Ok,
                Err(e) => r is Err && r->Err_0@ == e,
            },
    {
        let bound: Option<TurnBinding> = self.take_turn_binding();
        match &bound {
            Some(b) => {
                if !b.account {
                    return Ok(());
                }
            },
            None => {},
        }
        match self.accounting.stop_abnormal(&mut service.store, totals, now) {
            Ok(_) => Ok(()),
            Err(e) => Err(e),
        }
    }

    /// A turn failed for good. The turn that comes back, if any, is for the host
    /// to start.
    pub fn on_turn_error(
        &mut self,
        service: &mut GoalService,
        reason: &str,
        totals: Option<TokenTotals>,
        now: Clock,
    ) -> (r: Result<Option<PlannedTurn>, GoalStoreError>)
        requires
            old(self).wf(),
            old(service).wf(),
            can_count(old(service)@.store, old(self)@.thread_id),
        ensures
            final(self).wf(),
            final(service).wf(),
            final(self)@ == failed(old(self)@, old(service)@, reason@, totals, now).rt,
            final(service)@ == failed(old(self)@, old(service)@, reason@, totals, now).svc,
            turn_is(r, failed(old(self)@, old(service)@, reason@, totals, now).turn),
    {
        let bound: Option<TurnBinding> = self.take_turn_binding();
        match &bound {
            Some(b) => {
                if !b.account {
                    return Ok(None);
                }
            },
            None => {},
        }
        let outcome: AccountingOutcome = match self.accounting.stop_abnormal(
            &mut service.store,
            totals,
            now,
        ) {
            Ok(o) => o,
            Err(e) => {
                return Err(e);
            },
        };
        let target: Option<String> = match bound {
            Some(b) => Some(b.goal_id),
            None => match service.store.read(self.thread_id.as_str()) {
                Some(goal) => if goal.status == GoalStatus::Active {
                    Some(goal.goal_id)
                } else {
                    None
                },
                None => None,
            },
        };
        match target {
            Some(goal_id) => {
                match service.store.mark_blocked(
                    self.thread_id.as_str(),
                    goal_id.as_str(),
                    reason,
                    now.wall_ms,
                ) {
                    Ok(goal) => {
                        service.metrics.record_blocked(self.thread_id.as_str());
                        self.notify_status_change(goal);
                    },
                    Err(_) => {},
                }
            },
            None => {},
        }
        Ok(self.inject_budget_steering_if_flipped(service, outcome))
    }

    /// The provider's quota ran out, outside a turn.
    pub fn on_provider_quota_exhausted(
        &mut self,
        service: &mut GoalService,
        reason: &str,
        now: Clock,
    ) -> (r: Result<(), GoalStoreError>)
        requires
            old(self).wf(),
            old(service).wf(),
        ensures
            final(self).wf(),
            final(service).wf(),
            final(self)@ == quota_exhausted(old(self)@, old(service)@, reason@, None, now).rt,
            final(service)@ == quota_exhausted(old(self)@, old(service)@, reason@, None, now).svc,
            match quota_exhausted(old(self)@, old(service)@, reason@, None, now).turn {
                Ok(_) => r is Ok,
                Err(e) => r is Err && r->Err_0@ == e,
            },
    {
        self.on_provider_quota_exhausted_with_usage(service, reason, None, now)
    }

    /// The provider's quota ran out in a turn that used `totals`.
    pub fn on_provider_quota_exhausted_with_usage(
        &mut self,
        service: &mut GoalService,
        reason: &str,
        totals: Option<TokenTotals>,
        now: Clock,
    ) -> (r: Result<(), GoalStoreError>)
        requires
            old(self).wf(),
            old(service).wf(),
        ensures
            final(self).wf(),
            final(service).wf(),
            final(self)@ == quota_exhausted(old(self)@, old(service)@, reason@, totals, now).rt,
            final(service)@ == quota_exhausted(old(self)@, old(service)@, reason@, totals, now).svc,
            match quota_exhausted(old(self)@, old(service)@, reason@, totals, now).turn {
                Ok(_) => r is Ok,
                Err(e) => r is Err && r->Err_0@ == e,
            },
    {
        match self.accounting.stop_abnormal(&mut service.store, totals, now) {
            Ok(_) => {},
            Err(e) => {
                return Err(e);
            },
        }
        match service.store.read(self.thread_id.as_str()) {
            Some(goal) => {
                match service.store.mark_usage_limited(
                    self.thread_id.as_str(),
                    goal.goal_id.as_str(),
                    reason,
                    now.wall_ms,
                ) {
                    Ok(limited) => {
                        service.metrics.record_usage_limited(self.thread_id.as_str());
                        self.notify_status_change(limited);
                    },
                    Err(_) => {},
                }
            },
            None => {},
        }
        Ok(())
    }

    /// The model is about to complete or block its goal.
    pub fn before_model_status_update(
        &mut self,
        service: &mut GoalService,
        totals: Option<TokenTotals>,
        now: Clock,
    ) -> (r: Result<(), GoalStoreError>)
        requires
            old(self).wf(),
            old(service).wf(),
        ensures
            final(self).wf(),
            final(service).wf(),
            final(self)@ == settled(old(self)@, old(service)@, totals, now).rt,
            final(service)@ == settled(old(self)@, old(service)@, totals, now).svc,
            match settled(old(self)@, old(service)@, totals, now).turn {
                Ok(_) => r is Ok,
                Err(e) => r is Err && r->Err_0@ == e,
            },
    {
        match totals {
            Some(c) => {
                match self.accounting.record_usage(&mut service.store, c, now) {
                    Ok(_) => {},
                    Err(e) => {
                        return Err(e);
                    },
                }
            },
            None => {},
        }
        match self.accounting.flush_wall_clock(
            &mut service.store,
            AccountingMode::ActiveOrStopped,
            now,
        ) {
            Ok(_) => Ok(()),
            Err(e) => Err(e),
        }
    }

    /// The session is idle. The turn that comes back, if any, is for the host to
    /// start; `locked` says whether the host holds the lock that keeps users'
    /// changes out until it has.
    pub fn continue_if_idle(&self, service: &mut GoalService, locked: bool) -> (r: Option<
        PlannedTurn,
    >)
        requires
            self.wf(),
            old(service).wf(),
            can_count(old(service)@.store, self@.thread_id),
        ensures
            final(service).wf(),
            opt_turn(r) == next_turn(self@, old(service)@.store, locked),
            final(service)@ == if put_off(self@, old(service)@.store, locked) {
                ServiceView {
                    metrics: old(service)@.metrics.recorded(
                        Counter::ContinuationsDeferred,
                        self@.thread_id,
                    ),
                    ..old(service)@
                }
            } else {
                old(service)@
            },
    {
        match self.goal_tools_visibility {
            Some(visible) => {
                if !visible {
                    return None;
                }
            },
            None => {},
        }
        if !locked {
            return None;
        }
        if service.store.has_continuation_deferral(self.thread_id.as_str()) {
            service.metrics.record_continuation_deferred(self.thread_id.as_str());
            return None;
        }
        let goal: Goal = match service.store.read(self.thread_id.as_str()) {
            Some(g) => g,
            None => {
                return None;
            },
        };
        if goal.status != GoalStatus::Active {
            return None;
        }
        proof {
            service.store.lemma_wf();
        }
        let goal: Goal = service.store.resolve_objective(goal);
        let objective_changed: bool = goal.objective_revision > self.last_seen_revision;
        let message: String = if objective_changed {
            steering::objective_updated(&goal)
        } else {
            steering::continuation(&goal, None)
        };
        Some(
            PlannedTurn {
                message,
                meta: GoalTurnMeta {
                    goal_id: goal.goal_id,
                    iteration: goal.iteration_count + 1,
                    reason: if objective_changed {
                        GoalTurnReason::ObjectiveUpdated
                    } else {
                        GoalTurnReason::ActiveGoal
                    },
                },
                objective: goal.objective,
                revision: goal.objective_revision,
            },
        )
    }

    /// The host answers for a planned turn: whether it was started.
    pub fn turn_started(
        &mut self,
        service: &mut GoalService,
        turn: &PlannedTurn,
        was_started: bool,
        now_ms: i64,
    )
        requires
            old(self).wf(),
            old(service).wf(),
        ensures
            final(self).wf(),
            final(service).wf(),
            final(self)@ == if was_started {
                turn_begun(old(self)@, old(service)@, turn@, now_ms).rt
            } else {
                old(self)@
            },
            final(service)@ == if was_started {
                turn_begun(old(self)@, old(service)@, turn@, now_ms).svc
            } else {
                old(service)@
            },
    {
        if !was_started {
            return ;
        }
        let counted: Result<Goal, GoalStoreError> = service.store.set_iteration(
            self.thread_id.as_str(),
            turn.meta.goal_id.as_str(),
            turn.meta.iteration,
            now_ms,
        );
        if turn.meta.reason == GoalTurnReason::BudgetLimit {
            return ;
        }
        service.metrics.record_continuation_started(self.thread_id.as_str());
        match counted {
            Ok(goal) => {
                self.notify_status_change(Goal { objective: turn.objective.clone(), ..goal });
            },
            Err(_) => {},
        }
        if turn.meta.reason == GoalTurnReason::ObjectiveUpdated {
            self.last_seen_revision = turn.revision;
        }
    }

    /// Puts off the next goal turn; says whether the mark is new.
    pub fn defer_continuation(&self, service: &mut GoalService) -> (r: bool)
        requires
            old(service).wf(),
        ensures
            final(service).wf(),
            r == (old(service)@.store.rows.contains_key(self@.thread_id)
                && !old(service)@.store.deferred.contains(self@.thread_id)),
            final(service)@ == if r {
                ServiceView {
                    store: StoreView {
                        deferred: old(service)@.store.deferred.insert(self@.thread_id),
                        ..old(service)@.store
                    },
                    ..old(service)@
                }
            } else {
                old(service)@
            },
    {
        service.store.defer_continuation(self.thread_id.as_str())
    }

    /// Lets the next goal turn go on; says whether it was put off.
    pub fn clear_deferral(&self, service: &mut GoalService) -> (r: bool)
        requires
            old(service).wf(),
        ensures
            final(service).wf(),
            r == old(service)@.store.deferred.contains(self@.thread_id),
            final(service)@ == (ServiceView {
                store: undeferred(old(service)@.store, self@.thread_id),
                ..old(service)@
            }),
    {
        service.store.clear_continuation_deferral(self.thread_id.as_str())
    }

    /// A user set a goal when the totals stood at `totals`, or cleared it.
    pub fn on_goal_replaced(&mut self, goal_id: Option<&str>, totals: TokenTotals)
        requires
            old(self).wf(),
        ensures
            final(self).wf(),
            final(self)@ == match goal_id {
                Some(id) => armed(old(self)@, id@, totals),
                None => disarmed(old(self)@),
            },
    {
        match goal_id {
            Some(id) => self.accounting.reset_baselines(id, totals),
            None => self.accounting.clear_baselines(),
        }
    }

    /// A goal was set: its usage counts from the totals last known.
    pub fn note_goal_armed(&mut self, goal_id: &str)
        requires
            old(self).wf(),
        ensures
            final(self).wf(),
            final(self)@ == armed(old(self)@, goal_id@, known_usage(old(self)@)),
    {
        let totals: TokenTotals = self.accounting.last_totals();
        self.accounting.reset_baselines(goal_id, totals);
    }

    /// A goal was set in the middle of a turn, when the totals stood at
    /// `totals`.
    pub fn note_goal_armed_at(&mut self, goal_id: &str, totals: TokenTotals)
        requires
            old(self).wf(),
        ensures
            final(self).wf(),
            final(self)@ == armed(old(self)@, goal_id@, totals),
    {
        self.accounting.reset_baselines(goal_id, totals);
    }

    /// A user paused or resumed the goal.
    pub fn on_goal_status_changed(
        &mut self,
        service: &mut GoalService,
        new_status: GoalStatus,
        now: Clock,
    ) -> (r: Result<(), GoalStoreError>)
        requires
            old(self).wf(),
            old(service).wf(),
        ensures
            final(self).wf(),
            final(service).wf(),
            final(self)@ == status_changed(old(self)@, old(service)@, new_status, now).rt,
            final(service)@ == status_changed(old(self)@, old(service)@, new_status, now).svc,
            match status_changed(old(self)@, old(service)@, new_status, now).turn {
                Ok(_) => r is Ok,
                Err(e) => r is Err && r->Err_0@ == e,
            },
    {
        if new_status == GoalStatus::Active {
            self.accounting.start_wall_clock_if_active(&service.store, now);
            Ok(())
        } else {
            self.take_turn_binding();
            match self.accounting.flush_wall_clock(
                &mut service.store,
                AccountingMode::ActiveOrStopped,
                now,
            ) {
                Ok(_) => Ok(()),
                Err(e) => Err(e),
            }
        }
    }
}

/// The totals up to which usage is booked, or none at all.
pub open spec fn known_usage(rt: RuntimeView) -> TokenTotals {
    match rt.account.baseline {
        Some(b) => b.1,
        None => accounting::zero_totals(),
    }
}

/// The thread with nothing counted.
pub open spec fn disarmed(rt: RuntimeView) -> RuntimeView {
    RuntimeView {
        account: AccountingView { baseline: None, since: None, ..rt.account },
        ..rt
    }
}

/// The thread with the usage of goal `id` counted from `totals`.
pub open spec fn armed(rt: RuntimeView, id: Seq<char>, totals: TokenTotals) -> RuntimeView {
    RuntimeView {
        account: AccountingView { baseline: Some((id, totals)), since: None, ..rt.account },
        ..rt
    }
}

/// After a user paused or resumed the goal: the clock runs again, or the time is
/// booked and the turn no longer bound.
pub open spec fn status_changed(
    rt: RuntimeView,
    svc: ServiceView,
    status: GoalStatus,
    now: Clock,
) -> Step {
    if status == GoalStatus::Active {
        Step {
            rt: RuntimeView {
                account: accounting::clock_started(rt.account, svc.store, now),
                ..rt
            },
            svc,
            turn: Ok(None),
        }
    } else {
        let b = accounting::booked(
            rt.account,
            svc.store,
            None,
            AccountingMode::ActiveOrStopped,
            true,
            now,
        );
        Step {
            rt: RuntimeView { account: b.account, ..rt.unbound() },
            svc: ServiceView { store: b.store, ..svc },
            turn: match b.outcome {
                Ok(_) => Ok(None),
                Err(e) => Err(e),
            },
        }
    }
}

/// A service error as an error of the table.
pub open spec fn store_error_view(e: ServiceErrorView) -> StoreErrorView {
    match e {
        ServiceErrorView::Store(inner) => inner,
        ServiceErrorView::LockTimeout => StoreErrorView::LockTimeout,
        other => StoreErrorView::CorruptStatus(service::service_error_text(other)),
    }
}

/// A service error as an error of the table.
pub fn store_error_from(e: GoalServiceError) -> (r: GoalStoreError)
    ensures
        r@ == store_error_view(e@),
{
    match e {
        GoalServiceError::Store(inner) => inner,
        GoalServiceError::LockTimeout => GoalStoreError::LockTimeout,
        other => GoalStoreError::CorruptStatus(other.message()),
    }
}

/// A turn that counts for nothing changes no goal and counts nothing, however
/// it ends, and no turn is planned after it.
pub proof fn law_exempt_turn_changes_nothing(
    rt: RuntimeView,
    svc: ServiceView,
    reason: Seq<char>,
    totals: Option<TokenTotals>,
    now: Clock,
)
    requires
        rt.wf(),
        svc.store.wf(),
        rt.exempt(),
    ensures
        finished(rt, svc, totals, now).svc == svc,
        finished(rt, svc, totals, now).turn == Ok::<Option<TurnView>, StoreErrorView>(None),
        aborted(rt, svc, totals, now).svc == svc,
        failed(rt, svc, reason, totals, now).svc == svc,
        failed(rt, svc, reason, totals, now).turn == Ok::<Option<TurnView>, StoreErrorView>(None),
{
}

/// Stopping a turn starts none.
pub proof fn law_abort_plans_no_turn(
    rt: RuntimeView,
    svc: ServiceView,
    totals: Option<TokenTotals>,
    now: Clock,
)
    requires
        rt.wf(),
        svc.store.wf(),
    ensures
        !(aborted(rt, svc, totals, now).turn matches Ok(Some(_))),
        aborted(rt, svc, totals, now).rt.account.reported == rt.account.reported,
{
}

/// A failed turn never blocks a goal that it was not bound to: where the thread
/// has another goal by then, that goal's status stays, or becomes budget-limited
/// by booking.
pub proof fn law_failed_turn_spares_other_goal(
    rt: RuntimeView,
    svc: ServiceView,
    reason: Seq<char>,
    totals: Option<TokenTotals>,
    now: Clock,
)
    requires
        rt.wf(),
        svc.store.wf(),
        svc.store.rows.contains_key(rt.thread_id),
        rt.binding matches Some(b) && b.goal_id != svc.store.rows[rt.thread_id].goal_id,
    ensures
        ({
            let g = svc.store.rows[rt.thread_id];
            let after = failed(rt, svc, reason, totals, now).svc.store;
            &&& after.rows.contains_key(rt.thread_id)
            &&& after.rows[rt.thread_id].goal_id == g.goal_id
            &&& after.rows[rt.thread_id].objective == g.objective
            &&& (after.rows[rt.thread_id].status == g.status || g.status == GoalStatus::Active
                && after.rows[rt.thread_id].status == GoalStatus::BudgetLimited)
        }),
{
}

/// A failed turn blocks active goals only: a goal in any other status keeps it.
pub proof fn law_failed_turn_blocks_only_active(
    rt: RuntimeView,
    svc: ServiceView,
    reason: Seq<char>,
    totals: Option<TokenTotals>,
    now: Clock,
)
    requires
        rt.wf(),
        svc.store.wf(),
        svc.store.rows.contains_key(rt.thread_id),
        svc.store.rows[rt.thread_id].status != GoalStatus::Active,
    ensures
        failed(rt, svc, reason, totals, now).svc.store.rows.contains_key(rt.thread_id),
        failed(rt, svc, reason, totals, now).svc.store.rows[rt.thread_id].status
            == svc.store.rows[rt.thread_id].status,
{
}

/// A failed turn blocks the active goal that it was bound to, unless booking
/// found its budget exhausted or its usage beyond count.
pub proof fn law_failed_turn_blocks_its_goal(
    rt: RuntimeView,
    svc: ServiceView,
    reason: Seq<char>,
    totals: Option<TokenTotals>,
    now: Clock,
)
    requires
        rt.wf(),
        svc.store.wf(),
        is_active(svc.store, rt.thread_id),
        rt.binding matches Some(b) && b.account && b.goal_id == svc.store.rows[rt.thread_id].goal_id,
    ensures
        ({
            let s = failed(rt, svc, reason, totals, now);
            let g = s.svc.store.rows[rt.thread_id];
            ||| s.turn is Err
            ||| g.status == GoalStatus::Blocked && g.status_reason == Some(reason)
            ||| g.status == GoalStatus::BudgetLimited
        }),
{
}

/// A goal drives a turn only while it is active and not put off, with the lock
/// held, and never once the model is known not to see the goal tools.
pub proof fn law_turns_need_an_active_goal(rt: RuntimeView, s: StoreView, locked: bool)
    requires
        rt.wf(),
        s.wf(),
        next_turn(rt, s, locked) is Some,
    ensures
        is_active(s, rt.thread_id),
        !s.deferred.contains(rt.thread_id),
        rt.visible != Some(false),
        locked,
        next_turn(rt, s, locked)->Some_0.goal_id == s.rows[rt.thread_id].goal_id,
{
}

/// A thread that is put off drives no turn until a turn has started, and may
/// drive one after that.
pub proof fn law_mark_lasts_until_turn_start(rt: RuntimeView, s: StoreView, now: Clock)
    requires
        rt.wf(),
        s.wf(),
        is_active(s, rt.thread_id),
        rt.visible != Some(false),
    ensures
        next_turn(
            rt,
            StoreView { deferred: s.deferred.insert(rt.thread_id), ..s },
            true,
        ) is None,
        next_turn(started(rt, s, now), undeferred(s, rt.thread_id), true) is Some,
{
}

/// A turn that was planned and started is counted: the goal has driven one turn
/// more.
pub proof fn law_started_turn_is_counted(
    rt: RuntimeView,
    svc: ServiceView,
    locked: bool,
    now_ms: i64,
)
    requires
        rt.wf(),
        svc.store.wf(),
        can_count(svc.store, rt.thread_id),
        next_turn(rt, svc.store, locked) is Some,
    ensures
        ({
            let turn = next_turn(rt, svc.store, locked)->Some_0;
            let after = turn_begun(rt, svc, turn, now_ms).svc.store;
            &&& after.rows[rt.thread_id].iteration_count == svc.store.rows[rt.thread_id].iteration_count
                + 1
            &&& after.rows[rt.thread_id].goal_id == svc.store.rows[rt.thread_id].goal_id
            &&& after.rows[rt.thread_id].status == GoalStatus::Active
        }),
{
}

/// A new objective is told once: after the turn that tells it has started, the
/// next turn is an ordinary one.
pub proof fn law_new_objective_is_told_once(
    rt: RuntimeView,
    svc: ServiceView,
    locked: bool,
    again: bool,
    now_ms: i64,
)
    requires
        rt.wf(),
        svc.store.wf(),
        can_count(svc.store, rt.thread_id),
        next_turn(rt, svc.store, locked) matches Some(turn) && turn.reason
            == GoalTurnReason::ObjectiveUpdated,
    ensures
        ({
            let turn = next_turn(rt, svc.store, locked)->Some_0;
            let after = turn_begun(rt, svc, turn, now_ms);
            next_turn(after.rt, after.svc.store, again) matches Some(next) ==> next.reason
                == GoalTurnReason::ActiveGoal
        }),
{
}

/// Wrapping up happens once: after a turn whose end planned it, the end of
/// another turn on the same goal plans none.
pub proof fn law_wrap_up_is_planned_once(
    rt: RuntimeView,
    svc: ServiceView,
    totals: Option<TokenTotals>,
    now: Clock,
    more: Option<TokenTotals>,
    later: Clock,
)
    requires
        rt.wf(),
        svc.store.wf(),
        finished(rt, svc, totals, now).turn matches Ok(Some(_)),
    ensures
        ({
            let first = finished(rt, svc, totals, now);
            let second = finished(first.rt, first.svc, more, later);
            !(second.turn matches Ok(Some(_)))
        }),
{
    let first = finished(rt, svc, totals, now);
    let t = rt.thread_id;
    accounting::law_booking_keeps_the_goal(
        rt.account,
        svc.store,
        totals,
        AccountingMode::ActiveOnly,
        true,
        now,
        t,
    );
    accounting::law_booking_keeps_the_goal(
        first.rt.account,
        first.svc.store,
        more,
        AccountingMode::ActiveOnly,
        true,
        later,
        t,
    );
}

/// Each turn of an active goal counts its own usage from nothing: between its
/// start and its end the goal's tokens grow by what the turn reports, as long as
/// they can be counted.
pub proof fn law_each_turn_counts_from_nothing(
    rt: RuntimeView,
    svc: ServiceView,
    token: Seq<char>,
    c: TokenTotals,
    now: Clock,
    later: Clock,
)
    requires
        rt.wf(),
        svc.store.wf(),
        is_active(svc.store, rt.thread_id),
        store::has_room(
            svc.store.rows[rt.thread_id],
            accounting::token_delta(accounting::zero_totals(), c),
            accounting::elapsed_secs(now.mono_ns, later.mono_ns),
        ),
    ensures
        ({
            let rt1 = started_for(rt, svc.store, token, true, now);
            let svc1 = ServiceView { store: undeferred(svc.store, rt.thread_id), ..svc };
            let after = finished(rt1, svc1, Some(c), later).svc.store;
            &&& after.rows[rt.thread_id].tokens_used == svc.store.rows[rt.thread_id].tokens_used
                + accounting::token_delta(accounting::zero_totals(), c)
            &&& after.rows[rt.thread_id].time_used_seconds
                == svc.store.rows[rt.thread_id].time_used_seconds + accounting::elapsed_secs(
                now.mono_ns,
                later.mono_ns,
            )
        }),
{
}

/// One failed turn too many blocks the goal: a turn of an active goal that ends
/// with too many failed turns in a row leaves it blocked, unless booking found
/// its budget exhausted or its usage beyond count.
pub proof fn law_too_many_failed_turns_block(
    rt: RuntimeView,
    svc: ServiceView,
    totals: Option<TokenTotals>,
    now: Clock,
)
    requires
        rt.wf(),
        svc.store.wf(),
        is_active(svc.store, rt.thread_id),
        rt.binding matches Some(b) && b.account && b.goal_id == svc.store.rows[rt.thread_id].goal_id
            && rt.tools.too_many(b.goal_id),
    ensures
        ({
            let s = finished(rt, svc, totals, now);
            let g = s.svc.store.rows[rt.thread_id];
            ||| s.turn is Err
            ||| g.status == GoalStatus::Blocked && g.status_reason == Some(EXECUTION_UNAVAILABLE@)
            ||| g.status == GoalStatus::BudgetLimited
        }),
{
}

/// When quota runs out, an active or budget-limited goal becomes usage-limited,
/// which a user may resume from, unless its usage is beyond count.
pub proof fn law_quota_limits_the_goal(
    rt: RuntimeView,
    svc: ServiceView,
    reason: Seq<char>,
    totals: Option<TokenTotals>,
    now: Clock,
    now_ms: i64,
)
    requires
        rt.wf(),
        svc.store.wf(),
        svc.store.rows.contains_key(rt.thread_id),
        svc.store.rows[rt.thread_id].status == GoalStatus::Active
            || svc.store.rows[rt.thread_id].status == GoalStatus::BudgetLimited,
    ensures
        ({
            let s = quota_exhausted(rt, svc, reason, totals, now);
            let g = s.svc.store.rows[rt.thread_id];
            ||| s.turn is Err
            ||| {
                &&& g.status == GoalStatus::UsageLimited
                &&& g.status_reason == Some(reason)
                &&& s.svc.resume_result(rt.thread_id, now_ms) is Ok
            }
        }),
{
}

/// A turn that starts lets go of the mark that put it off, and has no tools behind it.
/// Where the thread has an active goal, the turn is bound to it under its token, its
/// objective counts as told, and time and tokens count from here; otherwise nothing is
/// bound anew.
pub proof fn law_turn_is_bound_to_the_active_goal(
    rt: RuntimeView,
    s: StoreView,
    token: Seq<char>,
    counts: bool,
    now: Clock,
    u: Seq<char>,
)
    ensures
        ({
            let t = rt.thread_id;
            let r = started_for(rt, s, token, counts, now);
            let g = s.rows[t];
            let active = s.rows.contains_key(t) && g.status is Active;
            &&& active ==> {
                &&& r.binding matches Some(b) && b.token == token && b.goal_id == g.goal_id && b.account
                    == counts
                &&& r.last_seen == g.objective_revision
            }
            &&& !active ==> r.binding == rt.binding && r.last_seen == rt.last_seen
            &&& !r.tools.failed && !r.tools.succeeded
            &&& r.tools.goal == rt.tools.goal && r.tools.streak == rt.tools.streak
            &&& r.account == accounting::clock_started(rt.account, s, now)
            &&& r.thread_id == t && r.visible == rt.visible && r.notifying == rt.notifying
                && r.notifications == rt.notifications
            &&& started(rt, s, now).binding == rt.binding
            &&& started(rt, s, now).account == r.account
            &&& started(rt, s, now).tools == r.tools
            &&& !undeferred(s, t).deferred.contains(t)
            &&& u != t ==> undeferred(s, t).deferred.contains(u) == s.deferred.contains(u)
            &&& undeferred(s, t).rows == s.rows && undeferred(s, t).files == s.files
            &&& r.exempt() <==> if active {
                !counts
            } else {
                rt.exempt()
            }
        }),
{
}

/// Whether the goal of the thread is active and known to its account up to `base`, and
/// `c` comes after that, with numbers that are far from their limits.
pub open spec fn counts_up(
    rt: RuntimeView,
    s: StoreView,
    base: TokenTotals,
    c: TokenTotals,
    now: Clock,
) -> bool {
    &&& rt.account.thread_id == rt.thread_id
    &&& s.wf()
    &&& s.rows.contains_key(rt.thread_id)
    &&& s.rows[rt.thread_id].status is Active
    &&& rt.account.baseline == Some((s.rows[rt.thread_id].goal_id, base))
    &&& base.input_tokens <= c.input_tokens <= 0x1fff_ffff_ffff_ffff
    &&& base.output_tokens <= c.output_tokens <= 0x1fff_ffff_ffff_ffff
    &&& base.cached_tokens <= c.cached_tokens
    &&& c.cached_tokens - base.cached_tokens <= c.input_tokens - base.input_tokens
    &&& s.rows[rt.thread_id].tokens_used <= 0x1fff_ffff_ffff_ffff
    &&& s.rows[rt.thread_id].time_used_seconds <= 0x1fff_ffff_ffff_ffff
    &&& rt.account.since matches Some(t) ==> t <= now.mono_ns
}

/// The tokens that a turn used between two totals.
pub open spec fn used_between(base: TokenTotals, c: TokenTotals) -> int {
    (c.input_tokens - base.input_tokens) - (c.cached_tokens - base.cached_tokens) + (c.output_tokens
        - base.output_tokens)
}

/// Whether `h` is the goal `g` with the usage of a turn on it, whatever became of its
/// status.
pub open spec fn has_usage(
    g: GoalView,
    h: GoalView,
    rt: RuntimeView,
    base: TokenTotals,
    c: TokenTotals,
    now: Clock,
) -> bool {
    &&& h.goal_id == g.goal_id && h.objective == g.objective && h.token_budget == g.token_budget
        && h.verify_command == g.verify_command && h.created_at_ms == g.created_at_ms
        && h.objective_revision == g.objective_revision && h.iteration_count == g.iteration_count
    &&& h.tokens_used == g.tokens_used + used_between(base, c)
    &&& h.time_used_seconds == g.time_used_seconds + if rt.account.since is Some {
        (now.mono_ns - rt.account.since->0) / 1_000_000_000
    } else {
        0
    }
}

/// Whether the tokens of a turn use up the budget of `g`.
pub open spec fn uses_up(g: GoalView, base: TokenTotals, c: TokenTotals) -> bool {
    used_between(base, c) > 0 && (g.token_budget matches Some(b) && b <= g.tokens_used + used_between(
        base,
        c,
    ))
}

/// However a turn of an active goal ends, its tokens and its time are booked on the
/// goal, and the turn is bound no more. A turn that ends or is stopped leaves the goal
/// active, or budget-limited once its tokens use up the budget; one that fails blocks it
/// for the reason that is given, unless the budget is gone; and where quota ran out, it
/// is usage-limited.
pub proof fn law_turns_are_booked(
    rt: RuntimeView,
    svc: ServiceView,
    reason: Seq<char>,
    base: TokenTotals,
    c: TokenTotals,
    now: Clock,
)
    requires
        counts_up(rt, svc.store, base, c, now),
        rt.binding matches Some(b) ==> b.goal_id == svc.store.rows[rt.thread_id].goal_id,
        !rt.exempt(),
        used_between(base, c) > 0,
    ensures
        ({
            let t = rt.thread_id;
            let g = svc.store.rows[t];
            let over = uses_up(g, base, c);
            let ended = finished(rt, svc, Some(c), now);
            let stopped = aborted(rt, svc, Some(c), now);
            let broken = failed(rt, svc, reason, Some(c), now);
            let limited = quota_exhausted(rt, svc, reason, Some(c), now);
            &&& has_usage(g, ended.svc.store.rows[t], rt, base, c, now)
            &&& has_usage(g, stopped.svc.store.rows[t], rt, base, c, now)
            &&& has_usage(g, broken.svc.store.rows[t], rt, base, c, now)
            &&& has_usage(g, limited.svc.store.rows[t], rt, base, c, now)
            &&& ended.rt.binding is None && stopped.rt.binding is None && broken.rt.binding is None
            &&& ended.rt.account.baseline == Some((g.goal_id, c)) && ended.rt.account.since is None
            &&& over ==> ended.svc.store.rows[t].status is BudgetLimited
            &&& !over && !rt.tools.failed ==> ended.svc.store.rows[t].status is Active
            &&& over ==> stopped.svc.store.rows[t].status is BudgetLimited
            &&& !over ==> stopped.svc.store.rows[t].status is Active
            &&& stopped.turn == Ok::<Option<TurnView>, StoreErrorView>(None)
            &&& stopped.svc.metrics == svc.metrics && stopped.rt.notifications == rt.notifications
            &&& over ==> broken.svc.store.rows[t].status is BudgetLimited
            &&& !over ==> broken.svc.store.rows[t].status is Blocked
                && broken.svc.store.rows[t].status_reason == Some(reason) && broken.svc.metrics
                == svc.metrics.recorded(Counter::GoalsBlocked, t) && broken.turn == Ok::<
                Option<TurnView>,
                StoreErrorView,
            >(None)
            &&& limited.svc.store.rows[t].status is UsageLimited
            &&& limited.svc.store.rows[t].status_reason == Some(reason)
            &&& limited.svc.metrics == svc.metrics.recorded(Counter::GoalsUsageLimited, t)
            &&& limited.turn == Ok::<Option<TurnView>, StoreErrorView>(None)
            &&& limited.rt.binding == rt.binding
            &&& rt.notifying ==> limited.rt.notifications == rt.notifications.push(
                limited.svc.store.rows[t],
            )
        }),
{
    accounting::law_usage_shows_in_the_row(
        rt.account,
        svc.store,
        base,
        c,
        AccountingMode::ActiveOnly,
        true,
        now,
    );
    accounting::law_usage_shows_in_the_row(
        rt.account,
        svc.store,
        base,
        c,
        AccountingMode::ActiveOrStopped,
        true,
        now,
    );
}

/// A turn to wrap up is planned exactly when the turn that ended used up the budget of
/// a goal that was not told so before: it says so in words, counts as one more turn, is
/// counted as such, and the host hears of the goal.
pub proof fn law_used_up_budget_plans_a_wrap_up(
    rt: RuntimeView,
    svc: ServiceView,
    base: TokenTotals,
    c: TokenTotals,
    now: Clock,
)
    requires
        counts_up(rt, svc.store, base, c, now),
        rt.binding matches Some(b) ==> b.goal_id == svc.store.rows[rt.thread_id].goal_id,
        !rt.exempt(),
        !rt.tools.failed,
        used_between(base, c) > 0,
        svc.store.rows[rt.thread_id].iteration_count < i64::MAX,
    ensures
        ({
            let t = rt.thread_id;
            let g = svc.store.rows[t];
            let due = uses_up(g, base, c) && rt.account.reported != Some(g.goal_id);
            let s = finished(rt, svc, Some(c), now);
            let h = s.svc.store.rows[t];
            &&& !due ==> s.turn == Ok::<Option<TurnView>, StoreErrorView>(None) && s.svc.metrics
                == svc.metrics && s.rt.notifications == rt.notifications
            &&& due ==> {
                &&& s.turn is Ok && s.turn->Ok_0 is Some
                &&& s.turn->Ok_0->0.reason is BudgetLimit
                &&& s.turn->Ok_0->0.goal_id == g.goal_id
                &&& s.turn->Ok_0->0.iteration == g.iteration_count + 1
                &&& s.turn->Ok_0->0.message == steering::budget_limit_text(s.svc.store.resolved(h))
                &&& s.svc.metrics == svc.metrics.recorded(Counter::GoalsBudgetLimited, t)
                &&& s.rt.account.reported == Some(g.goal_id)
                &&& rt.notifying ==> s.rt.notifications == rt.notifications.push(h)
                &&& !rt.notifying ==> s.rt.notifications == rt.notifications
            }
        }),
{
    accounting::law_usage_shows_in_the_row(
        rt.account,
        svc.store,
        base,
        c,
        AccountingMode::ActiveOnly,
        true,
        now,
    );
}

/// What a model's own change of status waits for: the usage of the turn so far is booked
/// while the goal is active, and the clock is read.
pub proof fn law_usage_is_settled_first(
    rt: RuntimeView,
    svc: ServiceView,
    base: TokenTotals,
    c: TokenTotals,
    now: Clock,
)
    requires
        counts_up(rt, svc.store, base, c, now),
    ensures
        ({
            let t = rt.thread_id;
            let s = settled(rt, svc, Some(c), now);
            &&& has_usage(svc.store.rows[t], s.svc.store.rows[t], rt, base, c, now)
            &&& s.turn == Ok::<Option<TurnView>, StoreErrorView>(None)
            &&& s.rt.account.baseline == Some((svc.store.rows[t].goal_id, c))
            &&& s.rt.account.since is None
            &&& s.rt.binding == rt.binding && s.rt.tools == rt.tools && s.rt.last_seen
                == rt.last_seen
            &&& s.svc.metrics == svc.metrics
        }),
{
    let first = accounting::booked(
        rt.account,
        svc.store,
        Some(c),
        AccountingMode::ActiveStatusOnly,
        false,
        now,
    );
    accounting::law_usage_shows_in_the_row(
        rt.account,
        svc.store,
        base,
        c,
        AccountingMode::ActiveStatusOnly,
        false,
        now,
    );
    assert(first.account.baseline == Some((svc.store.rows[rt.thread_id].goal_id, c)));
}

/// A turn that failed with its goal's commands for the third time in a row blocks the
/// goal, and says why.
pub proof fn law_broken_commands_block(
    rt: RuntimeView,
    svc: ServiceView,
    base: TokenTotals,
    c: TokenTotals,
    now: Clock,
)
    requires
        counts_up(rt, svc.store, base, c, now),
        rt.binding matches Some(b) && b.account && b.goal_id == svc.store.rows[rt.thread_id].goal_id,
        !uses_up(svc.store.rows[rt.thread_id], base, c),
        used_between(base, c) > 0,
        rt.tools.failed,
        !rt.tools.succeeded,
        rt.tools.goal == Some(svc.store.rows[rt.thread_id].goal_id),
    ensures
        ({
            let t = rt.thread_id;
            let s = finished(rt, svc, Some(c), now);
            let h = s.svc.store.rows[t];
            &&& rt.tools.streak >= 2 ==> {
                &&& h.status is Blocked
                &&& h.status_reason == Some(
                    "execution unavailable after 3 consecutive failed execution turns"@,
                )
                &&& s.svc.metrics == svc.metrics.recorded(Counter::GoalsBlocked, t)
                &&& s.rt.tools.streak == 0
                &&& s.turn == Ok::<Option<TurnView>, StoreErrorView>(None)
            }
            &&& 0 <= rt.tools.streak < 2 ==> h.status is Active && s.rt.tools.streak
                == rt.tools.streak + 1 && s.svc.metrics == svc.metrics
        }),
{
    accounting::law_usage_shows_in_the_row(
        rt.account,
        svc.store,
        base,
        c,
        AccountingMode::ActiveOnly,
        true,
        now,
    );
}

/// When an idle thread's goal drives a turn, and which: an active goal does that is not
/// put off, with the lock held and the tools not known to be hidden. The turn tells the
/// objective in full, as a new one where the model was not told of it yet, and is the
/// goal's next.
pub proof fn law_next_turn(rt: RuntimeView, s: StoreView, locked: bool)
    requires
        s.rows.contains_key(rt.thread_id) ==> s.rows[rt.thread_id].iteration_count < i64::MAX,
    ensures
        ({
            let t = rt.thread_id;
            let g = s.rows[t];
            let turn = next_turn(rt, s, locked);
            &&& turn is Some <==> {
                &&& locked
                &&& rt.visible != Some(false)
                &&& !s.deferred.contains(t)
                &&& s.rows.contains_key(t)
                &&& g.status is Active
            }
            &&& turn matches Some(n) ==> {
                &&& n.goal_id == g.goal_id
                &&& n.iteration == g.iteration_count + 1
                &&& n.objective == s.resolved(g).objective
                &&& n.revision == g.objective_revision
                &&& rt.last_seen < g.objective_revision ==> n.reason is ObjectiveUpdated && n.message
                    == steering::objective_updated_text(s.resolved(g))
                &&& rt.last_seen >= g.objective_revision ==> n.reason is ActiveGoal && n.message
                    == steering::continuation_text(s.resolved(g), None)
            }
            &&& put_off(rt, s, locked) <==> locked && rt.visible != Some(false) && s.deferred.contains(t)
            &&& put_off(rt, s, locked) ==> turn is None
        }),
{
}

/// What the start of a planned turn leaves: the goal counts the turn and is otherwise as
/// it was. Where the goal goes on, the start is counted and the host hears of the goal
/// with its objective in full; a new objective then counts as told.
pub proof fn law_planned_turn_starts(
    rt: RuntimeView,
    svc: ServiceView,
    turn: TurnView,
    now_ms: i64,
)
    requires
        svc.store.rows.contains_key(rt.thread_id),
        svc.store.rows[rt.thread_id].goal_id == turn.goal_id,
    ensures
        ({
            let t = rt.thread_id;
            let g = svc.store.rows[t];
            let s = turn_begun(rt, svc, turn, now_ms);
            let h = s.svc.store.rows[t];
            &&& s.svc.store.rows.contains_key(t)
            &&& h.iteration_count == turn.iteration
            &&& h.status == g.status && h.status_reason == g.status_reason
            &&& h.tokens_used == g.tokens_used && h.token_budget == g.token_budget && h.objective
                == g.objective && h.objective_revision == g.objective_revision && h.goal_id
                == g.goal_id && h.time_used_seconds == g.time_used_seconds
            &&& s.svc.store.deferred == svc.store.deferred
            &&& turn.reason is BudgetLimit ==> s.svc.metrics == svc.metrics && s.rt == rt
            &&& !(turn.reason is BudgetLimit) ==> {
                &&& s.svc.metrics == svc.metrics.recorded(Counter::ContinuationsStarted, t)
                &&& rt.notifying ==> s.rt.notifications == rt.notifications.push(
                    GoalView { objective: turn.objective, ..h },
                )
                &&& !rt.notifying ==> s.rt.notifications == rt.notifications
            }
            &&& turn.reason is ObjectiveUpdated ==> s.rt.last_seen == turn.revision
            &&& !(turn.reason is ObjectiveUpdated) ==> s.rt.last_seen == rt.last_seen
            &&& s.rt.binding == rt.binding && s.rt.account == rt.account
        }),
{
}

/// A goal that is armed counts from the totals that it is given, with the clock stopped;
/// without one nothing is counted. Nothing else of the thread changes.
pub proof fn law_armed_and_disarmed(rt: RuntimeView, id: Seq<char>, totals: TokenTotals)
    ensures
        armed(rt, id, totals).account.baseline == Some((id, totals)),
        armed(rt, id, totals).account.since is None,
        armed(rt, id, totals).account.reported == rt.account.reported,
        armed(rt, id, totals).account.thread_id == rt.account.thread_id,
        disarmed(rt).account.baseline is None,
        disarmed(rt).account.since is None,
        disarmed(rt).account.reported == rt.account.reported,
        armed(rt, id, totals).binding == rt.binding && disarmed(rt).binding == rt.binding,
        armed(rt, id, totals).last_seen == rt.last_seen && disarmed(rt).last_seen == rt.last_seen,
        armed(rt, id, totals).tools == rt.tools && disarmed(rt).tools == rt.tools,
        armed(rt, id, totals).visible == rt.visible && disarmed(rt).visible == rt.visible,
        rt.account.baseline matches Some(b) ==> known_usage(rt) == b.1,
        rt.account.baseline is None ==> known_usage(rt).input_tokens == 0 && known_usage(
            rt,
        ).output_tokens == 0 && known_usage(rt).cached_tokens == 0,
{
}

/// A goal that is resumed has its clock started, and books nothing. One that is paused
/// has the time booked that ran, and no tokens; the clock stops and the turn is bound no
/// more.
pub proof fn law_pausing_stops_the_clock(
    rt: RuntimeView,
    svc: ServiceView,
    base: TokenTotals,
    since: u64,
    now: Clock,
)
    requires
        rt.account.thread_id == rt.thread_id,
        svc.store.wf(),
        svc.store.rows.contains_key(rt.thread_id),
        svc.store.rows[rt.thread_id].status is Paused,
        rt.account.baseline == Some((svc.store.rows[rt.thread_id].goal_id, base)),
        rt.account.since == Some(since),
        since <= now.mono_ns,
        0 <= svc.store.rows[rt.thread_id].tokens_used <= 0x1fff_ffff_ffff_ffff,
        0 <= svc.store.rows[rt.thread_id].time_used_seconds <= 0x1fff_ffff_ffff_ffff,
    ensures
        ({
            let t = rt.thread_id;
            let g = svc.store.rows[t];
            let s = status_changed(rt, svc, GoalStatus::Paused, now);
            let h = s.svc.store.rows[t];
            &&& h.time_used_seconds == g.time_used_seconds + (now.mono_ns - since) / 1_000_000_000
            &&& h.tokens_used == g.tokens_used
            &&& h.status is Paused
            &&& s.rt.account.since is None
            &&& s.rt.account.baseline == Some((g.goal_id, base))
            &&& s.rt.binding is None
            &&& s.svc.metrics == svc.metrics
            &&& status_changed(rt, svc, GoalStatus::Active, now).svc == svc
            &&& status_changed(rt, svc, GoalStatus::Active, now).rt.account
                == accounting::clock_started(rt.account, svc.store, now)
            &&& status_changed(rt, svc, GoalStatus::Active, now).rt.binding == rt.binding
        }),
{
}

/// Of a new thread nothing is known.
pub proof fn law_new_thread_is_blank(t: Seq<char>)
    ensures
        unknown_thread(t).thread_id == t,
        unknown_thread(t).account.thread_id == t,
        unknown_thread(t).account.baseline is None,
        unknown_thread(t).account.since is None,
        unknown_thread(t).account.reported is None,
        unknown_thread(t).binding is None,
        !unknown_thread(t).notifying,
        unknown_thread(t).notifications.len() == 0,
        unknown_thread(t).last_seen == 0,
        unknown_thread(t).visible is None,
        unknown_thread(t).tools.streak == 0,
        unknown_thread(t).tools.goal is None,
{
}

/// Putting off the turns of a thread marks it, and changes no goal and no count.
pub proof fn law_putting_off_marks_the_thread(svc: ServiceView, t: Seq<char>, u: Seq<char>)
    ensures
        put_off_on(svc, t).store.deferred.contains(t),
        u != t ==> put_off_on(svc, t).store.deferred.contains(u) == svc.store.deferred.contains(u),
        put_off_on(svc, t).store.rows == svc.store.rows,
        put_off_on(svc, t).store.files == svc.store.files,
        put_off_on(svc, t).metrics == svc.metrics,
{
}

/// Whether the goal of the thread is known to its account up to `base`, and `c` comes
/// after that by its output alone, with numbers that are far from their limits and no
/// clock running.
pub open spec fn answers_only(
    rt: RuntimeView,
    s: StoreView,
    base: TokenTotals,
    c: TokenTotals,
) -> bool {
    &&& rt.account.thread_id == rt.thread_id
    &&& s.wf()
    &&& s.rows.contains_key(rt.thread_id)
    &&& rt.account.baseline == Some((s.rows[rt.thread_id].goal_id, base))
    &&& rt.account.since is None
    &&& base.input_tokens == c.input_tokens && base.cached_tokens == c.cached_tokens
    &&& base.output_tokens < c.output_tokens <= 0x1fff_ffff_ffff_ffff
    &&& s.rows[rt.thread_id].tokens_used <= 0x1fff_ffff_ffff_ffff
    &&& s.rows[rt.thread_id].time_used_seconds <= 0x1fff_ffff_ffff_ffff
}

/// In which statuses a turn is still booked: at its end on an active or budget-limited
/// goal, when it is stopped, fails or finds no quota on any that is not complete, and
/// before a model's own change of status on an active one only.
pub proof fn law_turns_are_booked_by_status(
    rt: RuntimeView,
    svc: ServiceView,
    reason: Seq<char>,
    base: TokenTotals,
    c: TokenTotals,
    now: Clock,
)
    requires
        answers_only(rt, svc.store, base, c),
        rt.binding is None,
    ensures
        ({
            let t = rt.thread_id;
            let g = svc.store.rows[t];
            let more = g.tokens_used + (c.output_tokens - base.output_tokens);
            let ended = finished(rt, svc, Some(c), now).svc.store.rows[t];
            let stopped = aborted(rt, svc, Some(c), now).svc.store.rows[t];
            let broken = failed(rt, svc, reason, Some(c), now).svc.store.rows[t];
            let limited = quota_exhausted(rt, svc, reason, Some(c), now).svc.store.rows[t];
            let closed = settled(rt, svc, Some(c), now).svc.store.rows[t];
            &&& g.status is Active || g.status is BudgetLimited ==> ended.tokens_used == more
            &&& !(g.status is Active || g.status is BudgetLimited) ==> ended == g
            &&& !(g.status is Complete) ==> stopped.tokens_used == more && broken.tokens_used == more
                && limited.tokens_used == more
            &&& g.status is Complete ==> stopped == g && broken == g && limited == g
            &&& g.status is Active ==> closed.tokens_used == more
            &&& !(g.status is Active) ==> closed.tokens_used == g.tokens_used
            &&& !(g.status is Active) ==> ended.status == g.status && stopped.status == g.status
                && broken.status == g.status && closed.status == g.status
            &&& g.status is Paused || g.status is Blocked ==> limited.status == g.status
        }),
{
}

} // verus!
