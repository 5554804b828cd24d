//! What users do with goals.
//!
//! A user speaks of a thread, not of a goal: each operation reads the thread's
//! goal and then acts on that one.

use crate::accounting::Clock;
use crate::metrics;
use crate::metrics::{Counter, GoalMetrics, MetricsView};
use crate::objective_file;
use crate::outside;
use crate::store;
use crate::store::{GoalStore, GoalStoreError, StoreErrorView, StoreView};
use crate::text;
use crate::types;
use crate::types::{
    CreateGoalRequest, Goal, GoalStatus, GoalValidationError, GoalView, RequestView,
};
use vstd::prelude::*;
use vstd::string::*;

verus! {

/// The surroundings of an operation: the moment, the largest budget that a goal
/// may have, and whether an objective file can be written.
#[derive(Debug, Clone, Copy, PartialEq, Eq, Structural)]
pub struct Env {
    pub now: Clock,
    pub cap: i64,
    pub writable: bool,
}

/// Why a user's operation failed.
#[derive(Debug, Clone, PartialEq, Eq)]
pub enum GoalServiceError {
    NoGoal(String),
    NotResumable { status: GoalStatus },
    LockTimeout,
    Store(GoalStoreError),
}

/// The mathematical value of a [`GoalServiceError`].
pub enum ServiceErrorView {
    NoGoal(Seq<char>),
    NotResumable { status: GoalStatus },
    LockTimeout,
    Store(StoreErrorView),
}

impl View for GoalServiceError {
    type V = ServiceErrorView;

    open spec fn view(&self) -> ServiceErrorView {
        match self {
            GoalServiceError::NoGoal(t) => ServiceErrorView::NoGoal(t@),
            GoalServiceError::NotResumable { status } => ServiceErrorView::NotResumable {
                status: *status,
            },
            GoalServiceError::LockTimeout => ServiceErrorView::LockTimeout,
            GoalServiceError::Store(e) => ServiceErrorView::Store(e@),
        }
    }
}

/// The name of a status as it is declared.
pub open spec fn status_debug(s: GoalStatus) -> Seq<char> {
    match s {
        GoalStatus::Active => "Active"@,
        GoalStatus::Paused => "Paused"@,
        GoalStatus::Blocked => "Blocked"@,
        GoalStatus::UsageLimited => "UsageLimited"@,
        GoalStatus::BudgetLimited => "BudgetLimited"@,
        GoalStatus::Complete => "Complete"@,
    }
}

/// The name of a status as it is declared.
pub fn status_debug_name(s: GoalStatus) -> (r: &'static str)
    ensures
        r@ == status_debug(s),
{
    match s {
        GoalStatus::Active => "Active",
        GoalStatus::Paused => "Paused",
        GoalStatus::Blocked => "Blocked",
        GoalStatus::UsageLimited => "UsageLimited",
        GoalStatus::BudgetLimited => "BudgetLimited",
        GoalStatus::Complete => "Complete",
    }
}

/// The text of a service error.
pub open spec fn service_error_text(e: ServiceErrorView) -> Seq<char> {
    match e {
        ServiceErrorView::NoGoal(t) => "no goal on thread "@ + t,
        ServiceErrorView::NotResumable { status } => "goal is "@ + status_debug(status)
            + ", not resumable by user"@,
        ServiceErrorView::LockTimeout =>
            "goal_state_lock acquisition timed out; operation aborted to avoid racing idle continuation"@,
        ServiceErrorView::Store(e) => store::store_error_text(e),
    }
}

impl GoalServiceError {
    /// The text of the error.
    pub fn message(&self) -> (r: String)
        ensures
            r@ == service_error_text(self@),
    {
        match self {
            GoalServiceError::NoGoal(t) => {
                let mut out: String = "no goal on thread ".to_owned();
                out.append(t.as_str());
                out
            },
            GoalServiceError::NotResumable { status } => {
                let mut out: String = "goal is ".to_owned();
                out.append(status_debug_name(*status));
                out.append(", not resumable by user");
                out
            },
            GoalServiceError::LockTimeout =>
                "goal_state_lock acquisition timed out; operation aborted to avoid racing idle continuation".to_owned(),
            GoalServiceError::Store(e) => e.message(),
        }
    }
}

/// A new goal, and whether the thread had one before.
#[derive(Debug)]
pub struct GoalSetOutcome {
    pub goal: Goal,
    pub replaced_existing: bool,
}

/// The table of goals, and the counts that go with it.
pub struct GoalService {
    pub store: GoalStore,
    pub metrics: GoalMetrics,
}

/// The mathematical value of a [`GoalService`].
#[verifier::ext_equal]
pub struct ServiceView {
    pub store: StoreView,
    pub metrics: MetricsView,
}

impl View for GoalService {
    type V = ServiceView;

    open spec fn view(&self) -> ServiceView {
        ServiceView { store: self.store@, metrics: self.metrics@ }
    }
}

/// The mathematical value of a result with a goal.
pub open spec fn service_result(r: Result<Goal, GoalServiceError>) -> Result<
    GoalView,
    ServiceErrorView,
> {
    match r {
        Ok(g) => Ok(g@),
        Err(e) => Err(e@),
    }
}

/// A result of the table as a result of the service.
pub open spec fn lifted(r: Result<GoalView, StoreErrorView>) -> Result<GoalView, ServiceErrorView> {
    match r {
        Ok(g) => Ok(g),
        Err(e) => Err(ServiceErrorView::Store(e)),
    }
}

/// What becomes of an objective before it goes to its row.
pub struct Prepared {
    pub files: Map<Seq<char>, Seq<char>>,
    pub stored: Result<Seq<char>, ServiceErrorView>,
}

/// An objective that fits its row goes there, and a file left from an earlier
/// one is removed. A longer one goes to the thread's file, and its row takes the
/// marker; where there is nowhere to keep files, it is left to be refused.
pub open spec fn prepared(
    s: StoreView,
    t: Seq<char>,
    objective: Seq<char>,
    writable: bool,
) -> Prepared {
    let text = text::trimmed(objective);
    let too_long = ServiceErrorView::Store(
        StoreErrorView::Validation(GoalValidationError::ObjectiveTooLong),
    );
    if !objective_file::too_long_for_row(text) {
        Prepared {
            files: if s.goals_dir is Some {
                s.files.remove(objective_file::file_name(t))
            } else {
                s.files
            },
            stored: Ok(text),
        }
    } else if text.len() > objective_file::MAX_FILE_OBJECTIVE_CHARS {
        Prepared { files: s.files, stored: Err(too_long) }
    } else if s.goals_dir is None {
        Prepared { files: s.files, stored: Ok(text) }
    } else if !writable {
        Prepared { files: s.files, stored: Err(too_long) }
    } else {
        Prepared {
            files: s.files.insert(objective_file::file_name(t), text),
            stored: Ok(objective_file::marker(t)),
        }
    }
}

/// A request with its objective as its row takes it.
pub open spec fn stored_request(
    t: Seq<char>,
    stored: Seq<char>,
    budget: Option<i64>,
    verify: Option<Seq<char>>,
) -> RequestView {
    RequestView { thread_id: t, objective: stored, token_budget: budget, verify_command: verify }
}

impl ServiceView {
    /// What setting a goal yields: a goal in place of whatever the thread had.
    pub open spec fn set_result(
        self,
        t: Seq<char>,
        objective: Seq<char>,
        budget: Option<i64>,
        verify: Option<Seq<char>>,
        goal_id: Seq<char>,
        env: Env,
    ) -> Result<GoalView, ServiceErrorView> {
        match prepared(self.store, t, objective, env.writable).stored {
            Ok(stored) => lifted(
                self.store.replaced(
                    stored_request(t, stored, budget, verify),
                    goal_id,
                    env.cap,
                    env.now.wall_ms,
                ),
            ),
            Err(e) => Err(e),
        }
    }

    /// The service after setting a goal.
    pub open spec fn after_set(
        self,
        t: Seq<char>,
        objective: Seq<char>,
        budget: Option<i64>,
        verify: Option<Seq<char>>,
        goal_id: Seq<char>,
        env: Env,
    ) -> ServiceView {
        let filed = StoreView {
            files: prepared(self.store, t, objective, env.writable).files,
            ..self.store
        };
        match self.set_result(t, objective, budget, verify, goal_id, env) {
            Ok(g) => ServiceView {
                store: filed.without_goal(t).with_goal(t, g),
                metrics: self.metrics.recorded_set(t, self.store.rows.contains_key(t)),
            },
            Err(_) => ServiceView { store: filed, ..self },
        }
    }

    /// The service after an operation on thread `t` that yields `r`, counted as
    /// `c` where it succeeds.
    pub open spec fn after(
        self,
        t: Seq<char>,
        r: Result<GoalView, ServiceErrorView>,
        c: Counter,
    ) -> ServiceView {
        match r {
            Ok(g) => ServiceView {
                store: self.store.with_goal(t, g),
                metrics: self.metrics.recorded(c, t),
            },
            Err(_) => self,
        }
    }

    /// What pausing yields.
    pub open spec fn pause_result(self, t: Seq<char>, now_ms: i64) -> Result<
        GoalView,
        ServiceErrorView,
    > {
        match self.store.goal(t) {
            None => Err(ServiceErrorView::NoGoal(t)),
            Some(g) => lifted(self.store.paused(t, g.goal_id, now_ms)),
        }
    }

    /// What resuming yields.
    pub open spec fn resume_result(self, t: Seq<char>, now_ms: i64) -> Result<
        GoalView,
        ServiceErrorView,
    > {
        match self.store.goal(t) {
            None => Err(ServiceErrorView::NoGoal(t)),
            Some(g) => if !types::resumable(g.status) {
                Err(ServiceErrorView::NotResumable { status: g.status })
            } else {
                lifted(self.store.resumed(t, g.goal_id, now_ms))
            },
        }
    }

    /// What changing the budget yields.
    pub open spec fn budget_result(self, t: Seq<char>, budget: i64, env: Env) -> Result<
        GoalView,
        ServiceErrorView,
    > {
        match self.store.goal(t) {
            None => Err(ServiceErrorView::NoGoal(t)),
            Some(g) => lifted(
                self.store.rebudgeted(t, g.goal_id, budget, env.cap, env.now.wall_ms),
            ),
        }
    }

    /// What editing the objective yields.
    pub open spec fn edit_result(self, t: Seq<char>, objective: Seq<char>, env: Env) -> Result<
        GoalView,
        ServiceErrorView,
    > {
        match self.store.goal(t) {
            None => Err(ServiceErrorView::NoGoal(t)),
            Some(g) => match prepared(self.store, t, objective, env.writable).stored {
                Ok(stored) => lifted(self.store.edited(t, g.goal_id, stored, env.now.wall_ms)),
                Err(e) => Err(e),
            },
        }
    }

    /// The service after editing the objective.
    pub open spec fn after_edit(self, t: Seq<char>, objective: Seq<char>, env: Env) -> ServiceView {
        if self.store.goal(t) is None {
            self
        } else {
            let filed = ServiceView {
                store: StoreView {
                    files: prepared(self.store, t, objective, env.writable).files,
                    ..self.store
                },
                ..self
            };
            filed.after(t, self.edit_result(t, objective, env), Counter::GoalsEdited)
        }
    }

    /// The service after clearing a thread.
    pub open spec fn after_clear(self, t: Seq<char>) -> ServiceView {
        if self.store.goal(t) is None {
            ServiceView { store: self.store.without_goal(t), ..self }
        } else {
            let cleared = self.store.without_goal(t);
            ServiceView {
                store: StoreView {
                    files: if cleared.goals_dir is Some {
                        cleared.files.remove(objective_file::file_name(t))
                    } else {
                        cleared.files
                    },
                    ..cleared
                },
                metrics: self.metrics.recorded(Counter::GoalsCleared, t),
            }
        }
    }
}

impl GoalService {
    /// The table is consistent.
    pub open spec fn wf(self) -> bool {
        self.store.wf()
    }

    /// A service over a table, with nothing counted yet.
    pub fn new(store: GoalStore) -> (r: GoalService)
        requires
            store.wf(),
        ensures
            r.wf(),
            r@ == (ServiceView {
                store: store@,
                metrics: MetricsView { counts: metrics::no_counts(), events: Seq::empty() },
            }),
    {
        GoalService { store, metrics: GoalMetrics::new() }
    }

    /// The table.
    pub fn store(&self) -> (r: &GoalStore)
        ensures
            *r == self.store,
    {
        &self.store
    }

    /// The name and text of the file that an objective needs, if it needs one
    /// that can be kept.
    pub fn file_to_write(&self, thread_id: &str, objective: &str) -> (r: Option<(String, String)>)
        ensures
            ({
                let text = text::trimmed(objective@);
                match r {
                    Some((name, contents)) => {
                        &&& name@ == objective_file::file_name(thread_id@)
                        &&& contents@ == text
                        &&& objective_file::too_long_for_row(text)
                        &&& text.len() <= objective_file::MAX_FILE_OBJECTIVE_CHARS
                        &&& self@.store.goals_dir is Some
                    },
                    None => {
                        ||| !objective_file::too_long_for_row(text)
                        ||| text.len() > objective_file::MAX_FILE_OBJECTIVE_CHARS
                        ||| self@.store.goals_dir is None
                    },
                }
            }),
    {
        let trimmed: &str = text::trim(objective);
        if !objective_file::needs_file_backing(trimmed) || trimmed.unicode_len()
            > objective_file::MAX_FILE_OBJECTIVE_CHARS || self.store.goals_dir().is_none() {
            None
        } else {
            Some((objective_file::file_name_for(thread_id), trimmed.to_owned()))
        }
    }

    /// Puts an objective where it belongs, and returns what its row takes.
    pub fn prepare_objective(&mut self, thread_id: &str, objective: &str, writable: bool) -> (r:
        Result<String, GoalServiceError>)
        requires
            old(self).wf(),
        ensures
            final(self).wf(),
            match prepared(old(self)@.store, thread_id@, objective@, writable).stored {
                Ok(text) => r is Ok && r->Ok_0@ == text,
                Err(e) => r is Err && r->Err_0@ == e,
            },
            final(self)@ == (ServiceView {
                store: StoreView {
                    files: prepared(old(self)@.store, thread_id@, objective@, writable).files,
                    ..old(self)@.store
                },
                ..old(self)@
            }),
    {
        let trimmed: &str = text::trim(objective);
        let name: String = objective_file::file_name_for(thread_id);
        if !objective_file::needs_file_backing(trimmed) {
            if self.store.goals_dir().is_some() {
                self.store.remove_file(name.as_str());
            }
            return Ok(trimmed.to_owned());
        }
        if trimmed.unicode_len() > objective_file::MAX_FILE_OBJECTIVE_CHARS {
            return Err(
                GoalServiceError::Store(
                    GoalStoreError::Validation(GoalValidationError::ObjectiveTooLong),
                ),
            );
        }
        if self.store.goals_dir().is_none() {
            return Ok(trimmed.to_owned());
        }
        if !writable {
            return Err(
                GoalServiceError::Store(
                    GoalStoreError::Validation(GoalValidationError::ObjectiveTooLong),
                ),
            );
        }
        self.store.write_file(name.as_str(), trimmed);
        Ok(objective_file::marker_for(thread_id))
    }

    /// Sets a goal, and says whether the thread had one.
    pub fn set_with_verify_outcome(
        &mut self,
        thread_id: &str,
        objective: &str,
        token_budget: Option<i64>,
        verify_command: Option<String>,
        goal_id: &str,
        env: Env,
    ) -> (r: Result<GoalSetOutcome, GoalServiceError>)
        requires
            old(self).wf(),
        ensures
            final(self).wf(),
            match old(self)@.set_result(
                thread_id@,
                objective@,
                token_budget,
                text::opt_text(verify_command),
                goal_id@,
                env,
            ) {
                Ok(g) => {
                    &&& r is Ok
                    &&& r->Ok_0.goal@ == g
                    &&& r->Ok_0.replaced_existing == old(self)@.store.rows.contains_key(thread_id@)
                },
                Err(e) => r is Err && r->Err_0@ == e,
            },
            final(self)@ == old(self)@.after_set(
                thread_id@,
                objective@,
                token_budget,
                text::opt_text(verify_command),
                goal_id@,
                env,
            ),
    {
        let replaced_existing: bool = self.store.read(thread_id).is_some();
        let stored: String = match self.prepare_objective(thread_id, objective, env.writable) {
            Ok(s) => s,
            Err(e) => {
                return Err(e);
            },
        };
        let req: CreateGoalRequest = CreateGoalRequest {
            thread_id: thread_id.to_owned(),
            objective: stored,
            token_budget,
            verify_command,
        };
        match self.store.replace(&req, goal_id, env.cap, env.now.wall_ms) {
            Ok(goal) => {
                self.metrics.record_set(thread_id, replaced_existing);
                Ok(GoalSetOutcome { goal, replaced_existing })
            },
            Err(e) => Err(GoalServiceError::Store(e)),
        }
    }

    /// Sets a goal with a verify command.
    pub fn set_with_verify(
        &mut self,
        thread_id: &str,
        objective: &str,
        token_budget: Option<i64>,
        verify_command: Option<String>,
        goal_id: &str,
        env: Env,
    ) -> (r: Result<Goal, GoalServiceError>)
        requires
            old(self).wf(),
        ensures
            final(self).wf(),
            service_result(r) == old(self)@.set_result(
                thread_id@,
                objective@,
                token_budget,
                text::opt_text(verify_command),
                goal_id@,
                env,
            ),
            final(self)@ == old(self)@.after_set(
                thread_id@,
                objective@,
                token_budget,
                text::opt_text(verify_command),
                goal_id@,
                env,
            ),
    {
        match self.set_with_verify_outcome(
            thread_id,
            objective,
            token_budget,
            verify_command,
            goal_id,
            env,
        ) {
            Ok(o) => Ok(o.goal),
            Err(e) => Err(e),
        }
    }

    /// Sets a goal.
    pub fn set(
        &mut self,
        thread_id: &str,
        objective: &str,
        token_budget: Option<i64>,
        goal_id: &str,
        env: Env,
    ) -> (r: Result<Goal, GoalServiceError>)
        requires
            old(self).wf(),
        ensures
            final(self).wf(),
            service_result(r) == old(self)@.set_result(
                thread_id@,
                objective@,
                token_budget,
                None,
                goal_id@,
                env,
            ),
            final(self)@ == old(self)@.after_set(
                thread_id@,
                objective@,
                token_budget,
                None,
                goal_id@,
                env,
            ),
    {
        self.set_with_verify(thread_id, objective, token_budget, None, goal_id, env)
    }

    /// The goal of a thread.
    pub fn show(&self, thread_id: &str) -> (r: Option<Goal>)
        requires
            self.wf(),
        ensures
            store::opt_goal(r) == self@.store.goal(thread_id@),
    {
        self.store.read(thread_id)
    }

    /// A goal with its objective as it reads in full.
    pub fn resolve_objective(&self, goal: Goal) -> (r: Goal)
        requires
            self.wf(),
        ensures
            r@ == self@.store.resolved(goal@),
    {
        self.store.resolve_objective(goal)
    }

    fn current(&self, thread_id: &str) -> (r: Result<Goal, GoalServiceError>)
        requires
            self.wf(),
        ensures
            match self@.store.goal(thread_id@) {
                Some(g) => r is Ok && r->Ok_0@ == g,
                None => r is Err && r->Err_0@ == ServiceErrorView::NoGoal(thread_id@),
            },
    {
        match self.store.read(thread_id) {
            Some(g) => Ok(g),
            None => Err(GoalServiceError::NoGoal(thread_id.to_owned())),
        }
    }

    /// Pauses the thread's goal.
    pub fn pause(&mut self, thread_id: &str, now_ms: i64) -> (r: Result<Goal, GoalServiceError>)
        requires
            old(self).wf(),
        ensures
            final(self).wf(),
            service_result(r) == old(self)@.pause_result(thread_id@, now_ms),
            final(self)@ == old(self)@.after(thread_id@, service_result(r), Counter::GoalsPaused),
    {
        let goal: Goal = match self.current(thread_id) {
            Ok(g) => g,
            Err(e) => {
                return Err(e);
            },
        };
        match self.store.pause(thread_id, goal.goal_id.as_str(), now_ms) {
            Ok(g) => {
                self.metrics.record_pause(thread_id);
                Ok(g)
            },
            Err(e) => Err(GoalServiceError::Store(e)),
        }
    }

    /// Resumes the thread's goal.
    pub fn resume(&mut self, thread_id: &str, now_ms: i64) -> (r: Result<Goal, GoalServiceError>)
        requires
            old(self).wf(),
        ensures
            final(self).wf(),
            service_result(r) == old(self)@.resume_result(thread_id@, now_ms),
            final(self)@ == old(self)@.after(thread_id@, service_result(r), Counter::GoalsResumed),
    {
        let goal: Goal = match self.current(thread_id) {
            Ok(g) => g,
            Err(e) => {
                return Err(e);
            },
        };
        if !goal.status.user_resumable() {
            return Err(GoalServiceError::NotResumable { status: goal.status });
        }
        match self.store.resume(thread_id, goal.goal_id.as_str(), now_ms) {
            Ok(g) => {
                self.metrics.record_resume(thread_id);
                Ok(g)
            },
            Err(e) => Err(GoalServiceError::Store(e)),
        }
    }

    /// Gives the thread's goal a new budget; its status and usage stay.
    pub fn update_budget(&mut self, thread_id: &str, token_budget: i64, env: Env) -> (r: Result<
        Goal,
        GoalServiceError,
    >)
        requires
            old(self).wf(),
        ensures
            final(self).wf(),
            service_result(r) == old(self)@.budget_result(thread_id@, token_budget, env),
            final(self)@ == match service_result(r) {
                Ok(g) => ServiceView {
                    store: old(self)@.store.with_goal(thread_id@, g),
                    ..old(self)@
                },
                Err(_) => old(self)@,
            },
    {
        let goal: Goal = match self.current(thread_id) {
            Ok(g) => g,
            Err(e) => {
                return Err(e);
            },
        };
        match self.store.update_budget(
            thread_id,
            goal.goal_id.as_str(),
            token_budget,
            env.cap,
            env.now.wall_ms,
        ) {
            Ok(g) => Ok(g),
            Err(e) => Err(GoalServiceError::Store(e)),
        }
    }

    /// Takes the thread's goal away; says whether there was one.
    pub fn clear(&mut self, thread_id: &str) -> (r: bool)
        requires
            old(self).wf(),
        ensures
            final(self).wf(),
            r == old(self)@.store.rows.contains_key(thread_id@),
            final(self)@ == old(self)@.after_clear(thread_id@),
    {
        let cleared: bool = self.store.clear(thread_id);
        if cleared {
            if self.store.goals_dir().is_some() {
                let name: String = objective_file::file_name_for(thread_id);
                self.store.remove_file(name.as_str());
            }
            self.metrics.record_clear(thread_id);
        }
        cleared
    }

    /// Gives the thread's goal a new objective.
    pub fn edit(&mut self, thread_id: &str, objective: &str, env: Env) -> (r: Result<
        Goal,
        GoalServiceError,
    >)
        requires
            old(self).wf(),
        ensures
            final(self).wf(),
            service_result(r) == old(self)@.edit_result(thread_id@, objective@, env),
            final(self)@ == old(self)@.after_edit(thread_id@, objective@, env),
    {
        let goal: Goal = match self.current(thread_id) {
            Ok(g) => g,
            Err(e) => {
                return Err(e);
            },
        };
        let stored: String = match self.prepare_objective(thread_id, objective, env.writable) {
            Ok(s) => s,
            Err(e) => {
                return Err(e);
            },
        };
        match self.store.edit_objective(
            thread_id,
            goal.goal_id.as_str(),
            stored.as_str(),
            env.now.wall_ms,
        ) {
            Ok(g) => {
                self.metrics.record_edit(thread_id);
                Ok(g)
            },
            Err(e) => Err(GoalServiceError::Store(e)),
        }
    }
}

/// A goal id made of a time and random digits.
pub open spec fn goal_id_text(ts: i64, rand: Seq<char>) -> Seq<char> {
    "goal-"@ + text::int_text(ts as int) + "-"@ + rand.take(8)
}

/// A goal id made of a time and the first eight of some hexadecimal digits.
pub fn goal_id_from(ts: i64, rand: &str) -> (r: String)
    requires
        rand@.len() >= 8,
        outside::all_hex(rand@),
    ensures
        r@ == goal_id_text(ts, rand@),
{
    let mut out: String = "goal-".to_owned();
    text::push_i64(&mut out, ts);
    out.append("-");
    out.append(text::take_chars(rand, 8));
    out
}

/// A new goal id: the time, and random digits that tell apart goals of the same
/// millisecond.
pub fn new_goal_id() -> (r: String)
    ensures
        exists|ts: i64, rand: Seq<char>| rand.len() == 32 && outside::all_hex(rand) && r@ == #[trigger] goal_id_text(ts, rand),
{
    let ts: i64 = outside::now_ms();
    let rand: String = outside::random_simple();
    goal_id_from(ts, rand.as_str())
}

/// The moment at which the clock that never goes back stands at `mono_ns`.
pub fn clock_at(mono_ns: u64) -> (r: Clock)
    ensures
        r.mono_ns == mono_ns,
        outside::rfc3339_of(r.wall_ms) is Some,
{
    Clock { wall_ms: outside::now_ms(), mono_ns }
}

/// What is set reads back: a request that the rules allow yields a goal whose
/// objective reads in full as the text that was given, trimmed. An objective too
/// long for its row needs a place for its file, and a thread id short enough for
/// the marker to fit the row; a short one must not itself look like a marker.
pub proof fn law_objective_reads_back(
    v: ServiceView,
    t: Seq<char>,
    objective: Seq<char>,
    budget: Option<i64>,
    verify: Option<Seq<char>>,
    goal_id: Seq<char>,
    env: Env,
)
    requires
        v.store.wf(),
        text::trimmed(objective).len() > 0,
        budget matches Some(b) ==> types::budget_fault(b, env.cap) is None,
        reads_back(v.store, t, objective, env.writable),
    ensures
        v.set_result(t, objective, budget, verify, goal_id, env) is Ok,
        ({
            let after = v.after_set(t, objective, budget, verify, goal_id, env);
            &&& after.store.rows.contains_key(t)
            &&& after.store.resolved(after.store.rows[t]).objective == text::trimmed(objective)
        }),
{
    lemma_stored_objective(t, objective);
}

/// Editing reads back in the same way, on any goal that is not terminal.
pub proof fn law_edit_reads_back(v: ServiceView, t: Seq<char>, objective: Seq<char>, env: Env)
    requires
        v.store.wf(),
        v.store.rows.contains_key(t),
        !types::terminal(v.store.rows[t].status),
        v.store.rows[t].objective_revision < i64::MAX,
        text::trimmed(objective).len() > 0,
        reads_back(v.store, t, objective, env.writable),
    ensures
        v.edit_result(t, objective, env) is Ok,
        ({
            let after = v.after_edit(t, objective, env);
            &&& after.store.rows.contains_key(t)
            &&& after.store.resolved(after.store.rows[t]).objective == text::trimmed(objective)
            &&& after.store.rows[t].goal_id == v.store.rows[t].goal_id
            &&& after.store.rows[t].objective_revision == v.store.rows[t].objective_revision + 1
        }),
{
    lemma_stored_objective(t, objective);
}

/// Whether an objective can be kept so that it reads back.
pub open spec fn reads_back(s: StoreView, t: Seq<char>, objective: Seq<char>, writable: bool) -> bool {
    let text = text::trimmed(objective);
    if objective_file::too_long_for_row(text) {
        &&& s.goals_dir is Some
        &&& writable
        &&& text.len() <= objective_file::MAX_FILE_OBJECTIVE_CHARS
        &&& text::byte_len(objective_file::marker(t)) <= types::MAX_OBJECTIVE_LEN
    } else {
        !objective_file::is_marker(text)
    }
}

proof fn lemma_stored_objective(t: Seq<char>, objective: Seq<char>)
    ensures
        text::trimmed(text::trimmed(objective)) == text::trimmed(objective),
        text::trimmed(objective_file::marker(t)) == objective_file::marker(t),
        objective_file::marker(t).len() > 0,
        objective_file::is_marker(objective_file::marker(t)),
        objective_file::marked_file(objective_file::marker(t)) == objective_file::file_name(t),
{
    text::lemma_trimmed_idempotent(objective);
    lemma_marker_is_trimmed(t);
    objective_file::law_marker_names_file(t);
}

proof fn lemma_marker_is_trimmed(t: Seq<char>)
    ensures
        text::trimmed(objective_file::marker(t)) == objective_file::marker(t),
        objective_file::marker(t).len() > 0,
{
    reveal_strlit("@file:");
    reveal_strlit(".md");
    let m = objective_file::marker(t);
    assert(m[0] == '@');
    assert(m.last() == 'd');
    assert(text::trim_start(m) == m);
    assert(text::trim_end(m) == m);
}

/// Clearing a thread twice is clearing it once: the second time finds nothing
/// and changes nothing.
pub proof fn law_clear_is_idempotent(v: ServiceView, t: Seq<char>)
    requires
        v.store.wf(),
    ensures
        v.after_clear(t).store.goal(t) is None,
        !v.after_clear(t).store.deferred.contains(t),
        v.after_clear(t).after_clear(t) == v.after_clear(t),
{
    let once = v.after_clear(t);
    assert(once.store.without_goal(t) =~= once.store);
    assert(once.after_clear(t) =~= once);
}

/// Users speak of threads: each operation acts on the goal that the thread has, as the
/// table would, and says so where it has none.
pub proof fn law_operations_act_on_the_goal_there_is(
    v: ServiceView,
    t: Seq<char>,
    objective: Seq<char>,
    budget: i64,
    env: Env,
)
    ensures
        ({
            let none = Err::<GoalView, ServiceErrorView>(ServiceErrorView::NoGoal(t));
            let now = env.now.wall_ms;
            &&& !v.store.rows.contains_key(t) ==> {
                &&& v.pause_result(t, now) == none
                &&& v.resume_result(t, now) == none
                &&& v.budget_result(t, budget, env) == none
                &&& v.edit_result(t, objective, env) == none
                &&& v.after_edit(t, objective, env) == v
            }
            &&& v.store.rows.contains_key(t) ==> {
                let g = v.store.rows[t];
                &&& v.pause_result(t, now) is Ok <==> g.status is Active
                &&& v.resume_result(t, now) is Ok <==> (g.status is Paused || g.status is Blocked
                    || g.status is UsageLimited || g.status is BudgetLimited)
                &&& v.budget_result(t, budget, env) is Ok <==> 1 <= budget <= env.cap && !(
                g.status is Complete)
                &&& v.pause_result(t, now) matches Ok(h) ==> h.status is Paused && store::same_work(g, h)
                    && h.updated_at_ms == now
                &&& v.resume_result(t, now) matches Ok(h) ==> h.status is Active && store::same_work(
                    g,
                    h,
                ) && h.updated_at_ms == now && h.status_reason is None
                &&& g.status is Active || g.status is Complete ==> v.resume_result(t, now) == Err::<
                    GoalView,
                    ServiceErrorView,
                >(ServiceErrorView::NotResumable { status: g.status })
                &&& !(g.status is Active) ==> v.pause_result(t, now) == Err::<GoalView, ServiceErrorView>(
                    ServiceErrorView::Store(StoreErrorView::NotFoundOrDisallowed(t)),
                )
                &&& v.budget_result(t, budget, env) matches Ok(h) ==> h.token_budget == Some(budget)
                    && h.status == g.status && h.tokens_used == g.tokens_used && h.goal_id == g.goal_id
                    && h.objective == g.objective && h.status_reason == g.status_reason
            }
        }),
{
}

/// What an edit keeps: all of the goal but its objective, and whatever stands on other
/// threads. A refused one leaves the table's rows and the counts alone.
pub proof fn law_edit_keeps_the_rest(
    v: ServiceView,
    t: Seq<char>,
    u: Seq<char>,
    objective: Seq<char>,
    env: Env,
)
    requires
        v.store.rows.contains_key(t),
    ensures
        ({
            let g = v.store.rows[t];
            let r = v.edit_result(t, objective, env);
            let after = v.after_edit(t, objective, env);
            &&& r is Err ==> after.store.rows == v.store.rows && after.metrics == v.metrics
            &&& r matches Ok(h) ==> {
                &&& after.store.rows.contains_key(t) && after.store.rows[t] == h
                &&& h.status == g.status && h.status_reason == g.status_reason
                &&& h.token_budget == g.token_budget && h.tokens_used == g.tokens_used
                &&& h.time_used_seconds == g.time_used_seconds && h.verify_command
                    == g.verify_command
                &&& h.goal_id == g.goal_id && h.created_at_ms == g.created_at_ms
                &&& h.iteration_count == g.iteration_count
                &&& h.objective_revision == g.objective_revision + 1
                &&& h.updated_at_ms == env.now.wall_ms
                &&& after.metrics == v.metrics.recorded(Counter::GoalsEdited, t)
            }
            &&& u != t ==> after.store.goal(u) == v.store.goal(u)
            &&& after.store.deferred == v.store.deferred
            &&& after.store.goals_dir == v.store.goals_dir
        }),
{
}

/// Setting a goal puts a new one in the place of whatever the thread had, and takes
/// the mark that put off its turns away; a refused one leaves the rows alone.
pub proof fn law_set_starts_anew(
    v: ServiceView,
    t: Seq<char>,
    u: Seq<char>,
    objective: Seq<char>,
    budget: Option<i64>,
    verify: Option<Seq<char>>,
    goal_id: Seq<char>,
    env: Env,
)
    ensures
        ({
            let r = v.set_result(t, objective, budget, verify, goal_id, env);
            let after = v.after_set(t, objective, budget, verify, goal_id, env);
            &&& r is Err ==> after.store.rows == v.store.rows && after.store.deferred
                == v.store.deferred && after.metrics == v.metrics
            &&& r matches Ok(g) ==> {
                &&& after.store.rows.contains_key(t) && after.store.rows[t] == g
                &&& g.thread_id == t && g.goal_id == goal_id
                &&& g.status is Active && g.status_reason is None
                &&& g.token_budget == budget && g.verify_command == verify
                &&& g.tokens_used == 0 && g.time_used_seconds == 0
                &&& g.objective_revision == 0 && g.iteration_count == 0
                &&& g.created_at_ms == env.now.wall_ms && g.updated_at_ms == env.now.wall_ms
                &&& !after.store.deferred.contains(t)
            }
            &&& (budget matches Some(b) ==> (1 <= b <= env.cap || r is Err))
            &&& text::trimmed(objective).len() == 0 ==> r is Err
            &&& u != t ==> after.store.goal(u) == v.store.goal(u) && after.store.deferred.contains(u)
                == v.store.deferred.contains(u)
            &&& after.store.goals_dir == v.store.goals_dir
        }),
{
    text::lemma_trimmed_idempotent(objective);
    lemma_marker_is_trimmed(t);
    if text::trimmed(objective).len() == 0 {
        text::lemma_some_bytes(text::trimmed(objective));
    }
}

/// Where an objective is kept: in its row if it has at most 4000 characters and 4000
/// bytes; else, up to a million characters, in the thread's file, with the marker in the
/// row. No other file is touched, and a row that takes the text itself leaves no file
/// behind.
pub proof fn law_long_objectives_go_to_files(
    s: StoreView,
    t: Seq<char>,
    objective: Seq<char>,
    writable: bool,
    name: Seq<char>,
)
    ensures
        ({
            let p = prepared(s, t, objective, writable);
            let text = text::trimmed(objective);
            let file = objective_file::file_name(t);
            let long = text.len() > 4000 || text::byte_len(text) > 4000;
            &&& !long ==> p.stored == Ok::<Seq<char>, ServiceErrorView>(text)
            &&& !long && s.goals_dir is Some ==> !p.files.contains_key(file)
            &&& long && text.len() <= 1_000_000 && s.goals_dir is Some && writable ==> {
                &&& p.stored == Ok::<Seq<char>, ServiceErrorView>("@file:"@ + file)
                &&& p.files.contains_key(file) && p.files[file] == text
            }
            &&& long && (text.len() > 1_000_000 || (s.goals_dir is Some && !writable)) ==> {
                &&& p.stored == Err::<Seq<char>, ServiceErrorView>(
                    ServiceErrorView::Store(
                        StoreErrorView::Validation(GoalValidationError::ObjectiveTooLong),
                    ),
                )
                &&& p.files == s.files
            }
            &&& long && text.len() <= 1_000_000 && s.goals_dir is None ==> p.stored == Ok::<
                Seq<char>,
                ServiceErrorView,
            >(text) && p.files == s.files
            &&& s.goals_dir is None ==> p.files == s.files
            &&& name != file ==> p.files.contains_key(name) == s.files.contains_key(name)
            &&& name != file && s.files.contains_key(name) ==> p.files[name] == s.files[name]
        }),
{
}

/// Clearing takes the goal, its mark and its file, and nothing of other threads.
pub proof fn law_clear_takes_all_of_the_goal(v: ServiceView, t: Seq<char>, u: Seq<char>)
    requires
        u != t,
    ensures
        ({
            let after = v.after_clear(t);
            &&& after.store.goal(t) is None
            &&& !after.store.deferred.contains(t)
            &&& v.store.rows.contains_key(t) && v.store.goals_dir is Some
                ==> !after.store.files.contains_key(objective_file::file_name(t))
            &&& v.store.rows.contains_key(t) ==> after.metrics == v.metrics.recorded(
                Counter::GoalsCleared,
                t,
            )
            &&& !v.store.rows.contains_key(t) ==> after.metrics == v.metrics && after.store.files
                == v.store.files
            &&& after.store.goal(u) == v.store.goal(u)
            &&& after.store.deferred.contains(u) == v.store.deferred.contains(u)
            &&& after.store.goals_dir == v.store.goals_dir
        }),
{
}

/// An operation that succeeds puts its goal on the thread and is counted once; one
/// that fails changes nothing.
pub proof fn law_success_is_counted(
    v: ServiceView,
    t: Seq<char>,
    u: Seq<char>,
    g: GoalView,
    e: ServiceErrorView,
    c: Counter,
)
    requires
        u != t,
    ensures
        v.after(t, Err(e), c) == v,
        v.after(t, Ok(g), c).store.goal(t) == Some(g),
        v.after(t, Ok(g), c).store.goal(u) == v.store.goal(u),
        v.after(t, Ok(g), c).store.deferred == v.store.deferred,
        v.after(t, Ok(g), c).store.files == v.store.files,
        v.after(t, Ok(g), c).metrics == v.metrics.recorded(c, t),
{
}

/// An identifier of a goal: the time and the first eight random digits, behind `goal-`.
pub proof fn law_goal_identifiers(ts: i64, rand: Seq<char>)
    requires
        rand.len() >= 8,
    ensures
        ({
            let id = goal_id_text(ts, rand);
            let n = text::int_text(ts as int).len() as int;
            &&& id.len() == n + 14
            &&& id.take(5) == "goal-"@
            &&& id.subrange(5, 5 + n) == text::int_text(ts as int)
            &&& id[5 + n] == '-'
            &&& id.skip(6 + n) == rand.take(8)
        }),
{
    reveal_strlit("goal-");
    reveal_strlit("-");
    let id = goal_id_text(ts, rand);
    let n = text::int_text(ts as int).len() as int;
    assert(id.take(5) =~= "goal-"@);
    assert(id.subrange(5, 5 + n) =~= text::int_text(ts as int));
    assert(id.skip(6 + n) =~= rand.take(8));
}

} // verus!
