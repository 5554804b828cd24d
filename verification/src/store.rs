//! The table of goals.
//!
//! A thread has at most one goal. Every change that is meant for a particular
//! goal names it by id, and leaves the table alone when the thread's goal is
//! another one. A thread with a goal may also carry a mark that puts off its
//! next goal turn; the mark goes when the goal goes.

use crate::objective_file;
use crate::table::Table;
use crate::text;
use crate::types;
use crate::types::{
    AccountingMode, AccountingOutcome, CreateGoalRequest, Goal, GoalStatus, GoalValidationError,
    GoalView, RequestView,
};
use vstd::prelude::*;
use vstd::string::*;

verus! {

/// Why an operation on the table failed.
#[derive(Debug, Clone, PartialEq, Eq)]
pub enum GoalStoreError {
    /// The database failed, or a number outgrew its column.
    Sqlx(String),
    Validation(GoalValidationError),
    ExistingUnfinishedGoal(String),
    NotFoundOrDisallowed(String),
    CorruptStatus(String),
    LockTimeout,
}

/// The mathematical value of a [`GoalStoreError`].
pub enum StoreErrorView {
    Sqlx(Seq<char>),
    Validation(GoalValidationError),
    ExistingUnfinishedGoal(Seq<char>),
    NotFoundOrDisallowed(Seq<char>),
    CorruptStatus(Seq<char>),
    LockTimeout,
}

impl View for GoalStoreError {
    type V = StoreErrorView;

    open spec fn view(&self) -> StoreErrorView {
        match self {
            GoalStoreError::Sqlx(s) => StoreErrorView::Sqlx(s@),
            GoalStoreError::Validation(e) => StoreErrorView::Validation(*e),
            GoalStoreError::ExistingUnfinishedGoal(t) => StoreErrorView::ExistingUnfinishedGoal(t@),
            GoalStoreError::NotFoundOrDisallowed(t) => StoreErrorView::NotFoundOrDisallowed(t@),
            GoalStoreError::CorruptStatus(s) => StoreErrorView::CorruptStatus(s@),
            GoalStoreError::LockTimeout => StoreErrorView::LockTimeout,
        }
    }
}

/// The text of a store error.
pub open spec fn store_error_text(e: StoreErrorView) -> Seq<char> {
    match e {
        StoreErrorView::Sqlx(s) => "database error: "@ + s,
        StoreErrorView::Validation(v) => "validation: "@ + types::validation_text(v),
        StoreErrorView::ExistingUnfinishedGoal(t) => "thread "@ + t
            + " already has an unfinished goal (model/system create cannot overwrite)"@,
        StoreErrorView::NotFoundOrDisallowed(t) => "no goal on thread "@ + t
            + ", or transition not allowed from current status"@,
        StoreErrorView::CorruptStatus(s) => "corrupt status in db: "@ + s,
        StoreErrorView::LockTimeout => "internal lock acquisition timed out"@,
    }
}

impl GoalStoreError {
    /// The text of the error.
    pub fn message(&self) -> (r: String)
        ensures
            r@ == store_error_text(self@),
    {
        let mut out: String = String::new();
        match self {
            GoalStoreError::Sqlx(s) => {
                out = "database error: ".to_owned();
                out.append(s.as_str());
            },
            GoalStoreError::Validation(e) => {
                out = "validation: ".to_owned();
                out.append(e.message().as_str());
            },
            GoalStoreError::ExistingUnfinishedGoal(t) => {
                out = "thread ".to_owned();
                out.append(t.as_str());
                out.append(" already has an unfinished goal (model/system create cannot overwrite)");
            },
            GoalStoreError::NotFoundOrDisallowed(t) => {
                out = "no goal on thread ".to_owned();
                out.append(t.as_str());
                out.append(", or transition not allowed from current status");
            },
            GoalStoreError::CorruptStatus(s) => {
                out = "corrupt status in db: ".to_owned();
                out.append(s.as_str());
            },
            GoalStoreError::LockTimeout => {
                out = "internal lock acquisition timed out".to_owned();
            },
        }
        out
    }
}

/// The mathematical value of a result with a goal.
pub open spec fn goal_result(r: Result<Goal, GoalStoreError>) -> Result<GoalView, StoreErrorView> {
    match r {
        Ok(g) => Ok(g@),
        Err(e) => Err(e@),
    }
}

/// The mathematical value of an optional goal.
pub open spec fn opt_goal(g: Option<Goal>) -> Option<GoalView> {
    match g {
        Some(g) => Some(g@),
        None => None,
    }
}

/// The error of a number that outgrows its column.
pub open spec fn overflow() -> StoreErrorView {
    StoreErrorView::Sqlx("integer overflow"@)
}

fn overflow_error() -> (r: GoalStoreError)
    ensures
        r@ == overflow(),
{
    GoalStoreError::Sqlx("integer overflow".to_owned())
}

/// What the table holds.
#[verifier::ext_equal]
pub struct StoreView {
    /// The goal of each thread that has one.
    pub rows: Map<Seq<char>, GoalView>,
    /// The threads whose next goal turn is put off.
    pub deferred: Set<Seq<char>>,
    /// Where objective files are kept; without it there are none.
    pub goals_dir: Option<Seq<char>>,
    /// The objective files, by name.
    pub files: Map<Seq<char>, Seq<char>>,
}

/// A goal as it is first set.
pub open spec fn fresh_goal(req: RequestView, goal_id: Seq<char>, now_ms: i64) -> GoalView {
    GoalView {
        thread_id: req.thread_id,
        goal_id,
        objective: text::trimmed(req.objective),
        status: GoalStatus::Active,
        token_budget: req.token_budget,
        tokens_used: 0,
        time_used_seconds: 0,
        verify_command: req.verify_command,
        status_reason: None,
        created_at_ms: now_ms,
        updated_at_ms: now_ms,
        objective_revision: 0,
        iteration_count: 0,
        objective_file: objective_file::is_marker(text::trimmed(req.objective)),
    }
}

/// Whether a goal may stand in the row of thread `t`.
pub open spec fn row_ok(t: Seq<char>, g: GoalView) -> bool {
    &&& g.thread_id == t
    &&& g.objective_file == objective_file::is_marker(g.objective)
}

impl StoreView {
    /// Rows belong to their threads and say of themselves whether their objective
    /// is in a file, and only a thread with a goal is put off.
    pub open spec fn wf(self) -> bool {
        &&& forall|t: Seq<char>| #[trigger] self.rows.contains_key(t) ==> row_ok(t, self.rows[t])
        &&& forall|t: Seq<char>| #[trigger]
            self.deferred.contains(t) ==> self.rows.contains_key(t)
    }

    /// The goal of a thread.
    pub open spec fn goal(self, t: Seq<char>) -> Option<GoalView> {
        if self.rows.contains_key(t) {
            Some(self.rows[t])
        } else {
            None
        }
    }

    /// Whether the goal of thread `t` is the one with id `id`.
    pub open spec fn holds(self, t: Seq<char>, id: Seq<char>) -> bool {
        self.rows.contains_key(t) && self.rows[t].goal_id == id
    }

    /// The table with `g` as the goal of thread `t`.
    pub open spec fn with_goal(self, t: Seq<char>, g: GoalView) -> StoreView {
        StoreView { rows: self.rows.insert(t, g), ..self }
    }

    /// The table without a goal on thread `t`; the mark goes with it.
    pub open spec fn without_goal(self, t: Seq<char>) -> StoreView {
        StoreView { rows: self.rows.remove(t), deferred: self.deferred.remove(t), ..self }
    }

    /// The table after an operation on thread `t` that yields `r`: the goal it
    /// yields is the thread's goal, and a failure changes nothing.
    pub open spec fn after(self, t: Seq<char>, r: Result<GoalView, StoreErrorView>) -> StoreView {
        match r {
            Ok(g) => self.with_goal(t, g),
            Err(_) => self,
        }
    }

    /// What creating a goal yields: only a thread without a goal, or with a
    /// complete one, takes a new goal.
    pub open spec fn created(
        self,
        req: RequestView,
        goal_id: Seq<char>,
        cap: i64,
        now_ms: i64,
    ) -> Result<GoalView, StoreErrorView> {
        match req.fault(cap) {
            Some(e) => Err(StoreErrorView::Validation(e)),
            None => if self.rows.contains_key(req.thread_id) && self.rows[req.thread_id].status
                != GoalStatus::Complete {
                Err(StoreErrorView::ExistingUnfinishedGoal(req.thread_id))
            } else {
                Ok(fresh_goal(req, goal_id, now_ms))
            },
        }
    }

    /// What replacing a goal yields: whatever the thread had gives way.
    pub open spec fn replaced(
        self,
        req: RequestView,
        goal_id: Seq<char>,
        cap: i64,
        now_ms: i64,
    ) -> Result<GoalView, StoreErrorView> {
        match req.fault(cap) {
            Some(e) => Err(StoreErrorView::Validation(e)),
            None => Ok(fresh_goal(req, goal_id, now_ms)),
        }
    }

    /// The goal `id` of thread `t` if its status is among `from`.
    pub open spec fn found(
        self,
        t: Seq<char>,
        id: Seq<char>,
        from: spec_fn(GoalStatus) -> bool,
    ) -> Result<GoalView, StoreErrorView> {
        if self.holds(t, id) && from(self.rows[t].status) {
            Ok(self.rows[t])
        } else {
            Err(StoreErrorView::NotFoundOrDisallowed(t))
        }
    }

    /// What moving the goal `id` of thread `t` from one of the statuses `from`
    /// to the status `to` yields.
    pub open spec fn moved(
        self,
        t: Seq<char>,
        id: Seq<char>,
        from: spec_fn(GoalStatus) -> bool,
        to: GoalStatus,
        reason: Option<Seq<char>>,
        now_ms: i64,
    ) -> Result<GoalView, StoreErrorView> {
        match self.found(t, id, from) {
            Ok(g) => Ok(GoalView { status: to, status_reason: reason, updated_at_ms: now_ms, ..g }),
            Err(e) => Err(e),
        }
    }

    /// What pausing yields.
    pub open spec fn paused(self, t: Seq<char>, id: Seq<char>, now_ms: i64) -> Result<
        GoalView,
        StoreErrorView,
    > {
        self.moved(t, id, |s: GoalStatus| s == GoalStatus::Active, GoalStatus::Paused, None, now_ms)
    }

    /// What resuming yields.
    pub open spec fn resumed(self, t: Seq<char>, id: Seq<char>, now_ms: i64) -> Result<
        GoalView,
        StoreErrorView,
    > {
        self.moved(t, id, |s: GoalStatus| types::resumable(s), GoalStatus::Active, None, now_ms)
    }

    /// What running out of quota yields.
    pub open spec fn usage_limited(
        self,
        t: Seq<char>,
        id: Seq<char>,
        reason: Seq<char>,
        now_ms: i64,
    ) -> Result<GoalView, StoreErrorView> {
        self.moved(
            t,
            id,
            |s: GoalStatus| s == GoalStatus::Active || s == GoalStatus::BudgetLimited,
            GoalStatus::UsageLimited,
            Some(reason),
            now_ms,
        )
    }

    /// What blocking yields.
    pub open spec fn blocked(
        self,
        t: Seq<char>,
        id: Seq<char>,
        reason: Seq<char>,
        now_ms: i64,
    ) -> Result<GoalView, StoreErrorView> {
        self.moved(
            t,
            id,
            |s: GoalStatus| s == GoalStatus::Active,
            GoalStatus::Blocked,
            Some(reason),
            now_ms,
        )
    }

    /// What completing yields.
    pub open spec fn completed(self, t: Seq<char>, id: Seq<char>, now_ms: i64) -> Result<
        GoalView,
        StoreErrorView,
    > {
        self.moved(t, id, |s: GoalStatus| s == GoalStatus::Active, GoalStatus::Complete, None, now_ms)
    }

    /// What editing the objective yields: any goal that is not terminal takes a
    /// new objective and counts one more revision.
    pub open spec fn edited(
        self,
        t: Seq<char>,
        id: Seq<char>,
        objective: Seq<char>,
        now_ms: i64,
    ) -> Result<GoalView, StoreErrorView> {
        match types::objective_fault(objective) {
            Some(e) => Err(StoreErrorView::Validation(e)),
            None => match self.found(t, id, |s: GoalStatus| !types::terminal(s)) {
                Ok(g) => if g.objective_revision == i64::MAX {
                    Err(overflow())
                } else {
                    Ok(
                        GoalView {
                            objective: text::trimmed(objective),
                            objective_file: objective_file::is_marker(text::trimmed(objective)),
                            objective_revision: (g.objective_revision + 1) as i64,
                            updated_at_ms: now_ms,
                            ..g
                        },
                    )
                },
                Err(e) => Err(e),
            },
        }
    }

    /// What changing the budget yields: any goal that is not complete takes it,
    /// and keeps its status and usage.
    pub open spec fn rebudgeted(
        self,
        t: Seq<char>,
        id: Seq<char>,
        budget: i64,
        cap: i64,
        now_ms: i64,
    ) -> Result<GoalView, StoreErrorView> {
        match types::budget_fault(budget, cap) {
            Some(e) => Err(StoreErrorView::Validation(e)),
            None => match self.found(t, id, |s: GoalStatus| s != GoalStatus::Complete) {
                Ok(g) => Ok(GoalView { token_budget: Some(budget), updated_at_ms: now_ms, ..g }),
                Err(e) => Err(e),
            },
        }
    }

    /// What setting the turn count yields.
    pub open spec fn counted(
        self,
        t: Seq<char>,
        id: Seq<char>,
        iteration: i64,
        now_ms: i64,
    ) -> Result<GoalView, StoreErrorView> {
        match self.found(t, id, |s: GoalStatus| true) {
            Ok(g) => Ok(GoalView { iteration_count: iteration, updated_at_ms: now_ms, ..g }),
            Err(e) => Err(e),
        }
    }
}

/// `n`, or zero if it is negative.
pub open spec fn at_least_zero(n: i64) -> int {
    if n < 0 {
        0
    } else {
        n as int
    }
}

/// Whether `used` tokens exhaust the budget of `g`.
pub open spec fn exhausts(g: GoalView, used: int) -> bool {
    g.token_budget matches Some(b) && used >= b
}

/// `g` with usage booked on it: an active goal whose budget is then exhausted
/// becomes budget-limited.
pub open spec fn charged(g: GoalView, tokens: int, seconds: int, now_ms: i64) -> GoalView {
    let used = g.tokens_used + tokens;
    let flips = g.status == GoalStatus::Active && exhausts(g, used);
    GoalView {
        tokens_used: used as i64,
        time_used_seconds: (g.time_used_seconds + seconds) as i64,
        status: if flips {
            GoalStatus::BudgetLimited
        } else {
            g.status
        },
        status_reason: if flips {
            Some("budget_limited"@)
        } else {
            g.status_reason
        },
        updated_at_ms: now_ms,
        ..g
    }
}

/// Whether the usage counters of `g` have room for more usage.
pub open spec fn has_room(g: GoalView, tokens: int, seconds: int) -> bool {
    g.tokens_used + tokens <= i64::MAX && g.time_used_seconds + seconds <= i64::MAX
}

impl StoreView {
    /// What booking usage on the goal `id` of thread `t` yields: `None` when
    /// nothing is booked, otherwise the goal with the usage on it.
    pub open spec fn accounted(
        self,
        t: Seq<char>,
        id: Seq<char>,
        mode: AccountingMode,
        delta_tokens: i64,
        delta_seconds: i64,
        now_ms: i64,
    ) -> Result<Option<GoalView>, StoreErrorView> {
        let tokens = at_least_zero(delta_tokens);
        let seconds = at_least_zero(delta_seconds);
        if !(self.holds(t, id) && types::mode_allows(mode, self.rows[t].status)) {
            Ok(None)
        } else if !has_room(self.rows[t], tokens, seconds) {
            Err(overflow())
        } else {
            Ok(Some(charged(self.rows[t], tokens, seconds, now_ms)))
        }
    }

    /// The table after usage was booked with the result `r`.
    pub open spec fn after_accounting(
        self,
        t: Seq<char>,
        r: Result<Option<GoalView>, StoreErrorView>,
    ) -> StoreView {
        match r {
            Ok(Some(g)) => self.with_goal(t, g),
            _ => self,
        }
    }

    /// A goal with its objective as it reads in full: the text of its file
    /// where the row holds a marker and the file is there.
    pub open spec fn resolved(self, g: GoalView) -> GoalView {
        if g.objective_file && self.goals_dir is Some && objective_file::is_marker(g.objective)
            && self.files.contains_key(objective_file::marked_file(g.objective)) {
            GoalView { objective: self.files[objective_file::marked_file(g.objective)], ..g }
        } else {
            g
        }
    }
}

/// What an outcome of booking usage says.
pub open spec fn outcome_of(g: Option<GoalView>) -> AccountingOutcome {
    match g {
        Some(g) => AccountingOutcome::Updated { tokens_used: g.tokens_used, status: g.status },
        None => AccountingOutcome::Unchanged,
    }
}

/// The table of goals.
pub struct GoalStore {
    rows: Table<Goal>,
    deferrals: Table<()>,
    goals_dir: Option<String>,
    files: Table<String>,
}

/// The values of a table of goals.
pub open spec fn goal_views(m: Map<Seq<char>, Goal>) -> Map<Seq<char>, GoalView> {
    m.map_values(|g: Goal| g@)
}

/// The values of a table of texts.
pub open spec fn text_views(m: Map<Seq<char>, String>) -> Map<Seq<char>, Seq<char>> {
    m.map_values(|s: String| s@)
}

impl View for GoalStore {
    type V = StoreView;

    closed spec fn view(&self) -> StoreView {
        StoreView {
            rows: goal_views(self.rows@),
            deferred: self.deferrals@.dom(),
            goals_dir: text::opt_text(self.goals_dir),
            files: text_views(self.files@),
        }
    }
}

impl GoalStore {
    /// The table is consistent.
    pub closed spec fn wf(self) -> bool {
        &&& self.rows.wf()
        &&& self.deferrals.wf()
        &&& self.files.wf()
        &&& self@.wf()
    }

    /// What a consistent table keeps of its contents.
    pub proof fn lemma_wf(self)
        requires
            self.wf(),
        ensures
            self@.wf(),
    {
    }

    /// An empty table that keeps no objective files.
    pub fn new() -> (r: GoalStore)
        ensures
            r.wf(),
            r@ == (StoreView {
                rows: Map::empty(),
                deferred: Set::empty(),
                goals_dir: None,
                files: Map::empty(),
            }),
    {
        let r: GoalStore = GoalStore {
            rows: Table::new(),
            deferrals: Table::new(),
            goals_dir: None,
            files: Table::new(),
        };
        assert(r@.rows =~= Map::<Seq<char>, GoalView>::empty());
        assert(r@.deferred =~= Set::<Seq<char>>::empty());
        assert(r@.files =~= Map::<Seq<char>, Seq<char>>::empty());
        r
    }

    /// The table with objective files kept in `dir`.
    pub fn with_goals_dir(self, dir: &str) -> (r: GoalStore)
        requires
            self.wf(),
        ensures
            r.wf(),
            r@ == (StoreView { goals_dir: Some(dir@), ..self@ }),
    {
        GoalStore { goals_dir: Some(dir.to_owned()), ..self }
    }

    /// Where objective files are kept.
    pub fn goals_dir(&self) -> (r: Option<&str>)
        ensures
            text::opt_str(r) == self@.goals_dir,
    {
        match &self.goals_dir {
            Some(d) => Some(d.as_str()),
            None => None,
        }
    }

    /// The goal of a thread.
    pub fn read(&self, thread_id: &str) -> (r: Option<Goal>)
        requires
            self.wf(),
        ensures
            opt_goal(r) == self@.goal(thread_id@),
    {
        match self.rows.get(thread_id) {
            Some(g) => Some(g.clone()),
            None => None,
        }
    }

    fn put(&mut self, thread_id: &str, goal: &Goal)
        requires
            old(self).wf(),
            row_ok(thread_id@, goal@),
        ensures
            final(self).wf(),
            final(self)@ == old(self)@.with_goal(thread_id@, goal@),
    {
        self.rows.insert(thread_id, goal.clone());
        assert(self@.rows =~= old(self)@.rows.insert(thread_id@, goal@));
    }

    fn delete(&mut self, thread_id: &str) -> (r: bool)
        requires
            old(self).wf(),
        ensures
            final(self).wf(),
            final(self)@ == old(self)@.without_goal(thread_id@),
            r == old(self)@.rows.contains_key(thread_id@),
    {
        let gone: Option<Goal> = self.rows.remove(thread_id);
        self.deferrals.remove(thread_id);
        assert(self@.rows =~= old(self)@.rows.remove(thread_id@));
        assert(self@.deferred =~= old(self)@.deferred.remove(thread_id@));
        gone.is_some()
    }

    fn new_goal(req: &CreateGoalRequest, goal_id: &str, now_ms: i64) -> (r: Goal)
        ensures
            r@ == fresh_goal(req@, goal_id@, now_ms),
    {
        let objective: String = req.trimmed_objective().to_owned();
        Goal {
            thread_id: req.thread_id.clone(),
            goal_id: goal_id.to_owned(),
            objective_file: objective_file::is_file_backed(objective.as_str()),
            objective,
            status: GoalStatus::Active,
            token_budget: req.token_budget,
            tokens_used: 0,
            time_used_seconds: 0,
            verify_command: text::clone_opt(&req.verify_command),
            status_reason: None,
            created_at_ms: now_ms,
            updated_at_ms: now_ms,
            objective_revision: 0,
            iteration_count: 0,
        }
    }

    /// Creates a goal on a thread that has none, or only a complete one.
    pub fn create(&mut self, req: &CreateGoalRequest, goal_id: &str, cap: i64, now_ms: i64) -> (r:
        Result<Goal, GoalStoreError>)
        requires
            old(self).wf(),
        ensures
            final(self).wf(),
            goal_result(r) == old(self)@.created(req@, goal_id@, cap, now_ms),
            final(self)@ == old(self)@.after(req@.thread_id, goal_result(r)),
    {
        match req.validate(cap) {
            Ok(()) => {},
            Err(e) => {
                return Err(GoalStoreError::Validation(e));
            },
        }
        match self.rows.get(req.thread_id.as_str()) {
            Some(g) => {
                if g.status != GoalStatus::Complete {
                    return Err(GoalStoreError::ExistingUnfinishedGoal(req.thread_id.clone()));
                }
            },
            None => {},
        }
        let goal: Goal = GoalStore::new_goal(req, goal_id, now_ms);
        self.put(req.thread_id.as_str(), &goal);
        Ok(goal)
    }

    /// Puts a goal on a thread, whatever it had.
    pub fn replace(&mut self, req: &CreateGoalRequest, goal_id: &str, cap: i64, now_ms: i64) -> (r:
        Result<Goal, GoalStoreError>)
        requires
            old(self).wf(),
        ensures
            final(self).wf(),
            goal_result(r) == old(self)@.replaced(req@, goal_id@, cap, now_ms),
            match goal_result(r) {
                Ok(g) => final(self)@ == old(self)@.without_goal(req@.thread_id).with_goal(
                    req@.thread_id,
                    g,
                ),
                Err(_) => final(self)@ == old(self)@,
            },
    {
        match req.validate(cap) {
            Ok(()) => {},
            Err(e) => {
                return Err(GoalStoreError::Validation(e));
            },
        }
        self.delete(req.thread_id.as_str());
        let goal: Goal = GoalStore::new_goal(req, goal_id, now_ms);
        self.put(req.thread_id.as_str(), &goal);
        Ok(goal)
    }

    /// Takes the goal of a thread away, whichever it is; says whether there was
    /// one.
    pub fn clear(&mut self, thread_id: &str) -> (r: bool)
        requires
            old(self).wf(),
        ensures
            final(self).wf(),
            r == old(self)@.rows.contains_key(thread_id@),
            final(self)@ == old(self)@.without_goal(thread_id@),
    {
        self.delete(thread_id)
    }

    fn find(&self, thread_id: &str, goal_id: &str) -> (r: Option<Goal>)
        requires
            self.wf(),
        ensures
            match r {
                Some(g) => self@.holds(thread_id@, goal_id@) && g@ == self@.rows[thread_id@] && row_ok(
                    thread_id@,
                    g@,
                ),
                None => !self@.holds(thread_id@, goal_id@),
            },
    {
        match self.rows.get(thread_id) {
            Some(g) => {
                assert(self@.rows[thread_id@] == g@);
                if text::same(g.goal_id.as_str(), goal_id) {
                    Some(g.clone())
                } else {
                    None
                }
            },
            None => None,
        }
    }

    fn transition(
        &mut self,
        thread_id: &str,
        goal: Option<Goal>,
        to: GoalStatus,
        reason: Option<&str>,
        now_ms: i64,
    ) -> (r: Result<Goal, GoalStoreError>)
        requires
            old(self).wf(),
            goal matches Some(g) ==> row_ok(thread_id@, g@),
        ensures
            final(self).wf(),
            goal_result(r) == match goal {
                Some(g) => Ok(
                    GoalView {
                        status: to,
                        status_reason: text::opt_str(reason),
                        updated_at_ms: now_ms,
                        ..g@
                    },
                ),
                None => Err(StoreErrorView::NotFoundOrDisallowed(thread_id@)),
            },
            final(self)@ == old(self)@.after(thread_id@, goal_result(r)),
    {
        match goal {
            Some(g) => {
                let next: Goal = Goal {
                    status: to,
                    status_reason: text::own_opt(reason),
                    updated_at_ms: now_ms,
                    ..g
                };
                self.put(thread_id, &next);
                Ok(next)
            },
            None => Err(GoalStoreError::NotFoundOrDisallowed(thread_id.to_owned())),
        }
    }

    /// Active to paused.
    pub fn pause(&mut self, thread_id: &str, expected_goal_id: &str, now_ms: i64) -> (r: Result<
        Goal,
        GoalStoreError,
    >)
        requires
            old(self).wf(),
        ensures
            final(self).wf(),
            goal_result(r) == old(self)@.paused(thread_id@, expected_goal_id@, now_ms),
            final(self)@ == old(self)@.after(thread_id@, goal_result(r)),
    {
        let found: Option<Goal> = match self.find(thread_id, expected_goal_id) {
            Some(g) => if g.status == GoalStatus::Active {
                Some(g)
            } else {
                None
            },
            None => None,
        };
        self.transition(thread_id, found, GoalStatus::Paused, None, now_ms)
    }

    /// Paused, blocked, usage-limited or budget-limited to active.
    pub fn resume(&mut self, thread_id: &str, expected_goal_id: &str, now_ms: i64) -> (r: Result<
        Goal,
        GoalStoreError,
    >)
        requires
            old(self).wf(),
        ensures
            final(self).wf(),
            goal_result(r) == old(self)@.resumed(thread_id@, expected_goal_id@, now_ms),
            final(self)@ == old(self)@.after(thread_id@, goal_result(r)),
    {
        let found: Option<Goal> = match self.find(thread_id, expected_goal_id) {
            Some(g) => if g.status.user_resumable() {
                Some(g)
            } else {
                None
            },
            None => None,
        };
        self.transition(thread_id, found, GoalStatus::Active, None, now_ms)
    }

    /// Active or budget-limited to usage-limited.
    pub fn mark_usage_limited(
        &mut self,
        thread_id: &str,
        expected_goal_id: &str,
        reason: &str,
        now_ms: i64,
    ) -> (r: Result<Goal, GoalStoreError>)
        requires
            old(self).wf(),
        ensures
            final(self).wf(),
            goal_result(r) == old(self)@.usage_limited(
                thread_id@,
                expected_goal_id@,
                reason@,
                now_ms,
            ),
            final(self)@ == old(self)@.after(thread_id@, goal_result(r)),
    {
        let found: Option<Goal> = match self.find(thread_id, expected_goal_id) {
            Some(g) => if g.status == GoalStatus::Active || g.status == GoalStatus::BudgetLimited {
                Some(g)
            } else {
                None
            },
            None => None,
        };
        self.transition(thread_id, found, GoalStatus::UsageLimited, Some(reason), now_ms)
    }

    /// Active to blocked.
    pub fn mark_blocked(
        &mut self,
        thread_id: &str,
        expected_goal_id: &str,
        reason: &str,
        now_ms: i64,
    ) -> (r: Result<Goal, GoalStoreError>)
        requires
            old(self).wf(),
        ensures
            final(self).wf(),
            goal_result(r) == old(self)@.blocked(thread_id@, expected_goal_id@, reason@, now_ms),
            final(self)@ == old(self)@.after(thread_id@, goal_result(r)),
    {
        let found: Option<Goal> = match self.find(thread_id, expected_goal_id) {
            Some(g) => if g.status == GoalStatus::Active {
                Some(g)
            } else {
                None
            },
            None => None,
        };
        self.transition(thread_id, found, GoalStatus::Blocked, Some(reason), now_ms)
    }

    /// Active to complete.
    pub fn mark_complete(&mut self, thread_id: &str, expected_goal_id: &str, now_ms: i64) -> (r:
        Result<Goal, GoalStoreError>)
        requires
            old(self).wf(),
        ensures
            final(self).wf(),
            goal_result(r) == old(self)@.completed(thread_id@, expected_goal_id@, now_ms),
            final(self)@ == old(self)@.after(thread_id@, goal_result(r)),
    {
        let found: Option<Goal> = match self.find(thread_id, expected_goal_id) {
            Some(g) => if g.status == GoalStatus::Active {
                Some(g)
            } else {
                None
            },
            None => None,
        };
        self.transition(thread_id, found, GoalStatus::Complete, None, now_ms)
    }

    /// Gives a goal that is not terminal a new objective.
    pub fn edit_objective(
        &mut self,
        thread_id: &str,
        expected_goal_id: &str,
        objective: &str,
        now_ms: i64,
    ) -> (r: Result<Goal, GoalStoreError>)
        requires
            old(self).wf(),
        ensures
            final(self).wf(),
            goal_result(r) == old(self)@.edited(thread_id@, expected_goal_id@, objective@, now_ms),
            final(self)@ == old(self)@.after(thread_id@, goal_result(r)),
    {
        match types::check_objective(objective) {
            Ok(()) => {},
            Err(e) => {
                return Err(GoalStoreError::Validation(e));
            },
        }
        match self.find(thread_id, expected_goal_id) {
            Some(g) => {
                if g.status.is_terminal() {
                    return Err(GoalStoreError::NotFoundOrDisallowed(thread_id.to_owned()));
                }
                if g.objective_revision == i64::MAX {
                    return Err(overflow_error());
                }
                let trimmed: String = text::trim(objective).to_owned();
                let next: Goal = Goal {
                    objective_file: objective_file::is_file_backed(trimmed.as_str()),
                    objective: trimmed,
                    objective_revision: g.objective_revision + 1,
                    updated_at_ms: now_ms,
                    ..g
                };
                self.put(thread_id, &next);
                Ok(next)
            },
            None => Err(GoalStoreError::NotFoundOrDisallowed(thread_id.to_owned())),
        }
    }

    /// Gives a goal that is not complete a new budget.
    pub fn update_budget(
        &mut self,
        thread_id: &str,
        expected_goal_id: &str,
        token_budget: i64,
        cap: i64,
        now_ms: i64,
    ) -> (r: Result<Goal, GoalStoreError>)
        requires
            old(self).wf(),
        ensures
            final(self).wf(),
            goal_result(r) == old(self)@.rebudgeted(
                thread_id@,
                expected_goal_id@,
                token_budget,
                cap,
                now_ms,
            ),
            final(self)@ == old(self)@.after(thread_id@, goal_result(r)),
    {
        match types::check_budget(token_budget, cap) {
            Ok(()) => {},
            Err(e) => {
                return Err(GoalStoreError::Validation(e));
            },
        }
        match self.find(thread_id, expected_goal_id) {
            Some(g) => {
                if g.status == GoalStatus::Complete {
                    return Err(GoalStoreError::NotFoundOrDisallowed(thread_id.to_owned()));
                }
                let next: Goal = Goal {
                    token_budget: Some(token_budget),
                    updated_at_ms: now_ms,
                    ..g
                };
                self.put(thread_id, &next);
                Ok(next)
            },
            None => Err(GoalStoreError::NotFoundOrDisallowed(thread_id.to_owned())),
        }
    }

    /// Sets how many turns a goal has driven.
    pub fn set_iteration(
        &mut self,
        thread_id: &str,
        expected_goal_id: &str,
        iteration: i64,
        now_ms: i64,
    ) -> (r: Result<Goal, GoalStoreError>)
        requires
            old(self).wf(),
        ensures
            final(self).wf(),
            goal_result(r) == old(self)@.counted(thread_id@, expected_goal_id@, iteration, now_ms),
            final(self)@ == old(self)@.after(thread_id@, goal_result(r)),
    {
        match self.find(thread_id, expected_goal_id) {
            Some(g) => {
                let next: Goal = Goal { iteration_count: iteration, updated_at_ms: now_ms, ..g };
                self.put(thread_id, &next);
                Ok(next)
            },
            None => Err(GoalStoreError::NotFoundOrDisallowed(thread_id.to_owned())),
        }
    }

    /// Books usage on a goal, in the statuses that `mode` allows; negative
    /// amounts count as none. An active goal whose budget is then exhausted
    /// becomes budget-limited.
    pub fn account_thread_goal_usage(
        &mut self,
        thread_id: &str,
        expected_goal_id: &str,
        mode: AccountingMode,
        delta_tokens: i64,
        delta_seconds: i64,
        now_ms: i64,
    ) -> (r: Result<AccountingOutcome, GoalStoreError>)
        requires
            old(self).wf(),
        ensures
            final(self).wf(),
            match old(self)@.accounted(
                thread_id@,
                expected_goal_id@,
                mode,
                delta_tokens,
                delta_seconds,
                now_ms,
            ) {
                Ok(g) => r == Ok::<AccountingOutcome, GoalStoreError>(outcome_of(g)),
                Err(e) => r is Err && r->Err_0@ == e,
            },
            final(self)@ == old(self)@.after_accounting(
                thread_id@,
                old(self)@.accounted(
                    thread_id@,
                    expected_goal_id@,
                    mode,
                    delta_tokens,
                    delta_seconds,
                    now_ms,
                ),
            ),
    {
        let tokens: i64 = if delta_tokens < 0 {
            0
        } else {
            delta_tokens
        };
        let seconds: i64 = if delta_seconds < 0 {
            0
        } else {
            delta_seconds
        };
        match self.find(thread_id, expected_goal_id) {
            Some(g) => {
                if !mode.allows(g.status) {
                    return Ok(AccountingOutcome::Unchanged);
                }
                if g.tokens_used > i64::MAX - tokens || g.time_used_seconds > i64::MAX - seconds {
                    return Err(overflow_error());
                }
                let used: i64 = g.tokens_used + tokens;
                let exhausted: bool = match g.token_budget {
                    Some(b) => used >= b,
                    None => false,
                };
                let flips: bool = g.status == GoalStatus::Active && exhausted;
                let next: Goal = Goal {
                    tokens_used: used,
                    time_used_seconds: g.time_used_seconds + seconds,
                    status: if flips {
                        GoalStatus::BudgetLimited
                    } else {
                        g.status
                    },
                    status_reason: if flips {
                        Some("budget_limited".to_owned())
                    } else {
                        g.status_reason
                    },
                    updated_at_ms: now_ms,
                    ..g
                };
                self.put(thread_id, &next);
                Ok(AccountingOutcome::Updated { tokens_used: next.tokens_used, status: next.status })
            },
            None => Ok(AccountingOutcome::Unchanged),
        }
    }

    /// Puts off the next goal turn of a thread that has a goal; says whether
    /// the mark is new.
    pub fn defer_continuation(&mut self, thread_id: &str) -> (r: bool)
        requires
            old(self).wf(),
        ensures
            final(self).wf(),
            r == (old(self)@.rows.contains_key(thread_id@) && !old(self)@.deferred.contains(
                thread_id@,
            )),
            final(self)@ == if r {
                StoreView { deferred: old(self)@.deferred.insert(thread_id@), ..old(self)@ }
            } else {
                old(self)@
            },
    {
        if !self.rows.contains(thread_id) || self.deferrals.contains(thread_id) {
            return false;
        }
        self.deferrals.insert(thread_id, ());
        assert(self@.deferred =~= old(self)@.deferred.insert(thread_id@));
        true
    }

    /// Whether the next goal turn of a thread is put off.
    pub fn has_continuation_deferral(&self, thread_id: &str) -> (r: bool)
        requires
            self.wf(),
        ensures
            r == self@.deferred.contains(thread_id@),
    {
        self.deferrals.contains(thread_id)
    }

    /// Takes the mark off a thread; says whether it was there.
    pub fn clear_continuation_deferral(&mut self, thread_id: &str) -> (r: bool)
        requires
            old(self).wf(),
        ensures
            final(self).wf(),
            r == old(self)@.deferred.contains(thread_id@),
            final(self)@ == (StoreView {
                deferred: old(self)@.deferred.remove(thread_id@),
                ..old(self)@
            }),
    {
        let gone: Option<()> = self.deferrals.remove(thread_id);
        assert(self@.deferred =~= old(self)@.deferred.remove(thread_id@));
        gone.is_some()
    }

    /// A goal with its objective as it reads in full.
    pub fn resolve_objective(&self, goal: Goal) -> (r: Goal)
        requires
            self.wf(),
        ensures
            r@ == self@.resolved(goal@),
    {
        if !goal.objective_file || self.goals_dir.is_none() {
            return goal;
        }
        let text: Option<String> = match objective_file::marker_file_name(goal.objective.as_str()) {
            Some(name) => match self.files.get(name) {
                Some(t) => Some(t.clone()),
                None => None,
            },
            None => None,
        };
        match text {
            Some(t) => Goal { objective: t, ..goal },
            None => goal,
        }
    }

    /// Writes an objective file.
    pub fn write_file(&mut self, name: &str, contents: &str)
        requires
            old(self).wf(),
        ensures
            final(self).wf(),
            final(self)@ == (StoreView {
                files: old(self)@.files.insert(name@, contents@),
                ..old(self)@
            }),
    {
        self.files.insert(name, contents.to_owned());
        assert(self@.files =~= old(self)@.files.insert(name@, contents@));
    }

    /// Removes an objective file, if it is there.
    pub fn remove_file(&mut self, name: &str)
        requires
            old(self).wf(),
        ensures
            final(self).wf(),
            final(self)@ == (StoreView { files: old(self)@.files.remove(name@), ..old(self)@ }),
    {
        self.files.remove(name);
        assert(self@.files =~= old(self)@.files.remove(name@));
    }

    /// The contents of an objective file.
    pub fn read_file(&self, name: &str) -> (r: Option<&str>)
        requires
            self.wf(),
        ensures
            text::opt_str(r) == if self@.files.contains_key(name@) {
                Some(self@.files[name@])
            } else {
                None
            },
    {
        match self.files.get(name) {
            Some(t) => Some(t.as_str()),
            None => None,
        }
    }
}

/// The values of a list of goals with their threads.
pub open spec fn listing(v: Seq<(String, Goal)>) -> Seq<(Seq<char>, GoalView)> {
    v.map_values(|e: (String, Goal)| (e.0@, e.1@))
}

/// Whether `l` lists every row once, the newest goal first.
pub open spec fn lists_rows(l: Seq<(Seq<char>, GoalView)>, rows: Map<Seq<char>, GoalView>) -> bool {
    &&& forall|i: int| 0 <= i < l.len() ==> rows.contains_key((#[trigger] l[i]).0) && rows[l[i].0] == l[i].1
    &&& forall|t: Seq<char>| #[trigger] rows.contains_key(t) ==> exists|i: int| 0 <= i < l.len() && (#[trigger] l[i]).0 == t
    &&& forall|i: int, j: int| 0 <= i < j < l.len() ==> (#[trigger] l[i]).0 != (#[trigger] l[j]).0
    &&& forall|i: int, j: int|
        0 <= i < j < l.len() ==> (#[trigger] l[i]).1.created_at_ms >= (#[trigger] l[j]).1.created_at_ms
}

/// What the database says of a row whose status is no status.
pub const UNKNOWN_STATUS: &'static str =
    "error occurred while decoding column status: unknown goal status: ";

/// A row as the database holds it, with the status by name.
pub struct StoredRow {
    pub thread_id: String,
    pub goal_id: String,
    pub objective: String,
    pub status: String,
    pub token_budget: Option<i64>,
    pub tokens_used: i64,
    pub time_used_seconds: i64,
    pub verify_command: Option<String>,
    pub status_reason: Option<String>,
    pub created_at_ms: i64,
    pub updated_at_ms: i64,
    pub objective_revision: i64,
    pub iteration_count: i64,
}

impl StoredRow {
    /// The goal in the row, given its status.
    pub open spec fn goal_with(self, status: GoalStatus) -> GoalView {
        GoalView {
            thread_id: self.thread_id@,
            goal_id: self.goal_id@,
            objective: self.objective@,
            status,
            token_budget: self.token_budget,
            tokens_used: self.tokens_used,
            time_used_seconds: self.time_used_seconds,
            verify_command: text::opt_text(self.verify_command),
            status_reason: text::opt_text(self.status_reason),
            created_at_ms: self.created_at_ms,
            updated_at_ms: self.updated_at_ms,
            objective_revision: self.objective_revision,
            iteration_count: self.iteration_count,
            objective_file: objective_file::is_marker(self.objective@),
        }
    }
}

/// The goal in a row of the database; a status that has no meaning is an error.
pub fn goal_from_row(row: &StoredRow) -> (r: Result<Goal, GoalStoreError>)
    ensures
        match r {
            Ok(g) => row.status@ == types::status_text(g.status) && g@ == row.goal_with(g.status),
            Err(e) => {
                &&& e@ == StoreErrorView::Sqlx(UNKNOWN_STATUS@ + row.status@)
                &&& forall|s: GoalStatus| row.status@ != #[trigger] types::status_text(s)
            },
        },
{
    match GoalStatus::parse(row.status.as_str()) {
        Some(status) => Ok(
            Goal {
                thread_id: row.thread_id.clone(),
                goal_id: row.goal_id.clone(),
                objective: row.objective.clone(),
                status,
                token_budget: row.token_budget,
                tokens_used: row.tokens_used,
                time_used_seconds: row.time_used_seconds,
                verify_command: text::clone_opt(&row.verify_command),
                status_reason: text::clone_opt(&row.status_reason),
                created_at_ms: row.created_at_ms,
                updated_at_ms: row.updated_at_ms,
                objective_revision: row.objective_revision,
                iteration_count: row.iteration_count,
                objective_file: objective_file::is_file_backed(row.objective.as_str()),
            },
        ),
        None => {
            let mut m: String = UNKNOWN_STATUS.to_owned();
            m.append(row.status.as_str());
            Err(GoalStoreError::Sqlx(m))
        },
    }
}

/// Whether goals stand in order, the newest first.
pub open spec fn newest_first(v: Seq<(String, Goal)>) -> bool {
    forall|a: int, b: int|
        0 <= a < b < v.len() ==> (#[trigger] v[a]).1.created_at_ms >= (#[trigger] v[b]).1.created_at_ms
}

/// Adds a goal to a list in order, behind the goals that are as new.
fn insert_newest_first(v: &mut Vec<(String, Goal)>, key: String, g: Goal) -> (p: usize)
    requires
        newest_first(old(v)@),
    ensures
        p <= old(v)@.len(),
        final(v)@ == old(v)@.insert(p as int, (key, g)),
        newest_first(final(v)@),
{
    let mut p: usize = 0;
    while p < v.len() && v[p].1.created_at_ms >= g.created_at_ms
        invariant
            p <= v@.len(),
            forall|a: int| 0 <= a < p ==> (#[trigger] v@[a]).1.created_at_ms >= g.created_at_ms,
        decreases v.len() - p,
    {
        p += 1;
    }
    v.insert(p, (key, g));
    proof {
        assert forall|a: int, b: int| 0 <= a < b < v@.len() implies (#[trigger] v@[a]).1.created_at_ms >= (
        #[trigger] v@[b]).1.created_at_ms by {
            let x = if a < p { a } else { a - 1 };
            let y = if b < p { b } else { b - 1 };
            if a != p && b != p {
                assert(old(v)@[x].1.created_at_ms >= old(v)@[y].1.created_at_ms);
            } else if a == p && y > p {
                assert(old(v)@[p as int].1.created_at_ms >= old(v)@[y].1.created_at_ms);
            }
        }
    }
    p
}

impl GoalStore {
    /// Brings a row of the database into the table, unless its status has no
    /// meaning.
    pub fn restore(&mut self, row: &StoredRow, deferred: bool) -> (r: Result<(), GoalStoreError>)
        requires
            old(self).wf(),
        ensures
            final(self).wf(),
            match r {
                Ok(()) => {
                    &&& exists|s: GoalStatus|
                        {
                            &&& row.status@ == #[trigger] types::status_text(s)
                            &&& final(self)@.rows == old(self)@.rows.insert(
                                row.thread_id@,
                                row.goal_with(s),
                            )
                        }
                    &&& final(self)@.deferred == if deferred {
                        old(self)@.deferred.insert(row.thread_id@)
                    } else {
                        old(self)@.deferred.remove(row.thread_id@)
                    }
                    &&& final(self)@.files == old(self)@.files
                    &&& final(self)@.goals_dir == old(self)@.goals_dir
                },
                Err(e) => {
                    &&& final(self)@ == old(self)@
                    &&& e@ == StoreErrorView::Sqlx(UNKNOWN_STATUS@ + row.status@)
                    &&& forall|s: GoalStatus| row.status@ != #[trigger] types::status_text(s)
                },
            },
    {
        match goal_from_row(row) {
            Ok(goal) => {
                self.put(row.thread_id.as_str(), &goal);
                if deferred {
                    self.deferrals.insert(row.thread_id.as_str(), ());
                    assert(self@.deferred =~= old(self)@.deferred.insert(row.thread_id@));
                } else {
                    self.deferrals.remove(row.thread_id.as_str());
                    assert(self@.deferred =~= old(self)@.deferred.remove(row.thread_id@));
                }
                proof {
                    assert(self@.rows == old(self)@.rows.insert(row.thread_id@, row.goal_with(goal.status)));
                }
                Ok(())
            },
            Err(e) => Err(e),
        }
    }

    /// All goals with their threads, the newest first.
    pub fn list_all(&self) -> (r: Vec<(String, Goal)>)
        requires
            self.wf(),
        ensures
            lists_rows(listing(r@), self@.rows),
    {
        let mut out: Vec<(String, Goal)> = Vec::new();
        let n: usize = self.rows.len();
        let ghost keys = self.rows.key_seq();
        // Where each listed row stands among the keys, and the other way round.
        let ghost mut source: Seq<int> = Seq::empty();
        let ghost mut place: Seq<int> = Seq::empty();
        let mut i: usize = 0;
        while i < n
            invariant
                self.wf(),
                i <= n,
                n == keys.len(),
                keys == self.rows.key_seq(),
                newest_first(out@),
                out@.len() == i,
                source.len() == i,
                place.len() == i,
                forall|k: int|
                    0 <= k < i ==> 0 <= #[trigger] source[k] < i && place[source[k]] == k && keys[source[k]]
                        == out@[k].0@,
                forall|m: int| 0 <= m < i ==> 0 <= #[trigger] place[m] < i && source[place[m]] == m,
                forall|k: int| 0 <= k < i ==> self.rows@.contains_key((#[trigger] out@[k]).0@)
                    && self.rows@[out@[k].0@] == out@[k].1,
            decreases n - i,
        {
            let key: String = self.rows.key_at(i).clone();
            let g: Goal = self.rows.value_at(i).clone();
            let ghost before = out@;
            let p: usize = insert_newest_first(&mut out, key, g);
            proof {
                let s1 = source.insert(p as int, i as int);
                let p1 = place.map_values(|q: int| if q < p { q } else { q + 1 }).push(p as int);
                assert forall|k: int| 0 <= k < i + 1 implies 0 <= #[trigger] s1[k] < i + 1 && p1[s1[k]] == k
                    && keys[s1[k]] == out@[k].0@ && self.rows@.contains_key(out@[k].0@) && self.rows@[out@[k].0@]
                    == out@[k].1 by {
                    if k < p {
                        assert(s1[k] == source[k] && out@[k] == before[k]);
                    } else if k > p {
                        assert(s1[k] == source[k - 1] && out@[k] == before[k - 1]);
                    }
                }
                assert forall|m: int| 0 <= m < i + 1 implies 0 <= #[trigger] p1[m] < i + 1 && s1[p1[m]] == m by {
                    if m < i {
                        let q = place[m];
                        assert(source[q] == m);
                    }
                }
                assert forall|k: int| 0 <= k < i + 1 implies self.rows@.contains_key((#[trigger] out@[k]).0@)
                    && self.rows@[out@[k].0@] == out@[k].1 by {
                    assert(0 <= s1[k]);
                }
                source = s1;
                place = p1;
            }
            i += 1;
        }
        proof {
            self.rows.lemma_keys();
            let l = listing(out@);
            assert forall|t: Seq<char>| #[trigger] self@.rows.contains_key(t) implies exists|k: int|
                0 <= k < l.len() && (#[trigger] l[k]).0 == t by {
                assert(self.rows@.contains_key(t));
                let m = keys.index_of(t);
                assert(keys[m] == t);
                assert(source[place[m]] == m);
                assert(l[place[m]].0 == t);
            }
            assert forall|a: int, b: int| 0 <= a < b < l.len() implies (#[trigger] l[a]).0 != (
            #[trigger] l[b]).0 by {
                assert(source[a] != source[b]) by {
                    assert(place[source[a]] == a && place[source[b]] == b);
                }
            }
            assert forall|a: int, b: int| 0 <= a < b < l.len() implies (#[trigger] l[a]).1.created_at_ms
                >= (#[trigger] l[b]).1.created_at_ms by {
                assert(out@[a].1.created_at_ms >= out@[b].1.created_at_ms);
            }
        }
        out
    }

    /// The goal with an id, and its thread.
    pub fn find_by_goal_id(&self, goal_id: &str) -> (r: Option<(String, Goal)>)
        requires
            self.wf(),
        ensures
            match r {
                Some((t, g)) => self@.holds(t@, goal_id@) && g@ == self@.rows[t@],
                None => forall|t: Seq<char>| !#[trigger] self@.holds(t, goal_id@),
            },
    {
        let n: usize = self.rows.len();
        proof {
            self.rows.lemma_keys();
        }
        let mut i: usize = 0;
        while i < n
            invariant
                self.wf(),
                i <= n,
                n == self.rows.key_seq().len(),
                forall|m: int| 0 <= m < i ==> !self@.holds(#[trigger] self.rows.key_seq()[m], goal_id@),
            decreases n - i,
        {
            let g: &Goal = self.rows.value_at(i);
            let key: &String = self.rows.key_at(i);
            assert(self@.rows[key@] == g@);
            if text::same(g.goal_id.as_str(), goal_id) {
                return Some((key.clone(), g.clone()));
            }
            i += 1;
        }
        proof {
            assert forall|t: Seq<char>| !#[trigger] self@.holds(t, goal_id@) by {
                if self@.rows.contains_key(t) {
                    assert(self.rows@.contains_key(t));
                    let m = self.rows.key_seq().index_of(t);
                    assert(self.rows.key_seq()[m] == t);
                }
            }
        }
        None
    }

    /// Puts a goal with a history of its own on a thread, whatever it had:
    /// nothing but an empty objective is refused, and negative usage counts as
    /// none.
    pub fn insert_migrated(
        &mut self,
        thread_id: &str,
        goal_id: &str,
        objective: &str,
        token_budget: Option<i64>,
        tokens_used: i64,
        time_used_seconds: i64,
        verify_command: Option<&str>,
        status: GoalStatus,
        status_reason: Option<&str>,
        now_ms: i64,
    ) -> (r: Result<Goal, GoalStoreError>)
        requires
            old(self).wf(),
        ensures
            final(self).wf(),
            goal_result(r) == if text::trimmed(objective@).len() == 0 {
                Err(StoreErrorView::Validation(GoalValidationError::EmptyObjective))
            } else {
                Ok(
                    migrated_goal(
                        thread_id@,
                        goal_id@,
                        text::trimmed(objective@),
                        token_budget,
                        tokens_used,
                        time_used_seconds,
                        text::opt_str(verify_command),
                        status,
                        text::opt_str(status_reason),
                        now_ms,
                    ),
                )
            },
            match goal_result(r) {
                Ok(g) => final(self)@ == old(self)@.without_goal(thread_id@).with_goal(thread_id@, g),
                Err(_) => final(self)@ == old(self)@,
            },
    {
        let trimmed: String = text::trim(objective).to_owned();
        if trimmed.as_str().is_empty() {
            return Err(GoalStoreError::Validation(GoalValidationError::EmptyObjective));
        }
        let goal: Goal = Goal {
            thread_id: thread_id.to_owned(),
            goal_id: goal_id.to_owned(),
            objective_file: objective_file::is_file_backed(trimmed.as_str()),
            objective: trimmed,
            status,
            token_budget,
            tokens_used: if tokens_used < 0 {
                0
            } else {
                tokens_used
            },
            time_used_seconds: if time_used_seconds < 0 {
                0
            } else {
                time_used_seconds
            },
            verify_command: text::own_opt(verify_command),
            status_reason: text::own_opt(status_reason),
            created_at_ms: now_ms,
            updated_at_ms: now_ms,
            objective_revision: 0,
            iteration_count: 0,
        };
        self.delete(thread_id);
        self.put(thread_id, &goal);
        Ok(goal)
    }
}

/// A goal that was brought in with a history of its own.
pub open spec fn migrated_goal(
    thread_id: Seq<char>,
    goal_id: Seq<char>,
    objective: Seq<char>,
    token_budget: Option<i64>,
    tokens_used: i64,
    time_used_seconds: i64,
    verify_command: Option<Seq<char>>,
    status: GoalStatus,
    status_reason: Option<Seq<char>>,
    now_ms: i64,
) -> GoalView {
    GoalView {
        thread_id,
        goal_id,
        objective,
        status,
        token_budget,
        tokens_used: at_least_zero(tokens_used) as i64,
        time_used_seconds: at_least_zero(time_used_seconds) as i64,
        verify_command,
        status_reason,
        created_at_ms: now_ms,
        updated_at_ms: now_ms,
        objective_revision: 0,
        iteration_count: 0,
        objective_file: objective_file::is_marker(objective),
    }
}

/// A change meant for a goal that the thread no longer has leaves the table as
/// it is: nothing is found, and nothing is booked.
pub proof fn law_stale_goal_is_left_alone(
    s: StoreView,
    t: Seq<char>,
    id: Seq<char>,
    text: Seq<char>,
    mode: AccountingMode,
    n: i64,
    m: i64,
    now_ms: i64,
)
    requires
        s.wf(),
        !s.holds(t, id),
    ensures
        s.after(t, s.paused(t, id, now_ms)) == s,
        s.after(t, s.resumed(t, id, now_ms)) == s,
        s.after(t, s.usage_limited(t, id, text, now_ms)) == s,
        s.after(t, s.blocked(t, id, text, now_ms)) == s,
        s.after(t, s.completed(t, id, now_ms)) == s,
        s.after(t, s.edited(t, id, text, now_ms)) == s,
        s.after(t, s.rebudgeted(t, id, n, m, now_ms)) == s,
        s.after(t, s.counted(t, id, n, now_ms)) == s,
        s.accounted(t, id, mode, n, m, now_ms) == Ok::<Option<GoalView>, StoreErrorView>(None),
        s.after_accounting(t, s.accounted(t, id, mode, n, m, now_ms)) == s,
{
}

/// An operation on one thread leaves the goals of all others alone.
pub proof fn law_other_threads_are_left_alone(
    s: StoreView,
    t: Seq<char>,
    u: Seq<char>,
    r: Result<GoalView, StoreErrorView>,
    booked: Result<Option<GoalView>, StoreErrorView>,
)
    requires
        s.wf(),
        t != u,
    ensures
        s.after(t, r).goal(u) == s.goal(u),
        s.after_accounting(t, booked).goal(u) == s.goal(u),
        s.without_goal(t).goal(u) == s.goal(u),
        s.without_goal(t).deferred.contains(u) == s.deferred.contains(u),
{
}

/// A complete goal is final: it can be neither paused, resumed, limited,
/// blocked, completed, edited nor given a budget, and only the booking that
/// goes with completion still reaches it.
pub proof fn law_complete_is_final(
    s: StoreView,
    t: Seq<char>,
    id: Seq<char>,
    text: Seq<char>,
    mode: AccountingMode,
    n: i64,
    m: i64,
    now_ms: i64,
)
    requires
        s.wf(),
        s.holds(t, id),
        s.rows[t].status == GoalStatus::Complete,
    ensures
        s.paused(t, id, now_ms) is Err,
        s.resumed(t, id, now_ms) is Err,
        s.usage_limited(t, id, text, now_ms) is Err,
        s.blocked(t, id, text, now_ms) is Err,
        s.completed(t, id, now_ms) is Err,
        s.edited(t, id, text, now_ms) is Err,
        s.rebudgeted(t, id, n, m, now_ms) is Err,
        mode != AccountingMode::ActiveOrComplete ==> s.accounted(t, id, mode, n, m, now_ms) == Ok::<
            Option<GoalView>,
            StoreErrorView,
        >(None),
{
}

/// Creating a goal never overwrites an unfinished one.
pub proof fn law_create_keeps_unfinished(
    s: StoreView,
    req: RequestView,
    id: Seq<char>,
    cap: i64,
    now_ms: i64,
)
    requires
        s.wf(),
        s.rows.contains_key(req.thread_id),
        s.rows[req.thread_id].status != GoalStatus::Complete,
    ensures
        s.created(req, id, cap, now_ms) is Err,
        s.after(req.thread_id, s.created(req, id, cap, now_ms)) == s,
{
}

/// A thread that has no goal is never put off: the mark goes when the goal
/// goes, and a goal that is put in place carries none.
pub proof fn law_mark_goes_with_goal(s: StoreView, t: Seq<char>, g: GoalView)
    requires
        s.wf(),
        row_ok(t, g),
    ensures
        s.without_goal(t).wf(),
        !s.without_goal(t).deferred.contains(t),
        s.without_goal(t).with_goal(t, g).wf(),
        !s.without_goal(t).with_goal(t, g).deferred.contains(t),
        s.with_goal(t, g).wf(),
{
}

/// Resuming undoes pausing: the goal is back as it was, but for the time of the
/// change and a reason that no longer applies.
pub proof fn law_resume_undoes_pause(
    s: StoreView,
    t: Seq<char>,
    id: Seq<char>,
    paused_at: i64,
    resumed_at: i64,
)
    requires
        s.wf(),
        s.holds(t, id),
        s.rows[t].status == GoalStatus::Active,
    ensures
        s.paused(t, id, paused_at) is Ok,
        s.after(t, s.paused(t, id, paused_at)).resumed(t, id, resumed_at) == Ok::<
            GoalView,
            StoreErrorView,
        >(GoalView { status_reason: None, updated_at_ms: resumed_at, ..s.rows[t] }),
{
}

/// Booking never takes usage away, keeps the goal and its budget, and changes
/// the status only from active to budget-limited, which it does exactly when
/// the budget is exhausted.
pub proof fn law_booking_only_adds(
    s: StoreView,
    t: Seq<char>,
    id: Seq<char>,
    mode: AccountingMode,
    n: i64,
    m: i64,
    now_ms: i64,
)
    requires
        s.wf(),
        s.accounted(t, id, mode, n, m, now_ms) matches Ok(Some(_)),
    ensures
        ({
            let g = s.rows[t];
            let h = s.accounted(t, id, mode, n, m, now_ms)->Ok_0->Some_0;
            &&& h.tokens_used >= g.tokens_used
            &&& h.time_used_seconds >= g.time_used_seconds
            &&& h.goal_id == g.goal_id
            &&& h.token_budget == g.token_budget
            &&& h.objective == g.objective
            &&& (h.status != g.status <==> g.status == GoalStatus::Active && exhausts(g, h.tokens_used as int))
            &&& (h.status != g.status ==> h.status == GoalStatus::BudgetLimited)
            &&& row_ok(t, h)
        }),
{
}

/// A goal that ran out of budget goes on once it has a new one: the budget is
/// taken, resuming succeeds, and what was used stays on the account.
pub proof fn law_new_budget_then_resume(
    s: StoreView,
    t: Seq<char>,
    id: Seq<char>,
    budget: i64,
    cap: i64,
    now_ms: i64,
    resumed_at: i64,
)
    requires
        s.wf(),
        s.holds(t, id),
        s.rows[t].status == GoalStatus::BudgetLimited,
        0 < budget <= cap,
    ensures
        s.rebudgeted(t, id, budget, cap, now_ms) is Ok,
        s.after(t, s.rebudgeted(t, id, budget, cap, now_ms)).resumed(t, id, resumed_at) == Ok::<
            GoalView,
            StoreErrorView,
        >(
            GoalView {
                status: GoalStatus::Active,
                status_reason: None,
                token_budget: Some(budget),
                updated_at_ms: resumed_at,
                ..s.rows[t]
            },
        ),
{
}

/// Whether `h` is the goal `g` as far as its work goes: what it is for, what it may
/// use and what it has used, and how far it has come.
pub open spec fn same_work(g: GoalView, h: GoalView) -> bool {
    &&& h.thread_id == g.thread_id
    &&& h.goal_id == g.goal_id
    &&& h.objective == g.objective
    &&& h.objective_file == g.objective_file
    &&& h.objective_revision == g.objective_revision
    &&& h.token_budget == g.token_budget
    &&& h.tokens_used == g.tokens_used
    &&& h.time_used_seconds == g.time_used_seconds
    &&& h.verify_command == g.verify_command
    &&& h.created_at_ms == g.created_at_ms
    &&& h.iteration_count == g.iteration_count
}

/// Whether `r` moves the goal `id` of thread `t` to `to` if `allowed`, and is
/// refused otherwise; the work of the goal stays as it is.
pub open spec fn moves_to(
    s: StoreView,
    t: Seq<char>,
    id: Seq<char>,
    allowed: bool,
    to: GoalStatus,
    reason: Option<Seq<char>>,
    now_ms: i64,
    r: Result<GoalView, StoreErrorView>,
) -> bool {
    if s.rows.contains_key(t) && s.rows[t].goal_id == id && allowed {
        &&& r is Ok
        &&& same_work(s.rows[t], r->Ok_0)
        &&& r->Ok_0.status == to
        &&& r->Ok_0.status_reason == reason
        &&& r->Ok_0.updated_at_ms == now_ms
    } else {
        r == Err::<GoalView, StoreErrorView>(StoreErrorView::NotFoundOrDisallowed(t))
    }
}

/// From where to where goals are moved: only an active goal is paused, blocked or
/// completed; an active or budget-limited one runs out of quota; and one that is
/// paused, blocked or limited becomes active again.
pub proof fn law_goals_are_moved(
    s: StoreView,
    t: Seq<char>,
    id: Seq<char>,
    reason: Seq<char>,
    now_ms: i64,
)
    ensures
        ({
            let from = s.rows[t].status;
            &&& moves_to(s, t, id, from is Active, GoalStatus::Paused, None, now_ms, s.paused(t, id, now_ms))
            &&& moves_to(
                s,
                t,
                id,
                from is Paused || from is Blocked || from is UsageLimited || from is BudgetLimited,
                GoalStatus::Active,
                None,
                now_ms,
                s.resumed(t, id, now_ms),
            )
            &&& moves_to(
                s,
                t,
                id,
                from is Active || from is BudgetLimited,
                GoalStatus::UsageLimited,
                Some(reason),
                now_ms,
                s.usage_limited(t, id, reason, now_ms),
            )
            &&& moves_to(
                s,
                t,
                id,
                from is Active,
                GoalStatus::Blocked,
                Some(reason),
                now_ms,
                s.blocked(t, id, reason, now_ms),
            )
            &&& moves_to(
                s,
                t,
                id,
                from is Active,
                GoalStatus::Complete,
                None,
                now_ms,
                s.completed(t, id, now_ms),
            )
        }),
{
}

/// What an edit changes: the objective, whether it is a marker, the count of
/// revisions and the time of the change. Status, reason, budget, usage, verify
/// command, creation time and turn count stay as they were.
pub proof fn law_edit_changes_the_objective_alone(
    s: StoreView,
    t: Seq<char>,
    id: Seq<char>,
    objective: Seq<char>,
    now_ms: i64,
)
    requires
        s.rows.contains_key(t),
        s.rows[t].goal_id == id,
    ensures
        ({
            let g = s.rows[t];
            let r = s.edited(t, id, objective, now_ms);
            &&& r is Ok <==> types::objective_fault(objective) is None && g.objective_revision
                < i64::MAX && (g.status is Active || g.status is Paused || g.status is Blocked
                || g.status is UsageLimited)
            &&& types::objective_fault(objective) is Some ==> r == Err::<GoalView, StoreErrorView>(
                StoreErrorView::Validation(types::objective_fault(objective)->0),
            )
            &&& types::objective_fault(objective) is None && (g.status is Complete
                || g.status is BudgetLimited) ==> r == Err::<GoalView, StoreErrorView>(
                StoreErrorView::NotFoundOrDisallowed(t),
            )
            &&& r matches Ok(h) ==> {
                &&& h.objective == text::trimmed(objective)
                &&& h.objective_file == "@file:"@.is_prefix_of(text::trimmed(objective))
                &&& h.objective_revision == g.objective_revision + 1
                &&& h.updated_at_ms == now_ms
                &&& same_work(
                    g,
                    GoalView {
                        objective: g.objective,
                        objective_file: g.objective_file,
                        objective_revision: g.objective_revision,
                        ..h
                    },
                )
                &&& h.status == g.status
                &&& h.status_reason == g.status_reason
            }
        }),
{
}

/// What a new budget changes: the budget and the time of the change. A goal takes it
/// unless it is complete.
pub proof fn law_new_budget_changes_the_budget_alone(
    s: StoreView,
    t: Seq<char>,
    id: Seq<char>,
    budget: i64,
    cap: i64,
    now_ms: i64,
)
    requires
        s.rows.contains_key(t),
        s.rows[t].goal_id == id,
    ensures
        ({
            let g = s.rows[t];
            let r = s.rebudgeted(t, id, budget, cap, now_ms);
            &&& r is Ok <==> 1 <= budget <= cap && !(g.status is Complete)
            &&& r matches Ok(h) ==> {
                &&& h.token_budget == Some(budget)
                &&& h.updated_at_ms == now_ms
                &&& same_work(g, GoalView { token_budget: g.token_budget, ..h })
                &&& h.status == g.status
                &&& h.status_reason == g.status_reason
            }
            &&& budget < 1 ==> r == Err::<GoalView, StoreErrorView>(
                StoreErrorView::Validation(GoalValidationError::BudgetMustBePositive),
            )
            &&& budget >= 1 && budget > cap ==> r == Err::<GoalView, StoreErrorView>(
                StoreErrorView::Validation(GoalValidationError::BudgetAboveCap(cap)),
            )
        }),
{
}

/// What counting turns changes: the count and the time of the change, in any status.
pub proof fn law_counting_changes_the_count_alone(
    s: StoreView,
    t: Seq<char>,
    id: Seq<char>,
    n: i64,
    now_ms: i64,
)
    requires
        s.rows.contains_key(t),
        s.rows[t].goal_id == id,
    ensures
        s.counted(t, id, n, now_ms) matches Ok(h) && {
            &&& h.iteration_count == n
            &&& h.updated_at_ms == now_ms
            &&& same_work(s.rows[t], GoalView { iteration_count: s.rows[t].iteration_count, ..h })
            &&& h.status == s.rows[t].status
            &&& h.status_reason == s.rows[t].status_reason
        },
{
}

/// A new goal is what was asked for, active, with nothing used and nothing counted.
/// It is refused for what is wrong with the request, and then, unless it replaces the
/// goal that is there, for a goal that is not complete.
pub proof fn law_new_goal_is_as_asked_for(
    s: StoreView,
    req: RequestView,
    id: Seq<char>,
    cap: i64,
    now_ms: i64,
)
    ensures
        ({
            let fault = req.fault(cap);
            let occupied = s.rows.contains_key(req.thread_id) && !(
            s.rows[req.thread_id].status is Complete);
            let made = s.created(req, id, cap, now_ms);
            let put = s.replaced(req, id, cap, now_ms);
            &&& fault matches Some(e) ==> made == Err::<GoalView, StoreErrorView>(
                StoreErrorView::Validation(e),
            ) && put == Err::<GoalView, StoreErrorView>(StoreErrorView::Validation(e))
            &&& fault is None ==> put is Ok
            &&& fault is None && occupied ==> made == Err::<GoalView, StoreErrorView>(
                StoreErrorView::ExistingUnfinishedGoal(req.thread_id),
            )
            &&& fault is None && !occupied ==> made == put
            &&& put matches Ok(g) ==> {
                &&& g.thread_id == req.thread_id
                &&& g.goal_id == id
                &&& g.objective == text::trimmed(req.objective)
                &&& g.objective_file == "@file:"@.is_prefix_of(text::trimmed(req.objective))
                &&& g.token_budget == req.token_budget
                &&& g.verify_command == req.verify_command
                &&& g.status is Active
                &&& g.status_reason is None
                &&& g.tokens_used == 0
                &&& g.time_used_seconds == 0
                &&& g.objective_revision == 0
                &&& g.iteration_count == 0
                &&& g.created_at_ms == now_ms
                &&& g.updated_at_ms == now_ms
            }
        }),
{
}

/// What an operation yields is what the thread then has, and a failure changes
/// nothing. Files and marks stay as they are, and a goal that goes takes its mark
/// along.
pub proof fn law_table_after_an_operation(
    s: StoreView,
    t: Seq<char>,
    g: GoalView,
    e: StoreErrorView,
)
    ensures
        s.after(t, Err(e)) == s,
        s.after(t, Ok(g)).goal(t) == Some(g),
        s.after(t, Ok(g)).deferred == s.deferred,
        s.after(t, Ok(g)).files == s.files,
        s.after(t, Ok(g)).goals_dir == s.goals_dir,
        s.without_goal(t).goal(t) is None,
        !s.without_goal(t).deferred.contains(t),
        s.without_goal(t).files == s.files,
        s.without_goal(t).goals_dir == s.goals_dir,
        s.goal(t) is Some <==> s.rows.contains_key(t),
        s.goal(t) matches Some(h) ==> h == s.rows[t],
        s.after_accounting(t, Ok(Some(g))).goal(t) == Some(g),
        s.after_accounting(t, Ok(Some(g))).deferred == s.deferred,
        s.after_accounting(t, Ok(None)) == s,
        s.after_accounting(t, Err(e)) == s,
{
}

/// Whether usage is booked in `mode` on a goal in `status`.
pub open spec fn books_in(mode: AccountingMode, status: GoalStatus) -> bool {
    ||| status is Active
    ||| status is BudgetLimited && !(mode is ActiveStatusOnly)
    ||| status is Complete && mode is ActiveOrComplete
    ||| !(status is Complete) && mode is ActiveOrStopped
}

/// What a booking adds: the tokens and the seconds, where they are not negative. An
/// active goal that has then used its budget is budget-limited, and says so; all else
/// stays as it was.
pub proof fn law_booking_adds_what_was_used(
    s: StoreView,
    t: Seq<char>,
    id: Seq<char>,
    mode: AccountingMode,
    tokens: i64,
    seconds: i64,
    now_ms: i64,
)
    requires
        s.rows.contains_key(t),
        s.rows[t].goal_id == id,
    ensures
        ({
            let g = s.rows[t];
            let r = s.accounted(t, id, mode, tokens, seconds, now_ms);
            let more_tokens: int = if tokens > 0 {
                tokens as int
            } else {
                0
            };
            let more_seconds: int = if seconds > 0 {
                seconds as int
            } else {
                0
            };
            let fits = g.tokens_used + more_tokens <= i64::MAX && g.time_used_seconds + more_seconds
                <= i64::MAX;
            let flips = g.status is Active && (g.token_budget matches Some(b) && b <= g.tokens_used
                + more_tokens);
            &&& !books_in(mode, g.status) ==> r == Ok::<Option<GoalView>, StoreErrorView>(None)
            &&& books_in(mode, g.status) && !fits ==> r is Err
            &&& books_in(mode, g.status) && fits ==> (r matches Ok(Some(h)) && {
                &&& h.tokens_used == g.tokens_used + more_tokens
                &&& h.time_used_seconds == g.time_used_seconds + more_seconds
                &&& same_work(
                    g,
                    GoalView {
                        tokens_used: g.tokens_used,
                        time_used_seconds: g.time_used_seconds,
                        ..h
                    },
                )
                &&& h.updated_at_ms == now_ms
                &&& flips ==> h.status is BudgetLimited && h.status_reason == Some("budget_limited"@)
                &&& !flips ==> h.status == g.status && h.status_reason == g.status_reason
                &&& outcome_of(Some(h)) == AccountingOutcome::Updated {
                    tokens_used: h.tokens_used,
                    status: h.status,
                }
            })
            &&& outcome_of(None) == AccountingOutcome::Unchanged
        }),
{
}

/// Two bookings in a row book what one booking of both amounts does, as long as the
/// first does not use up the budget.
pub proof fn law_bookings_add_up(
    s: StoreView,
    t: Seq<char>,
    id: Seq<char>,
    a: i64,
    b: i64,
    now_ms: i64,
)
    requires
        s.rows.contains_key(t),
        s.rows[t].goal_id == id,
        s.rows[t].status is Active,
        0 <= a <= 1_000_000_000_000,
        0 <= b <= 1_000_000_000_000,
        0 <= s.rows[t].tokens_used <= 1_000_000_000_000,
        0 <= s.rows[t].time_used_seconds <= 1_000_000_000_000,
        s.rows[t].token_budget matches Some(limit) ==> s.rows[t].tokens_used + a < limit,
    ensures
        ({
            let mode = AccountingMode::ActiveStatusOnly;
            let first = s.after_accounting(t, s.accounted(t, id, mode, a, a, now_ms));
            first.accounted(t, id, mode, b, b, now_ms) == s.accounted(
                t,
                id,
                mode,
                (a + b) as i64,
                (a + b) as i64,
                now_ms,
            )
        }),
{
}

/// An objective that is kept in a file reads as the file does; any other reads as it
/// stands in the row. Nothing else of the goal differs.
pub proof fn law_objective_reads_as_its_file(s: StoreView, g: GoalView)
    ensures
        ({
            let r = s.resolved(g);
            let name = g.objective.skip(6);
            let kept = g.objective_file && s.goals_dir is Some && "@file:"@.is_prefix_of(g.objective)
                && s.files.contains_key(name);
            &&& kept ==> r.objective == s.files[name]
            &&& !kept ==> r.objective == g.objective
            &&& same_work(g, GoalView { objective: g.objective, ..r })
            &&& r.status == g.status
            &&& r.status_reason == g.status_reason
            &&& r.updated_at_ms == g.updated_at_ms
        }),
{
    reveal_strlit("@file:");
}

/// A goal that is brought in keeps what it comes with; only negative usage counts as
/// none, and revisions and turns are counted anew.
pub proof fn law_goal_brought_in_keeps_its_history(
    thread_id: Seq<char>,
    goal_id: Seq<char>,
    objective: Seq<char>,
    budget: Option<i64>,
    tokens: i64,
    seconds: i64,
    verify: Option<Seq<char>>,
    status: GoalStatus,
    reason: Option<Seq<char>>,
    now_ms: i64,
)
    ensures
        ({
            let g = migrated_goal(
                thread_id,
                goal_id,
                objective,
                budget,
                tokens,
                seconds,
                verify,
                status,
                reason,
                now_ms,
            );
            &&& g.thread_id == thread_id && g.goal_id == goal_id && g.objective == objective
            &&& g.token_budget == budget && g.verify_command == verify
            &&& g.status == status && g.status_reason == reason
            &&& tokens >= 0 ==> g.tokens_used == tokens
            &&& tokens < 0 ==> g.tokens_used == 0
            &&& seconds >= 0 ==> g.time_used_seconds == seconds
            &&& seconds < 0 ==> g.time_used_seconds == 0
            &&& g.created_at_ms == now_ms && g.updated_at_ms == now_ms
            &&& g.objective_revision == 0 && g.iteration_count == 0
            &&& g.objective_file == "@file:"@.is_prefix_of(objective)
        }),
{
}

/// A row of the database is read field by field.
pub proof fn law_row_is_read_as_it_stands(row: StoredRow, status: GoalStatus)
    ensures
        ({
            let g = row.goal_with(status);
            &&& g.thread_id == row.thread_id@ && g.goal_id == row.goal_id@ && g.objective
                == row.objective@
            &&& g.status == status && g.token_budget == row.token_budget
            &&& g.tokens_used == row.tokens_used && g.time_used_seconds == row.time_used_seconds
            &&& (g.verify_command is Some <==> row.verify_command is Some)
            &&& (row.verify_command matches Some(c) ==> g.verify_command == Some(c@))
            &&& (g.status_reason is Some <==> row.status_reason is Some)
            &&& (row.status_reason matches Some(c) ==> g.status_reason == Some(c@))
            &&& g.created_at_ms == row.created_at_ms && g.updated_at_ms == row.updated_at_ms
            &&& g.objective_revision == row.objective_revision && g.iteration_count
                == row.iteration_count
            &&& g.objective_file == "@file:"@.is_prefix_of(row.objective@)
        }),
{
}

/// Goals are listed with the newest first, each once and under its thread.
pub proof fn law_newest_goal_comes_first(
    l: Seq<(Seq<char>, GoalView)>,
    rows: Map<Seq<char>, GoalView>,
    t: Seq<char>,
    i: int,
    j: int,
)
    requires
        lists_rows(l, rows),
        0 <= i < j < l.len(),
    ensures
        l[i].1.created_at_ms >= l[j].1.created_at_ms,
        l[i].0 != l[j].0,
        rows.contains_key(l[i].0) && rows[l[i].0] == l[i].1,
        rows.contains_key(t) ==> exists|k: int| 0 <= k < l.len() && l[k] == (t, rows[t]),
{
    if rows.contains_key(t) {
        let k = choose|k: int| 0 <= k < l.len() && (#[trigger] l[k]).0 == t;
        assert(l[k] == (t, rows[t]));
    }
}

} // verus!
