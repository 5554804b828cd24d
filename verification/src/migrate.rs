//! Bringing goals in from where they used to be kept: what tasks remember, and
//! the file of shown goals.
//!
//! A thread that has a goal keeps it, so that nothing is brought in twice.

use crate::goal_file;
use crate::goal_meta::{GoalLifecycle, GoalMeta, MetaView};
use crate::outside;
use crate::store;
use crate::store::{GoalStore, GoalStoreError, StoreErrorView, StoreView};
use crate::text;
use crate::types::{GoalStatus, GoalValidationError, GoalView};
use vstd::prelude::*;
use vstd::string::*;

verus! {

/// A task, with what it remembers of a goal, if anything that makes sense.
#[derive(Debug)]
pub struct TaskRecord {
    pub id: String,
    pub name: String,
    pub description: String,
    pub meta: Option<GoalMeta>,
}

/// The mathematical value of a [`TaskRecord`].
pub struct TaskView {
    pub id: Seq<char>,
    pub name: Seq<char>,
    pub description: Seq<char>,
    pub meta: Option<MetaView>,
}

impl View for TaskRecord {
    type V = TaskView;

    open spec fn view(&self) -> TaskView {
        TaskView {
            id: self.id@,
            name: self.name@,
            description: self.description@,
            meta: match self.meta {
                Some(m) => Some(m@),
                None => None,
            },
        }
    }
}

/// A shown goal, as far as it is brought in.
#[derive(Debug)]
pub struct LegacyGoalJson {
    pub id: String,
    pub title: String,
    pub description: String,
    pub status: String,
    pub session_ids: Vec<String>,
}

/// The mathematical value of a [`LegacyGoalJson`].
pub struct LegacyView {
    pub id: Seq<char>,
    pub title: Seq<char>,
    pub description: Seq<char>,
    pub status: Seq<char>,
    pub sessions: Seq<Seq<char>>,
}

impl LegacyView {
    /// The first session, if there is one.
    pub open spec fn session(self) -> Option<Seq<char>> {
        if self.sessions.len() > 0 {
            Some(self.sessions[0])
        } else {
            None
        }
    }
}

impl View for LegacyGoalJson {
    type V = LegacyView;

    open spec fn view(&self) -> LegacyView {
        LegacyView {
            id: self.id@,
            title: self.title@,
            description: self.description@,
            status: self.status@,
            sessions: self.session_ids@.map_values(|t: String| t@),
        }
    }
}

/// What was brought in and what was not.
#[derive(Debug, Clone, Copy, PartialEq, Eq, Structural)]
pub struct MigrateSummary {
    pub task_meta_migrated: u32,
    pub task_meta_skipped_cancelled: u32,
    pub task_meta_existing: u32,
    pub json_migrated: u32,
    pub json_skipped_cancelled: u32,
    pub json_skipped_no_session: u32,
    pub json_existing: u32,
}

impl Default for MigrateSummary {
    fn default() -> (r: MigrateSummary)
        ensures
            r == no_summary(),
    {
        MigrateSummary {
            task_meta_migrated: 0,
            task_meta_skipped_cancelled: 0,
            task_meta_existing: 0,
            json_migrated: 0,
            json_skipped_cancelled: 0,
            json_skipped_no_session: 0,
            json_existing: 0,
        }
    }
}

/// Nothing was brought in.
pub open spec fn no_summary() -> MigrateSummary {
    MigrateSummary {
        task_meta_migrated: 0,
        task_meta_skipped_cancelled: 0,
        task_meta_existing: 0,
        json_migrated: 0,
        json_skipped_cancelled: 0,
        json_skipped_no_session: 0,
        json_existing: 0,
    }
}

/// What becomes of a goal.
#[derive(Debug, Clone, Copy, PartialEq, Eq, Structural)]
pub enum Fate {
    /// There is no goal, or one that means nothing.
    Ignored,
    /// It was cancelled, which leaves nothing to keep.
    Cancelled,
    /// No thread is known for it.
    NoSession,
    /// The thread has a goal already.
    Existing,
    /// It is the thread's goal now.
    Migrated,
}

impl MigrateSummary {
    /// Whether `n` more goals can be counted.
    pub open spec fn room(self, n: int) -> bool {
        &&& self.task_meta_migrated + self.json_migrated + n <= u32::MAX
        &&& self.task_meta_skipped_cancelled + n <= u32::MAX
        &&& self.task_meta_existing + n <= u32::MAX
        &&& self.json_skipped_cancelled + n <= u32::MAX
        &&& self.json_skipped_no_session + n <= u32::MAX
        &&& self.json_existing + n <= u32::MAX
    }

    /// With one more goal of a task.
    pub open spec fn with_task(self, fate: Fate) -> MigrateSummary {
        match fate {
            Fate::Migrated => MigrateSummary {
                task_meta_migrated: (self.task_meta_migrated + 1) as u32,
                ..self
            },
            Fate::Cancelled => MigrateSummary {
                task_meta_skipped_cancelled: (self.task_meta_skipped_cancelled + 1) as u32,
                ..self
            },
            Fate::Existing => MigrateSummary {
                task_meta_existing: (self.task_meta_existing + 1) as u32,
                ..self
            },
            _ => self,
        }
    }

    /// With one more shown goal.
    pub open spec fn with_shown(self, fate: Fate) -> MigrateSummary {
        match fate {
            Fate::Migrated => MigrateSummary {
                json_migrated: (self.json_migrated + 1) as u32,
                ..self
            },
            Fate::Cancelled => MigrateSummary {
                json_skipped_cancelled: (self.json_skipped_cancelled + 1) as u32,
                ..self
            },
            Fate::NoSession => MigrateSummary {
                json_skipped_no_session: (self.json_skipped_no_session + 1) as u32,
                ..self
            },
            Fate::Existing => MigrateSummary {
                json_existing: (self.json_existing + 1) as u32,
                ..self
            },
            Fate::Ignored => self,
        }
    }

    fn count_task(&mut self, fate: Fate)
        requires
            old(self).room(1),
        ensures
            *final(self) == old(self).with_task(fate),
    {
        match fate {
            Fate::Migrated => {
                self.task_meta_migrated += 1;
            },
            Fate::Cancelled => {
                self.task_meta_skipped_cancelled += 1;
            },
            Fate::Existing => {
                self.task_meta_existing += 1;
            },
            _ => {},
        }
    }

    fn count_shown(&mut self, fate: Fate)
        requires
            old(self).room(1),
        ensures
            *final(self) == old(self).with_shown(fate),
    {
        match fate {
            Fate::Migrated => {
                self.json_migrated += 1;
            },
            Fate::Cancelled => {
                self.json_skipped_cancelled += 1;
            },
            Fate::NoSession => {
                self.json_skipped_no_session += 1;
            },
            Fate::Existing => {
                self.json_existing += 1;
            },
            Fate::Ignored => {},
        }
    }

    /// How many goals were brought in.
    pub fn total_migrated(&self) -> (r: u32)
        requires
            self.task_meta_migrated + self.json_migrated <= u32::MAX,
        ensures
            r == self.task_meta_migrated + self.json_migrated,
    {
        self.task_meta_migrated + self.json_migrated
    }
}

/// The status of a goal that a task remembers, and why it has it; a cancelled
/// one has none. A failed goal is blocked, so that it can be resumed.
pub open spec fn lifecycle_status(l: GoalLifecycle, reason: Option<Seq<char>>) -> Option<
    (GoalStatus, Option<Seq<char>>),
> {
    match l {
        GoalLifecycle::Active => Some((GoalStatus::Active, None)),
        GoalLifecycle::Paused => Some((GoalStatus::Paused, None)),
        GoalLifecycle::Blocked => Some((GoalStatus::Blocked, reason)),
        GoalLifecycle::UsageLimited => Some((GoalStatus::UsageLimited, reason)),
        GoalLifecycle::Completed => Some((GoalStatus::Complete, None)),
        GoalLifecycle::Failed => Some(
            (
                GoalStatus::Blocked,
                match reason {
                    Some(r) => Some(r),
                    None => Some("migrated from GoalLifecycle::Failed"@),
                },
            ),
        ),
        GoalLifecycle::Cancelled => None,
    }
}

/// What stands for an empty text.
pub open spec fn or_else(a: Seq<char>, b: Seq<char>) -> Seq<char> {
    if text::trimmed(a).len() > 0 {
        text::trimmed(a)
    } else {
        text::trimmed(b)
    }
}

fn pick(a: &str, b: &str) -> (r: String)
    ensures
        r@ == or_else(a@, b@),
{
    let t: &str = text::trim(a);
    if !t.is_empty() {
        t.to_owned()
    } else {
        text::trim(b).to_owned()
    }
}

/// What bringing one goal in leads to.
pub struct Placed {
    pub store: StoreView,
    pub fate: Result<Fate, StoreErrorView>,
}

/// A goal that is left where it is.
pub open spec fn left(s: StoreView, fate: Fate) -> Placed {
    Placed { store: s, fate: Ok(fate) }
}

/// Putting a goal on its thread, unless the thread has one.
pub open spec fn placed(s: StoreView, g: GoalView) -> Placed {
    if s.rows.contains_key(g.thread_id) {
        left(s, Fate::Existing)
    } else if text::trimmed(g.objective).len() == 0 {
        Placed {
            store: s,
            fate: Err(StoreErrorView::Validation(GoalValidationError::EmptyObjective)),
        }
    } else {
        Placed {
            store: s.without_goal(g.thread_id).with_goal(g.thread_id, g),
            fate: Ok(Fate::Migrated),
        }
    }
}

/// The goal of a task, as the thread of the same name gets it.
pub open spec fn task_goal(
    t: TaskView,
    m: MetaView,
    status: GoalStatus,
    reason: Option<Seq<char>>,
    goal_id: Seq<char>,
    now_ms: i64,
) -> GoalView {
    store::migrated_goal(
        t.id,
        goal_id,
        or_else(t.description, t.name),
        match m.token_budget {
            Some(b) => Some(b as i64),
            None => None,
        },
        m.tokens_used as i64,
        m.time_used_seconds,
        m.verify_command,
        status,
        reason,
        now_ms,
    )
}

/// Bringing the goal of a task in.
pub open spec fn task_placed(s: StoreView, t: TaskView, goal_id: Seq<char>, now_ms: i64) -> Placed {
    match t.meta {
        None => left(s, Fate::Ignored),
        Some(m) => match lifecycle_status(m.lifecycle, m.lifecycle_reason) {
            None => left(s, Fate::Cancelled),
            Some((status, reason)) => placed(s, task_goal(t, m, status, reason, goal_id, now_ms)),
        },
    }
}

/// The status that a word of the file stands for.
pub open spec fn word_status(w: Seq<char>) -> Option<GoalStatus> {
    let name = text::lowered(text::trimmed(w));
    if name == "pending"@ || name == "active"@ {
        Some(GoalStatus::Active)
    } else if name == "paused"@ {
        Some(GoalStatus::Paused)
    } else if name == "completed"@ {
        Some(GoalStatus::Complete)
    } else if name == "failed"@ {
        Some(GoalStatus::Blocked)
    } else {
        None
    }
}

/// Bringing a shown goal in. It keeps its identifier.
pub open spec fn shown_placed(s: StoreView, g: LegacyView, now_ms: i64) -> Placed {
    match word_status(g.status) {
        None => if text::lowered(text::trimmed(g.status)) == "cancelled"@ {
            left(s, Fate::Cancelled)
        } else {
            left(s, Fate::Ignored)
        },
        Some(status) => match g.session() {
            None => left(s, Fate::NoSession),
            Some(t) => placed(
                s,
                store::migrated_goal(
                    t,
                    g.id,
                    or_else(g.description, g.title),
                    None,
                    0,
                    0,
                    None,
                    status,
                    Some("migrated from goals.json"@),
                    now_ms,
                ),
            ),
        },
    }
}

/// The value of what became of a goal.
pub open spec fn fate_view(r: Result<Fate, GoalStoreError>) -> Result<Fate, StoreErrorView> {
    match r {
        Ok(f) => Ok(f),
        Err(e) => Err(e@),
    }
}

/// Brings the goal of a task in, under the identifier `goal_id`.
pub fn migrate_task(store: &mut GoalStore, task: &TaskRecord, goal_id: &str, now_ms: i64) -> (r:
    Result<Fate, GoalStoreError>)
    requires
        old(store).wf(),
    ensures
        final(store).wf(),
        final(store)@ == task_placed(old(store)@, task@, goal_id@, now_ms).store,
        fate_view(r) == task_placed(old(store)@, task@, goal_id@, now_ms).fate,
{
    let m: &GoalMeta = match &task.meta {
        Some(m) => m,
        None => {
            return Ok(Fate::Ignored);
        },
    };
    let (status, reason): (GoalStatus, Option<String>) = match m.lifecycle {
        GoalLifecycle::Active => (GoalStatus::Active, None),
        GoalLifecycle::Paused => (GoalStatus::Paused, None),
        GoalLifecycle::Blocked => (GoalStatus::Blocked, text::clone_opt(&m.lifecycle_reason)),
        GoalLifecycle::UsageLimited => (
            GoalStatus::UsageLimited,
            text::clone_opt(&m.lifecycle_reason),
        ),
        GoalLifecycle::Completed => (GoalStatus::Complete, None),
        GoalLifecycle::Failed => (
            GoalStatus::Blocked,
            match &m.lifecycle_reason {
                Some(r) => Some(r.clone()),
                None => Some("migrated from GoalLifecycle::Failed".to_owned()),
            },
        ),
        GoalLifecycle::Cancelled => {
            return Ok(Fate::Cancelled);
        },
    };
    if store.read(task.id.as_str()).is_some() {
        return Ok(Fate::Existing);
    }
    let objective: String = pick(task.description.as_str(), task.name.as_str());
    proof {
        lemma_or_else_is_trimmed(task.description@, task.name@);
    }
    let token_budget: Option<i64> = match m.token_budget {
        Some(b) => Some(b as i64),
        None => None,
    };
    let verify: Option<&str> = match &m.verify_command {
        Some(v) => Some(v.as_str()),
        None => None,
    };
    let why: Option<&str> = match &reason {
        Some(r) => Some(r.as_str()),
        None => None,
    };
    match store.insert_migrated(
        task.id.as_str(),
        goal_id,
        objective.as_str(),
        token_budget,
        m.tokens_used as i64,
        m.time_used_seconds,
        verify,
        status,
        why,
        now_ms,
    ) {
        Ok(g) => Ok(Fate::Migrated),
        Err(e) => Err(e),
    }
}

proof fn lemma_or_else_is_trimmed(a: Seq<char>, b: Seq<char>)
    ensures
        text::trimmed(or_else(a, b)) == or_else(a, b),
{
    text::lemma_trimmed_idempotent(a);
    text::lemma_trimmed_idempotent(b);
}

/// Brings a shown goal in.
pub fn migrate_shown(store: &mut GoalStore, goal: &LegacyGoalJson, now_ms: i64) -> (r: Result<
    Fate,
    GoalStoreError,
>)
    requires
        old(store).wf(),
    ensures
        final(store).wf(),
        final(store)@ == shown_placed(old(store)@, goal@, now_ms).store,
        fate_view(r) == shown_placed(old(store)@, goal@, now_ms).fate,
{
    let name: String = text::lower(text::trim(goal.status.as_str()));
    let word: &str = name.as_str();
    let status: GoalStatus = if text::same(word, "pending") || text::same(word, "active") {
        GoalStatus::Active
    } else if text::same(word, "paused") {
        GoalStatus::Paused
    } else if text::same(word, "completed") {
        GoalStatus::Complete
    } else if text::same(word, "failed") {
        GoalStatus::Blocked
    } else if text::same(word, "cancelled") {
        return Ok(Fate::Cancelled);
    } else {
        return Ok(Fate::Ignored);
    };
    if goal.session_ids.len() == 0 {
        return Ok(Fate::NoSession);
    }
    let thread_id: &str = goal.session_ids[0].as_str();
    if store.read(thread_id).is_some() {
        return Ok(Fate::Existing);
    }
    let objective: String = pick(goal.description.as_str(), goal.title.as_str());
    proof {
        lemma_or_else_is_trimmed(goal.description@, goal.title@);
    }
    match store.insert_migrated(
        thread_id,
        goal.id.as_str(),
        objective.as_str(),
        None,
        0,
        0,
        None,
        status,
        Some("migrated from goals.json"),
        now_ms,
    ) {
        Ok(g) => Ok(Fate::Migrated),
        Err(e) => Err(e),
    }
}

/// What users are warned of when a shown goal is not brought in though it was not
/// cancelled: a status that has no meaning, told as `word`, or no thread to put the
/// goal on.
pub open spec fn shown_warning(g: LegacyView, word: Seq<char>) -> Option<Seq<char>> {
    if word_status(g.status) is Some {
        if g.session() is None {
            Some("warn: goal "@ + g.id + "（"@ + g.title + "）无 sessionIds，无 thread 可绑，跳过"@)
        } else {
            None
        }
    } else if text::lowered(text::trimmed(g.status)) == "cancelled"@ {
        None
    } else {
        Some("warn: goal "@ + g.id + " 状态 “"@ + word + "” 未知，跳过"@)
    }
}

/// What users are warned of when a shown goal is not brought in, with its status
/// told as `told`.
pub fn warning_with(goal: &LegacyGoalJson, told: &str) -> (r: Option<String>)
    ensures
        text::opt_text(r) == shown_warning(goal@, told@),
{
    let name: String = text::lower(text::trim(goal.status.as_str()));
    let word: &str = name.as_str();
    let known: bool = text::same(word, "pending") || text::same(word, "active") || text::same(
        word,
        "paused",
    ) || text::same(word, "completed") || text::same(word, "failed");
    if (known && goal.session_ids.len() > 0) || (!known && text::same(word, "cancelled")) {
        return None;
    }
    let mut out: String = "warn: goal ".to_owned();
    out.append(goal.id.as_str());
    if known {
        out.append("（");
        out.append(goal.title.as_str());
        out.append("）无 sessionIds，无 thread 可绑，跳过");
    } else {
        out.append(" 状态 “");
        out.append(told);
        out.append("” 未知，跳过");
    }
    Some(out)
}

/// What users are warned of when a shown goal is not brought in. A status that has
/// no meaning is told in lower case.
pub fn warning_for(goal: &LegacyGoalJson) -> (r: Option<String>)
    ensures
        text::opt_text(r) == shown_warning(
            goal@,
            outside::lowercase_of(text::trimmed(goal.status@)),
        ),
        vstd::utf8::is_ascii_chars(text::trimmed(goal.status@)) ==> text::opt_text(r) == shown_warning(
            goal@,
            text::lowered(text::trimmed(goal.status@)),
        ),
{
    let told: String = outside::lowercase(text::trim(goal.status.as_str()));
    warning_with(goal, told.as_str())
}

/// Goals are warned of exactly when they are left out for want of a meaning or of
/// a thread.
pub proof fn law_warning_tells_of_goals_left_out(
    s: StoreView,
    g: LegacyView,
    word: Seq<char>,
    now_ms: i64,
)
    ensures
        shown_warning(g, word) is Some <==> (shown_placed(s, g, now_ms).fate matches Ok(fate) && (
        fate == Fate::NoSession || fate == Fate::Ignored)),
{
}

/// How many tasks are asked for at a time.
pub const TASKS_PER_PAGE: u32 = 200;

/// The page of tasks to ask for after `page` brought `fetched` of them; a page that
/// is not full is the last.
pub fn next_page(page: u32, fetched: usize) -> (r: Option<u32>)
    requires
        page < u32::MAX,
    ensures
        fetched >= TASKS_PER_PAGE ==> r == Some((page + 1) as u32),
        fetched < TASKS_PER_PAGE ==> r is None,
{
    if fetched < TASKS_PER_PAGE as usize {
        None
    } else {
        Some(page + 1)
    }
}

/// What users are warned of when the goal that a task remembers cannot be read, for
/// the reason `e`.
pub fn unreadable_warning(task_id: &str, e: &str) -> (r: String)
    ensures
        r@ == "warn: task "@ + task_id@ + " 的 goal meta 解析失败，跳过："@ + e@,
{
    let mut out: String = "warn: task ".to_owned();
    out.append(task_id);
    out.append(" 的 goal meta 解析失败，跳过：");
    out.append(e);
    out
}

/// What bringing several goals in leads to. It stops at the first one that is
/// refused.
pub struct Migration {
    pub store: StoreView,
    pub sum: MigrateSummary,
    pub result: Result<(), StoreErrorView>,
}

/// Bringing the goals of tasks in, each under its identifier in `ids`.
pub open spec fn tasks_migrated(
    s: StoreView,
    sum: MigrateSummary,
    tasks: Seq<TaskView>,
    ids: Seq<Seq<char>>,
    now_ms: i64,
) -> Migration
    decreases tasks.len(),
{
    if tasks.len() == 0 {
        Migration { store: s, sum, result: Ok(()) }
    } else {
        let m = tasks_migrated(s, sum, tasks.drop_last(), ids, now_ms);
        if m.result is Err {
            m
        } else {
            let p = task_placed(m.store, tasks.last(), ids[tasks.len() - 1], now_ms);
            match p.fate {
                Ok(fate) => Migration {
                    store: p.store,
                    sum: m.sum.with_task(fate),
                    result: Ok(()),
                },
                Err(e) => Migration { store: p.store, sum: m.sum, result: Err(e) },
            }
        }
    }
}

/// Bringing shown goals in.
pub open spec fn shown_migrated(
    s: StoreView,
    sum: MigrateSummary,
    goals: Seq<LegacyView>,
    now_ms: i64,
) -> Migration
    decreases goals.len(),
{
    if goals.len() == 0 {
        Migration { store: s, sum, result: Ok(()) }
    } else {
        let m = shown_migrated(s, sum, goals.drop_last(), now_ms);
        if m.result is Err {
            m
        } else {
            let p = shown_placed(m.store, goals.last(), now_ms);
            match p.fate {
                Ok(fate) => Migration {
                    store: p.store,
                    sum: m.sum.with_shown(fate),
                    result: Ok(()),
                },
                Err(e) => Migration { store: p.store, sum: m.sum, result: Err(e) },
            }
        }
    }
}

/// The values of tasks.
pub open spec fn task_views(v: Seq<TaskRecord>) -> Seq<TaskView> {
    v.map_values(|t: TaskRecord| t@)
}

/// The values of shown goals.
pub open spec fn legacy_views(v: Seq<LegacyGoalJson>) -> Seq<LegacyView> {
    v.map_values(|g: LegacyGoalJson| g@)
}

/// The value of how bringing goals in ended.
pub open spec fn done_view(r: Result<(), GoalStoreError>) -> Result<(), StoreErrorView> {
    match r {
        Ok(()) => Ok(()),
        Err(e) => Err(e@),
    }
}

/// Whether `after` and `sum` are what is left when the goals of `tasks` were
/// brought in with the result `r`, under identifiers that were made for them.
pub open spec fn migrates_tasks(
    s: StoreView,
    sum: MigrateSummary,
    tasks: Seq<TaskView>,
    now_ms: i64,
    after: Migration,
) -> bool {
    exists|ids: Seq<Seq<char>>|
        ids.len() == tasks.len() && all_generated(ids) && after == #[trigger] tasks_migrated(
            s,
            sum,
            tasks,
            ids,
            now_ms,
        )
}

/// Whether all of `ids` are identifiers that were made for goals.
pub open spec fn all_generated(ids: Seq<Seq<char>>) -> bool {
    forall|k: int| 0 <= k < ids.len() ==> goal_file::is_generated_id(#[trigger] ids[k])
}

/// Brings the goals of tasks in, under new identifiers.
pub fn migrate_task_meta(
    store: &mut GoalStore,
    summary: &mut MigrateSummary,
    tasks: &Vec<TaskRecord>,
    now_ms: i64,
) -> (r: Result<(), GoalStoreError>)
    requires
        old(store).wf(),
        old(summary).room(tasks@.len() as int),
    ensures
        final(store).wf(),
        migrates_tasks(
            old(store)@,
            *old(summary),
            task_views(tasks@),
            now_ms,
            (Migration { store: final(store)@, sum: *final(summary), result: done_view(r) }),
        ),
{
    let ghost s0 = store@;
    let ghost sum0 = *summary;
    let ghost all = task_views(tasks@);
    let ghost mut ids: Seq<Seq<char>> = Seq::empty();
    let mut i: usize = 0;
    assert(all.take(0) =~= Seq::empty());
    while i < tasks.len()
        invariant
            store.wf(),
            s0 == old(store)@,
            sum0 == *old(summary),
            i <= tasks@.len(),
            all == task_views(tasks@),
            ids.len() == i,
            all_generated(ids),
            sum0.room(tasks@.len() as int),
            summary.room(tasks@.len() - i),
            tasks_migrated(s0, sum0, all.take(i as int), ids, now_ms) == (Migration {
                store: store@,
                sum: *summary,
                result: Ok(()),
            }),
        decreases tasks.len() - i,
    {
        let goal_id: String = goal_file::generate_goal_id();
        let ghost before = ids;
        proof {
            ids = ids.push(goal_id@);
            lemma_ids_beyond(s0, sum0, all.take(i as int), before, ids, now_ms);
            assert(all.take(i as int + 1).drop_last() =~= all.take(i as int));
            assert(all.take(i as int + 1).last() == tasks@[i as int]@);
        }
        match migrate_task(store, &tasks[i], goal_id.as_str(), now_ms) {
            Ok(fate) => {
                summary.count_task(fate);
            },
            Err(e) => {
                proof {
                    let now = tasks_migrated(s0, sum0, all.take(i as int + 1), ids, now_ms);
                    assert(now.result == Err::<(), StoreErrorView>(e@));
                    let full = Seq::new(
                        all.len(),
                        |k: int|
                            if k < ids.len() {
                                ids[k]
                            } else {
                                ids[0]
                            },
                    );
                    lemma_ids_beyond(s0, sum0, all.take(i as int + 1), ids, full, now_ms);
                    lemma_stops(s0, sum0, all, full, now_ms, i as int + 1);
                }
                return Err(e);
            },
        }
        i += 1;
    }
    proof {
        assert(all.take(tasks@.len() as int) =~= all);
        assert(tasks_migrated(s0, sum0, all, ids, now_ms).store == store@);
    }
    Ok(())
}

/// Only the identifiers of the tasks at hand matter.
proof fn lemma_ids_beyond(
    s: StoreView,
    sum: MigrateSummary,
    tasks: Seq<TaskView>,
    a: Seq<Seq<char>>,
    b: Seq<Seq<char>>,
    now_ms: i64,
)
    requires
        a.len() >= tasks.len(),
        b.len() >= tasks.len(),
        forall|k: int| 0 <= k < tasks.len() ==> a[k] == b[k],
    ensures
        tasks_migrated(s, sum, tasks, a, now_ms) == tasks_migrated(s, sum, tasks, b, now_ms),
    decreases tasks.len(),
{
    if tasks.len() > 0 {
        lemma_ids_beyond(s, sum, tasks.drop_last(), a, b, now_ms);
    }
}

/// What comes after a refused goal is not looked at.
proof fn lemma_stops(
    s: StoreView,
    sum: MigrateSummary,
    tasks: Seq<TaskView>,
    ids: Seq<Seq<char>>,
    now_ms: i64,
    n: int,
)
    requires
        0 <= n <= tasks.len(),
        tasks_migrated(s, sum, tasks.take(n), ids, now_ms).result is Err,
    ensures
        tasks_migrated(s, sum, tasks, ids, now_ms) == tasks_migrated(
            s,
            sum,
            tasks.take(n),
            ids,
            now_ms,
        ),
    decreases tasks.len() - n,
{
    if n < tasks.len() {
        assert(tasks.take(n + 1).drop_last() =~= tasks.take(n));
        lemma_stops(s, sum, tasks, ids, now_ms, n + 1);
    } else {
        assert(tasks.take(n) =~= tasks);
    }
}

/// Brings shown goals in.
pub fn migrate_goals_json(
    store: &mut GoalStore,
    summary: &mut MigrateSummary,
    goals: &Vec<LegacyGoalJson>,
    now_ms: i64,
) -> (r: Result<(), GoalStoreError>)
    requires
        old(store).wf(),
        old(summary).room(goals@.len() as int),
    ensures
        final(store).wf(),
        (Migration { store: final(store)@, sum: *final(summary), result: done_view(r) })
            == shown_migrated(old(store)@, *old(summary), legacy_views(goals@), now_ms),
{
    let ghost s0 = store@;
    let ghost sum0 = *summary;
    let ghost all = legacy_views(goals@);
    let mut i: usize = 0;
    assert(all.take(0) =~= Seq::empty());
    while i < goals.len()
        invariant
            store.wf(),
            s0 == old(store)@,
            sum0 == *old(summary),
            i <= goals@.len(),
            all == legacy_views(goals@),
            summary.room(goals@.len() - i),
            shown_migrated(s0, sum0, all.take(i as int), now_ms) == (Migration {
                store: store@,
                sum: *summary,
                result: Ok(()),
            }),
        decreases goals.len() - i,
    {
        proof {
            assert(all.take(i as int + 1).drop_last() =~= all.take(i as int));
            assert(all.take(i as int + 1).last() == goals@[i as int]@);
        }
        match migrate_shown(store, &goals[i], now_ms) {
            Ok(fate) => {
                summary.count_shown(fate);
            },
            Err(e) => {
                proof {
                    lemma_shown_stops(s0, sum0, all, now_ms, i as int + 1);
                }
                return Err(e);
            },
        }
        i += 1;
    }
    assert(all.take(goals@.len() as int) =~= all);
    Ok(())
}

/// What comes after a refused goal is not looked at.
proof fn lemma_shown_stops(
    s: StoreView,
    sum: MigrateSummary,
    goals: Seq<LegacyView>,
    now_ms: i64,
    n: int,
)
    requires
        0 <= n <= goals.len(),
        shown_migrated(s, sum, goals.take(n), now_ms).result is Err,
    ensures
        shown_migrated(s, sum, goals, now_ms) == shown_migrated(s, sum, goals.take(n), now_ms),
    decreases goals.len() - n,
{
    if n < goals.len() {
        assert(goals.take(n + 1).drop_last() =~= goals.take(n));
        lemma_shown_stops(s, sum, goals, now_ms, n + 1);
    } else {
        assert(goals.take(n) =~= goals);
    }
}

/// Whether a task has a goal to bring in.
pub open spec fn has_goal(t: TaskView) -> bool {
    t.meta matches Some(m) && m.lifecycle != GoalLifecycle::Cancelled
}

/// Whether a shown goal is one to bring in.
pub open spec fn is_placeable(g: LegacyView) -> bool {
    word_status(g.status) is Some && g.session() is Some
}

/// Bringing goals in never takes one away: a thread keeps the goal that it has.
pub proof fn law_migration_keeps_goals(
    s: StoreView,
    sum: MigrateSummary,
    tasks: Seq<TaskView>,
    ids: Seq<Seq<char>>,
    goals: Seq<LegacyView>,
    now_ms: i64,
    t: Seq<char>,
)
    requires
        s.rows.contains_key(t),
    ensures
        tasks_migrated(s, sum, tasks, ids, now_ms).store.rows.contains_key(t),
        tasks_migrated(s, sum, tasks, ids, now_ms).store.rows[t] == s.rows[t],
        shown_migrated(s, sum, goals, now_ms).store.rows.contains_key(t),
        shown_migrated(s, sum, goals, now_ms).store.rows[t] == s.rows[t],
    decreases tasks.len() + goals.len(),
{
    if tasks.len() > 0 {
        law_migration_keeps_goals(s, sum, tasks.drop_last(), ids, Seq::empty(), now_ms, t);
    }
    if goals.len() > 0 {
        law_migration_keeps_goals(s, sum, Seq::empty(), ids, goals.drop_last(), now_ms, t);
    }
}

/// After a run that succeeded, every goal that was to be brought in has its
/// thread's place, its own or an older one's.
proof fn lemma_tasks_have_goals(
    s: StoreView,
    sum: MigrateSummary,
    tasks: Seq<TaskView>,
    ids: Seq<Seq<char>>,
    now_ms: i64,
    k: int,
)
    requires
        tasks_migrated(s, sum, tasks, ids, now_ms).result is Ok,
        0 <= k < tasks.len(),
        has_goal(tasks[k]),
    ensures
        tasks_migrated(s, sum, tasks, ids, now_ms).store.rows.contains_key(tasks[k].id),
    decreases tasks.len(),
{
    if k < tasks.len() - 1 {
        lemma_tasks_have_goals(s, sum, tasks.drop_last(), ids, now_ms, k);
    }
}

/// Where every task that has a goal has it in the table already, nothing is
/// brought in.
proof fn lemma_nothing_to_migrate(
    s: StoreView,
    sum: MigrateSummary,
    tasks: Seq<TaskView>,
    ids: Seq<Seq<char>>,
    now_ms: i64,
)
    requires
        forall|k: int|
            0 <= k < tasks.len() && has_goal(#[trigger] tasks[k]) ==> s.rows.contains_key(
                tasks[k].id,
            ),
    ensures
        tasks_migrated(s, sum, tasks, ids, now_ms).result is Ok,
        tasks_migrated(s, sum, tasks, ids, now_ms).store == s,
        tasks_migrated(s, sum, tasks, ids, now_ms).sum.task_meta_migrated
            == sum.task_meta_migrated,
    decreases tasks.len(),
{
    if tasks.len() > 0 {
        let rest = tasks.drop_last();
        assert forall|k: int| 0 <= k < rest.len() && has_goal(#[trigger] rest[k]) implies s.rows.contains_key(
            rest[k].id,
        ) by {
            assert(rest[k] == tasks[k]);
        }
        lemma_nothing_to_migrate(s, sum, rest, ids, now_ms);
        assert(tasks.last() == tasks[tasks.len() - 1]);
    }
}

/// The first goal to be brought in on thread `t`, if any of `tasks` has one.
pub open spec fn first_on(tasks: Seq<TaskView>, t: Seq<char>, k: int) -> bool {
    &&& 0 <= k < tasks.len()
    &&& tasks[k].id == t
    &&& has_goal(tasks[k])
    &&& forall|j: int| 0 <= j < k ==> !((#[trigger] tasks[j]).id == t && has_goal(tasks[j]))
}

/// The goal of a task as it is brought in.
pub open spec fn goal_brought(t: TaskView, goal_id: Seq<char>, now_ms: i64) -> GoalView {
    let m = t.meta->Some_0;
    let (status, reason) = lifecycle_status(m.lifecycle, m.lifecycle_reason)->Some_0;
    task_goal(t, m, status, reason, goal_id, now_ms)
}

/// What a goal that is brought in shows of its task: the status that its lifecycle
/// stands for, with a failed one blocked, and the reason that a blocked, limited
/// or failed one was given.
pub proof fn law_lifecycle_shows_in_the_row(t: TaskView, goal_id: Seq<char>, now_ms: i64)
    requires
        has_goal(t),
    ensures
        ({
            let m = t.meta->Some_0;
            let g = goal_brought(t, goal_id, now_ms);
            &&& g.thread_id == t.id
            &&& g.goal_id == goal_id
            &&& g.status == match m.lifecycle {
                GoalLifecycle::Active => GoalStatus::Active,
                GoalLifecycle::Paused => GoalStatus::Paused,
                GoalLifecycle::Blocked => GoalStatus::Blocked,
                GoalLifecycle::UsageLimited => GoalStatus::UsageLimited,
                GoalLifecycle::Completed => GoalStatus::Complete,
                _ => GoalStatus::Blocked,
            }
            &&& (m.lifecycle == GoalLifecycle::Blocked || m.lifecycle == GoalLifecycle::UsageLimited
                || m.lifecycle == GoalLifecycle::Failed) && m.lifecycle_reason is Some
                ==> g.status_reason == m.lifecycle_reason
        }),
{
}

/// Which row each thread ends up with, once the goals of `tasks` were brought in:
/// the row that it had; else that of the first task on it which has a goal, with
/// the status and the reason that follow from its lifecycle and under the
/// identifier that was made for it; else none. Of tasks whose goal is to be
/// brought in, each must have a description or a name.
pub proof fn law_each_task_has_its_row(
    s: StoreView,
    sum: MigrateSummary,
    tasks: Seq<TaskView>,
    ids: Seq<Seq<char>>,
    now_ms: i64,
    t: Seq<char>,
)
    requires
        ids.len() == tasks.len(),
        forall|k: int|
            0 <= k < tasks.len() && has_goal(#[trigger] tasks[k]) ==> or_else(
                tasks[k].description,
                tasks[k].name,
            ).len() > 0,
    ensures
        ({
            let after = tasks_migrated(s, sum, tasks, ids, now_ms);
            &&& after.result is Ok
            &&& s.rows.contains_key(t) ==> after.store.goal(t) == s.goal(t)
            &&& !s.rows.contains_key(t) ==> forall|k: int| #[trigger]
                first_on(tasks, t, k) ==> after.store.goal(t) == Some(
                    goal_brought(tasks[k], ids[k], now_ms),
                )
            &&& !s.rows.contains_key(t) && (forall|k: int| !#[trigger] first_on(tasks, t, k))
                ==> after.store.goal(t) is None
        }),
    decreases tasks.len(),
{
    if tasks.len() > 0 {
        let rest = tasks.drop_last();
        let n = rest.len() as int;
        let last = tasks.last();
        assert forall|k: int| 0 <= k < rest.len() && has_goal(#[trigger] rest[k]) implies or_else(
            rest[k].description,
            rest[k].name,
        ).len() > 0 by {
            assert(rest[k] == tasks[k]);
        }
        law_each_task_has_its_row(s, sum, rest, ids.drop_last(), now_ms, t);
        lemma_ids_beyond(s, sum, rest, ids.drop_last(), ids, now_ms);
        let before = tasks_migrated(s, sum, rest, ids, now_ms);
        assert(last == tasks[n]);
        lemma_or_else_is_trimmed(last.description, last.name);
        assert forall|k: int| k < n implies #[trigger] first_on(tasks, t, k) == first_on(rest, t, k) by {
            if 0 <= k {
                assert(rest[k] == tasks[k]);
                if first_on(rest, t, k) {
                    assert forall|j: int| 0 <= j < k implies !((#[trigger] tasks[j]).id == t
                        && has_goal(tasks[j])) by {
                        assert(rest[j] == tasks[j]);
                    }
                }
            }
        }
        if !s.rows.contains_key(t) {
            if exists|k: int| #[trigger] first_on(rest, t, k) {
                let k0 = choose|k: int| #[trigger] first_on(rest, t, k);
                assert(first_on(tasks, t, k0));
                assert forall|k: int| #[trigger] first_on(tasks, t, k) implies k == k0 by {
                    if k > k0 {
                        assert(tasks[k0].id == t && has_goal(tasks[k0]));
                    }
                    if k < k0 {
                        assert(rest[k] == tasks[k]);
                    }
                }
            } else {
                lemma_none_before(rest, t, n);
                assert(forall|j: int| 0 <= j < n ==> #[trigger] rest[j] == tasks[j]);
                if last.id == t && has_goal(last) {
                    assert forall|j: int| 0 <= j < n implies !((#[trigger] tasks[j]).id == t
                        && has_goal(tasks[j])) by {
                        assert(rest[j] == tasks[j]);
                    }
                    assert(first_on(tasks, t, n));
                }
            }
        }
    }
}

/// Where no task is the first on a thread, none is on it.
proof fn lemma_none_before(tasks: Seq<TaskView>, t: Seq<char>, n: int)
    requires
        0 <= n <= tasks.len(),
        forall|k: int| !#[trigger] first_on(tasks, t, k),
    ensures
        forall|j: int| 0 <= j < n ==> !((#[trigger] tasks[j]).id == t && has_goal(tasks[j])),
    decreases n,
{
    if n > 0 {
        lemma_none_before(tasks, t, n - 1);
        assert(!first_on(tasks, t, n - 1));
    }
}

/// Bringing the goals of tasks in a second time brings nothing in and changes
/// nothing.
pub proof fn law_task_migration_is_idempotent(
    s: StoreView,
    sum: MigrateSummary,
    tasks: Seq<TaskView>,
    ids: Seq<Seq<char>>,
    now_ms: i64,
    again: MigrateSummary,
    later_ids: Seq<Seq<char>>,
    later_ms: i64,
)
    requires
        tasks_migrated(s, sum, tasks, ids, now_ms).result is Ok,
    ensures
        ({
            let once = tasks_migrated(s, sum, tasks, ids, now_ms).store;
            let twice = tasks_migrated(once, again, tasks, later_ids, later_ms);
            &&& twice.result is Ok
            &&& twice.store == once
            &&& twice.sum.task_meta_migrated == again.task_meta_migrated
        }),
{
    let once = tasks_migrated(s, sum, tasks, ids, now_ms).store;
    assert forall|k: int| 0 <= k < tasks.len() && has_goal(#[trigger] tasks[k]) implies once.rows.contains_key(
        tasks[k].id,
    ) by {
        lemma_tasks_have_goals(s, sum, tasks, ids, now_ms, k);
    }
    lemma_nothing_to_migrate(once, again, tasks, later_ids, later_ms);
}

proof fn lemma_shown_have_goals(
    s: StoreView,
    sum: MigrateSummary,
    goals: Seq<LegacyView>,
    now_ms: i64,
    k: int,
)
    requires
        shown_migrated(s, sum, goals, now_ms).result is Ok,
        0 <= k < goals.len(),
        is_placeable(goals[k]),
    ensures
        shown_migrated(s, sum, goals, now_ms).store.rows.contains_key(goals[k].session()->Some_0),
    decreases goals.len(),
{
    if k < goals.len() - 1 {
        lemma_shown_have_goals(s, sum, goals.drop_last(), now_ms, k);
    }
}

proof fn lemma_no_shown_to_migrate(
    s: StoreView,
    sum: MigrateSummary,
    goals: Seq<LegacyView>,
    now_ms: i64,
)
    requires
        forall|k: int|
            0 <= k < goals.len() && is_placeable(#[trigger] goals[k]) ==> s.rows.contains_key(
                goals[k].session()->Some_0,
            ),
    ensures
        shown_migrated(s, sum, goals, now_ms).result is Ok,
        shown_migrated(s, sum, goals, now_ms).store == s,
        shown_migrated(s, sum, goals, now_ms).sum.json_migrated == sum.json_migrated,
    decreases goals.len(),
{
    if goals.len() > 0 {
        let rest = goals.drop_last();
        assert forall|k: int| 0 <= k < rest.len() && is_placeable(#[trigger] rest[k]) implies s.rows.contains_key(
            rest[k].session()->Some_0,
        ) by {
            assert(rest[k] == goals[k]);
        }
        lemma_no_shown_to_migrate(s, sum, rest, now_ms);
        assert(goals.last() == goals[goals.len() - 1]);
    }
}

/// Bringing shown goals in a second time brings nothing in and changes nothing.
pub proof fn law_shown_migration_is_idempotent(
    s: StoreView,
    sum: MigrateSummary,
    goals: Seq<LegacyView>,
    now_ms: i64,
    again: MigrateSummary,
    later_ms: i64,
)
    requires
        shown_migrated(s, sum, goals, now_ms).result is Ok,
    ensures
        ({
            let once = shown_migrated(s, sum, goals, now_ms).store;
            let twice = shown_migrated(once, again, goals, later_ms);
            &&& twice.result is Ok
            &&& twice.store == once
            &&& twice.sum.json_migrated == again.json_migrated
        }),
{
    let once = shown_migrated(s, sum, goals, now_ms).store;
    assert forall|k: int| 0 <= k < goals.len() && is_placeable(#[trigger] goals[k]) implies once.rows.contains_key(
        goals[k].session()->Some_0,
    ) by {
        lemma_shown_have_goals(s, sum, goals, now_ms, k);
    }
    lemma_no_shown_to_migrate(once, again, goals, later_ms);
}

/// A passage of the report: its beginning.
pub const REPORT_TASKS: &'static str = "goal 迁移完成：\n  task meta（GoalMeta）：迁移 ";

/// A passage of the report: cancelled goals.
pub const REPORT_CANCELLED: &'static str = "，跳过(cancelled) ";

/// A passage of the report: goals that were there.
pub const REPORT_EXISTING: &'static str = "，已存在 ";

/// A passage of the report: shown goals.
pub const REPORT_SHOWN: &'static str = "\n  goals.json：迁移 ";

/// A passage of the report: goals without a thread.
pub const REPORT_NO_SESSION: &'static str = "，跳过(无 session) ";

/// A passage of the report: the total.
pub const REPORT_TOTAL: &'static str = "\n  合计写入 ";

/// A passage of the report: its end.
pub const REPORT_END: &'static str = " 行到 thread_goals";

/// The report on what was brought in.
pub open spec fn report_text(s: MigrateSummary) -> Seq<char> {
    REPORT_TASKS@ + text::nat_text(s.task_meta_migrated as nat) + REPORT_CANCELLED@
        + text::nat_text(s.task_meta_skipped_cancelled as nat) + REPORT_EXISTING@ + text::nat_text(
        s.task_meta_existing as nat,
    ) + REPORT_SHOWN@ + text::nat_text(s.json_migrated as nat) + REPORT_CANCELLED@
        + text::nat_text(s.json_skipped_cancelled as nat) + REPORT_NO_SESSION@ + text::nat_text(
        s.json_skipped_no_session as nat,
    ) + REPORT_EXISTING@ + text::nat_text(s.json_existing as nat) + REPORT_TOTAL@
        + text::nat_text((s.task_meta_migrated + s.json_migrated) as nat) + REPORT_END@
}

impl MigrateSummary {
    /// The report on what was brought in.
    pub fn report(&self) -> (r: String)
        requires
            self.task_meta_migrated + self.json_migrated <= u32::MAX,
        ensures
            r@ == report_text(*self),
    {
        let mut r: String = REPORT_TASKS.to_owned();
        text::push_u64(&mut r, self.task_meta_migrated as u64);
        r.append(REPORT_CANCELLED);
        text::push_u64(&mut r, self.task_meta_skipped_cancelled as u64);
        r.append(REPORT_EXISTING);
        text::push_u64(&mut r, self.task_meta_existing as u64);
        r.append(REPORT_SHOWN);
        text::push_u64(&mut r, self.json_migrated as u64);
        r.append(REPORT_CANCELLED);
        text::push_u64(&mut r, self.json_skipped_cancelled as u64);
        r.append(REPORT_NO_SESSION);
        text::push_u64(&mut r, self.json_skipped_no_session as u64);
        r.append(REPORT_EXISTING);
        text::push_u64(&mut r, self.json_existing as u64);
        r.append(REPORT_TOTAL);
        text::push_u64(&mut r, self.total_migrated() as u64);
        r.append(REPORT_END);
        r
    }
}

/// The row that a task is brought to: its objective is the description without the
/// white space around it, and the name only where the description is blank; budget,
/// usage and verify command are what the task remembers.
pub proof fn law_task_shows_in_its_row(
    s: StoreView,
    t: TaskView,
    m: MetaView,
    goal_id: Seq<char>,
    now_ms: i64,
)
    requires
        t.meta == Some(m),
        !(m.lifecycle is Cancelled),
        !s.rows.contains_key(t.id),
        text::trimmed(t.description).len() > 0 || text::trimmed(t.name).len() > 0,
    ensures
        ({
            let p = task_placed(s, t, goal_id, now_ms);
            let g = p.store.rows[t.id];
            &&& p.fate == Ok::<Fate, StoreErrorView>(Fate::Migrated)
            &&& p.store.rows.contains_key(t.id)
            &&& text::trimmed(t.description).len() > 0 ==> g.objective == text::trimmed(t.description)
            &&& text::trimmed(t.description).len() == 0 ==> g.objective == text::trimmed(t.name)
            &&& g.thread_id == t.id
            &&& g.goal_id == goal_id
            &&& g.token_budget is Some <==> m.token_budget is Some
            &&& m.token_budget matches Some(b) ==> g.token_budget == Some(b as i64)
            &&& g.tokens_used == m.tokens_used
            &&& m.time_used_seconds >= 0 ==> g.time_used_seconds == m.time_used_seconds
            &&& m.time_used_seconds < 0 ==> g.time_used_seconds == 0
            &&& g.verify_command == m.verify_command
            &&& g.created_at_ms == now_ms
            &&& g.iteration_count == 0
            &&& (m.lifecycle is Active || m.lifecycle is Paused || m.lifecycle is Completed)
                ==> g.status_reason is None
            &&& m.lifecycle is Failed && m.lifecycle_reason is None ==> g.status_reason == Some(
                "migrated from GoalLifecycle::Failed"@,
            )
            &&& (m.lifecycle is Blocked || m.lifecycle is UsageLimited) ==> g.status_reason
                == m.lifecycle_reason
            &&& !p.store.deferred.contains(t.id)
            &&& p.store.rows.remove(t.id) == s.rows
        }),
{
    lemma_or_else_is_trimmed(t.description, t.name);
    assert(task_placed(s, t, goal_id, now_ms).store.rows.remove(t.id) =~= s.rows);
}

/// What becomes of the other tasks: one that remembers no goal is passed over, a
/// cancelled one is not kept, one whose thread has a goal leaves that in place, and one
/// without any text is refused. None of them changes the table.
pub proof fn law_tasks_left_out(s: StoreView, t: TaskView, goal_id: Seq<char>, now_ms: i64)
    ensures
        ({
            let p = task_placed(s, t, goal_id, now_ms);
            let blank = text::trimmed(t.description).len() == 0 && text::trimmed(t.name).len() == 0;
            &&& t.meta is None ==> p.fate == Ok::<Fate, StoreErrorView>(Fate::Ignored)
            &&& t.meta matches Some(m) ==> {
                &&& m.lifecycle is Cancelled ==> p.fate == Ok::<Fate, StoreErrorView>(Fate::Cancelled)
                &&& !(m.lifecycle is Cancelled) && s.rows.contains_key(t.id) ==> p.fate == Ok::<
                    Fate,
                    StoreErrorView,
                >(Fate::Existing)
                &&& !(m.lifecycle is Cancelled) && !s.rows.contains_key(t.id) && blank ==> p.fate == Err::<
                    Fate,
                    StoreErrorView,
                >(StoreErrorView::Validation(GoalValidationError::EmptyObjective))
            }
            &&& p.fate != Ok::<Fate, StoreErrorView>(Fate::Migrated) ==> p.store == s
        }),
{
    lemma_or_else_is_trimmed(t.description, t.name);
}

/// The row that a shown goal is brought to: that of its first session, with the
/// description as its objective, the title only where that is blank, under the
/// identifier that it has, and with nothing used.
pub proof fn law_shown_goal_shows_in_its_row(s: StoreView, g: LegacyView, now_ms: i64)
    requires
        g.sessions.len() > 0,
        !s.rows.contains_key(g.sessions[0]),
        text::trimmed(g.description).len() > 0 || text::trimmed(g.title).len() > 0,
    ensures
        ({
            let p = shown_placed(s, g, now_ms);
            let h = p.store.rows[g.sessions[0]];
            let word = text::lowered(text::trimmed(g.status));
            let known = word == "pending"@ || word == "active"@ || word == "paused"@ || word
                == "completed"@ || word == "failed"@;
            &&& known ==> {
                &&& p.fate == Ok::<Fate, StoreErrorView>(Fate::Migrated)
                &&& p.store.rows.contains_key(g.sessions[0])
                &&& text::trimmed(g.description).len() > 0 ==> h.objective == text::trimmed(
                    g.description,
                )
                &&& text::trimmed(g.description).len() == 0 ==> h.objective == text::trimmed(g.title)
                &&& h.thread_id == g.sessions[0]
                &&& h.goal_id == g.id
                &&& h.token_budget is None && h.verify_command is None
                &&& h.tokens_used == 0 && h.time_used_seconds == 0
                &&& h.status_reason == Some("migrated from goals.json"@)
                &&& h.created_at_ms == now_ms
                &&& p.store.rows.remove(g.sessions[0]) == s.rows
            }
            &&& word == "pending"@ || word == "active"@ ==> h.status is Active
            &&& word == "paused"@ ==> h.status is Paused
            &&& word == "completed"@ ==> h.status is Complete
            &&& word == "failed"@ ==> h.status is Blocked
        }),
{
    lemma_or_else_is_trimmed(g.description, g.title);
    reveal_strlit("pending");
    reveal_strlit("active");
    reveal_strlit("paused");
    reveal_strlit("completed");
    reveal_strlit("failed");
    assert("active"@[0] == 'a' && "paused"@[0] == 'p' && "failed"@[0] == 'f');
    assert("pending"@.len() == 7 && "completed"@.len() == 9 && "active"@.len() == 6);
    assert(shown_placed(s, g, now_ms).store.rows.remove(g.sessions[0]) =~= s.rows || s.rows
        == shown_placed(s, g, now_ms).store.rows);
}

/// What becomes of the other shown goals: one whose status means nothing is passed
/// over, a cancelled one is not kept, one without a session has no place, and one whose
/// thread has a goal leaves that in place. None of them changes the table.
pub proof fn law_shown_goals_left_out(s: StoreView, g: LegacyView, now_ms: i64)
    ensures
        ({
            let p = shown_placed(s, g, now_ms);
            let word = text::lowered(text::trimmed(g.status));
            let known = word == "pending"@ || word == "active"@ || word == "paused"@ || word
                == "completed"@ || word == "failed"@;
            &&& word == "cancelled"@ ==> p.fate == Ok::<Fate, StoreErrorView>(Fate::Cancelled)
            &&& !known && word != "cancelled"@ ==> p.fate == Ok::<Fate, StoreErrorView>(Fate::Ignored)
            &&& known && g.sessions.len() == 0 ==> p.fate == Ok::<Fate, StoreErrorView>(Fate::NoSession)
            &&& known && g.sessions.len() > 0 && s.rows.contains_key(g.sessions[0]) ==> p.fate == Ok::<
                Fate,
                StoreErrorView,
            >(Fate::Existing)
            &&& p.fate != Ok::<Fate, StoreErrorView>(Fate::Migrated) ==> p.store == s
        }),
{
    reveal_strlit("pending");
    reveal_strlit("active");
    reveal_strlit("paused");
    reveal_strlit("completed");
    reveal_strlit("failed");
    reveal_strlit("cancelled");
    assert("cancelled"@[1] == 'a' && "completed"@[1] == 'o');
    assert("cancelled"@.len() == 9 && "pending"@.len() == 7 && "active"@.len() == 6);
    assert("paused"@.len() == 6 && "failed"@.len() == 6);
}

/// What is counted: goals of tasks and shown goals each on their own side, by what
/// became of them, and one at a time.
pub proof fn law_goals_are_counted(sum: MigrateSummary, fate: Fate)
    requires
        sum.room(1),
    ensures
        ({
            let t = sum.with_task(fate);
            &&& t.task_meta_migrated == sum.task_meta_migrated + if fate is Migrated { 1int } else { 0 }
            &&& t.task_meta_skipped_cancelled == sum.task_meta_skipped_cancelled + if fate is Cancelled {
                1int
            } else {
                0
            }
            &&& t.task_meta_existing == sum.task_meta_existing + if fate is Existing { 1int } else { 0 }
            &&& t.json_migrated == sum.json_migrated && t.json_skipped_cancelled
                == sum.json_skipped_cancelled && t.json_skipped_no_session
                == sum.json_skipped_no_session && t.json_existing == sum.json_existing
        }),
        ({
            let j = sum.with_shown(fate);
            &&& j.json_migrated == sum.json_migrated + if fate is Migrated { 1int } else { 0 }
            &&& j.json_skipped_cancelled == sum.json_skipped_cancelled + if fate is Cancelled {
                1int
            } else {
                0
            }
            &&& j.json_skipped_no_session == sum.json_skipped_no_session + if fate is NoSession {
                1int
            } else {
                0
            }
            &&& j.json_existing == sum.json_existing + if fate is Existing { 1int } else { 0 }
            &&& j.task_meta_migrated == sum.task_meta_migrated && j.task_meta_skipped_cancelled
                == sum.task_meta_skipped_cancelled && j.task_meta_existing == sum.task_meta_existing
        }),
{
}

/// Goals are brought in one after the other, and none after one that was refused.
pub proof fn law_goals_come_one_by_one(
    s: StoreView,
    sum: MigrateSummary,
    tasks: Seq<TaskView>,
    ids: Seq<Seq<char>>,
    goals: Seq<LegacyView>,
    now_ms: i64,
    t: TaskView,
    id: Seq<char>,
    g: LegacyView,
)
    requires
        ids.len() == tasks.len(),
    ensures
        ({
            let before = tasks_migrated(s, sum, tasks, ids, now_ms);
            let after = tasks_migrated(s, sum, tasks.push(t), ids.push(id), now_ms);
            let one = task_placed(before.store, t, id, now_ms);
            &&& before.result is Err ==> after == before
            &&& before.result is Ok ==> after.store == one.store
            &&& before.result is Ok && one.fate is Err ==> after.sum == before.sum && after.result
                == Err::<(), StoreErrorView>(one.fate->Err_0)
            &&& before.result is Ok && one.fate is Ok ==> after.result is Ok && after.sum
                == before.sum.with_task(one.fate->Ok_0)
        }),
        ({
            let before = shown_migrated(s, sum, goals, now_ms);
            let after = shown_migrated(s, sum, goals.push(g), now_ms);
            let one = shown_placed(before.store, g, now_ms);
            &&& before.result is Err ==> after == before
            &&& before.result is Ok ==> after.store == one.store
            &&& before.result is Ok && one.fate is Err ==> after.sum == before.sum && after.result
                == Err::<(), StoreErrorView>(one.fate->Err_0)
            &&& before.result is Ok && one.fate is Ok ==> after.result is Ok && after.sum
                == before.sum.with_shown(one.fate->Ok_0)
        }),
        tasks_migrated(s, sum, Seq::empty(), ids, now_ms).store == s,
        shown_migrated(s, sum, Seq::empty(), now_ms).store == s,
{
    assert(tasks.push(t).drop_last() =~= tasks);
    assert(goals.push(g).drop_last() =~= goals);
    lemma_ids_beyond(s, sum, tasks, ids, ids.push(id), now_ms);
}

} // verus!
