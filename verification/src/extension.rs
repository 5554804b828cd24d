//! Goals as remote clients see them.
//!
//! Clients know two shapes: the wire goal of the older methods, with six
//! statuses of its own, and the neutral snapshot of the newer control method,
//! with five.

use crate::cursor;
use crate::json;
use crate::json::{Field, FieldView, Json, JsonView};
use crate::outside;
use crate::service;
use crate::service::{GoalServiceError, ServiceErrorView};
use crate::store::{GoalStoreError, StoreErrorView};
use crate::text;
use crate::types;
use crate::types::GoalView;
use vstd::prelude::*;
use vstd::string::*;

verus! {

/// The statuses of the wire goal.
#[derive(Debug, Clone, Copy, PartialEq, Eq, Structural)]
pub enum GoalStatus {
    Pending,
    Active,
    Paused,
    Completed,
    Cancelled,
    Failed,
}

/// The name of a wire status.
pub open spec fn wire_status_text(s: GoalStatus) -> Seq<char> {
    match s {
        GoalStatus::Pending => "pending"@,
        GoalStatus::Active => "active"@,
        GoalStatus::Paused => "paused"@,
        GoalStatus::Completed => "completed"@,
        GoalStatus::Cancelled => "cancelled"@,
        GoalStatus::Failed => "failed"@,
    }
}

impl GoalStatus {
    /// The name of the status.
    pub fn as_str(&self) -> (r: &'static str)
        ensures
            r@ == wire_status_text(*self),
    {
        match self {
            GoalStatus::Pending => "pending",
            GoalStatus::Active => "active",
            GoalStatus::Paused => "paused",
            GoalStatus::Completed => "completed",
            GoalStatus::Cancelled => "cancelled",
            GoalStatus::Failed => "failed",
        }
    }
}

/// The wire status of a goal's status.
pub open spec fn projected(s: types::GoalStatus) -> GoalStatus {
    match s {
        types::GoalStatus::Active => GoalStatus::Active,
        types::GoalStatus::Paused => GoalStatus::Paused,
        types::GoalStatus::UsageLimited => GoalStatus::Paused,
        types::GoalStatus::Blocked => GoalStatus::Failed,
        types::GoalStatus::BudgetLimited => GoalStatus::Failed,
        types::GoalStatus::Complete => GoalStatus::Completed,
    }
}

/// The wire status of a goal's status.
pub fn project_status(status: types::GoalStatus) -> (r: GoalStatus)
    ensures
        r == projected(status),
{
    match status {
        types::GoalStatus::Active => GoalStatus::Active,
        types::GoalStatus::Paused => GoalStatus::Paused,
        types::GoalStatus::UsageLimited => GoalStatus::Paused,
        types::GoalStatus::Blocked => GoalStatus::Failed,
        types::GoalStatus::BudgetLimited => GoalStatus::Failed,
        types::GoalStatus::Complete => GoalStatus::Completed,
    }
}

/// The statuses that a filter lets through: the names of wire statuses in any
/// case; a name that means nothing lets everything through, and no goal is ever
/// listed as cancelled.
pub open spec fn filtered(old: Seq<char>) -> Seq<types::GoalStatus> {
    let name = text::lowered(text::trimmed(old));
    if name == "pending"@ || name == "active"@ {
        seq![types::GoalStatus::Active]
    } else if name == "paused"@ {
        seq![types::GoalStatus::Paused, types::GoalStatus::UsageLimited]
    } else if name == "completed"@ {
        seq![types::GoalStatus::Complete]
    } else if name == "failed"@ {
        seq![types::GoalStatus::Blocked, types::GoalStatus::BudgetLimited]
    } else if name == "cancelled"@ {
        Seq::empty()
    } else {
        seq![
            types::GoalStatus::Active,
            types::GoalStatus::Paused,
            types::GoalStatus::Blocked,
            types::GoalStatus::UsageLimited,
            types::GoalStatus::BudgetLimited,
            types::GoalStatus::Complete,
        ]
    }
}

/// The statuses that a filter lets through.
pub fn filter_statuses(old: &str) -> (r: Vec<types::GoalStatus>)
    ensures
        r@ == filtered(old@),
{
    let name: String = text::lower(text::trim(old));
    let mut r: Vec<types::GoalStatus> = Vec::new();
    if text::same(name.as_str(), "pending") || text::same(name.as_str(), "active") {
        r.push(types::GoalStatus::Active);
    } else if text::same(name.as_str(), "paused") {
        r.push(types::GoalStatus::Paused);
        r.push(types::GoalStatus::UsageLimited);
    } else if text::same(name.as_str(), "completed") {
        r.push(types::GoalStatus::Complete);
    } else if text::same(name.as_str(), "failed") {
        r.push(types::GoalStatus::Blocked);
        r.push(types::GoalStatus::BudgetLimited);
    } else if text::same(name.as_str(), "cancelled") {
    } else {
        r.push(types::GoalStatus::Active);
        r.push(types::GoalStatus::Paused);
        r.push(types::GoalStatus::Blocked);
        r.push(types::GoalStatus::UsageLimited);
        r.push(types::GoalStatus::BudgetLimited);
        r.push(types::GoalStatus::Complete);
    }
    assert(r@ =~= filtered(old@));
    r
}

/// Filtering agrees with what is shown: a filter that names a wire status lets
/// a goal through exactly when the goal is shown with that status. A goal is
/// never shown as pending, and that filter stands for active.
pub proof fn law_filter_agrees_with_projection(w: GoalStatus, s: types::GoalStatus)
    ensures
        filtered(wire_status_text(w)).contains(s) <==> (projected(s) == w || w == GoalStatus::Pending
            && projected(s) == GoalStatus::Active),
{
    reveal_strlit("pending");
    reveal_strlit("active");
    reveal_strlit("paused");
    reveal_strlit("completed");
    reveal_strlit("cancelled");
    reveal_strlit("failed");
    let n = wire_status_text(w);
    assert(text::trim_start(n) == n);
    assert(text::trim_end(n) == n);
    assert(text::lowered(n) =~= n);
    assert("active"@.len() == 6 && "paused"@.len() == 6 && "failed"@.len() == 6);
    assert("active"@[0] == 'a' && "paused"@[0] == 'p' && "failed"@[0] == 'f');
    assert("completed"@[1] == 'o' && "cancelled"@[1] == 'a');
    let f = filtered(n);
    assert(seq![types::GoalStatus::Active].contains(types::GoalStatus::Active)) by {
        assert(seq![types::GoalStatus::Active][0] == types::GoalStatus::Active);
    }
    match w {
        GoalStatus::Pending | GoalStatus::Active => {
            assert(f == seq![types::GoalStatus::Active]);
            assert(f[0] == types::GoalStatus::Active);
        },
        GoalStatus::Paused => {
            assert(f == seq![types::GoalStatus::Paused, types::GoalStatus::UsageLimited]);
            assert(f[0] == types::GoalStatus::Paused && f[1] == types::GoalStatus::UsageLimited);
        },
        GoalStatus::Completed => {
            assert(f == seq![types::GoalStatus::Complete]);
            assert(f[0] == types::GoalStatus::Complete);
        },
        GoalStatus::Failed => {
            assert(f == seq![types::GoalStatus::Blocked, types::GoalStatus::BudgetLimited]);
            assert(f[0] == types::GoalStatus::Blocked && f[1] == types::GoalStatus::BudgetLimited);
        },
        GoalStatus::Cancelled => {
            assert(f == Seq::<types::GoalStatus>::empty());
        },
    }
}

/// The date and time of `ms`; where it cannot be told, that of `now`.
pub open spec fn iso(ms: i64, now: Seq<char>) -> Seq<char> {
    match outside::rfc3339_of(ms) {
        Some(s) => s,
        None => now,
    }
}

/// What is shown for a time: what was told of it, or `now`.
pub fn iso_or_now(told: Option<String>, now: &str) -> (r: String)
    ensures
        r@ == match told {
            Some(s) => s@,
            None => now@,
        },
{
    match told {
        Some(s) => s,
        None => now.to_owned(),
    }
}

/// The date and time of `ms`; where it cannot be told, that of `now`.
pub fn ms_to_iso(ms: i64, now: &str) -> (r: String)
    ensures
        r@ == iso(ms, now@),
{
    iso_or_now(outside::rfc3339_millis(ms), now)
}

/// The present date and time: that of a moment which the clock gives.
pub fn now_iso() -> (r: String)
    ensures
        exists|ms: i64| #[trigger] outside::rfc3339_of(ms) == Some(r@),
{
    let ms: i64 = outside::now_ms();
    outside::rfc3339_millis(ms).unwrap()
}

/// The first line of a text, without its line break.
pub open spec fn first_line(s: Seq<char>) -> Seq<char> {
    let k = text::len_before(s, '\n') as int;
    if k == s.len() {
        s
    } else {
        let line = s.take(k);
        if line.len() > 0 && line.last() == '\r' {
            line.drop_last()
        } else {
            line
        }
    }
}

/// The first line of a text, without its line break.
pub fn line_one(s: &str) -> (r: &str)
    ensures
        r@ == first_line(s@),
{
    match text::split_once(s, '\n') {
        None => s,
        Some((line, _)) => {
            let n: usize = line.unicode_len();
            if n > 0 && line.get_char(n - 1) == '\r' {
                assert(line@.subrange(0, n - 1) =~= line@.drop_last());
                line.substring_char(0, n - 1)
            } else {
                line
            }
        },
    }
}

/// How far a goal has come.
#[derive(Debug, PartialEq, Eq)]
pub struct GoalProgress {
    pub completed_steps: u32,
    pub total_steps: u32,
    pub percentage: u32,
    pub current_step: Option<String>,
    pub sessions_spawned: u32,
}

/// How far a step has come.
#[derive(Debug, Clone, Copy, PartialEq, Eq, Structural)]
pub enum GoalStepStatus {
    Pending,
    InProgress,
    Completed,
    Skipped,
    Failed,
}

/// A step of a goal.
#[derive(Debug, PartialEq, Eq)]
pub struct GoalStep {
    pub index: u32,
    pub description: String,
    pub status: GoalStepStatus,
}

/// The wire goal.
#[derive(Debug, PartialEq, Eq)]
pub struct Goal {
    pub id: String,
    pub title: String,
    pub description: String,
    pub status: GoalStatus,
    pub created_at: String,
    pub updated_at: String,
    pub session_ids: Vec<String>,
    pub progress: Option<GoalProgress>,
    pub metadata: Option<Json>,
    pub steps: Vec<GoalStep>,
    pub idempotency_key: Option<String>,
    pub working_directory: Option<String>,
}

/// An entry.
pub open spec fn entry(key: Seq<char>, value: JsonView) -> FieldView {
    FieldView { key, value }
}

/// What the wire goal says of a goal beyond its own fields; `cancelled` is why
/// it was cancelled, if it was.
pub open spec fn wire_metadata(g: GoalView, cancelled: Option<Seq<char>>) -> JsonView {
    let base = seq![
        entry("threadId"@, JsonView::Str(g.thread_id)),
        entry("tokensUsed"@, JsonView::Int(g.tokens_used as int)),
        entry("timeUsedSeconds"@, JsonView::Int(g.time_used_seconds as int)),
    ];
    let budgeted = match g.token_budget {
        Some(b) => base.push(entry("tokenBudget"@, JsonView::Int(b as int))),
        None => base,
    };
    let reasoned = match g.status_reason {
        Some(r) => budgeted.push(entry("statusReason"@, JsonView::Str(r))),
        None => budgeted,
    };
    JsonView::Obj(
        match cancelled {
            Some(r) => reasoned.push(entry("cancellationReason"@, JsonView::Str(r))),
            None => reasoned,
        },
    )
}

/// How many characters a title has at most.
pub const TITLE_CHARS: usize = 80;

/// The title of a goal: the first line of its objective, cut short.
pub open spec fn title_of(objective: Seq<char>) -> Seq<char> {
    text::head(first_line(text::trimmed(objective)), TITLE_CHARS as nat)
}

fn make_metadata(g: &types::Goal, cancelled: Option<&str>) -> (r: Json)
    ensures
        r@ == wire_metadata(g@, text::opt_str(cancelled)),
{
    let mut f: Vec<Field> = json::no_fields();
    json::put(&mut f, "threadId", json::string(g.thread_id.as_str()));
    json::put(&mut f, "tokensUsed", json::integer(g.tokens_used));
    json::put(&mut f, "timeUsedSeconds", json::integer(g.time_used_seconds));
    assert(json::fields_view(f@) =~= seq![
        entry("threadId"@, JsonView::Str(g@.thread_id)),
        entry("tokensUsed"@, JsonView::Int(g@.tokens_used as int)),
        entry("timeUsedSeconds"@, JsonView::Int(g@.time_used_seconds as int)),
    ]);
    match g.token_budget {
        Some(b) => json::put(&mut f, "tokenBudget", json::integer(b)),
        None => {},
    }
    match &g.status_reason {
        Some(r) => json::put(&mut f, "statusReason", json::string(r.as_str())),
        None => {},
    }
    match cancelled {
        Some(r) => json::put(&mut f, "cancellationReason", json::string(r)),
        None => {},
    }
    json::object(f)
}

/// Whether `w` is what clients see of `g` at the time `now`.
pub open spec fn shows(w: Goal, g: GoalView, cancelled: Option<Seq<char>>, now: Seq<char>) -> bool {
    &&& w.id@ == g.goal_id
    &&& w.title@ == title_of(g.objective)
    &&& w.description@ == text::trimmed(g.objective)
    &&& w.status == projected(g.status)
    &&& w.created_at@ == iso(g.created_at_ms, now)
    &&& w.updated_at@ == iso(g.updated_at_ms, now)
    &&& w.session_ids@.len() == 1
    &&& w.session_ids@[0]@ == g.thread_id
    &&& w.progress is None
    &&& w.metadata is Some
    &&& w.metadata->Some_0@ == wire_metadata(g, cancelled)
    &&& w.steps@.len() == 0
    &&& w.idempotency_key is None
    &&& w.working_directory is None
}

/// What clients see of a goal.
pub fn project_goal(g: &types::Goal, now: &str) -> (r: Goal)
    ensures
        shows(r, g@, None, now@),
{
    project_cancelled(g, None, now)
}

/// What clients see of a goal that is being cancelled, if it is.
pub fn project_cancelled(g: &types::Goal, cancelled: Option<&str>, now: &str) -> (r: Goal)
    ensures
        shows(r, g@, text::opt_str(cancelled), now@),
{
    let objective: &str = text::trim(g.objective.as_str());
    let mut session_ids: Vec<String> = Vec::new();
    session_ids.push(g.thread_id.clone());
    Goal {
        id: g.goal_id.clone(),
        title: text::take_chars(line_one(objective), TITLE_CHARS).to_owned(),
        description: objective.to_owned(),
        status: project_status(g.status),
        created_at: ms_to_iso(g.created_at_ms, now),
        updated_at: ms_to_iso(g.updated_at_ms, now),
        session_ids,
        progress: None,
        metadata: Some(make_metadata(g, cancelled)),
        steps: Vec::new(),
        idempotency_key: None,
        working_directory: None,
    }
}

/// The wire goal as JSON: what clients see of `g` at the time `now`. With
/// `with_steps`, an empty list of steps is added.
pub open spec fn wire_json(
    g: GoalView,
    cancelled: Option<Seq<char>>,
    now: Seq<char>,
    with_steps: bool,
) -> JsonView {
    let base = seq![
        entry("id"@, JsonView::Str(g.goal_id)),
        entry("title"@, JsonView::Str(title_of(g.objective))),
        entry("description"@, JsonView::Str(text::trimmed(g.objective))),
        entry("status"@, JsonView::Str(wire_status_text(projected(g.status)))),
        entry("createdAt"@, JsonView::Str(iso(g.created_at_ms, now))),
        entry("updatedAt"@, JsonView::Str(iso(g.updated_at_ms, now))),
        entry("sessionIds"@, JsonView::Arr(seq![JsonView::Str(g.thread_id)])),
        entry("progress"@, JsonView::Null),
        entry("metadata"@, wire_metadata(g, cancelled)),
    ];
    JsonView::Obj(
        if with_steps {
            base.push(entry("steps"@, JsonView::Arr(Seq::empty())))
        } else {
            base
        },
    )
}

/// The wire goal as JSON.
pub fn goal_json(g: &types::Goal, cancelled: Option<&str>, now: &str, with_steps: bool) -> (r: Json)
    ensures
        r@ == wire_json(g@, text::opt_str(cancelled), now@, with_steps),
{
    let w: Goal = project_cancelled(g, cancelled, now);
    let mut ids: Vec<Json> = Vec::new();
    ids.push(json::string(w.session_ids[0].as_str()));
    assert(json::items_view(ids@) =~= seq![JsonView::Str(g@.thread_id)]);
    let metadata: Json = make_metadata(g, cancelled);
    let mut f: Vec<Field> = json::no_fields();
    json::put(&mut f, "id", json::string(w.id.as_str()));
    json::put(&mut f, "title", json::string(w.title.as_str()));
    json::put(&mut f, "description", json::string(w.description.as_str()));
    json::put(&mut f, "status", json::string(w.status.as_str()));
    json::put(&mut f, "createdAt", json::string(w.created_at.as_str()));
    json::put(&mut f, "updatedAt", json::string(w.updated_at.as_str()));
    json::put(&mut f, "sessionIds", json::array(ids));
    json::put(&mut f, "progress", Json::Null);
    json::put(&mut f, "metadata", metadata);
    assert(json::fields_view(f@) =~= wire_json(g@, text::opt_str(cancelled), now@, false)->Obj_0);
    if with_steps {
        let none: Vec<Json> = Vec::new();
        assert(json::items_view(none@) =~= Seq::empty());
        json::put(&mut f, "steps", json::array(none));
    }
    json::object(f)
}

/// What happened to a goal, as clients are told.
#[derive(Debug, Clone, Copy, PartialEq, Eq, Structural)]
pub enum GoalChangeType {
    Started,
    Paused,
    Resumed,
    Cancelled,
    Completed,
    Progress,
    Failed,
}

/// The name of a change.
pub open spec fn change_text(c: GoalChangeType) -> Seq<char> {
    match c {
        GoalChangeType::Started => "started"@,
        GoalChangeType::Paused => "paused"@,
        GoalChangeType::Resumed => "resumed"@,
        GoalChangeType::Cancelled => "cancelled"@,
        GoalChangeType::Completed => "completed"@,
        GoalChangeType::Progress => "progress"@,
        GoalChangeType::Failed => "failed"@,
    }
}

impl GoalChangeType {
    /// The name of the change.
    pub fn as_str(&self) -> (r: &'static str)
        ensures
            r@ == change_text(*self),
    {
        match self {
            GoalChangeType::Started => "started",
            GoalChangeType::Paused => "paused",
            GoalChangeType::Resumed => "resumed",
            GoalChangeType::Cancelled => "cancelled",
            GoalChangeType::Completed => "completed",
            GoalChangeType::Progress => "progress",
            GoalChangeType::Failed => "failed",
        }
    }
}

/// What clients are told of a change.
#[derive(Debug, PartialEq, Eq)]
pub struct GoalChangedNotification {
    pub id: String,
    pub change: GoalChangeType,
    pub status: GoalStatus,
    pub progress: Option<GoalProgress>,
}

/// What clients are told of a change.
pub fn build_notification(
    id: &str,
    change: GoalChangeType,
    status: GoalStatus,
    progress: Option<GoalProgress>,
) -> (r: GoalChangedNotification)
    ensures
        r.id@ == id@,
        r.change == change,
        r.status == status,
        r.progress == progress,
{
    GoalChangedNotification { id: id.to_owned(), change, status, progress }
}

/// What clients are told of a change, as JSON.
pub open spec fn notification_json(
    id: Seq<char>,
    change: GoalChangeType,
    status: GoalStatus,
) -> JsonView {
    JsonView::Obj(
        seq![
            entry("id"@, JsonView::Str(id)),
            entry("change"@, JsonView::Str(change_text(change))),
            entry("status"@, JsonView::Str(wire_status_text(status))),
        ],
    )
}

/// What clients are told of a change that comes with no progress, as JSON.
pub fn change_json(id: &str, change: GoalChangeType, status: GoalStatus) -> (r: Json)
    ensures
        r@ == notification_json(id@, change, status),
{
    let n: GoalChangedNotification = build_notification(id, change, status, None);
    let mut f: Vec<Field> = json::no_fields();
    json::put(&mut f, "id", json::string(n.id.as_str()));
    json::put(&mut f, "change", json::string(n.change.as_str()));
    json::put(&mut f, "status", json::string(n.status.as_str()));
    assert(json::fields_view(f@) =~= notification_json(id@, change, status)->Obj_0);
    json::object(f)
}

/// The neutral control method.
pub const NEUTRAL_GOAL_CONTROL_METHOD: &'static str = "_session/goal";

/// An older name of the control method, which is served but not announced.
pub const LEGACY_CODEX_GOAL_CONTROL_METHOD: &'static str = "_codex/session/goal_control";

/// The actions of the control method.
pub const NEUTRAL_GOAL_ACTIONS: [&'static str; 6] = [
    "set",
    "pause",
    "resume",
    "clear",
    "edit",
    "editBudget",
];

/// What is announced of the control method.
pub open spec fn capability_json() -> JsonView {
    JsonView::Obj(
        seq![
            entry("version"@, JsonView::Int(1)),
            entry("controlMethod"@, JsonView::Str(NEUTRAL_GOAL_CONTROL_METHOD@)),
            entry(
                "actions"@,
                JsonView::Arr(
                    seq![
                        JsonView::Str("set"@),
                        JsonView::Str("pause"@),
                        JsonView::Str("resume"@),
                        JsonView::Str("clear"@),
                        JsonView::Str("edit"@),
                        JsonView::Str("editBudget"@),
                    ],
                ),
            ),
        ],
    )
}

/// What is announced of the control method.
pub fn neutral_goal_capability() -> (r: Json)
    ensures
        r@ == capability_json(),
{
    let mut actions: Vec<Json> = Vec::new();
    actions.push(json::string("set"));
    actions.push(json::string("pause"));
    actions.push(json::string("resume"));
    actions.push(json::string("clear"));
    actions.push(json::string("edit"));
    actions.push(json::string("editBudget"));
    assert(json::items_view(actions@) =~= capability_json()->Obj_0[2].value->Arr_0);
    let mut f: Vec<Field> = json::no_fields();
    json::put(&mut f, "version", json::integer(1));
    json::put(&mut f, "controlMethod", json::string(NEUTRAL_GOAL_CONTROL_METHOD));
    json::put(&mut f, "actions", json::array(actions));
    assert(json::fields_view(f@) =~= capability_json()->Obj_0);
    json::object(f)
}

/// The neutral name of a goal's status: both limits are one.
pub open spec fn neutral_text(s: types::GoalStatus) -> Seq<char> {
    match s {
        types::GoalStatus::Active => "active"@,
        types::GoalStatus::Paused => "paused"@,
        types::GoalStatus::Blocked => "blocked"@,
        types::GoalStatus::UsageLimited => "limited"@,
        types::GoalStatus::BudgetLimited => "limited"@,
        types::GoalStatus::Complete => "complete"@,
    }
}

/// The neutral name of a goal's status.
pub fn neutral_status(status: types::GoalStatus) -> (r: &'static str)
    ensures
        r@ == neutral_text(status),
{
    match status {
        types::GoalStatus::Active => "active",
        types::GoalStatus::Paused => "paused",
        types::GoalStatus::Blocked => "blocked",
        types::GoalStatus::UsageLimited => "limited",
        types::GoalStatus::BudgetLimited => "limited",
        types::GoalStatus::Complete => "complete",
    }
}

/// The budget of a goal, as JSON.
pub open spec fn budget_json(g: GoalView) -> JsonView {
    match g.token_budget {
        Some(b) => JsonView::Int(b as int),
        None => JsonView::Null,
    }
}

/// What every neutral snapshot holds.
pub open spec fn snapshot_fields(g: GoalView) -> Seq<FieldView> {
    seq![
        entry("objective"@, JsonView::Str(g.objective)),
        entry("status"@, JsonView::Str(neutral_text(g.status))),
        entry("iterationCount"@, JsonView::Int(g.iteration_count as int)),
        entry("objectiveRevision"@, JsonView::Int(g.objective_revision as int)),
        entry("createdAt"@, JsonView::Int(g.created_at_ms as int)),
        entry("updatedAt"@, JsonView::Int(g.updated_at_ms as int)),
        entry("tokenBudget"@, budget_json(g)),
        entry("tokensUsed"@, JsonView::Int(g.tokens_used as int)),
        entry("timeUsedSeconds"@, JsonView::Int(g.time_used_seconds as int)),
        entry("controlMethod"@, JsonView::Str(NEUTRAL_GOAL_CONTROL_METHOD@)),
    ]
}

/// The neutral snapshot of a goal whose objective reads in full. It does not
/// give away the goal's id.
pub open spec fn snapshot_json(g: GoalView) -> JsonView {
    JsonView::Obj(
        match g.status_reason {
            Some(r) => snapshot_fields(g).push(entry("statusReason"@, JsonView::Str(r))),
            None => snapshot_fields(g),
        },
    )
}

/// The neutral snapshot of a goal whose objective reads in full.
pub fn neutral_goal_snapshot(goal: &types::Goal) -> (r: Json)
    ensures
        r@ == snapshot_json(goal@),
{
    let budget: Json = match goal.token_budget {
        Some(b) => json::integer(b),
        None => Json::Null,
    };
    let mut f: Vec<Field> = json::no_fields();
    json::put(&mut f, "objective", json::string(goal.objective.as_str()));
    json::put(&mut f, "status", json::string(neutral_status(goal.status)));
    json::put(&mut f, "iterationCount", json::integer(goal.iteration_count));
    json::put(&mut f, "objectiveRevision", json::integer(goal.objective_revision));
    json::put(&mut f, "createdAt", json::integer(goal.created_at_ms));
    json::put(&mut f, "updatedAt", json::integer(goal.updated_at_ms));
    json::put(&mut f, "tokenBudget", budget);
    json::put(&mut f, "tokensUsed", json::integer(goal.tokens_used));
    json::put(&mut f, "timeUsedSeconds", json::integer(goal.time_used_seconds));
    json::put(&mut f, "controlMethod", json::string(NEUTRAL_GOAL_CONTROL_METHOD));
    assert(json::fields_view(f@) =~= snapshot_fields(goal@));
    match &goal.status_reason {
        Some(r) => json::put(&mut f, "statusReason", json::string(r.as_str())),
        None => {},
    }
    json::object(f)
}

/// The snapshot of a thread's goal, or nothing for a thread without one.
pub open spec fn opt_snapshot(g: Option<GoalView>) -> JsonView {
    match g {
        Some(g) => snapshot_json(g),
        None => JsonView::Null,
    }
}

/// The snapshot of a thread's goal, or nothing for a thread without one.
pub fn neutral_meta(goal: Option<&types::Goal>) -> (r: Json)
    ensures
        r@ == opt_snapshot(
            match goal {
                Some(g) => Some(g@),
                None => None,
            },
        ),
{
    match goal {
        Some(g) => neutral_goal_snapshot(g),
        None => Json::Null,
    }
}

proof fn lemma_no_key(fields: Seq<FieldView>, key: Seq<char>)
    requires
        forall|i: int| 0 <= i < fields.len() ==> (#[trigger] fields[i]).key != key,
    ensures
        json::lookup(fields, key) is None,
    decreases fields.len(),
{
    if fields.len() > 0 {
        let rest = fields.drop_first();
        assert forall|i: int| 0 <= i < rest.len() implies (#[trigger] rest[i]).key != key by {
            assert(rest[i] == fields[i + 1]);
        }
        lemma_no_key(rest, key);
    }
}

/// A neutral snapshot gives away no id: it has neither an entry `id` nor an
/// entry `goalId`, nor one that says that the objective is kept in a file.
pub proof fn law_snapshot_gives_no_id(g: GoalView)
    ensures
        snapshot_json(g).field("id"@) is None,
        snapshot_json(g).field("goalId"@) is None,
        snapshot_json(g).field("objectiveFile"@) is None,
{
    reveal_strlit("id");
    reveal_strlit("goalId");
    reveal_strlit("objectiveFile");
    reveal_strlit("objective");
    reveal_strlit("status");
    reveal_strlit("iterationCount");
    reveal_strlit("objectiveRevision");
    reveal_strlit("createdAt");
    reveal_strlit("updatedAt");
    reveal_strlit("tokenBudget");
    reveal_strlit("tokensUsed");
    reveal_strlit("timeUsedSeconds");
    reveal_strlit("controlMethod");
    reveal_strlit("statusReason");
    let base = snapshot_fields(g);
    let fields = snapshot_json(g)->Obj_0;
    assert("goalId"@[0] == 'g' && "status"@[0] == 's');
    assert("objectiveFile"@[0] == 'o' && "controlMethod"@[0] == 'c');
    assert(base[0].key == "objective"@ && base[1].key == "status"@ && base[2].key
        == "iterationCount"@ && base[3].key == "objectiveRevision"@ && base[4].key == "createdAt"@
        && base[5].key == "updatedAt"@ && base[6].key == "tokenBudget"@ && base[7].key
        == "tokensUsed"@ && base[8].key == "timeUsedSeconds"@ && base[9].key == "controlMethod"@);
    assert forall|i: int| 0 <= i < fields.len() implies (#[trigger] fields[i]).key != "id"@
        && fields[i].key != "goalId"@ && fields[i].key != "objectiveFile"@ by {
        if i < 10 {
            assert(fields[i] == base[i]);
        } else {
            assert(fields[i].key == "statusReason"@);
        }
    }
    lemma_no_key(fields, "id"@);
    lemma_no_key(fields, "goalId"@);
    lemma_no_key(fields, "objectiveFile"@);
}

/// Why a request fails.
#[derive(Debug, Clone, PartialEq, Eq)]
pub struct ExtensionError {
    pub code: i64,
    pub message: String,
    pub data: Option<String>,
}

/// The mathematical value of an [`ExtensionError`].
pub struct ExtErrorView {
    pub code: int,
    pub message: Seq<char>,
    pub data: Option<Seq<char>>,
}

impl View for ExtensionError {
    type V = ExtErrorView;

    open spec fn view(&self) -> ExtErrorView {
        ExtErrorView {
            code: self.code as int,
            message: self.message@,
            data: text::opt_text(self.data),
        }
    }
}

/// The request does not make sense.
pub open spec fn invalid_params_view(m: Seq<char>) -> ExtErrorView {
    ExtErrorView { code: -32602, message: "invalid_params"@, data: Some(m) }
}

/// What the request speaks of is not there.
pub open spec fn not_found_view(m: Seq<char>) -> ExtErrorView {
    ExtErrorView { code: -32003, message: "not_found"@, data: Some(m) }
}

/// The request is not allowed.
pub open spec fn forbidden_view(m: Seq<char>) -> ExtErrorView {
    ExtErrorView { code: -32002, message: "forbidden"@, data: Some(m) }
}

/// There is no such method.
pub open spec fn method_not_found_view() -> ExtErrorView {
    ExtErrorView { code: -32601, message: "method_not_found"@, data: None }
}

/// The request failed on this side.
pub open spec fn internal_view(m: Seq<char>) -> ExtErrorView {
    ExtErrorView { code: -32603, message: "internal_error"@, data: Some(m) }
}

impl ExtensionError {
    /// The request does not make sense.
    pub fn invalid_params(m: String) -> (r: ExtensionError)
        ensures
            r@ == invalid_params_view(m@),
    {
        ExtensionError { code: -32602, message: "invalid_params".to_owned(), data: Some(m) }
    }

    /// What the request speaks of is not there.
    pub fn not_found(m: String) -> (r: ExtensionError)
        ensures
            r@ == not_found_view(m@),
    {
        ExtensionError { code: -32003, message: "not_found".to_owned(), data: Some(m) }
    }

    /// The request is not allowed.
    pub fn forbidden(m: String) -> (r: ExtensionError)
        ensures
            r@ == forbidden_view(m@),
    {
        ExtensionError { code: -32002, message: "forbidden".to_owned(), data: Some(m) }
    }

    /// There is no such method.
    pub fn method_not_found() -> (r: ExtensionError)
        ensures
            r@ == method_not_found_view(),
    {
        ExtensionError { code: -32601, message: "method_not_found".to_owned(), data: None }
    }
}

/// The request failed on this side.
pub fn internal_error(m: String) -> (r: ExtensionError)
    ensures
        r@ == internal_view(m@),
{
    ExtensionError { code: -32603, message: "internal_error".to_owned(), data: Some(m) }
}

/// The text under a key that must be there and not empty.
pub open spec fn required_text(params: JsonView, key: Seq<char>) -> Result<Seq<char>, ExtErrorView> {
    match params.field(key) {
        Some(JsonView::Str(s)) => if text::trimmed(s).len() > 0 {
            Ok(text::trimmed(s))
        } else {
            Err(invalid_params_view(key + " must not be empty"@))
        },
        Some(_) => Err(invalid_params_view(key + " must be a string"@)),
        None => Err(invalid_params_view("missing required parameter: "@ + key)),
    }
}

/// The text under a key, if it is there and not empty.
pub open spec fn optional_text(params: JsonView, key: Seq<char>) -> Option<Seq<char>> {
    match params.field(key) {
        Some(JsonView::Str(s)) => if text::trimmed(s).len() > 0 {
            Some(text::trimmed(s))
        } else {
            None
        },
        _ => None,
    }
}

/// The text under a key that must be there and not empty.
pub fn require_param_str(params: &Json, key: &str) -> (r: Result<String, ExtensionError>)
    ensures
        match required_text(params@, key@) {
            Ok(s) => r is Ok && r->Ok_0@ == s,
            Err(e) => r is Err && r->Err_0@ == e,
        },
{
    match params.get(key) {
        Some(Json::Str(s)) => {
            let t: &str = text::trim(s.as_str());
            if t.is_empty() {
                let mut m: String = key.to_owned();
                m.append(" must not be empty");
                Err(ExtensionError::invalid_params(m))
            } else {
                Ok(t.to_owned())
            }
        },
        Some(_) => {
            let mut m: String = key.to_owned();
            m.append(" must be a string");
            Err(ExtensionError::invalid_params(m))
        },
        None => {
            let mut m: String = "missing required parameter: ".to_owned();
            m.append(key);
            Err(ExtensionError::invalid_params(m))
        },
    }
}

/// The text under a key, if it is there and not empty.
pub fn optional_param_str(params: &Json, key: &str) -> (r: Option<String>)
    ensures
        text::opt_text(r) == optional_text(params@, key@),
{
    match params.get(key) {
        Some(Json::Str(s)) => {
            let t: &str = text::trim(s.as_str());
            if t.is_empty() {
                None
            } else {
                Some(t.to_owned())
            }
        },
        _ => None,
    }
}

/// What a client is told of a failed operation.
pub open spec fn mapped_error(op: Seq<char>, e: ServiceErrorView) -> ExtErrorView {
    match e {
        ServiceErrorView::NoGoal(t) => not_found_view("goal on thread "@ + t + " not found"@),
        ServiceErrorView::NotResumable { status } => invalid_params_view(
            "goal status is "@ + service::status_debug(status) + "; "@ + op + " rejected"@,
        ),
        ServiceErrorView::Store(StoreErrorView::NotFoundOrDisallowed(_)) => invalid_params_view(
            "goal status transition rejected by store; "@ + op + " failed"@,
        ),
        other => internal_view(op + " failed: "@ + service::service_error_text(other)),
    }
}

/// What a client is told of a failed operation.
pub fn map_service_error(op: &str, e: GoalServiceError) -> (r: ExtensionError)
    ensures
        r@ == mapped_error(op@, e@),
{
    match e {
        GoalServiceError::NoGoal(t) => {
            let mut m: String = "goal on thread ".to_owned();
            m.append(t.as_str());
            m.append(" not found");
            ExtensionError::not_found(m)
        },
        GoalServiceError::NotResumable { status } => {
            let mut m: String = "goal status is ".to_owned();
            m.append(service::status_debug_name(status));
            m.append("; ");
            m.append(op);
            m.append(" rejected");
            ExtensionError::invalid_params(m)
        },
        GoalServiceError::Store(GoalStoreError::NotFoundOrDisallowed(_)) => {
            let mut m: String = "goal status transition rejected by store; ".to_owned();
            m.append(op);
            m.append(" failed");
            ExtensionError::invalid_params(m)
        },
        other => {
            let mut m: String = op.to_owned();
            m.append(" failed: ");
            m.append(other.message().as_str());
            internal_error(m)
        },
    }
}

/// The cursor to offset `offset` of the list as it stands in generation
/// `generation`.
pub open spec fn cursor_text(generation: u64, offset: u64) -> Seq<char> {
    outside::base64_text(cursor::fields_text(generation, offset))
}

/// Where a cursor points in generation `generation`, if it points anywhere. The list
/// changes with each generation, and cursors of an earlier one are void.
pub open spec fn cursor_offset(cursor: Seq<char>, generation: u64) -> Option<u64> {
    match outside::base64_bytes(cursor) {
        Some(raw) => offset_in(cursor::cursor_fields(raw), generation),
        None => None,
    }
}

/// The offset in a cursor of which generation and offset were read, if it holds in
/// generation `generation`.
pub open spec fn offset_in(read: Option<(u64, u64)>, generation: u64) -> Option<u64> {
    match read {
        Some((g, o)) => if g == generation && o <= usize::MAX {
            Some(o)
        } else {
            None
        },
        None => None,
    }
}

/// Whether the cursor `c` leads to offset `offset` in generation `generation`, and
/// stands as it is in a request.
pub open spec fn leads_to(c: Seq<char>, generation: u64, offset: u64) -> bool {
    &&& cursor_offset(c, generation) == Some(offset)
    &&& c.len() > 0
    &&& text::trimmed(c) == c
}

/// A cursor.
pub fn encode_cursor(generation: u64, offset: usize) -> (r: String)
    ensures
        r@ == cursor_text(generation, offset as u64),
        leads_to(r@, generation, offset as u64),
{
    let raw: Vec<u8> = cursor::write_fields(generation, offset as u64);
    let r: String = outside::base64_encode(&raw);
    assert(text::trim_start(r@) == r@) by {
        assert(outside::is_url_safe(r@[0]));
    }
    assert(text::trim_end(r@) == r@) by {
        assert(outside::is_url_safe(r@[r@.len() - 1]));
    }
    r
}

/// The offset in a cursor of which generation and offset were read, if it holds in
/// generation `generation`.
pub fn checked_offset(read: Option<(u64, u64)>, generation: u64) -> (r: Option<usize>)
    ensures
        match offset_in(read, generation) {
            Some(o) => r == Some(o as usize),
            None => r is None,
        },
{
    match read {
        Some((g, o)) => if g == generation && o <= usize::MAX as u64 {
            Some(o as usize)
        } else {
            None
        },
        None => None,
    }
}

/// Where a cursor points in generation `generation`.
pub fn decode_cursor(cursor: &str, generation: u64) -> (r: Result<usize, ExtensionError>)
    ensures
        match cursor_offset(cursor@, generation) {
            Some(o) => r == Ok::<usize, ExtensionError>(o as usize),
            None => r is Err && r->Err_0@ == invalid_params_view("invalid list cursor"@),
        },
{
    let found: Option<usize> = match outside::base64_decode(cursor) {
        Some(raw) => checked_offset(cursor::read_fields(raw.as_slice()), generation),
        None => None,
    };
    match found {
        Some(o) => Ok(o),
        None => Err(ExtensionError::invalid_params("invalid list cursor".to_owned())),
    }
}

/// A cursor holds in one generation only: once the list has changed, it is
/// void.
pub proof fn law_stale_cursor_is_void(cursor: Seq<char>, generation: u64, later: u64)
    requires
        cursor_offset(cursor, generation) is Some,
        later != generation,
    ensures
        cursor_offset(cursor, later) is None,
{
}

/// The value under the key of an entry, where no earlier entry has the key.
pub(crate) proof fn lemma_value_at(fields: Seq<FieldView>, i: int, key: Seq<char>)
    requires
        0 <= i < fields.len(),
        fields[i].key == key,
        forall|j: int| 0 <= j < i ==> (#[trigger] fields[j]).key != key,
    ensures
        json::lookup(fields, key) == Some(fields[i].value),
    decreases i,
{
    if i > 0 {
        assert(fields[0].key != key);
        let rest = fields.drop_first();
        assert forall|j: int| 0 <= j < i - 1 implies (#[trigger] rest[j]).key != key by {
            assert(rest[j] == fields[j + 1]);
        }
        assert(rest[i - 1] == fields[i]);
        lemma_value_at(rest, i - 1, key);
    }
}

/// The keys of the wire goal differ.
proof fn lemma_wire_keys()
    ensures
        "id"@ != "title"@,
        "id"@ != "description"@,
        "id"@ != "status"@,
        "id"@ != "createdAt"@,
        "id"@ != "updatedAt"@,
        "id"@ != "sessionIds"@,
        "id"@ != "progress"@,
        "id"@ != "metadata"@,
        "id"@ != "steps"@,
        "title"@ != "description"@,
        "title"@ != "status"@,
        "title"@ != "createdAt"@,
        "title"@ != "updatedAt"@,
        "title"@ != "sessionIds"@,
        "title"@ != "progress"@,
        "title"@ != "metadata"@,
        "title"@ != "steps"@,
        "description"@ != "status"@,
        "description"@ != "createdAt"@,
        "description"@ != "updatedAt"@,
        "description"@ != "sessionIds"@,
        "description"@ != "progress"@,
        "description"@ != "metadata"@,
        "description"@ != "steps"@,
        "status"@ != "createdAt"@,
        "status"@ != "updatedAt"@,
        "status"@ != "sessionIds"@,
        "status"@ != "progress"@,
        "status"@ != "metadata"@,
        "status"@ != "steps"@,
        "createdAt"@ != "updatedAt"@,
        "createdAt"@ != "sessionIds"@,
        "createdAt"@ != "progress"@,
        "createdAt"@ != "metadata"@,
        "createdAt"@ != "steps"@,
        "updatedAt"@ != "sessionIds"@,
        "updatedAt"@ != "progress"@,
        "updatedAt"@ != "metadata"@,
        "updatedAt"@ != "steps"@,
        "sessionIds"@ != "progress"@,
        "sessionIds"@ != "metadata"@,
        "sessionIds"@ != "steps"@,
        "progress"@ != "metadata"@,
        "progress"@ != "steps"@,
        "metadata"@ != "steps"@,
{
    reveal_strlit("id");
    reveal_strlit("title");
    reveal_strlit("description");
    reveal_strlit("status");
    reveal_strlit("createdAt");
    reveal_strlit("updatedAt");
    reveal_strlit("sessionIds");
    reveal_strlit("progress");
    reveal_strlit("metadata");
    reveal_strlit("steps");
    assert("id"@.len() != "title"@.len());
    assert("id"@.len() != "description"@.len());
    assert("id"@.len() != "status"@.len());
    assert("id"@.len() != "createdAt"@.len());
    assert("id"@.len() != "updatedAt"@.len());
    assert("id"@.len() != "sessionIds"@.len());
    assert("id"@.len() != "progress"@.len());
    assert("id"@.len() != "metadata"@.len());
    assert("id"@.len() != "steps"@.len());
    assert("title"@.len() != "description"@.len());
    assert("title"@.len() != "status"@.len());
    assert("title"@.len() != "createdAt"@.len());
    assert("title"@.len() != "updatedAt"@.len());
    assert("title"@.len() != "sessionIds"@.len());
    assert("title"@.len() != "progress"@.len());
    assert("title"@.len() != "metadata"@.len());
    assert("title"@[0] != "steps"@[0]);
    assert("description"@.len() != "status"@.len());
    assert("description"@.len() != "createdAt"@.len());
    assert("description"@.len() != "updatedAt"@.len());
    assert("description"@.len() != "sessionIds"@.len());
    assert("description"@.len() != "progress"@.len());
    assert("description"@.len() != "metadata"@.len());
    assert("description"@.len() != "steps"@.len());
    assert("status"@.len() != "createdAt"@.len());
    assert("status"@.len() != "updatedAt"@.len());
    assert("status"@.len() != "sessionIds"@.len());
    assert("status"@.len() != "progress"@.len());
    assert("status"@.len() != "metadata"@.len());
    assert("status"@.len() != "steps"@.len());
    assert("createdAt"@[0] != "updatedAt"@[0]);
    assert("createdAt"@.len() != "sessionIds"@.len());
    assert("createdAt"@.len() != "progress"@.len());
    assert("createdAt"@.len() != "metadata"@.len());
    assert("createdAt"@.len() != "steps"@.len());
    assert("updatedAt"@.len() != "sessionIds"@.len());
    assert("updatedAt"@.len() != "progress"@.len());
    assert("updatedAt"@.len() != "metadata"@.len());
    assert("updatedAt"@.len() != "steps"@.len());
    assert("sessionIds"@.len() != "progress"@.len());
    assert("sessionIds"@.len() != "metadata"@.len());
    assert("sessionIds"@.len() != "steps"@.len());
    assert("progress"@[0] != "metadata"@[0]);
    assert("progress"@.len() != "steps"@.len());
    assert("metadata"@.len() != "steps"@.len());
}

/// The keys of its metadata differ.
proof fn lemma_metadata_keys()
    ensures
        "threadId"@ != "tokensUsed"@,
        "threadId"@ != "timeUsedSeconds"@,
        "threadId"@ != "tokenBudget"@,
        "threadId"@ != "statusReason"@,
        "threadId"@ != "cancellationReason"@,
        "tokensUsed"@ != "timeUsedSeconds"@,
        "tokensUsed"@ != "tokenBudget"@,
        "tokensUsed"@ != "statusReason"@,
        "tokensUsed"@ != "cancellationReason"@,
        "timeUsedSeconds"@ != "tokenBudget"@,
        "timeUsedSeconds"@ != "statusReason"@,
        "timeUsedSeconds"@ != "cancellationReason"@,
        "tokenBudget"@ != "statusReason"@,
        "tokenBudget"@ != "cancellationReason"@,
        "statusReason"@ != "cancellationReason"@,
{
    reveal_strlit("threadId");
    reveal_strlit("tokensUsed");
    reveal_strlit("timeUsedSeconds");
    reveal_strlit("tokenBudget");
    reveal_strlit("statusReason");
    reveal_strlit("cancellationReason");
    assert("threadId"@.len() != "tokensUsed"@.len());
    assert("threadId"@.len() != "timeUsedSeconds"@.len());
    assert("threadId"@.len() != "tokenBudget"@.len());
    assert("threadId"@.len() != "statusReason"@.len());
    assert("threadId"@.len() != "cancellationReason"@.len());
    assert("tokensUsed"@.len() != "timeUsedSeconds"@.len());
    assert("tokensUsed"@.len() != "tokenBudget"@.len());
    assert("tokensUsed"@.len() != "statusReason"@.len());
    assert("tokensUsed"@.len() != "cancellationReason"@.len());
    assert("timeUsedSeconds"@.len() != "tokenBudget"@.len());
    assert("timeUsedSeconds"@.len() != "statusReason"@.len());
    assert("timeUsedSeconds"@.len() != "cancellationReason"@.len());
    assert("tokenBudget"@.len() != "statusReason"@.len());
    assert("tokenBudget"@.len() != "cancellationReason"@.len());
    assert("statusReason"@.len() != "cancellationReason"@.len());
}

/// The keys of a neutral snapshot differ.
proof fn lemma_snapshot_keys()
    ensures
        "objective"@ != "status"@,
        "objective"@ != "iterationCount"@,
        "objective"@ != "objectiveRevision"@,
        "objective"@ != "createdAt"@,
        "objective"@ != "updatedAt"@,
        "objective"@ != "tokenBudget"@,
        "objective"@ != "tokensUsed"@,
        "objective"@ != "timeUsedSeconds"@,
        "objective"@ != "controlMethod"@,
        "objective"@ != "statusReason"@,
        "status"@ != "iterationCount"@,
        "status"@ != "objectiveRevision"@,
        "status"@ != "createdAt"@,
        "status"@ != "updatedAt"@,
        "status"@ != "tokenBudget"@,
        "status"@ != "tokensUsed"@,
        "status"@ != "timeUsedSeconds"@,
        "status"@ != "controlMethod"@,
        "status"@ != "statusReason"@,
        "iterationCount"@ != "objectiveRevision"@,
        "iterationCount"@ != "createdAt"@,
        "iterationCount"@ != "updatedAt"@,
        "iterationCount"@ != "tokenBudget"@,
        "iterationCount"@ != "tokensUsed"@,
        "iterationCount"@ != "timeUsedSeconds"@,
        "iterationCount"@ != "controlMethod"@,
        "iterationCount"@ != "statusReason"@,
        "objectiveRevision"@ != "createdAt"@,
        "objectiveRevision"@ != "updatedAt"@,
        "objectiveRevision"@ != "tokenBudget"@,
        "objectiveRevision"@ != "tokensUsed"@,
        "objectiveRevision"@ != "timeUsedSeconds"@,
        "objectiveRevision"@ != "controlMethod"@,
        "objectiveRevision"@ != "statusReason"@,
        "createdAt"@ != "updatedAt"@,
        "createdAt"@ != "tokenBudget"@,
        "createdAt"@ != "tokensUsed"@,
        "createdAt"@ != "timeUsedSeconds"@,
        "createdAt"@ != "controlMethod"@,
        "createdAt"@ != "statusReason"@,
        "updatedAt"@ != "tokenBudget"@,
        "updatedAt"@ != "tokensUsed"@,
        "updatedAt"@ != "timeUsedSeconds"@,
        "updatedAt"@ != "controlMethod"@,
        "updatedAt"@ != "statusReason"@,
        "tokenBudget"@ != "tokensUsed"@,
        "tokenBudget"@ != "timeUsedSeconds"@,
        "tokenBudget"@ != "controlMethod"@,
        "tokenBudget"@ != "statusReason"@,
        "tokensUsed"@ != "timeUsedSeconds"@,
        "tokensUsed"@ != "controlMethod"@,
        "tokensUsed"@ != "statusReason"@,
        "timeUsedSeconds"@ != "controlMethod"@,
        "timeUsedSeconds"@ != "statusReason"@,
        "controlMethod"@ != "statusReason"@,
{
    reveal_strlit("objective");
    reveal_strlit("status");
    reveal_strlit("iterationCount");
    reveal_strlit("objectiveRevision");
    reveal_strlit("createdAt");
    reveal_strlit("updatedAt");
    reveal_strlit("tokenBudget");
    reveal_strlit("tokensUsed");
    reveal_strlit("timeUsedSeconds");
    reveal_strlit("controlMethod");
    reveal_strlit("statusReason");
    assert("objective"@.len() != "status"@.len());
    assert("objective"@.len() != "iterationCount"@.len());
    assert("objective"@.len() != "objectiveRevision"@.len());
    assert("objective"@[0] != "createdAt"@[0]);
    assert("objective"@[0] != "updatedAt"@[0]);
    assert("objective"@.len() != "tokenBudget"@.len());
    assert("objective"@.len() != "tokensUsed"@.len());
    assert("objective"@.len() != "timeUsedSeconds"@.len());
    assert("objective"@.len() != "controlMethod"@.len());
    assert("objective"@.len() != "statusReason"@.len());
    assert("status"@.len() != "iterationCount"@.len());
    assert("status"@.len() != "objectiveRevision"@.len());
    assert("status"@.len() != "createdAt"@.len());
    assert("status"@.len() != "updatedAt"@.len());
    assert("status"@.len() != "tokenBudget"@.len());
    assert("status"@.len() != "tokensUsed"@.len());
    assert("status"@.len() != "timeUsedSeconds"@.len());
    assert("status"@.len() != "controlMethod"@.len());
    assert("status"@.len() != "statusReason"@.len());
    assert("iterationCount"@.len() != "objectiveRevision"@.len());
    assert("iterationCount"@.len() != "createdAt"@.len());
    assert("iterationCount"@.len() != "updatedAt"@.len());
    assert("iterationCount"@.len() != "tokenBudget"@.len());
    assert("iterationCount"@.len() != "tokensUsed"@.len());
    assert("iterationCount"@.len() != "timeUsedSeconds"@.len());
    assert("iterationCount"@.len() != "controlMethod"@.len());
    assert("iterationCount"@.len() != "statusReason"@.len());
    assert("objectiveRevision"@.len() != "createdAt"@.len());
    assert("objectiveRevision"@.len() != "updatedAt"@.len());
    assert("objectiveRevision"@.len() != "tokenBudget"@.len());
    assert("objectiveRevision"@.len() != "tokensUsed"@.len());
    assert("objectiveRevision"@.len() != "timeUsedSeconds"@.len());
    assert("objectiveRevision"@.len() != "controlMethod"@.len());
    assert("objectiveRevision"@.len() != "statusReason"@.len());
    assert("createdAt"@[0] != "updatedAt"@[0]);
    assert("createdAt"@.len() != "tokenBudget"@.len());
    assert("createdAt"@.len() != "tokensUsed"@.len());
    assert("createdAt"@.len() != "timeUsedSeconds"@.len());
    assert("createdAt"@.len() != "controlMethod"@.len());
    assert("createdAt"@.len() != "statusReason"@.len());
    assert("updatedAt"@.len() != "tokenBudget"@.len());
    assert("updatedAt"@.len() != "tokensUsed"@.len());
    assert("updatedAt"@.len() != "timeUsedSeconds"@.len());
    assert("updatedAt"@.len() != "controlMethod"@.len());
    assert("updatedAt"@.len() != "statusReason"@.len());
    assert("tokenBudget"@.len() != "tokensUsed"@.len());
    assert("tokenBudget"@.len() != "timeUsedSeconds"@.len());
    assert("tokenBudget"@.len() != "controlMethod"@.len());
    assert("tokenBudget"@.len() != "statusReason"@.len());
    assert("tokensUsed"@.len() != "timeUsedSeconds"@.len());
    assert("tokensUsed"@.len() != "controlMethod"@.len());
    assert("tokensUsed"@.len() != "statusReason"@.len());
    assert("timeUsedSeconds"@.len() != "controlMethod"@.len());
    assert("timeUsedSeconds"@.len() != "statusReason"@.len());
    assert("controlMethod"@.len() != "statusReason"@.len());
}

/// What clients read of a goal in the older shape, key by key.
pub proof fn law_wire_goal_by_key(
    g: GoalView,
    cancelled: Option<Seq<char>>,
    now: Seq<char>,
    with_steps: bool,
)
    ensures
        ({
            let w = wire_json(g, cancelled, now, with_steps);
            &&& w.field("id"@) == Some(JsonView::Str(g.goal_id))
            &&& w.field("title"@) == Some(JsonView::Str(title_of(g.objective)))
            &&& w.field("description"@) == Some(JsonView::Str(text::trimmed(g.objective)))
            &&& w.field("createdAt"@) == Some(JsonView::Str(iso(g.created_at_ms, now)))
            &&& w.field("updatedAt"@) == Some(JsonView::Str(iso(g.updated_at_ms, now)))
            &&& w.field("sessionIds"@) == Some(JsonView::Arr(seq![JsonView::Str(g.thread_id)]))
            &&& w.field("progress"@) == Some(JsonView::Null)
            &&& w.field("metadata"@) == Some(wire_metadata(g, cancelled))
            &&& with_steps ==> w.field("steps"@) == Some(JsonView::Arr(Seq::empty()))
            &&& !with_steps ==> w.field("steps"@) is None
            &&& g.status is Active ==> w.field("status"@) == Some(JsonView::Str("active"@))
            &&& g.status is Paused || g.status is UsageLimited ==> w.field("status"@) == Some(
                JsonView::Str("paused"@),
            )
            &&& g.status is Blocked || g.status is BudgetLimited ==> w.field("status"@) == Some(
                JsonView::Str("failed"@),
            )
            &&& g.status is Complete ==> w.field("status"@) == Some(JsonView::Str("completed"@))
        }),
{
    lemma_wire_keys();
    let f = wire_json(g, cancelled, now, with_steps)->Obj_0;
    assert(f[0].key == "id"@ && f[1].key == "title"@ && f[2].key == "description"@ && f[3].key
        == "status"@ && f[4].key == "createdAt"@ && f[5].key == "updatedAt"@ && f[6].key
        == "sessionIds"@ && f[7].key == "progress"@ && f[8].key == "metadata"@);
    lemma_value_at(f, 0, "id"@);
    lemma_value_at(f, 1, "title"@);
    lemma_value_at(f, 2, "description"@);
    lemma_value_at(f, 3, "status"@);
    lemma_value_at(f, 4, "createdAt"@);
    lemma_value_at(f, 5, "updatedAt"@);
    lemma_value_at(f, 6, "sessionIds"@);
    lemma_value_at(f, 7, "progress"@);
    lemma_value_at(f, 8, "metadata"@);
    if with_steps {
        lemma_value_at(f, 9, "steps"@);
    } else {
        lemma_no_key(f, "steps"@);
    }
}

/// What the metadata of a wire goal tells: thread, tokens and time always, and budget,
/// reason and the reason of a cancellation exactly where there is one.
pub proof fn law_wire_metadata_by_key(g: GoalView, cancelled: Option<Seq<char>>)
    ensures
        ({
            let m = wire_metadata(g, cancelled);
            &&& m.field("threadId"@) == Some(JsonView::Str(g.thread_id))
            &&& m.field("tokensUsed"@) == Some(JsonView::Int(g.tokens_used as int))
            &&& m.field("timeUsedSeconds"@) == Some(JsonView::Int(g.time_used_seconds as int))
            &&& g.token_budget matches Some(b) ==> m.field("tokenBudget"@) == Some(
                JsonView::Int(b as int),
            )
            &&& g.token_budget is None ==> m.field("tokenBudget"@) is None
            &&& g.status_reason matches Some(r) ==> m.field("statusReason"@) == Some(JsonView::Str(r))
            &&& g.status_reason is None ==> m.field("statusReason"@) is None
            &&& cancelled matches Some(r) ==> m.field("cancellationReason"@) == Some(JsonView::Str(r))
            &&& cancelled is None ==> m.field("cancellationReason"@) is None
        }),
{
    lemma_metadata_keys();
    let f = wire_metadata(g, cancelled)->Obj_0;
    assert(f[0].key == "threadId"@ && f[1].key == "tokensUsed"@ && f[2].key == "timeUsedSeconds"@);
    lemma_value_at(f, 0, "threadId"@);
    lemma_value_at(f, 1, "tokensUsed"@);
    lemma_value_at(f, 2, "timeUsedSeconds"@);
    let b: int = if g.token_budget is Some { 4 } else { 3 };
    let r: int = if g.status_reason is Some { b + 1 } else { b };
    if g.token_budget is Some {
        assert(f[3].key == "tokenBudget"@);
        lemma_value_at(f, 3, "tokenBudget"@);
    } else {
        lemma_no_key(f, "tokenBudget"@);
    }
    if g.status_reason is Some {
        assert(f[b].key == "statusReason"@);
        lemma_value_at(f, b, "statusReason"@);
    } else {
        lemma_no_key(f, "statusReason"@);
    }
    if cancelled is Some {
        assert(f[r].key == "cancellationReason"@);
        lemma_value_at(f, r, "cancellationReason"@);
    } else {
        lemma_no_key(f, "cancellationReason"@);
    }
}

/// What clients read of a goal in the neutral shape, key by key.
pub proof fn law_snapshot_by_key(g: GoalView)
    ensures
        ({
            let s = snapshot_json(g);
            &&& s.field("objective"@) == Some(JsonView::Str(g.objective))
            &&& s.field("iterationCount"@) == Some(JsonView::Int(g.iteration_count as int))
            &&& s.field("objectiveRevision"@) == Some(JsonView::Int(g.objective_revision as int))
            &&& s.field("createdAt"@) == Some(JsonView::Int(g.created_at_ms as int))
            &&& s.field("updatedAt"@) == Some(JsonView::Int(g.updated_at_ms as int))
            &&& g.token_budget matches Some(b) ==> s.field("tokenBudget"@) == Some(
                JsonView::Int(b as int),
            )
            &&& g.token_budget is None ==> s.field("tokenBudget"@) == Some(JsonView::Null)
            &&& s.field("tokensUsed"@) == Some(JsonView::Int(g.tokens_used as int))
            &&& s.field("timeUsedSeconds"@) == Some(JsonView::Int(g.time_used_seconds as int))
            &&& s.field("controlMethod"@) == Some(JsonView::Str("_session/goal"@))
            &&& g.status_reason matches Some(r) ==> s.field("statusReason"@) == Some(JsonView::Str(r))
            &&& g.status_reason is None ==> s.field("statusReason"@) is None
            &&& g.status is Active ==> s.field("status"@) == Some(JsonView::Str("active"@))
            &&& g.status is Paused ==> s.field("status"@) == Some(JsonView::Str("paused"@))
            &&& g.status is Blocked ==> s.field("status"@) == Some(JsonView::Str("blocked"@))
            &&& g.status is UsageLimited || g.status is BudgetLimited ==> s.field("status"@) == Some(
                JsonView::Str("limited"@),
            )
            &&& g.status is Complete ==> s.field("status"@) == Some(JsonView::Str("complete"@))
        }),
{
    lemma_snapshot_keys();
    let f = snapshot_json(g)->Obj_0;
    assert(f[0].key == "objective"@ && f[1].key == "status"@ && f[2].key == "iterationCount"@ && f[3].key == "objectiveRevision"@ && f[4].key == "createdAt"@ && f[5].key == "updatedAt"@ && f[6].key == "tokenBudget"@ && f[7].key == "tokensUsed"@ && f[8].key == "timeUsedSeconds"@ && f[9].key == "controlMethod"@);
    lemma_value_at(f, 0, "objective"@);
    lemma_value_at(f, 1, "status"@);
    lemma_value_at(f, 2, "iterationCount"@);
    lemma_value_at(f, 3, "objectiveRevision"@);
    lemma_value_at(f, 4, "createdAt"@);
    lemma_value_at(f, 5, "updatedAt"@);
    lemma_value_at(f, 6, "tokenBudget"@);
    lemma_value_at(f, 7, "tokensUsed"@);
    lemma_value_at(f, 8, "timeUsedSeconds"@);
    lemma_value_at(f, 9, "controlMethod"@);
    if g.status_reason is Some {
        assert(f[10].key == "statusReason"@);
        lemma_value_at(f, 10, "statusReason"@);
    } else {
        lemma_no_key(f, "statusReason"@);
    }
}

/// Without a goal there is no snapshot to read.
pub proof fn law_no_goal_no_snapshot(g: GoalView)
    ensures
        opt_snapshot(None) == JsonView::Null,
        opt_snapshot(Some(g)) == snapshot_json(g),
{
}

/// The first line of a text ends at its first line break, which is not part of it,
/// whether it is one character or two; a text without one is a line.
pub proof fn law_first_line(line: Seq<char>, rest: Seq<char>)
    requires
        !line.contains('\n'),
        line.len() > 0 ==> line.last() != '\r',
    ensures
        first_line(line) == line,
        first_line(line + seq!['\n'] + rest) == line,
        first_line(line + seq!['\r', '\n'] + rest) == line,
{
    let none = Seq::<char>::empty();
    text::law_part_ends_at_separator(line, none, '\n');
    assert(line + none =~= line);
    text::law_part_ends_at_separator(line, seq!['\n'] + rest, '\n');
    assert(line + (seq!['\n'] + rest) =~= line + seq!['\n'] + rest);
    assert((line + seq!['\n'] + rest).take(line.len() as int) =~= line);
    let wide = line.push('\r');
    assert(!wide.contains('\n')) by {
        assert forall|i: int| 0 <= i < wide.len() implies wide[i] != '\n' by {
            if i < line.len() {
                assert(wide[i] == line[i]);
            }
        }
    }
    text::law_part_ends_at_separator(wide, seq!['\n'] + rest, '\n');
    assert(wide + (seq!['\n'] + rest) =~= line + seq!['\r', '\n'] + rest);
    assert((line + seq!['\r', '\n'] + rest).take(wide.len() as int) =~= wide);
    assert(wide.drop_last() =~= line);
}

/// The title is the first line of the objective, and of that the first 80 characters.
pub proof fn law_title_is_the_first_line(objective: Seq<char>)
    ensures
        ({
            let line = first_line(text::trimmed(objective));
            &&& line.len() <= 80 ==> title_of(objective) == line
            &&& line.len() > 80 ==> title_of(objective) == line.take(80)
        }),
{
}

/// A filter whose name means nothing lets every goal through.
pub proof fn law_unknown_filter_lets_all_through(old: Seq<char>, s: types::GoalStatus)
    requires
        forall|w: GoalStatus| text::lowered(text::trimmed(old)) != #[trigger] wire_status_text(w),
    ensures
        filtered(old).contains(s),
{
    assert(text::lowered(text::trimmed(old)) != wire_status_text(GoalStatus::Pending));
    assert(text::lowered(text::trimmed(old)) != wire_status_text(GoalStatus::Active));
    assert(text::lowered(text::trimmed(old)) != wire_status_text(GoalStatus::Paused));
    assert(text::lowered(text::trimmed(old)) != wire_status_text(GoalStatus::Completed));
    assert(text::lowered(text::trimmed(old)) != wire_status_text(GoalStatus::Cancelled));
    assert(text::lowered(text::trimmed(old)) != wire_status_text(GoalStatus::Failed));
    let f = filtered(old);
    assert(f[0] == types::GoalStatus::Active && f[1] == types::GoalStatus::Paused && f[2]
        == types::GoalStatus::Blocked && f[3] == types::GoalStatus::UsageLimited && f[4]
        == types::GoalStatus::BudgetLimited && f[5] == types::GoalStatus::Complete);
}

/// A text that is required is given without the white space around it; one that is
/// missing, blank or no text is refused. A text that may be missing is simply not there.
pub proof fn law_texts_in_requests(params: JsonView, key: Seq<char>, s: Seq<char>)
    ensures
        params.field(key) == Some(JsonView::Str(s)) && text::trimmed(s).len() > 0 ==> required_text(
            params,
            key,
        ) == Ok::<Seq<char>, ExtErrorView>(text::trimmed(s)) && optional_text(params, key) == Some(
            text::trimmed(s),
        ),
        params.field(key) == Some(JsonView::Str(s)) && text::trimmed(s).len() == 0 ==> required_text(
            params,
            key,
        ) is Err && optional_text(params, key) is None,
        params.field(key) is None ==> required_text(params, key) == Err::<Seq<char>, ExtErrorView>(
            invalid_params_view("missing required parameter: "@ + key),
        ) && optional_text(params, key) is None,
        !(params.field(key) matches Some(JsonView::Str(_))) ==> required_text(params, key) is Err
            && optional_text(params, key) is None,
        required_text(params, key) matches Err(e) ==> e.code == -32602,
{
}

/// The codes by which clients tell errors apart.
pub proof fn law_error_codes(m: Seq<char>, t: Seq<char>, op: Seq<char>, status: types::GoalStatus)
    ensures
        invalid_params_view(m).code == -32602 && invalid_params_view(m).data == Some(m),
        not_found_view(m).code == -32003 && not_found_view(m).data == Some(m),
        forbidden_view(m).code == -32002 && forbidden_view(m).data == Some(m),
        method_not_found_view().code == -32601,
        internal_view(m).code == -32603 && internal_view(m).data == Some(m),
        mapped_error(op, ServiceErrorView::NoGoal(t)).code == -32003,
        mapped_error(op, ServiceErrorView::NotResumable { status }).code == -32602,
        mapped_error(
            op,
            ServiceErrorView::Store(StoreErrorView::NotFoundOrDisallowed(t)),
        ).code == -32602,
        mapped_error(op, ServiceErrorView::LockTimeout).code == -32603,
        mapped_error(op, ServiceErrorView::Store(StoreErrorView::LockTimeout)).code == -32603,
        mapped_error(op, ServiceErrorView::Store(StoreErrorView::Sqlx(m))).code == -32603,
{
}

/// A cursor holds the offset that it was made for in its own generation, and nothing in
/// any other.
pub proof fn law_cursor_holds_in_its_generation(g: u64, o: u64, generation: u64)
    ensures
        o <= usize::MAX && g == generation ==> offset_in(Some((g, o)), generation) == Some(o),
        g != generation ==> offset_in(Some((g, o)), generation) is None,
        offset_in(None, generation) is None,
{
}

/// The keys of a notification differ.
proof fn lemma_notification_keys()
    ensures
        "id"@ != "change"@,
        "id"@ != "status"@,
        "change"@ != "status"@,
{
    reveal_strlit("id");
    reveal_strlit("change");
    reveal_strlit("status");
    assert("id"@.len() != "change"@.len());
    assert("id"@.len() != "status"@.len());
    assert("change"@[0] != "status"@[0]);
}

/// What clients are told of a change, key by key.
pub proof fn law_notification_by_key(id: Seq<char>, change: GoalChangeType, status: GoalStatus)
    ensures
        ({
            let n = notification_json(id, change, status);
            &&& n.field("id"@) == Some(JsonView::Str(id))
            &&& change is Started ==> n.field("change"@) == Some(JsonView::Str("started"@))
            &&& change is Paused ==> n.field("change"@) == Some(JsonView::Str("paused"@))
            &&& change is Resumed ==> n.field("change"@) == Some(JsonView::Str("resumed"@))
            &&& change is Cancelled ==> n.field("change"@) == Some(JsonView::Str("cancelled"@))
            &&& status is Active ==> n.field("status"@) == Some(JsonView::Str("active"@))
            &&& status is Paused ==> n.field("status"@) == Some(JsonView::Str("paused"@))
            &&& status is Completed ==> n.field("status"@) == Some(JsonView::Str("completed"@))
            &&& status is Cancelled ==> n.field("status"@) == Some(JsonView::Str("cancelled"@))
            &&& status is Failed ==> n.field("status"@) == Some(JsonView::Str("failed"@))
        }),
{
    lemma_notification_keys();
    let f = notification_json(id, change, status)->Obj_0;
    assert(f[0].key == "id"@ && f[1].key == "change"@ && f[2].key == "status"@);
    lemma_value_at(f, 0, "id"@);
    lemma_value_at(f, 1, "change"@);
    lemma_value_at(f, 2, "status"@);
}

} // verus!
