//! A task that works on a goal by itself, turn after turn.
//!
//! The host does what is asked of it and reports what happened; the run decides
//! what comes next. It ends when the task is completed, when it is cancelled,
//! when something fails, or after a fixed number of turns.

use crate::extension::GoalStatus;
use crate::goal_meta;
use crate::goal_meta::{
    EntryView, GoalLifecycle, GoalMeta, GoalOutcome, HistoryEntry, MetaView, OutcomeView, TaskStatus,
};
use crate::text;
use vstd::prelude::*;
use vstd::string::*;

verus! {

/// How many turns a goal gets.
pub const MAX_ITERATIONS: u32 = 100;

/// Why a goal stops that has had all its turns.
pub const OUT_OF_TURNS: &'static str = "max iterations (100) reached";

/// Why a goal stops that was cancelled for good.
pub const CANCELLED: &'static str = "cancelled by user";

/// Why a goal stops that was interrupted.
pub const ABORTED: &'static str = "aborted by user";

/// Why a run could not go on.
#[derive(Debug, PartialEq, Eq)]
pub enum GoalRunError {
    Init(String),
    Unavailable(String),
}

/// The mathematical value of a [`GoalRunError`].
pub enum RunErrorView {
    Init(Seq<char>),
    Unavailable(Seq<char>),
}

impl View for GoalRunError {
    type V = RunErrorView;

    open spec fn view(&self) -> RunErrorView {
        match self {
            GoalRunError::Init(s) => RunErrorView::Init(s@),
            GoalRunError::Unavailable(s) => RunErrorView::Unavailable(s@),
        }
    }
}

/// The text of an error.
pub open spec fn error_text(e: RunErrorView) -> Seq<char> {
    match e {
        RunErrorView::Init(s) => "goal init error: "@ + s,
        RunErrorView::Unavailable(s) => "goal runner unavailable: "@ + s,
    }
}

impl GoalRunError {
    /// The text of the error.
    pub fn message(&self) -> (r: String)
        ensures
            r@ == error_text(self@),
    {
        match self {
            GoalRunError::Init(s) => {
                let mut r: String = "goal init error: ".to_owned();
                r.append(s.as_str());
                r
            },
            GoalRunError::Unavailable(s) => {
                let mut r: String = "goal runner unavailable: ".to_owned();
                r.append(s.as_str());
                r
            },
        }
    }
}

/// How a run ended.
#[derive(Debug, PartialEq, Eq)]
pub struct GoalResult {
    pub task_id: String,
    pub outcome: GoalOutcome,
}

/// The mathematical value of a [`GoalResult`].
pub struct ResultView {
    pub task_id: Seq<char>,
    pub outcome: OutcomeView,
}

impl View for GoalResult {
    type V = ResultView;

    open spec fn view(&self) -> ResultView {
        ResultView { task_id: self.task_id@, outcome: self.outcome@ }
    }
}

/// The value of how a run ended, or why it could not go on.
pub open spec fn end_view(r: Result<GoalResult, GoalRunError>) -> Result<ResultView, RunErrorView> {
    match r {
        Ok(g) => Ok(g@),
        Err(e) => Err(e@),
    }
}

/// What a run is asked to do. A run on an existing task goes on with what the
/// task remembers.
#[derive(Debug)]
pub struct RunRequest {
    pub existing_task_id: Option<String>,
    /// The shown goal of the task, if there is one.
    pub existing_goal_id: Option<String>,
    pub objective: String,
    pub model: Option<String>,
    pub effort: Option<String>,
    pub session_id: Option<String>,
    /// Whether the task may be in progress already, because the process that
    /// worked on it is gone.
    pub allow_in_progress: bool,
    /// Whether the task goes back to pending if the run fails.
    pub recovering: bool,
    /// What a task remembers that has nothing to remember.
    pub blank: GoalMeta,
    /// How many turns a task remembers.
    pub history_limit: usize,
}

/// The mathematical value of a [`RunRequest`].
pub struct RequestView {
    pub existing_task_id: Option<Seq<char>>,
    pub existing_goal_id: Option<Seq<char>>,
    pub objective: Seq<char>,
    pub model: Option<Seq<char>>,
    pub effort: Option<Seq<char>>,
    pub session_id: Option<Seq<char>>,
    pub allow_in_progress: bool,
    pub recovering: bool,
    pub blank: MetaView,
    pub history_limit: nat,
}

impl View for RunRequest {
    type V = RequestView;

    open spec fn view(&self) -> RequestView {
        RequestView {
            existing_task_id: text::opt_text(self.existing_task_id),
            existing_goal_id: text::opt_text(self.existing_goal_id),
            objective: self.objective@,
            model: text::opt_text(self.model),
            effort: text::opt_text(self.effort),
            session_id: text::opt_text(self.session_id),
            allow_in_progress: self.allow_in_progress,
            recovering: self.recovering,
            blank: self.blank@,
            history_limit: self.history_limit as nat,
        }
    }
}

/// What a run waits for.
#[derive(Debug, Clone, Copy, PartialEq, Eq, Structural)]
pub enum Stage {
    /// The database to be there.
    Opening,
    /// The existing task to be claimed.
    Claiming,
    /// Whether the existing task is in progress already.
    Checking,
    /// The existing task to be read.
    Reading,
    /// The new task to be made.
    Creating,
    /// The tools of the turns to be set up.
    Configuring,
    /// What the existing task remembers.
    Recalling,
    /// The goal to be shown to clients.
    Materializing,
    /// Whether anybody stopped the run.
    Polling,
    /// The turn to end.
    Running,
    /// How the task stands after the turn.
    Looking,
    /// Nothing: the run is over.
    Done,
}

/// What the host reports.
#[derive(Debug)]
pub enum RunEvent {
    DbReady,
    DirFailed(String),
    OpenFailed(String),
    /// Whether the task went from pending to in progress.
    Claimed(bool),
    ClaimFailed(String),
    Created(String),
    CreateFailed(String),
    Shown(TaskStatus),
    ShowFailed(String),
    ConfigWritten,
    ConfigFailed(String),
    Recalled(Option<GoalMeta>),
    RecallFailed(String),
    DecodeFailed(String),
    Materialized(String),
    MaterializeFailed(String),
    /// Whether the run was interrupted, and whether for good.
    Polled { cancelled: bool, terminal: bool, timestamp: String },
    /// Tokens that the turn has used.
    Usage { input: u32, output: u32 },
    TurnFinished,
    TurnCancelled { terminal: bool },
    TurnFailed(String),
}

/// The mathematical value of a [`RunEvent`].
pub enum EventView {
    DbReady,
    DirFailed(Seq<char>),
    OpenFailed(Seq<char>),
    Claimed(bool),
    ClaimFailed(Seq<char>),
    Created(Seq<char>),
    CreateFailed(Seq<char>),
    Shown(TaskStatus),
    ShowFailed(Seq<char>),
    ConfigWritten,
    ConfigFailed(Seq<char>),
    Recalled(Option<MetaView>),
    RecallFailed(Seq<char>),
    DecodeFailed(Seq<char>),
    Materialized(Seq<char>),
    MaterializeFailed(Seq<char>),
    Polled { cancelled: bool, terminal: bool, timestamp: Seq<char> },
    Usage { input: u32, output: u32 },
    TurnFinished,
    TurnCancelled { terminal: bool },
    TurnFailed(Seq<char>),
}

/// The value of what a task remembers, if anything.
pub open spec fn opt_meta(m: Option<GoalMeta>) -> Option<MetaView> {
    match m {
        Some(m) => Some(m@),
        None => None,
    }
}

impl View for RunEvent {
    type V = EventView;

    open spec fn view(&self) -> EventView {
        match self {
            RunEvent::DbReady => EventView::DbReady,
            RunEvent::DirFailed(s) => EventView::DirFailed(s@),
            RunEvent::OpenFailed(s) => EventView::OpenFailed(s@),
            RunEvent::Claimed(b) => EventView::Claimed(*b),
            RunEvent::ClaimFailed(s) => EventView::ClaimFailed(s@),
            RunEvent::Created(s) => EventView::Created(s@),
            RunEvent::CreateFailed(s) => EventView::CreateFailed(s@),
            RunEvent::Shown(t) => EventView::Shown(*t),
            RunEvent::ShowFailed(s) => EventView::ShowFailed(s@),
            RunEvent::ConfigWritten => EventView::ConfigWritten,
            RunEvent::ConfigFailed(s) => EventView::ConfigFailed(s@),
            RunEvent::Recalled(m) => EventView::Recalled(opt_meta(*m)),
            RunEvent::RecallFailed(s) => EventView::RecallFailed(s@),
            RunEvent::DecodeFailed(s) => EventView::DecodeFailed(s@),
            RunEvent::Materialized(s) => EventView::Materialized(s@),
            RunEvent::MaterializeFailed(s) => EventView::MaterializeFailed(s@),
            RunEvent::Polled { cancelled, terminal, timestamp } => EventView::Polled {
                cancelled: *cancelled,
                terminal: *terminal,
                timestamp: timestamp@,
            },
            RunEvent::Usage { input, output } => EventView::Usage {
                input: *input,
                output: *output,
            },
            RunEvent::TurnFinished => EventView::TurnFinished,
            RunEvent::TurnCancelled { terminal } => EventView::TurnCancelled {
                terminal: *terminal,
            },
            RunEvent::TurnFailed(s) => EventView::TurnFailed(s@),
        }
    }
}

/// What the host should do.
#[derive(Debug)]
pub enum RunAction {
    /// Make the database's directory and open the database.
    OpenDb,
    /// Move the task from pending to in progress.
    Claim { task_id: String },
    /// Make a task that is in progress, named and described by the objective.
    Create { objective: String },
    /// Read the task.
    Show { task_id: String },
    /// Set up the tools of the turns.
    WriteConfig,
    /// Read what the task remembers of its goal.
    Recall { task_id: String },
    /// Let clients stop the goal from now on, unless they can already.
    Register { goal_id: String },
    /// Show the goal to clients, and let them stop it.
    Materialize {
        objective: String,
        task_id: String,
        session_id: Option<String>,
        model: Option<String>,
        effort: Option<String>,
    },
    /// Find out whether anybody stopped the run.
    Poll,
    /// Let the task remember.
    Save { task_id: String, meta: GoalMeta },
    /// Run a turn.
    RunTurn {
        task_id: String,
        session_id: String,
        iteration: u32,
        history_summary: Option<String>,
        model: Option<String>,
        effort: Option<String>,
    },
    /// Move the task on, if it is in progress.
    Move { task_id: String, to: TaskStatus },
    /// Show clients where the goal stands.
    SetStatus { goal_id: String, status: GoalStatus },
    /// No client can stop the goal any more.
    Unregister { goal_id: String },
    /// The run is over.
    Finish(Result<GoalResult, GoalRunError>),
}

/// The mathematical value of a [`RunAction`].
pub enum ActionView {
    OpenDb,
    Claim { task_id: Seq<char> },
    Create { objective: Seq<char> },
    Show { task_id: Seq<char> },
    WriteConfig,
    Recall { task_id: Seq<char> },
    Register { goal_id: Seq<char> },
    Materialize {
        objective: Seq<char>,
        task_id: Seq<char>,
        session_id: Option<Seq<char>>,
        model: Option<Seq<char>>,
        effort: Option<Seq<char>>,
    },
    Poll,
    Save { task_id: Seq<char>, meta: MetaView },
    RunTurn {
        task_id: Seq<char>,
        session_id: Seq<char>,
        iteration: u32,
        history_summary: Option<Seq<char>>,
        model: Option<Seq<char>>,
        effort: Option<Seq<char>>,
    },
    Move { task_id: Seq<char>, to: TaskStatus },
    SetStatus { goal_id: Seq<char>, status: GoalStatus },
    Unregister { goal_id: Seq<char> },
    Finish(Result<ResultView, RunErrorView>),
}

impl View for RunAction {
    type V = ActionView;

    open spec fn view(&self) -> ActionView {
        match self {
            RunAction::OpenDb => ActionView::OpenDb,
            RunAction::Claim { task_id } => ActionView::Claim { task_id: task_id@ },
            RunAction::Create { objective } => ActionView::Create { objective: objective@ },
            RunAction::Show { task_id } => ActionView::Show { task_id: task_id@ },
            RunAction::WriteConfig => ActionView::WriteConfig,
            RunAction::Recall { task_id } => ActionView::Recall { task_id: task_id@ },
            RunAction::Register { goal_id } => ActionView::Register { goal_id: goal_id@ },
            RunAction::Materialize { objective, task_id, session_id, model, effort } =>
                ActionView::Materialize {
                objective: objective@,
                task_id: task_id@,
                session_id: text::opt_text(*session_id),
                model: text::opt_text(*model),
                effort: text::opt_text(*effort),
            },
            RunAction::Poll => ActionView::Poll,
            RunAction::Save { task_id, meta } => ActionView::Save {
                task_id: task_id@,
                meta: meta@,
            },
            RunAction::RunTurn { task_id, session_id, iteration, history_summary, model, effort } =>
                ActionView::RunTurn {
                task_id: task_id@,
                session_id: session_id@,
                iteration: *iteration,
                history_summary: text::opt_text(*history_summary),
                model: text::opt_text(*model),
                effort: text::opt_text(*effort),
            },
            RunAction::Move { task_id, to } => ActionView::Move { task_id: task_id@, to: *to },
            RunAction::SetStatus { goal_id, status } => ActionView::SetStatus {
                goal_id: goal_id@,
                status: *status,
            },
            RunAction::Unregister { goal_id } => ActionView::Unregister { goal_id: goal_id@ },
            RunAction::Finish(r) => ActionView::Finish(end_view(*r)),
        }
    }
}

/// The values of a list of actions.
pub open spec fn actions(v: Seq<RunAction>) -> Seq<ActionView> {
    v.map_values(|a: RunAction| a@)
}

/// A run.
pub struct GoalRun {
    stage: Stage,
    req: RunRequest,
    task_id: String,
    goal_id: String,
    model: Option<String>,
    effort: Option<String>,
    meta: GoalMeta,
    tokens_used: u32,
    iteration: u32,
}

/// The mathematical value of a [`GoalRun`].
#[verifier::ext_equal]
pub struct RunView {
    pub stage: Stage,
    pub req: RequestView,
    /// The task, once there is one.
    pub task_id: Seq<char>,
    /// The shown goal, once there is one.
    pub goal_id: Seq<char>,
    pub model: Option<Seq<char>>,
    pub effort: Option<Seq<char>>,
    pub meta: MetaView,
    /// How many tokens the goal has used.
    pub tokens_used: u32,
    /// The turn that is about to begin, or that is under way.
    pub iteration: u32,
}

impl View for GoalRun {
    type V = RunView;

    closed spec fn view(&self) -> RunView {
        RunView {
            stage: self.stage,
            req: self.req@,
            task_id: self.task_id@,
            goal_id: self.goal_id@,
            model: text::opt_text(self.model),
            effort: text::opt_text(self.effort),
            meta: self.meta@,
            tokens_used: self.tokens_used,
            iteration: self.iteration,
        }
    }
}

/// A run that has just begun.
pub open spec fn begun(req: RequestView) -> RunView {
    RunView {
        stage: Stage::Opening,
        req,
        task_id: match req.existing_task_id {
            Some(id) => id,
            None => Seq::empty(),
        },
        goal_id: Seq::empty(),
        model: req.model,
        effort: req.effort,
        meta: req.blank,
        tokens_used: 0,
        iteration: 0,
    }
}

/// What an event leads to: the run afterwards and what the host should do.
pub struct Advance {
    pub run: RunView,
    pub actions: Seq<ActionView>,
}

impl RunView {
    /// Whether turns are being run.
    pub open spec fn turning(self) -> bool {
        self.stage == Stage::Polling || self.stage == Stage::Running || self.stage == Stage::Looking
    }

    /// The turns are numbered from one, and there are not too many.
    pub open spec fn wf(self) -> bool {
        self.turning() ==> 1 <= self.iteration <= MAX_ITERATIONS
    }

    /// Whether the run goes on with an existing task.
    pub open spec fn resuming(self) -> bool {
        self.req.existing_task_id is Some
    }

    /// At another stage.
    pub open spec fn at(self, stage: Stage) -> RunView {
        RunView { stage, ..self }
    }

    /// With another memory.
    pub open spec fn remembering(self, lifecycle: GoalLifecycle, reason: Option<Seq<char>>) -> RunView {
        RunView { meta: MetaView { lifecycle, lifecycle_reason: reason, ..self.meta }, ..self }
    }

    /// With the tokens that were used in its memory.
    pub open spec fn booked(self) -> RunView {
        RunView { meta: MetaView { tokens_used: self.tokens_used, ..self.meta }, ..self }
    }
}

/// The run is over, after `before`. A failed recovery puts the task back.
pub open spec fn finished(
    v: RunView,
    before: Seq<ActionView>,
    r: Result<ResultView, RunErrorView>,
) -> Advance {
    Advance {
        run: v.at(Stage::Done),
        actions: if r is Err && v.req.recovering {
            before.push(ActionView::Move { task_id: v.task_id, to: TaskStatus::Pending }).push(
                ActionView::Finish(r),
            )
        } else {
            before.push(ActionView::Finish(r))
        },
    }
}

/// The run is over before it began.
pub open spec fn not_begun(v: RunView, why: Seq<char>) -> Advance {
    finished(v, Seq::empty(), Err(RunErrorView::Init(why)))
}

/// The run is over before its first turn; the task goes to `to`.
pub open spec fn rolled_back(v: RunView, to: TaskStatus, why: Seq<char>) -> Advance {
    finished(
        v,
        seq![ActionView::Move { task_id: v.task_id, to }],
        Err(RunErrorView::Init(why)),
    )
}

/// Where the task goes if the run cannot be set up.
pub open spec fn rollback_status(v: RunView) -> TaskStatus {
    if v.resuming() {
        TaskStatus::Pending
    } else {
        TaskStatus::Cancelled
    }
}

/// What clients see last, after which they cannot stop the goal.
pub open spec fn parting(v: RunView, status: GoalStatus) -> Seq<ActionView> {
    seq![
        ActionView::SetStatus { goal_id: v.goal_id, status },
        ActionView::Unregister { goal_id: v.goal_id },
    ]
}

/// The goal has had all its turns.
pub open spec fn exhausted(v: RunView) -> Advance {
    let w = v.remembering(GoalLifecycle::Blocked, Some(OUT_OF_TURNS@));
    finished(
        w,
        seq![
            ActionView::Move { task_id: v.task_id, to: TaskStatus::Cancelled },
            ActionView::Save { task_id: v.task_id, meta: w.meta },
        ] + parting(v, GoalStatus::Failed),
        Ok(ResultView { task_id: v.task_id, outcome: OutcomeView::Blocked(OUT_OF_TURNS@) }),
    )
}

/// Turn `iteration` comes next, if the goal has that many.
pub open spec fn turn_due(v: RunView, before: Seq<ActionView>, iteration: int) -> Advance {
    if iteration <= MAX_ITERATIONS {
        Advance {
            run: RunView { stage: Stage::Polling, iteration: iteration as u32, ..v },
            actions: before.push(ActionView::Poll),
        }
    } else {
        let over = exhausted(v);
        Advance { run: over.run, actions: before + over.actions }
    }
}

/// The turn after the last one that the task remembers.
pub open spec fn first_turn(v: RunView) -> int {
    if v.meta.iteration < u32::MAX {
        v.meta.iteration + 1
    } else {
        u32::MAX as int
    }
}

/// What the task remembers is known: the goal is shown, and turns begin.
pub open spec fn set_up(v: RunView) -> Advance {
    let w = RunView { tokens_used: v.meta.tokens_used, ..v };
    match v.req.existing_goal_id {
        Some(id) => {
            let x = RunView { goal_id: id, ..w };
            turn_due(x, seq![ActionView::Register { goal_id: id }], first_turn(x))
        },
        None => Advance {
            run: w.at(Stage::Materializing),
            actions: seq![
                ActionView::Materialize {
                    objective: v.req.objective,
                    task_id: v.task_id,
                    session_id: v.req.session_id,
                    model: v.model,
                    effort: v.effort,
                },
            ],
        },
    }
}

/// The first of two that there is.
pub open spec fn either(a: Option<Seq<char>>, b: Option<Seq<char>>) -> Option<Seq<char>> {
    if a is Some {
        a
    } else {
        b
    }
}

/// A new task remembers who works on it.
pub open spec fn fresh(v: RunView) -> RunView {
    RunView {
        meta: MetaView {
            tool: "anureo"@,
            model: v.req.model,
            effort: v.req.effort,
            ..v.req.blank
        },
        model: v.req.model,
        effort: v.req.effort,
        ..v
    }
}

/// An existing task goes on with what it remembers, and is active again.
pub open spec fn recalled(v: RunView, m: MetaView) -> RunView {
    RunView {
        meta: MetaView { lifecycle: GoalLifecycle::Active, lifecycle_reason: None, ..m },
        model: either(m.model, v.req.model),
        effort: either(m.effort, v.req.effort),
        ..v
    }
}

/// The last `limit` turns.
pub open spec fn last_of(h: Seq<EntryView>, limit: nat) -> Seq<EntryView> {
    if h.len() > limit {
        h.subrange(h.len() - limit, h.len() as int)
    } else {
        h
    }
}

/// A line about a turn.
pub open spec fn history_line(e: EntryView) -> Seq<char> {
    "  iter "@ + text::nat_text(e.iteration as nat) + ": completed"@
}

/// Lines about turns.
pub open spec fn history_lines(h: Seq<EntryView>) -> Seq<char>
    decreases h.len(),
{
    if h.len() == 0 {
        Seq::empty()
    } else if h.len() == 1 {
        history_line(h[0])
    } else {
        history_lines(h.drop_last()) + "\n"@ + history_line(h.last())
    }
}

/// What a turn is told of those before it.
pub open spec fn history_summary(h: Seq<EntryView>) -> Option<Seq<char>> {
    if h.len() > 1 {
        Some("Previous iterations:\n"@ + history_lines(h.drop_last()))
    } else {
        None
    }
}

/// How many bytes of a task's identifier stand for it.
pub const SHORT_ID: usize = 8;

/// The session of a task's turns.
pub open spec fn session_of(task_id: Seq<char>) -> Seq<char> {
    "goal-"@ + text::byte_head(task_id, SHORT_ID as nat)
}

/// The run with its turn begun at `timestamp`.
pub open spec fn turn_begun(v: RunView, timestamp: Seq<char>) -> RunView {
    let entry = EntryView { iteration: v.iteration, timestamp, summary: None };
    RunView {
        stage: Stage::Running,
        meta: MetaView {
            iteration: v.iteration,
            tokens_used: v.tokens_used,
            history: last_of(v.meta.history.push(entry), v.req.history_limit),
            ..v.meta
        },
        ..v
    }
}

/// Why a stopped goal stops.
pub open spec fn stop_reason(terminal: bool) -> Seq<char> {
    if terminal {
        CANCELLED@
    } else {
        ABORTED@
    }
}

/// Where a stopped goal stands.
pub open spec fn stop_lifecycle(terminal: bool) -> GoalLifecycle {
    if terminal {
        GoalLifecycle::Cancelled
    } else {
        GoalLifecycle::Paused
    }
}

/// Where the task of a stopped goal goes.
pub open spec fn stop_task(terminal: bool) -> TaskStatus {
    if terminal {
        TaskStatus::Cancelled
    } else {
        TaskStatus::Pending
    }
}

/// What clients see of a stopped goal.
pub open spec fn stop_status(terminal: bool) -> GoalStatus {
    if terminal {
        GoalStatus::Cancelled
    } else {
        GoalStatus::Paused
    }
}

/// The result of a stopped run.
pub open spec fn stopped(v: RunView, terminal: bool) -> Result<ResultView, RunErrorView> {
    Ok(ResultView { task_id: v.task_id, outcome: OutcomeView::Error(stop_reason(terminal)) })
}

/// Whether anybody stopped the run is known; if nobody did, the turn begins.
pub open spec fn polled(v: RunView, cancelled: bool, terminal: bool, timestamp: Seq<char>) -> Advance {
    if cancelled || terminal {
        let w = v.remembering(stop_lifecycle(terminal), Some(stop_reason(terminal)));
        finished(
            w,
            seq![
                ActionView::Move { task_id: v.task_id, to: stop_task(terminal) },
                ActionView::Save { task_id: v.task_id, meta: v.meta },
                ActionView::Save { task_id: v.task_id, meta: w.meta },
            ] + parting(v, stop_status(terminal)),
            stopped(v, terminal),
        )
    } else {
        let w = turn_begun(v, timestamp);
        Advance {
            run: w,
            actions: seq![
                ActionView::Save { task_id: v.task_id, meta: w.meta },
                ActionView::RunTurn {
                    task_id: v.task_id,
                    session_id: session_of(v.task_id),
                    iteration: v.iteration,
                    history_summary: history_summary(w.meta.history),
                    model: v.model,
                    effort: v.effort,
                },
            ],
        }
    }
}

/// The turn was stopped.
pub open spec fn turn_cancelled(v: RunView, terminal: bool) -> Advance {
    let w = v.booked().remembering(stop_lifecycle(terminal), Some(stop_reason(terminal)));
    finished(
        w,
        seq![
            ActionView::Save { task_id: v.task_id, meta: w.meta },
            ActionView::Move { task_id: v.task_id, to: stop_task(terminal) },
        ] + parting(v, stop_status(terminal)),
        stopped(v, terminal),
    )
}

/// The turn failed: the goal waits for another try.
pub open spec fn turn_failed(v: RunView, e: Seq<char>) -> Advance {
    let w = v.booked().remembering(
        GoalLifecycle::Paused,
        Some("goal turn failed; retryable: "@ + e),
    );
    finished(
        w,
        seq![
            ActionView::Save { task_id: v.task_id, meta: w.meta },
            ActionView::Move { task_id: v.task_id, to: TaskStatus::Pending },
        ] + parting(v, GoalStatus::Paused),
        Err(RunErrorView::Unavailable("goal turn failed: "@ + e)),
    )
}

/// How the task stands after the turn is known.
pub open spec fn looked(v: RunView, status: TaskStatus) -> Advance {
    if status == TaskStatus::Completed {
        let w = v.remembering(GoalLifecycle::Completed, Some("task marked completed"@));
        finished(
            w,
            seq![ActionView::Save { task_id: v.task_id, meta: w.meta }] + parting(
                v,
                GoalStatus::Completed,
            ),
            Ok(ResultView { task_id: v.task_id, outcome: OutcomeView::Achieved }),
        )
    } else {
        turn_due(v, Seq::empty(), v.iteration + 1)
    }
}

/// One action and another stage.
pub open spec fn asking(v: RunView, stage: Stage, a: ActionView) -> Advance {
    Advance { run: v.at(stage), actions: seq![a] }
}

/// That a task cannot be resumed.
pub open spec fn not_resumable(v: RunView) -> Advance {
    not_begun(v, "goal task '"@ + v.task_id + "' is not resumable"@)
}

/// Tokens more.
pub open spec fn tokens_after(total: u32, input: u32, output: u32) -> u32 {
    if total + input + output <= u32::MAX {
        (total + input + output) as u32
    } else {
        u32::MAX
    }
}

/// Nothing changes.
pub open spec fn unchanged(v: RunView) -> Advance {
    Advance { run: v, actions: Seq::empty() }
}

/// The database is there, or it is not.
pub open spec fn in_opening(v: RunView, e: EventView) -> Advance {
    match e {
        EventView::DirFailed(s) => not_begun(
            v,
            "create task DB directory: "@ + s,
        ),
        EventView::OpenFailed(s) => not_begun(v, "open task DB: "@ + s),
        EventView::DbReady => if v.resuming() {
            asking(v, Stage::Claiming, ActionView::Claim { task_id: v.task_id })
        } else {
            asking(v, Stage::Creating, ActionView::Create { objective: v.req.objective })
        },
        _ => unchanged(v),
    }
}

/// The existing task was claimed, or it was not.
pub open spec fn in_claiming(v: RunView, e: EventView) -> Advance {
    match e {
        EventView::ClaimFailed(s) => not_begun(v, "resume goal task: "@ + s),
        EventView::Claimed(claimed) => if claimed {
            asking(v, Stage::Reading, ActionView::Show { task_id: v.task_id })
        } else if v.req.allow_in_progress {
            asking(v, Stage::Checking, ActionView::Show { task_id: v.task_id })
        } else {
            not_resumable(v)
        },
        _ => unchanged(v),
    }
}

/// Whether the existing task is in progress is known.
pub open spec fn in_checking(v: RunView, e: EventView) -> Advance {
    match e {
        EventView::ShowFailed(s) => not_resumable(v),
        EventView::Shown(status) => if status == TaskStatus::InProgress {
            asking(v, Stage::Reading, ActionView::Show { task_id: v.task_id })
        } else {
            not_resumable(v)
        },
        _ => unchanged(v),
    }
}

/// The existing task was read, or it was not.
pub open spec fn in_reading(v: RunView, e: EventView) -> Advance {
    match e {
        EventView::ShowFailed(s) => not_begun(v, "read goal task: "@ + s),
        EventView::Shown(status) => asking(
            v,
            Stage::Configuring,
            ActionView::WriteConfig,
        ),
        _ => unchanged(v),
    }
}

/// The new task was made, or it was not.
pub open spec fn in_creating(v: RunView, e: EventView) -> Advance {
    match e {
        EventView::CreateFailed(s) => not_begun(v, "create goal task: "@ + s),
        EventView::Created(id) => asking(
            RunView { task_id: id, ..v },
            Stage::Configuring,
            ActionView::WriteConfig,
        ),
        _ => unchanged(v),
    }
}

/// The tools of the turns are set up, or they are not.
pub open spec fn in_configuring(v: RunView, e: EventView) -> Advance {
    match e {
        EventView::ConfigFailed(s) => rolled_back(
            v,
            rollback_status(v),
            "write goal MCP config: "@ + s,
        ),
        EventView::ConfigWritten => if v.resuming() {
            asking(v, Stage::Recalling, ActionView::Recall { task_id: v.task_id })
        } else {
            set_up(fresh(v))
        },
        _ => unchanged(v),
    }
}

/// What the existing task remembers is known, or it is not.
pub open spec fn in_recalling(v: RunView, e: EventView) -> Advance {
    match e {
        EventView::RecallFailed(s) => rolled_back(
            v,
            rollback_status(v),
            "read goal metadata: "@ + s,
        ),
        EventView::DecodeFailed(s) => rolled_back(
            v,
            rollback_status(v),
            "decode goal metadata: "@ + s,
        ),
        EventView::Recalled(m) => set_up(
            recalled(
                v,
                match m {
                    Some(m) => m,
                    None => v.req.blank,
                },
            ),
        ),
        _ => unchanged(v),
    }
}

/// The goal is shown to clients, or it is not.
pub open spec fn in_materializing(v: RunView, e: EventView) -> Advance {
    match e {
        EventView::MaterializeFailed(s) => rolled_back(
            v,
            TaskStatus::Cancelled,
            "materialize ACP goal: "@ + s,
        ),
        EventView::Materialized(id) => {
            let w = RunView { goal_id: id, ..v };
            turn_due(w, Seq::empty(), first_turn(w))
        },
        _ => unchanged(v),
    }
}

/// Whether anybody stopped the run is known.
pub open spec fn in_polling(v: RunView, e: EventView) -> Advance {
    match e {
        EventView::Polled { cancelled, terminal, timestamp } => polled(
            v,
            cancelled,
            terminal,
            timestamp,
        ),
        _ => unchanged(v),
    }
}

/// The turn goes on or ends.
pub open spec fn in_running(v: RunView, e: EventView) -> Advance {
    match e {
        EventView::Usage { input, output } => Advance {
            run: RunView { tokens_used: tokens_after(v.tokens_used, input, output), ..v },
            actions: Seq::empty(),
        },
        EventView::TurnFinished => Advance {
            run: v.booked().at(Stage::Looking),
            actions: seq![
                ActionView::Save { task_id: v.task_id, meta: v.booked().meta },
                ActionView::Show { task_id: v.task_id },
            ],
        },
        EventView::TurnCancelled { terminal } => turn_cancelled(v, terminal),
        EventView::TurnFailed(s) => turn_failed(v, s),
        _ => unchanged(v),
    }
}

/// How the task stands after the turn is known, or it is not.
pub open spec fn in_looking(v: RunView, e: EventView) -> Advance {
    match e {
        EventView::ShowFailed(s) => not_begun(v, "read goal task: "@ + s),
        EventView::Shown(status) => looked(v, status),
        _ => unchanged(v),
    }
}

/// What an event leads to. An event that the run does not wait for changes
/// nothing.
pub open spec fn next(v: RunView, e: EventView) -> Advance {
    match v.stage {
        Stage::Opening => in_opening(v, e),
        Stage::Claiming => in_claiming(v, e),
        Stage::Checking => in_checking(v, e),
        Stage::Reading => in_reading(v, e),
        Stage::Creating => in_creating(v, e),
        Stage::Configuring => in_configuring(v, e),
        Stage::Recalling => in_recalling(v, e),
        Stage::Materializing => in_materializing(v, e),
        Stage::Polling => in_polling(v, e),
        Stage::Running => in_running(v, e),
        Stage::Looking => in_looking(v, e),
        Stage::Done => unchanged(v),
    }
}

fn join(a: &str, b: &str) -> (r: String)
    ensures
        r@ == a@ + b@,
{
    let mut r: String = a.to_owned();
    r.append(b);
    r
}

fn no_actions() -> (r: Vec<RunAction>)
    ensures
        actions(r@) == Seq::<ActionView>::empty(),
{
    let r: Vec<RunAction> = Vec::new();
    assert(actions(r@) =~= Seq::empty());
    r
}

/// Lines about turns, but for the last one.
fn summarize(h: &Vec<HistoryEntry>) -> (r: Option<String>)
    ensures
        text::opt_text(r) == history_summary(goal_meta::entries(h@)),
{
    if h.len() <= 1 {
        return None;
    }
    let ghost all = goal_meta::entries(h@);
    let n: usize = h.len() - 1;
    let mut lines: String = "".to_owned();
    let mut i: usize = 0;
    proof {
        reveal_strlit("");
        assert(lines@ =~= history_lines(all.take(0)));
    }
    while i < n
        invariant
            i <= n,
            n == h@.len() - 1,
            all == goal_meta::entries(h@),
            lines@ == history_lines(all.take(i as int)),
        decreases n - i,
    {
        let ghost before = lines@;
        if i > 0 {
            lines.append("\n");
        }
        lines.append("  iter ");
        text::push_u64(&mut lines, h[i].iteration as u64);
        lines.append(": completed");
        proof {
            let t = all.take(i as int + 1);
            assert(t.drop_last() =~= all.take(i as int));
            assert(t.last() == h@[i as int]@);
            if i == 0 {
                assert(before =~= Seq::empty());
                assert(lines@ =~= history_line(t[0]));
            } else {
                assert(lines@ =~= before + "\n"@ + history_line(t.last()));
            }
        }
        i += 1;
    }
    assert(all.take(n as int) =~= all.drop_last());
    let mut r: String = "Previous iterations:\n".to_owned();
    r.append(lines.as_str());
    Some(r)
}

/// Keeps the last `limit` turns.
fn trim_history(h: &mut Vec<HistoryEntry>, limit: usize)
    ensures
        goal_meta::entries(final(h)@) == last_of(goal_meta::entries(old(h)@), limit as nat),
{
    if h.len() > limit {
        let from: usize = h.len() - limit;
        let kept: Vec<HistoryEntry> = h.split_off(from);
        *h = kept;
    }
    assert(goal_meta::entries(h@) =~= last_of(goal_meta::entries(old(h)@), limit as nat));
}

/// The session of a task's turns.
pub fn goal_session(task_id: &str) -> (r: String)
    ensures
        r@ == session_of(task_id@),
{
    join("goal-", text::take_bytes(task_id, SHORT_ID))
}

impl GoalRun {
    /// A run, and what the host should do first.
    pub fn begin(req: RunRequest) -> (r: (GoalRun, Vec<RunAction>))
        ensures
            r.0@ == begun(req@),
            actions(r.1@) == seq![ActionView::OpenDb],
    {
        proof {
            reveal_strlit("");
            assert(""@ =~= Seq::<char>::empty());
        }
        let task_id: String = match &req.existing_task_id {
            Some(id) => id.clone(),
            None => "".to_owned(),
        };
        let run: GoalRun = GoalRun {
            stage: Stage::Opening,
            task_id,
            goal_id: "".to_owned(),
            model: text::clone_opt(&req.model),
            effort: text::clone_opt(&req.effort),
            meta: req.blank.clone(),
            tokens_used: 0,
            iteration: 0,
            req,
        };
        let first: Vec<RunAction> = vec![RunAction::OpenDb];
        assert(actions(first@) =~= seq![ActionView::OpenDb]);
        (run, first)
    }

    /// A run on a new task.
    pub fn run_goal(
        objective: String,
        model: Option<String>,
        effort: Option<String>,
        session_id: Option<String>,
        blank: GoalMeta,
        history_limit: usize,
    ) -> (r: (GoalRun, Vec<RunAction>))
        ensures
            r.0@ == begun(
                (RequestView {
                    existing_task_id: None,
                    existing_goal_id: None,
                    objective: objective@,
                    model: text::opt_text(model),
                    effort: text::opt_text(effort),
                    session_id: text::opt_text(session_id),
                    allow_in_progress: false,
                    recovering: false,
                    blank: blank@,
                    history_limit: history_limit as nat,
                }),
            ),
            actions(r.1@) == seq![ActionView::OpenDb],
    {
        GoalRun::begin(
            RunRequest {
                existing_task_id: None,
                existing_goal_id: None,
                objective,
                model,
                effort,
                session_id,
                allow_in_progress: false,
                recovering: false,
                blank,
                history_limit,
            },
        )
    }

    /// A run that goes on with a task that waits. With `recovering` the task may
    /// be in progress already, because the process that worked on it is gone; it
    /// waits again if the run fails.
    pub fn resume_goal(
        task_id: String,
        goal_id: String,
        objective: String,
        model: Option<String>,
        effort: Option<String>,
        recovering: bool,
        blank: GoalMeta,
        history_limit: usize,
    ) -> (r: (GoalRun, Vec<RunAction>))
        ensures
            r.0@ == begun(
                (RequestView {
                    existing_task_id: Some(task_id@),
                    existing_goal_id: Some(goal_id@),
                    objective: objective@,
                    model: text::opt_text(model),
                    effort: text::opt_text(effort),
                    session_id: None,
                    allow_in_progress: recovering,
                    recovering,
                    blank: blank@,
                    history_limit: history_limit as nat,
                }),
            ),
            actions(r.1@) == seq![ActionView::OpenDb],
    {
        GoalRun::begin(
            RunRequest {
                existing_task_id: Some(task_id),
                existing_goal_id: Some(goal_id),
                objective,
                model,
                effort,
                session_id: None,
                allow_in_progress: recovering,
                recovering,
                blank,
                history_limit,
            },
        )
    }

    /// What the run waits for.
    pub fn stage(&self) -> (r: Stage)
        ensures
            r == self@.stage,
    {
        self.stage
    }

    /// The task, once there is one.
    pub fn task_id(&self) -> (r: &str)
        ensures
            r@ == self@.task_id,
    {
        self.task_id.as_str()
    }

    /// What the task remembers.
    pub fn meta(&self) -> (r: &GoalMeta)
        ensures
            r@ == self@.meta,
    {
        &self.meta
    }

    fn finish(&mut self, before: Vec<RunAction>, r: Result<GoalResult, GoalRunError>) -> (out: Vec<
        RunAction,
    >)
        ensures
            final(self)@ == finished(old(self)@, actions(before@), end_view(r)).run,
            actions(out@) == finished(old(self)@, actions(before@), end_view(r)).actions,
    {
        self.stage = Stage::Done;
        let mut out: Vec<RunAction> = before;
        if r.is_err() && self.req.recovering {
            out.push(
                RunAction::Move { task_id: self.task_id.clone(), to: TaskStatus::Pending },
            );
        }
        out.push(RunAction::Finish(r));
        assert(actions(out@) =~= finished(old(self)@, actions(before@), end_view(r)).actions);
        out
    }

    fn fail(&mut self, why: String) -> (out: Vec<RunAction>)
        ensures
            final(self)@ == not_begun(old(self)@, why@).run,
            actions(out@) == not_begun(old(self)@, why@).actions,
    {
        self.finish(no_actions(), Err(GoalRunError::Init(why)))
    }

    fn roll_back(&mut self, to: TaskStatus, why: String) -> (out: Vec<RunAction>)
        ensures
            final(self)@ == rolled_back(old(self)@, to, why@).run,
            actions(out@) == rolled_back(old(self)@, to, why@).actions,
    {
        let moved: Vec<RunAction> = vec![RunAction::Move { task_id: self.task_id.clone(), to }];
        assert(actions(moved@) =~= seq![ActionView::Move { task_id: self@.task_id, to }]);
        self.finish(moved, Err(GoalRunError::Init(why)))
    }

    fn refuse(&mut self) -> (out: Vec<RunAction>)
        ensures
            final(self)@ == not_resumable(old(self)@).run,
            actions(out@) == not_resumable(old(self)@).actions,
    {
        let mut why: String = "goal task '".to_owned();
        why.append(self.task_id.as_str());
        why.append("' is not resumable");
        self.fail(why)
    }

    fn ask(&mut self, stage: Stage, a: RunAction) -> (out: Vec<RunAction>)
        ensures
            final(self)@ == asking(old(self)@, stage, a@).run,
            actions(out@) == asking(old(self)@, stage, a@).actions,
    {
        self.stage = stage;
        let out: Vec<RunAction> = vec![a];
        assert(actions(out@) =~= seq![a@]);
        out
    }

    fn part(&self, before: Vec<RunAction>, status: GoalStatus) -> (out: Vec<RunAction>)
        ensures
            actions(out@) == actions(before@) + parting(self@, status),
    {
        let mut out: Vec<RunAction> = before;
        out.push(RunAction::SetStatus { goal_id: self.goal_id.clone(), status });
        out.push(RunAction::Unregister { goal_id: self.goal_id.clone() });
        assert(actions(out@) =~= actions(before@) + parting(self@, status));
        out
    }

    fn remember(&mut self, lifecycle: GoalLifecycle, reason: Option<String>)
        ensures
            final(self)@ == old(self)@.remembering(lifecycle, text::opt_text(reason)),
    {
        self.meta.lifecycle = lifecycle;
        self.meta.lifecycle_reason = reason;
    }

    fn save(&self) -> (r: RunAction)
        ensures
            r@ == (ActionView::Save { task_id: self@.task_id, meta: self@.meta }),
    {
        RunAction::Save { task_id: self.task_id.clone(), meta: self.meta.clone() }
    }

    fn to_task(&self, to: TaskStatus) -> (r: RunAction)
        ensures
            r@ == (ActionView::Move { task_id: self@.task_id, to }),
    {
        RunAction::Move { task_id: self.task_id.clone(), to }
    }

    fn result(&self, outcome: GoalOutcome) -> (r: Result<GoalResult, GoalRunError>)
        ensures
            end_view(r) == Ok::<ResultView, RunErrorView>(
                ResultView { task_id: self@.task_id, outcome: outcome@ },
            ),
    {
        Ok(GoalResult { task_id: self.task_id.clone(), outcome })
    }
}

impl GoalRun {
    fn exhaust(&mut self) -> (out: Vec<RunAction>)
        ensures
            final(self)@ == exhausted(old(self)@).run,
            actions(out@) == exhausted(old(self)@).actions,
    {
        let moved: RunAction = self.to_task(TaskStatus::Cancelled);
        self.remember(GoalLifecycle::Blocked, Some(OUT_OF_TURNS.to_owned()));
        let before: Vec<RunAction> = vec![moved, self.save()];
        let ghost w = self@;
        assert(actions(before@) =~= seq![
            ActionView::Move { task_id: w.task_id, to: TaskStatus::Cancelled },
            ActionView::Save { task_id: w.task_id, meta: w.meta },
        ]);
        let all: Vec<RunAction> = self.part(before, GoalStatus::Failed);
        let r: Result<GoalResult, GoalRunError> = self.result(
            GoalOutcome::Blocked(OUT_OF_TURNS.to_owned()),
        );
        self.finish(all, r)
    }

    fn next_turn(&mut self, before: Vec<RunAction>, iteration: u32) -> (out: Vec<RunAction>)
        ensures
            final(self)@ == turn_due(old(self)@, actions(before@), iteration as int).run,
            actions(out@) == turn_due(old(self)@, actions(before@), iteration as int).actions,
    {
        let mut out: Vec<RunAction> = before;
        if iteration <= MAX_ITERATIONS {
            self.stage = Stage::Polling;
            self.iteration = iteration;
            out.push(RunAction::Poll);
            assert(actions(out@) =~= actions(before@).push(ActionView::Poll));
        } else {
            let mut rest: Vec<RunAction> = self.exhaust();
            let ghost tail = actions(rest@);
            out.append(&mut rest);
            assert(actions(out@) =~= actions(before@) + tail);
        }
        out
    }

    fn first(&self) -> (r: u32)
        ensures
            r == first_turn(self@),
    {
        if self.meta.iteration < u32::MAX {
            self.meta.iteration + 1
        } else {
            u32::MAX
        }
    }

    fn set_up(&mut self) -> (out: Vec<RunAction>)
        ensures
            final(self)@ == set_up(old(self)@).run,
            actions(out@) == set_up(old(self)@).actions,
    {
        self.tokens_used = self.meta.tokens_used;
        let shown: Option<String> = text::clone_opt(&self.req.existing_goal_id);
        match shown {
            Some(id) => {
                let before: Vec<RunAction> = vec![RunAction::Register { goal_id: id.clone() }];
                assert(actions(before@) =~= seq![ActionView::Register { goal_id: id@ }]);
                self.goal_id = id;
                let iteration: u32 = self.first();
                self.next_turn(before, iteration)
            },
            None => {
                self.stage = Stage::Materializing;
                let a: RunAction = RunAction::Materialize {
                    objective: self.req.objective.clone(),
                    task_id: self.task_id.clone(),
                    session_id: text::clone_opt(&self.req.session_id),
                    model: text::clone_opt(&self.model),
                    effort: text::clone_opt(&self.effort),
                };
                let out: Vec<RunAction> = vec![a];
                assert(actions(out@) =~= seq![a@]);
                out
            },
        }
    }

    fn start_fresh(&mut self)
        ensures
            final(self)@ == fresh(old(self)@),
    {
        let mut meta: GoalMeta = self.req.blank.clone();
        meta.tool = "anureo".to_owned();
        meta.model = text::clone_opt(&self.req.model);
        meta.effort = text::clone_opt(&self.req.effort);
        self.meta = meta;
        self.model = text::clone_opt(&self.req.model);
        self.effort = text::clone_opt(&self.req.effort);
    }

    fn recall(&mut self, found: Option<GoalMeta>)
        ensures
            final(self)@ == recalled(
                old(self)@,
                match opt_meta(found) {
                    Some(m) => m,
                    None => old(self)@.req.blank,
                },
            ),
    {
        let mut meta: GoalMeta = match found {
            Some(m) => m,
            None => self.req.blank.clone(),
        };
        self.model = if meta.model.is_some() {
            text::clone_opt(&meta.model)
        } else {
            text::clone_opt(&self.req.model)
        };
        self.effort = if meta.effort.is_some() {
            text::clone_opt(&meta.effort)
        } else {
            text::clone_opt(&self.req.effort)
        };
        meta.lifecycle = GoalLifecycle::Active;
        meta.lifecycle_reason = None;
        self.meta = meta;
    }

    fn on_polled(&mut self, cancelled: bool, terminal: bool, timestamp: String) -> (out: Vec<
        RunAction,
    >)
        ensures
            final(self)@ == polled(old(self)@, cancelled, terminal, timestamp@).run,
            actions(out@) == polled(old(self)@, cancelled, terminal, timestamp@).actions,
    {
        if cancelled || terminal {
            let moved: RunAction = self.to_task(task_of_stop(terminal));
            let kept: RunAction = self.save();
            self.remember(lifecycle_of_stop(terminal), Some(reason_of_stop(terminal)));
            let before: Vec<RunAction> = vec![moved, kept, self.save()];
            assert(actions(before@) =~= seq![
                ActionView::Move { task_id: self@.task_id, to: stop_task(terminal) },
                ActionView::Save { task_id: self@.task_id, meta: old(self)@.meta },
                ActionView::Save { task_id: self@.task_id, meta: self@.meta },
            ]);
            let all: Vec<RunAction> = self.part(before, status_of_stop(terminal));
            let r: Result<GoalResult, GoalRunError> = self.result(
                GoalOutcome::Error(reason_of_stop(terminal)),
            );
            return self.finish(all, r);
        }
        self.stage = Stage::Running;
        self.meta.iteration = self.iteration;
        self.meta.tokens_used = self.tokens_used;
        let entry: HistoryEntry = HistoryEntry {
            iteration: self.iteration,
            timestamp,
            summary: None,
        };
        self.meta.history.push(entry);
        assert(goal_meta::entries(self.meta.history@) =~= old(self)@.meta.history.push(entry@));
        trim_history(&mut self.meta.history, self.req.history_limit);
        assert(self@ =~= turn_begun(old(self)@, timestamp@));
        let turn: RunAction = RunAction::RunTurn {
            task_id: self.task_id.clone(),
            session_id: goal_session(self.task_id.as_str()),
            iteration: self.iteration,
            history_summary: summarize(&self.meta.history),
            model: text::clone_opt(&self.model),
            effort: text::clone_opt(&self.effort),
        };
        let out: Vec<RunAction> = vec![self.save(), turn];
        assert(actions(out@) =~= seq![
            ActionView::Save { task_id: self@.task_id, meta: self@.meta },
            turn@,
        ]);
        out
    }

    fn on_turn_cancelled(&mut self, terminal: bool) -> (out: Vec<RunAction>)
        ensures
            final(self)@ == turn_cancelled(old(self)@, terminal).run,
            actions(out@) == turn_cancelled(old(self)@, terminal).actions,
    {
        self.meta.tokens_used = self.tokens_used;
        self.remember(lifecycle_of_stop(terminal), Some(reason_of_stop(terminal)));
        let before: Vec<RunAction> = vec![self.save(), self.to_task(task_of_stop(terminal))];
        assert(actions(before@) =~= seq![
            ActionView::Save { task_id: self@.task_id, meta: self@.meta },
            ActionView::Move { task_id: self@.task_id, to: stop_task(terminal) },
        ]);
        let all: Vec<RunAction> = self.part(before, status_of_stop(terminal));
        let r: Result<GoalResult, GoalRunError> = self.result(
            GoalOutcome::Error(reason_of_stop(terminal)),
        );
        self.finish(all, r)
    }

    fn on_turn_failed(&mut self, e: String) -> (out: Vec<RunAction>)
        ensures
            final(self)@ == turn_failed(old(self)@, e@).run,
            actions(out@) == turn_failed(old(self)@, e@).actions,
    {
        self.meta.tokens_used = self.tokens_used;
        self.remember(
            GoalLifecycle::Paused,
            Some(join("goal turn failed; retryable: ", e.as_str())),
        );
        let before: Vec<RunAction> = vec![self.save(), self.to_task(TaskStatus::Pending)];
        assert(actions(before@) =~= seq![
            ActionView::Save { task_id: self@.task_id, meta: self@.meta },
            ActionView::Move { task_id: self@.task_id, to: TaskStatus::Pending },
        ]);
        let all: Vec<RunAction> = self.part(before, GoalStatus::Paused);
        self.finish(all, Err(GoalRunError::Unavailable(join("goal turn failed: ", e.as_str()))))
    }

    fn on_looked(&mut self, status: TaskStatus) -> (out: Vec<RunAction>)
        ensures
            final(self)@ == looked(old(self)@, status).run,
            actions(out@) == looked(old(self)@, status).actions,
    {
        if status == TaskStatus::Completed {
            self.remember(GoalLifecycle::Completed, Some("task marked completed".to_owned()));
            let before: Vec<RunAction> = vec![self.save()];
            assert(actions(before@) =~= seq![
                ActionView::Save { task_id: self@.task_id, meta: self@.meta },
            ]);
            let all: Vec<RunAction> = self.part(before, GoalStatus::Completed);
            let r: Result<GoalResult, GoalRunError> = self.result(GoalOutcome::Achieved);
            return self.finish(all, r);
        }
        if self.iteration < MAX_ITERATIONS {
            self.next_turn(no_actions(), self.iteration + 1)
        } else {
            let out: Vec<RunAction> = self.exhaust();
            assert(actions(out@) =~= Seq::empty() + actions(out@));
            out
        }
    }
}

fn reason_of_stop(terminal: bool) -> (r: String)
    ensures
        r@ == stop_reason(terminal),
{
    if terminal {
        CANCELLED.to_owned()
    } else {
        ABORTED.to_owned()
    }
}

fn lifecycle_of_stop(terminal: bool) -> (r: GoalLifecycle)
    ensures
        r == stop_lifecycle(terminal),
{
    if terminal {
        GoalLifecycle::Cancelled
    } else {
        GoalLifecycle::Paused
    }
}

fn task_of_stop(terminal: bool) -> (r: TaskStatus)
    ensures
        r == stop_task(terminal),
{
    if terminal {
        TaskStatus::Cancelled
    } else {
        TaskStatus::Pending
    }
}

fn status_of_stop(terminal: bool) -> (r: GoalStatus)
    ensures
        r == stop_status(terminal),
{
    if terminal {
        GoalStatus::Cancelled
    } else {
        GoalStatus::Paused
    }
}

impl GoalRun {
    /// Takes in what the host reports, and says what it should do.
    pub fn step(&mut self, e: RunEvent) -> (out: Vec<RunAction>)
        ensures
            final(self)@ == next(old(self)@, e@).run,
            actions(out@) == next(old(self)@, e@).actions,
    {
        match self.stage {
            Stage::Opening => self.step_opening(e),
            Stage::Claiming => self.step_claiming(e),
            Stage::Checking => self.step_checking(e),
            Stage::Reading => self.step_reading(e),
            Stage::Creating => self.step_creating(e),
            Stage::Configuring => self.step_configuring(e),
            Stage::Recalling => self.step_recalling(e),
            Stage::Materializing => self.step_materializing(e),
            Stage::Polling => self.step_polling(e),
            Stage::Running => self.step_running(e),
            Stage::Looking => self.step_looking(e),
            Stage::Done => no_actions(),
        }
    }

    fn step_opening(&mut self, e: RunEvent) -> (out: Vec<RunAction>)
        ensures
            final(self)@ == in_opening(old(self)@, e@).run,
            actions(out@) == in_opening(old(self)@, e@).actions,
    {
        match e {
            RunEvent::DirFailed(s) => self.fail(
                join("create task DB directory: ", s.as_str()),
            ),
            RunEvent::OpenFailed(s) => self.fail(
                join("open task DB: ", s.as_str()),
            ),
            RunEvent::DbReady => {
                if self.req.existing_task_id.is_some() {
                    let task_id: String = self.task_id.clone();
                    self.ask(Stage::Claiming, RunAction::Claim { task_id })
                } else {
                    let objective: String = self.req.objective.clone();
                    self.ask(Stage::Creating, RunAction::Create { objective })
                }
            },
            _ => no_actions(),
        }
    }

    fn step_claiming(&mut self, e: RunEvent) -> (out: Vec<RunAction>)
        ensures
            final(self)@ == in_claiming(old(self)@, e@).run,
            actions(out@) == in_claiming(old(self)@, e@).actions,
    {
        match e {
            RunEvent::ClaimFailed(s) => self.fail(
                join("resume goal task: ", s.as_str()),
            ),
            RunEvent::Claimed(claimed) => {
                let task_id: String = self.task_id.clone();
                if claimed {
                    self.ask(Stage::Reading, RunAction::Show { task_id })
                } else if self.req.allow_in_progress {
                    self.ask(Stage::Checking, RunAction::Show { task_id })
                } else {
                    self.refuse()
                }
            },
            _ => no_actions(),
        }
    }

    fn step_checking(&mut self, e: RunEvent) -> (out: Vec<RunAction>)
        ensures
            final(self)@ == in_checking(old(self)@, e@).run,
            actions(out@) == in_checking(old(self)@, e@).actions,
    {
        match e {
            RunEvent::ShowFailed(s) => self.refuse(),
            RunEvent::Shown(status) => {
                if status == TaskStatus::InProgress {
                    let task_id: String = self.task_id.clone();
                    self.ask(Stage::Reading, RunAction::Show { task_id })
                } else {
                    self.refuse()
                }
            },
            _ => no_actions(),
        }
    }

    fn step_reading(&mut self, e: RunEvent) -> (out: Vec<RunAction>)
        ensures
            final(self)@ == in_reading(old(self)@, e@).run,
            actions(out@) == in_reading(old(self)@, e@).actions,
    {
        match e {
            RunEvent::ShowFailed(s) => self.fail(
                join("read goal task: ", s.as_str()),
            ),
            RunEvent::Shown(status) => self.ask(
                Stage::Configuring,
                RunAction::WriteConfig,
            ),
            _ => no_actions(),
        }
    }

    fn step_creating(&mut self, e: RunEvent) -> (out: Vec<RunAction>)
        ensures
            final(self)@ == in_creating(old(self)@, e@).run,
            actions(out@) == in_creating(old(self)@, e@).actions,
    {
        match e {
            RunEvent::CreateFailed(s) => self.fail(
                join("create goal task: ", s.as_str()),
            ),
            RunEvent::Created(id) => {
                self.task_id = id;
                self.ask(Stage::Configuring, RunAction::WriteConfig)
            },
            _ => no_actions(),
        }
    }

    fn step_configuring(&mut self, e: RunEvent) -> (out: Vec<RunAction>)
        ensures
            final(self)@ == in_configuring(old(self)@, e@).run,
            actions(out@) == in_configuring(old(self)@, e@).actions,
    {
        match e {
            RunEvent::ConfigFailed(s) => {
                let to: TaskStatus = self.task_after_rollback();
                self.roll_back(to, join("write goal MCP config: ", s.as_str()))
            },
            RunEvent::ConfigWritten => {
                if self.req.existing_task_id.is_some() {
                    let task_id: String = self.task_id.clone();
                    self.ask(Stage::Recalling, RunAction::Recall { task_id })
                } else {
                    self.start_fresh();
                    self.set_up()
                }
            },
            _ => no_actions(),
        }
    }

    fn step_recalling(&mut self, e: RunEvent) -> (out: Vec<RunAction>)
        ensures
            final(self)@ == in_recalling(old(self)@, e@).run,
            actions(out@) == in_recalling(old(self)@, e@).actions,
    {
        match e {
            RunEvent::RecallFailed(s) => {
                let to: TaskStatus = self.task_after_rollback();
                self.roll_back(to, join("read goal metadata: ", s.as_str()))
            },
            RunEvent::DecodeFailed(s) => {
                let to: TaskStatus = self.task_after_rollback();
                self.roll_back(to, join("decode goal metadata: ", s.as_str()))
            },
            RunEvent::Recalled(m) => {
                self.recall(m);
                self.set_up()
            },
            _ => no_actions(),
        }
    }

    fn step_materializing(&mut self, e: RunEvent) -> (out: Vec<RunAction>)
        ensures
            final(self)@ == in_materializing(old(self)@, e@).run,
            actions(out@) == in_materializing(old(self)@, e@).actions,
    {
        match e {
            RunEvent::MaterializeFailed(s) => self.roll_back(
                TaskStatus::Cancelled,
                join("materialize ACP goal: ", s.as_str()),
            ),
            RunEvent::Materialized(id) => {
                self.goal_id = id;
                let iteration: u32 = self.first();
                self.next_turn(no_actions(), iteration)
            },
            _ => no_actions(),
        }
    }

    fn step_polling(&mut self, e: RunEvent) -> (out: Vec<RunAction>)
        ensures
            final(self)@ == in_polling(old(self)@, e@).run,
            actions(out@) == in_polling(old(self)@, e@).actions,
    {
        match e {
            RunEvent::Polled { cancelled, terminal, timestamp } =>
                self.on_polled(cancelled, terminal, timestamp),
            _ => no_actions(),
        }
    }

    fn step_running(&mut self, e: RunEvent) -> (out: Vec<RunAction>)
        ensures
            final(self)@ == in_running(old(self)@, e@).run,
            actions(out@) == in_running(old(self)@, e@).actions,
    {
        match e {
            RunEvent::Usage { input, output } => {
                self.tokens_used = self.tokens_used.saturating_add(input.saturating_add(output));
                no_actions()
            },
            RunEvent::TurnFinished => {
                self.meta.tokens_used = self.tokens_used;
                self.stage = Stage::Looking;
                let out: Vec<RunAction> = vec![
                    self.save(),
                    RunAction::Show { task_id: self.task_id.clone() },
                ];
                assert(actions(out@) =~= seq![
                    ActionView::Save { task_id: self@.task_id, meta: self@.meta },
                    ActionView::Show { task_id: self@.task_id },
                ]);
                out
            },
            RunEvent::TurnCancelled { terminal } => self.on_turn_cancelled(
                terminal,
            ),
            RunEvent::TurnFailed(s) => self.on_turn_failed(s),
            _ => no_actions(),
        }
    }

    fn step_looking(&mut self, e: RunEvent) -> (out: Vec<RunAction>)
        ensures
            final(self)@ == in_looking(old(self)@, e@).run,
            actions(out@) == in_looking(old(self)@, e@).actions,
    {
        match e {
            RunEvent::ShowFailed(s) => self.fail(
                join("read goal task: ", s.as_str()),
            ),
            RunEvent::Shown(status) => self.on_looked(status),
            _ => no_actions(),
        }
    }

    fn task_after_rollback(&self) -> (r: TaskStatus)
        ensures
            r == rollback_status(self@),
    {
        if self.req.existing_task_id.is_some() {
            TaskStatus::Pending
        } else {
            TaskStatus::Cancelled
        }
    }
}

/// How far the end of a run is at most.
pub open spec fn rank(v: RunView) -> int {
    let left = 3 * (MAX_ITERATIONS - v.iteration);
    match v.stage {
        Stage::Opening => 3 * MAX_ITERATIONS + 7,
        Stage::Claiming => 3 * MAX_ITERATIONS + 6,
        Stage::Checking => 3 * MAX_ITERATIONS + 5,
        Stage::Reading => 3 * MAX_ITERATIONS + 4,
        Stage::Creating => 3 * MAX_ITERATIONS + 4,
        Stage::Configuring => 3 * MAX_ITERATIONS + 3,
        Stage::Recalling => 3 * MAX_ITERATIONS + 2,
        Stage::Materializing => 3 * MAX_ITERATIONS + 1,
        Stage::Polling => left + 3,
        Stage::Running => left + 2,
        Stage::Looking => left + 1,
        Stage::Done => 0,
    }
}

/// Whether `a` is closer to the end than `v`, or nothing but tokens has changed.
pub open spec fn closer(v: RunView, a: Advance) -> bool {
    ||| rank(a.run) < rank(v)
    ||| a.run == (RunView { tokens_used: a.run.tokens_used, ..v }) && a.actions.len() == 0
}

/// A run ends: whatever is reported brings it closer to its end, but for the
/// tokens that a turn uses and for what it does not wait for. And no turn has a
/// number beyond the last one.
pub proof fn law_run_ends(v: RunView, e: EventView)
    requires
        v.wf(),
    ensures
        next(v, e).run.wf(),
        0 <= rank(next(v, e).run),
        closer(v, next(v, e)),
{
    match v.stage {
        Stage::Opening => lemma_rank_opening(v, e),
        Stage::Claiming | Stage::Checking => lemma_rank_claiming(v, e),
        Stage::Reading | Stage::Creating => lemma_rank_reading(v, e),
        Stage::Configuring => lemma_rank_configuring(v, e),
        Stage::Recalling => lemma_rank_recalling(v, e),
        Stage::Materializing => lemma_rank_materializing(v, e),
        Stage::Polling => lemma_rank_polling(v, e),
        Stage::Running => lemma_rank_running(v, e),
        Stage::Looking => lemma_rank_looking(v, e),
        Stage::Done => {},
    }
}

proof fn lemma_rank_opening(v: RunView, e: EventView)
    requires
        v.wf(),
        v.stage == Stage::Opening,
    ensures
        next(v, e).run.wf(),
        0 <= rank(next(v, e).run),
        closer(v, next(v, e)),
{
}

proof fn lemma_rank_claiming(v: RunView, e: EventView)
    requires
        v.wf(),
        v.stage == Stage::Claiming || v.stage == Stage::Checking,
    ensures
        next(v, e).run.wf(),
        0 <= rank(next(v, e).run),
        closer(v, next(v, e)),
{
}

proof fn lemma_rank_reading(v: RunView, e: EventView)
    requires
        v.wf(),
        v.stage == Stage::Reading || v.stage == Stage::Creating,
    ensures
        next(v, e).run.wf(),
        0 <= rank(next(v, e).run),
        closer(v, next(v, e)),
{
}

proof fn lemma_rank_configuring(v: RunView, e: EventView)
    requires
        v.wf(),
        v.stage == Stage::Configuring,
    ensures
        next(v, e).run.wf(),
        0 <= rank(next(v, e).run),
        closer(v, next(v, e)),
{
}

proof fn lemma_rank_recalling(v: RunView, e: EventView)
    requires
        v.wf(),
        v.stage == Stage::Recalling,
    ensures
        next(v, e).run.wf(),
        0 <= rank(next(v, e).run),
        closer(v, next(v, e)),
{
}

proof fn lemma_rank_materializing(v: RunView, e: EventView)
    requires
        v.wf(),
        v.stage == Stage::Materializing,
    ensures
        next(v, e).run.wf(),
        0 <= rank(next(v, e).run),
        closer(v, next(v, e)),
{
}

proof fn lemma_rank_polling(v: RunView, e: EventView)
    requires
        v.wf(),
        v.stage == Stage::Polling,
    ensures
        next(v, e).run.wf(),
        0 <= rank(next(v, e).run),
        closer(v, next(v, e)),
{
}

proof fn lemma_rank_running(v: RunView, e: EventView)
    requires
        v.wf(),
        v.stage == Stage::Running,
    ensures
        next(v, e).run.wf(),
        0 <= rank(next(v, e).run),
        closer(v, next(v, e)),
{
}

proof fn lemma_rank_looking(v: RunView, e: EventView)
    requires
        v.wf(),
        v.stage == Stage::Looking,
    ensures
        next(v, e).run.wf(),
        0 <= rank(next(v, e).run),
        closer(v, next(v, e)),
{
}

/// A run that is over stays over.
pub proof fn law_ended_run_stays_ended(v: RunView, e: EventView)
    requires
        v.stage == Stage::Done,
    ensures
        next(v, e) == unchanged(v),
{
}

/// A turn is remembered before it runs, and a task never remembers more turns
/// than it may.
pub proof fn law_turn_is_remembered(v: RunView, timestamp: Seq<char>)
    requires
        v.req.history_limit > 0,
    ensures
        polled(v, false, false, timestamp).actions[0] == (ActionView::Save {
            task_id: v.task_id,
            meta: turn_begun(v, timestamp).meta,
        }),
        turn_begun(v, timestamp).meta.iteration == v.iteration,
        turn_begun(v, timestamp).meta.history.last().iteration == v.iteration,
        1 <= turn_begun(v, timestamp).meta.history.len() <= v.req.history_limit,
{
}

/// However a run ends that has begun its turns, clients are told where the goal
/// stands and cannot stop it any more; only a task that cannot be read leaves
/// them in the dark.
pub proof fn law_end_lets_the_goal_go(v: RunView, e: EventView)
    requires
        v.turning(),
        next(v, e).run.stage == Stage::Done,
        e !is ShowFailed,
    ensures
        next(v, e).actions.contains(ActionView::Unregister { goal_id: v.goal_id }),
        exists|status: GoalStatus| #[trigger]
            next(v, e).actions.contains(ActionView::SetStatus { goal_id: v.goal_id, status }),
{
    let a = next(v, e).actions;
    let bare = if next(v, e).actions.last() is Finish && (next(v, e).actions.last()->Finish_0 is Err)
        && v.req.recovering {
        2int
    } else {
        1int
    };
    let u = a.len() - bare - 1;
    assert(a[u] == ActionView::Unregister { goal_id: v.goal_id });
    assert(a[u - 1] is SetStatus);
    assert(a.contains(a[u]));
    assert(a.contains(a[u - 1]));
    let status = a[u - 1]->SetStatus_status;
    assert(a.contains(ActionView::SetStatus { goal_id: v.goal_id, status }));
}

/// A turn that fails leaves a goal that can be tried again: its task is pending,
/// so a later run can claim it.
pub proof fn law_failed_turn_can_be_retried(v: RunView, e: Seq<char>)
    requires
        v.stage == Stage::Running,
    ensures
        next(v, EventView::TurnFailed(e)).actions.contains(
            ActionView::Move { task_id: v.task_id, to: TaskStatus::Pending },
        ),
        next(v, EventView::TurnFailed(e)).run.meta.lifecycle == GoalLifecycle::Paused,
{
    let a = next(v, EventView::TurnFailed(e)).actions;
    assert(a[1] == ActionView::Move { task_id: v.task_id, to: TaskStatus::Pending });
}

/// Whether a run that ends with `a` ends with the result `r` after all that it asks for:
/// once, as the last thing.
pub open spec fn ends_with(a: Advance, r: Result<ResultView, RunErrorView>) -> bool {
    &&& a.run.stage == Stage::Done
    &&& a.actions.len() > 0
    &&& a.actions.last() == ActionView::Finish(r)
}

/// Before a turn begins, a run that was interrupted stops: for good, where it was
/// cancelled by a user, which cancels task and goal, and else so that it can be resumed,
/// with the task pending and the goal paused. What the task remembers says so.
pub proof fn law_interrupted_run_stops(v: RunView, cancelled: bool, terminal: bool, at: Seq<char>)
    requires
        v.stage == Stage::Polling,
        cancelled || terminal,
    ensures
        ({
            let a = next(v, EventView::Polled { cancelled, terminal, timestamp: at });
            let why = if terminal {
                "cancelled by user"@
            } else {
                "aborted by user"@
            };
            &&& ends_with(
                a,
                Ok(ResultView { task_id: v.task_id, outcome: OutcomeView::Error(why) }),
            )
            &&& a.run.meta.lifecycle_reason == Some(why)
            &&& terminal ==> a.run.meta.lifecycle is Cancelled
            &&& !terminal ==> a.run.meta.lifecycle is Paused
            &&& a.run.meta.tokens_used == v.meta.tokens_used && a.run.meta.history == v.meta.history
            &&& a.actions[0] == ActionView::Move {
                task_id: v.task_id,
                to: if terminal {
                    TaskStatus::Cancelled
                } else {
                    TaskStatus::Pending
                },
            }
            &&& a.actions[2] == ActionView::Save { task_id: v.task_id, meta: a.run.meta }
            &&& a.actions[3] == ActionView::SetStatus {
                goal_id: v.goal_id,
                status: if terminal {
                    GoalStatus::Cancelled
                } else {
                    GoalStatus::Paused
                },
            }
        }),
{
}

/// A turn that begins is the one that was due: the task remembers it behind those that it
/// remembers already, and it is run under its number, in the task's session, with the
/// model and the effort of the run, and with word of the turns before it.
pub proof fn law_turn_begins(v: RunView, at: Seq<char>)
    requires
        v.stage == Stage::Polling,
        v.meta.history.len() < v.req.history_limit,
    ensures
        ({
            let a = next(v, EventView::Polled { cancelled: false, terminal: false, timestamp: at });
            let entry = EntryView { iteration: v.iteration, timestamp: at, summary: None };
            &&& a.run.stage == Stage::Running
            &&& a.run.iteration == v.iteration
            &&& a.run.meta.iteration == v.iteration
            &&& a.run.meta.history == v.meta.history.push(entry)
            &&& a.run.meta.lifecycle == v.meta.lifecycle
            &&& a.actions.len() == 2
            &&& a.actions[0] == ActionView::Save { task_id: v.task_id, meta: a.run.meta }
            &&& a.actions[1] == ActionView::RunTurn {
                task_id: v.task_id,
                session_id: "goal-"@ + text::byte_head(v.task_id, 8),
                iteration: v.iteration,
                history_summary: history_summary(v.meta.history.push(entry)),
                model: v.model,
                effort: v.effort,
            }
        }),
{
}

/// A task that remembers as many turns as it may forgets the oldest.
pub proof fn law_oldest_turn_is_forgotten(h: Seq<EntryView>, limit: nat, e: EntryView)
    requires
        0 < limit,
        h.len() == limit,
    ensures
        last_of(h.push(e), limit) == h.drop_first().push(e),
        last_of(h, limit) == h,
{
    assert(h.push(e).subrange(1, h.len() as int + 1) =~= h.drop_first().push(e));
}

/// What a turn is told of those before it: a line for each, in order, and none for itself;
/// the first turn is told nothing.
pub proof fn law_turns_before_are_told(
    h: Seq<EntryView>,
    a: EntryView,
    b: EntryView,
    now: EntryView,
)
    requires
        h.len() > 0,
    ensures
        history_summary(seq![now]) is None,
        history_summary(seq![a, now]) == Some(
            "Previous iterations:\n"@ + ("  iter "@ + text::nat_text(a.iteration as nat)
                + ": completed"@),
        ),
        history_summary(h.push(b).push(now)) == Some(
            history_summary(h.push(now))->0 + ("\n"@ + ("  iter "@ + text::nat_text(
                b.iteration as nat,
            ) + ": completed"@)),
        ),
{
    assert(seq![a, now].drop_last() =~= seq![a]);
    assert(h.push(b).push(now).drop_last() =~= h.push(b));
    assert(h.push(now).drop_last() =~= h);
    assert(h.push(b).drop_last() =~= h);
    assert(history_summary(h.push(b).push(now))->0 =~= history_summary(h.push(now))->0 + ("\n"@
        + history_line(b)));
}

/// Tokens are counted as a turn reports them, until they can be counted no more; nothing
/// else changes.
pub proof fn law_turn_counts_tokens(v: RunView, input: u32, output: u32)
    requires
        v.stage == Stage::Running,
    ensures
        ({
            let a = next(v, EventView::Usage { input, output });
            &&& v.tokens_used + input + output <= u32::MAX ==> a.run.tokens_used == v.tokens_used + input
                + output
            &&& v.tokens_used + input + output > u32::MAX ==> a.run.tokens_used == u32::MAX
            &&& a.actions.len() == 0
            &&& a.run.stage == v.stage && a.run.meta == v.meta && a.run.iteration == v.iteration
        }),
{
}

/// A turn that came to its end is booked, and the task is looked at.
pub proof fn law_ended_turn_is_booked(v: RunView)
    requires
        v.stage == Stage::Running,
    ensures
        ({
            let a = next(v, EventView::TurnFinished);
            &&& a.run.stage == Stage::Looking
            &&& a.run.meta.tokens_used == v.tokens_used
            &&& a.run.meta.lifecycle == v.meta.lifecycle
            &&& a.actions == seq![
                ActionView::Save { task_id: v.task_id, meta: a.run.meta },
                ActionView::Show { task_id: v.task_id },
            ]
        }),
{
}

/// A completed task ends the run with the goal achieved.
pub proof fn law_completed_task_achieves_the_goal(v: RunView)
    requires
        v.stage == Stage::Looking,
    ensures
        ({
            let a = next(v, EventView::Shown(TaskStatus::Completed));
            &&& ends_with(a, Ok(ResultView { task_id: v.task_id, outcome: OutcomeView::Achieved }))
            &&& a.run.meta.lifecycle is Completed
            &&& a.actions[0] == ActionView::Save { task_id: v.task_id, meta: a.run.meta }
            &&& a.actions[1] == ActionView::SetStatus {
                goal_id: v.goal_id,
                status: GoalStatus::Completed,
            }
        }),
{
}

/// A task that is not completed has the next turn, up to a hundred, after which the goal
/// is blocked.
pub proof fn law_unfinished_task_goes_on(v: RunView, status: TaskStatus)
    requires
        v.stage == Stage::Looking,
        !(status is Completed),
    ensures
        ({
            let a = next(v, EventView::Shown(status));
            let why = "max iterations (100) reached"@;
            &&& v.iteration < 100 ==> {
                &&& a.run.stage == Stage::Polling
                &&& a.run.iteration == v.iteration + 1
                &&& a.actions == seq![ActionView::Poll]
                &&& a.run.meta == v.meta
            }
            &&& v.iteration >= 100 ==> {
                &&& ends_with(
                    a,
                    Ok(ResultView { task_id: v.task_id, outcome: OutcomeView::Blocked(why) }),
                )
                &&& a.run.meta.lifecycle is Blocked
                &&& a.run.meta.lifecycle_reason == Some(why)
                &&& a.actions[0] == ActionView::Move {
                    task_id: v.task_id,
                    to: TaskStatus::Cancelled,
                }
                &&& a.actions[2] == ActionView::SetStatus {
                    goal_id: v.goal_id,
                    status: GoalStatus::Failed,
                }
            }
        }),
{
    let a = next(v, EventView::Shown(status));
    if v.iteration < 100 {
        assert(a.actions =~= seq![ActionView::Poll]);
    }
}

/// A turn that was stopped or failed is booked up to then. One that was stopped ends the
/// run as an interruption does; one that failed leaves task and goal to be tried again,
/// and tells why.
pub proof fn law_broken_turn_is_booked(v: RunView, terminal: bool, e: Seq<char>)
    requires
        v.stage == Stage::Running,
    ensures
        ({
            let a = next(v, EventView::TurnCancelled { terminal });
            let why = if terminal {
                "cancelled by user"@
            } else {
                "aborted by user"@
            };
            &&& ends_with(
                a,
                Ok(ResultView { task_id: v.task_id, outcome: OutcomeView::Error(why) }),
            )
            &&& a.run.meta.tokens_used == v.tokens_used
            &&& a.run.meta.lifecycle_reason == Some(why)
            &&& terminal ==> a.run.meta.lifecycle is Cancelled
            &&& !terminal ==> a.run.meta.lifecycle is Paused
            &&& a.actions[0] == ActionView::Save { task_id: v.task_id, meta: a.run.meta }
            &&& a.actions[1] == ActionView::Move {
                task_id: v.task_id,
                to: if terminal {
                    TaskStatus::Cancelled
                } else {
                    TaskStatus::Pending
                },
            }
            &&& a.actions[2] == ActionView::SetStatus {
                goal_id: v.goal_id,
                status: if terminal {
                    GoalStatus::Cancelled
                } else {
                    GoalStatus::Paused
                },
            }
        }),
        ({
            let a = next(v, EventView::TurnFailed(e));
            &&& ends_with(a, Err(RunErrorView::Unavailable("goal turn failed: "@ + e)))
            &&& a.run.meta.tokens_used == v.tokens_used
            &&& a.run.meta.lifecycle is Paused
            &&& a.run.meta.lifecycle_reason == Some("goal turn failed; retryable: "@ + e)
            &&& a.actions[0] == ActionView::Save { task_id: v.task_id, meta: a.run.meta }
            &&& a.actions[2] == ActionView::SetStatus {
                goal_id: v.goal_id,
                status: GoalStatus::Paused,
            }
        }),
{
}

/// How a run begins: an existing task is claimed, and a new one is made for the
/// objective.
pub proof fn law_run_begins_with_its_task(v: RunView)
    requires
        v.stage == Stage::Opening,
    ensures
        ({
            let a = next(v, EventView::DbReady);
            &&& v.req.existing_task_id is Some ==> a.actions == seq![
                ActionView::Claim { task_id: v.task_id },
            ] && a.run.stage == Stage::Claiming
            &&& v.req.existing_task_id is None ==> a.actions == seq![
                ActionView::Create { objective: v.req.objective },
            ] && a.run.stage == Stage::Creating
        }),
{
}

/// A task that could not be claimed is looked at where it may be in progress, and cannot
/// be resumed otherwise.
pub proof fn law_claiming_a_task(v: RunView)
    requires
        v.stage == Stage::Claiming,
    ensures
        next(v, EventView::Claimed(true)).run.stage == Stage::Reading,
        v.req.allow_in_progress ==> next(v, EventView::Claimed(false)).run.stage == Stage::Checking,
        !v.req.allow_in_progress ==> ends_with(
            next(v, EventView::Claimed(false)),
            Err(RunErrorView::Init("goal task '"@ + v.task_id + "' is not resumable"@)),
        ),
{
}

/// A task that was left in progress is taken over, and one in any other status is not.
pub proof fn law_taking_over_a_task(v: RunView, status: TaskStatus)
    requires
        v.stage == Stage::Checking,
    ensures
        status is InProgress ==> next(v, EventView::Shown(status)).run.stage == Stage::Reading,
        !(status is InProgress) ==> ends_with(
            next(v, EventView::Shown(status)),
            Err(RunErrorView::Init("goal task '"@ + v.task_id + "' is not resumable"@)),
        ),
{
}

/// A new task is the run's from then on, and the tools of the turns are set up.
pub proof fn law_new_task_is_the_runs(v: RunView, id: Seq<char>)
    requires
        v.stage == Stage::Creating,
    ensures
        next(v, EventView::Created(id)).run.task_id == id,
        next(v, EventView::Created(id)).actions == seq![ActionView::WriteConfig],
{
}

/// What a run goes on with: what an existing task remembers, active again, with its own
/// model and effort before those that are asked for, its tokens, and the turn after its
/// last one. The goal that clients know is registered, or shown under a new identifier.
pub proof fn law_run_goes_on_with_its_memory(v: RunView, m: MetaView, id: Seq<char>)
    requires
        v.stage == Stage::Recalling,
        m.iteration < 100,
    ensures
        ({
            let a = next(v, EventView::Recalled(Some(m)));
            &&& a.run.meta.lifecycle is Active && a.run.meta.lifecycle_reason is None
            &&& a.run.meta.history == m.history && a.run.meta.token_budget == m.token_budget
                && a.run.meta.verify_command == m.verify_command
            &&& a.run.tokens_used == m.tokens_used
            &&& m.model is Some ==> a.run.model == m.model
            &&& m.model is None ==> a.run.model == v.req.model
            &&& m.effort is Some ==> a.run.effort == m.effort
            &&& m.effort is None ==> a.run.effort == v.req.effort
            &&& v.req.existing_goal_id matches Some(g) ==> {
                &&& a.run.stage == Stage::Polling
                &&& a.run.goal_id == g
                &&& a.run.iteration == m.iteration + 1
                &&& a.actions == seq![ActionView::Register { goal_id: g }, ActionView::Poll]
            }
            &&& v.req.existing_goal_id is None ==> {
                &&& a.actions == seq![
                    ActionView::Materialize {
                        objective: v.req.objective,
                        task_id: v.task_id,
                        session_id: v.req.session_id,
                        model: a.run.model,
                        effort: a.run.effort,
                    },
                ]
                &&& next(a.run, EventView::Materialized(id)).run.goal_id == id
                &&& next(a.run, EventView::Materialized(id)).run.iteration == m.iteration + 1
                &&& next(a.run, EventView::Materialized(id)).actions == seq![ActionView::Poll]
            }
        }),
{
    let a = next(v, EventView::Recalled(Some(m)));
    if v.req.existing_goal_id is Some {
        assert(a.actions =~= seq![
            ActionView::Register { goal_id: v.req.existing_goal_id->0 },
            ActionView::Poll,
        ]);
    } else {
        assert(next(a.run, EventView::Materialized(id)).actions =~= seq![ActionView::Poll]);
    }
}

/// A run without a database fails and says why; a task that was recovered then goes back
/// to pending.
pub proof fn law_no_database(v: RunView, e: Seq<char>)
    requires
        v.stage == Stage::Opening,
    ensures
        ({
            let a = next(v, EventView::OpenFailed(e));
            let d = next(v, EventView::DirFailed(e));
            &&& ends_with(a, Err(RunErrorView::Init("open task DB: "@ + e)))
            &&& ends_with(d, Err(RunErrorView::Init("create task DB directory: "@ + e)))
            &&& v.req.recovering ==> a.actions[0] == (ActionView::Move {
                task_id: v.task_id,
                to: TaskStatus::Pending,
            })
            &&& !v.req.recovering ==> a.actions.len() == 1
        }),
{
}

/// A run whose tools cannot be set up fails and says why; a new task is then cancelled,
/// and an existing one put back.
pub proof fn law_no_tools(v: RunView, e: Seq<char>)
    requires
        v.stage == Stage::Configuring,
    ensures
        ({
            let a = next(v, EventView::ConfigFailed(e));
            &&& ends_with(a, Err(RunErrorView::Init("write goal MCP config: "@ + e)))
            &&& a.actions[0] == ActionView::Move {
                task_id: v.task_id,
                to: if v.req.existing_task_id is Some {
                    TaskStatus::Pending
                } else {
                    TaskStatus::Cancelled
                },
            }
        }),
{
}

/// A goal that cannot be shown cancels its task, and the run says why.
pub proof fn law_goal_cannot_be_shown(v: RunView, e: Seq<char>)
    requires
        v.stage == Stage::Materializing,
    ensures
        ({
            let a = next(v, EventView::MaterializeFailed(e));
            &&& ends_with(a, Err(RunErrorView::Init("materialize ACP goal: "@ + e)))
            &&& a.actions[0] == ActionView::Move { task_id: v.task_id, to: TaskStatus::Cancelled }
        }),
{
}

/// A task whose memory cannot be read or makes no sense is put back, and the run says
/// why.
pub proof fn law_no_memory(v: RunView, e: Seq<char>)
    requires
        v.stage == Stage::Recalling,
        v.req.existing_task_id is Some,
    ensures
        ends_with(
            next(v, EventView::DecodeFailed(e)),
            Err(RunErrorView::Init("decode goal metadata: "@ + e)),
        ),
        ends_with(
            next(v, EventView::RecallFailed(e)),
            Err(RunErrorView::Init("read goal metadata: "@ + e)),
        ),
        next(v, EventView::DecodeFailed(e)).actions[0] == (ActionView::Move {
            task_id: v.task_id,
            to: TaskStatus::Pending,
        }),
{
}

/// A task that cannot be made ends the run, which says why.
pub proof fn law_no_new_task(v: RunView, e: Seq<char>)
    requires
        v.stage == Stage::Creating,
    ensures
        ends_with(
            next(v, EventView::CreateFailed(e)),
            Err(RunErrorView::Init("create goal task: "@ + e)),
        ),
{
}

/// A task that cannot be claimed ends the run, which says why.
pub proof fn law_no_claim(v: RunView, e: Seq<char>)
    requires
        v.stage == Stage::Claiming,
    ensures
        ends_with(
            next(v, EventView::ClaimFailed(e)),
            Err(RunErrorView::Init("resume goal task: "@ + e)),
        ),
{
}

/// A task that cannot be read ends the run, which says why.
pub proof fn law_no_look(v: RunView, e: Seq<char>)
    requires
        v.stage == Stage::Looking,
    ensures
        ends_with(
            next(v, EventView::ShowFailed(e)),
            Err(RunErrorView::Init("read goal task: "@ + e)),
        ),
{
}

/// A run begins with the database, with nothing used and no turn yet, with what it is
/// asked for, and with the task that it goes on with, if there is one.
pub proof fn law_run_at_its_start(req: RequestView)
    ensures
        ({
            let v = begun(req);
            &&& v.stage == Stage::Opening && v.tokens_used == 0 && v.iteration == 0
            &&& v.req == req && v.model == req.model && v.effort == req.effort && v.meta == req.blank
            &&& req.existing_task_id matches Some(id) ==> v.task_id == id
            &&& req.existing_task_id is None ==> v.task_id.len() == 0
        }),
{
}

} // verus!
