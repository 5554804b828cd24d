//! The tools by which a model reads and changes its goal.
//!
//! A model may read its goal, create one where none is unfinished, and report
//! it complete or blocked. Where a verify command is set, completion waits for
//! it to succeed; the host runs the command between planning and carrying out
//! the update.

use crate::accounting::{Clock, TokenTotals};
use crate::json;
use crate::json::{Field, FieldView, Json, JsonView};
use crate::metrics::Counter;
use crate::runtime;
use crate::runtime::{GoalRuntimeHandle, RuntimeView};
use crate::service::{Env, GoalService, ServiceView};
use crate::store;
use crate::store::{GoalStoreError, StoreErrorView, StoreView};
use crate::text;
use crate::types;
use crate::types::{CreateGoalRequest, Goal, GoalView, RequestView};
use vstd::prelude::*;
use vstd::string::*;

verus! {

/// How a verify command went.
#[derive(Debug, Clone, PartialEq, Eq)]
pub struct VerifyOutcome {
    pub ok: bool,
    pub output: String,
}

/// The most characters of a verify command's output that are kept.
pub const VERIFY_OUTPUT_CHARS: usize = 4000;

/// Running a verify command in a shell, with a limit on its time: whole seconds,
/// and nanoseconds beyond them.
#[derive(Debug, Clone, Copy, PartialEq, Eq, Structural)]
pub struct ShellVerifyRunner {
    pub timeout_secs: u64,
    pub timeout_subsec_nanos: u32,
}

impl Default for ShellVerifyRunner {
    fn default() -> (r: ShellVerifyRunner)
        ensures
            r.timeout_secs == 600,
            r.timeout_subsec_nanos == 0,
    {
        ShellVerifyRunner { timeout_secs: 600, timeout_subsec_nanos: 0 }
    }
}

/// The decimals of `n` parts of which ten times `unit` make one, without zeros at
/// the end.
pub open spec fn decimals(n: nat, unit: nat) -> Seq<char>
    decreases unit,
{
    if n == 0 || unit == 0 {
        Seq::empty()
    } else {
        seq![text::digit((n / unit) as int)] + decimals(n % unit, unit / 10)
    }
}

/// A number with `n` parts beyond it, of which ten times `unit` make one.
pub open spec fn decimal_text(whole: nat, n: nat, unit: nat) -> Seq<char> {
    if n == 0 {
        text::nat_text(whole)
    } else {
        text::nat_text(whole) + "."@ + decimals(n, unit)
    }
}

/// A span of time, in the largest unit of which it holds one.
pub open spec fn span_text(secs: u64, nanos: u32) -> Seq<char> {
    if secs > 0 {
        decimal_text(secs as nat, nanos as nat, 100_000_000) + "s"@
    } else if nanos >= 1_000_000 {
        decimal_text((nanos / 1_000_000) as nat, (nanos % 1_000_000) as nat, 100_000) + "ms"@
    } else if nanos >= 1_000 {
        decimal_text((nanos / 1_000) as nat, (nanos % 1_000) as nat, 100) + "µs"@
    } else {
        text::nat_text(nanos as nat) + "ns"@
    }
}

/// Whether `unit` is a power of ten, up to a tenth of a second in nanoseconds.
spec fn is_unit(unit: int) -> bool {
    ||| unit == 1 || unit == 10 || unit == 100
    ||| unit == 1_000 || unit == 10_000 || unit == 100_000
    ||| unit == 1_000_000 || unit == 10_000_000 || unit == 100_000_000
}

proof fn lemma_next_decimal(n: int, unit: int)
    requires
        is_unit(unit),
        0 <= n < 10 * unit,
    ensures
        0 <= n / unit < 10,
        unit == 1 ==> n % unit == 0 && unit / 10 == 0,
        unit > 1 ==> is_unit(unit / 10) && 0 <= n % unit < 10 * (unit / 10),
{
}

fn push_decimal(out: &mut String, whole: u64, n: u32, unit: u32)
    requires
        is_unit(unit as int),
        n < 10 * unit,
    ensures
        final(out)@ == old(out)@ + decimal_text(whole as nat, n as nat, unit as nat),
{
    text::push_u64(out, whole);
    if n == 0 {
        return ;
    }
    out.append(".");
    let ghost before = out@;
    let mut rest: u32 = n;
    let mut part: u32 = unit;
    assert(out@ + decimals(rest as nat, part as nat) =~= before + decimals(n as nat, unit as nat));
    while rest > 0 && part > 0
        invariant
            part > 0 ==> is_unit(part as int) && rest < 10 * part,
            part == 0 ==> rest == 0,
            out@ + decimals(rest as nat, part as nat) == before + decimals(n as nat, unit as nat),
        decreases part,
    {
        proof {
            lemma_next_decimal(rest as int, part as int);
        }
        let d: u8 = (rest / part) as u8;
        let ghost so_far = out@;
        out.push((48u8 + d) as char);
        assert(out@ + decimals((rest % part) as nat, (part / 10) as nat) =~= so_far + decimals(
            rest as nat,
            part as nat,
        ));
        rest = rest % part;
        part = part / 10;
    }
    assert(out@ =~= before + decimals(n as nat, unit as nat));
}

/// Appends a span of time.
fn push_span(out: &mut String, secs: u64, nanos: u32)
    requires
        nanos < 1_000_000_000,
    ensures
        final(out)@ == old(out)@ + span_text(secs, nanos),
{
    if secs > 0 {
        push_decimal(out, secs, nanos, 100_000_000);
        out.append("s");
    } else if nanos >= 1_000_000 {
        push_decimal(out, (nanos / 1_000_000) as u64, nanos % 1_000_000, 100_000);
        out.append("ms");
    } else if nanos >= 1_000 {
        push_decimal(out, (nanos / 1_000) as u64, nanos % 1_000, 100);
        out.append("µs");
    } else {
        text::push_u64(out, nanos as u64);
        out.append("ns");
    }
    assert(out@ =~= old(out)@ + span_text(secs, nanos));
}

/// What is told of a command that ended: its output and its errors, cut short;
/// where it failed without either, its exit code.
pub open spec fn verify_output(
    success: bool,
    code: Option<i32>,
    stdout: Seq<char>,
    stderr: Seq<char>,
) -> Seq<char> {
    let shown = text::head(stdout + stderr, VERIFY_OUTPUT_CHARS as nat);
    if !success && text::trimmed(shown).len() == 0 {
        "exit code: "@ + text::int_text(
            match code {
                Some(c) => c as int,
                None => -1,
            },
        )
    } else {
        shown
    }
}

impl ShellVerifyRunner {
    /// How a command that ended went.
    pub fn ended(&self, success: bool, code: Option<i32>, stdout: &str, stderr: &str) -> (r:
        VerifyOutcome)
        ensures
            r.ok == success,
            r.output@ == verify_output(success, code, stdout@, stderr@),
    {
        let mut all: String = stdout.to_owned();
        all.append(stderr);
        let shown: &str = text::take_chars(all.as_str(), VERIFY_OUTPUT_CHARS);
        if !success && text::trim(shown).is_empty() {
            let mut out: String = "exit code: ".to_owned();
            let n: i64 = match code {
                Some(c) => c as i64,
                None => -1,
            };
            text::push_i64(&mut out, n);
            return VerifyOutcome { ok: false, output: out };
        }
        VerifyOutcome { ok: success, output: shown.to_owned() }
    }

    /// How a command went that could not be started.
    pub fn not_started(&self, error: &str) -> (r: VerifyOutcome)
        ensures
            !r.ok,
            r.output@ == "failed to spawn: "@ + error@,
    {
        let mut out: String = "failed to spawn: ".to_owned();
        out.append(error);
        VerifyOutcome { ok: false, output: out }
    }

    /// How a command went that took too long.
    pub fn timed_out(&self) -> (r: VerifyOutcome)
        requires
            self.timeout_subsec_nanos < 1_000_000_000,
        ensures
            !r.ok,
            r.output@ == "verify command timed out after "@ + span_text(
                self.timeout_secs,
                self.timeout_subsec_nanos,
            ),
    {
        let mut out: String = "verify command timed out after ".to_owned();
        push_span(&mut out, self.timeout_secs, self.timeout_subsec_nanos);
        VerifyOutcome { ok: false, output: out }
    }
}

/// A number, or a sign for no limit.
pub open spec fn limit_text(n: Option<int>) -> Seq<char> {
    match n {
        Some(n) => text::int_text(n),
        None => "∞"@,
    }
}

/// The budget as a number without bounds.
pub open spec fn budget_of(g: GoalView) -> Option<int> {
    match g.token_budget {
        Some(b) => Some(b as int),
        None => None,
    }
}

/// What a goal looks like to a model or a user.
#[verifier::opaque]
pub open spec fn snapshot_text(g: GoalView) -> Seq<char> {
    let base = "Goal "@ + g.goal_id + " status: "@ + types::status_text(g.status) + "\nObjective: "@
        + g.objective + "\nBudget: "@ + text::int_text(g.tokens_used as int) + "/"@ + limit_text(
        budget_of(g),
    ) + " tokens used ("@ + limit_text(g.remaining()) + " remaining)\nTime spent: "@
        + text::int_text(g.time_used_seconds as int) + "s"@;
    let verified = match g.verify_command {
        Some(c) => base + "\nVerify command: `"@ + c + "`"@,
        None => base,
    };
    match g.status_reason {
        Some(r) => verified + "\nReason: "@ + r,
        None => verified,
    }
}

fn push_limit(out: &mut String, n: Option<i64>)
    ensures
        final(out)@ == old(out)@ + limit_text(
            match n {
                Some(n) => Some(n as int),
                None => None,
            },
        ),
{
    match n {
        Some(n) => text::push_i64(out, n),
        None => out.append("∞"),
    }
}

/// What a goal looks like to a model or a user.
pub fn render_goal_snapshot(goal: &Goal) -> (r: String)
    ensures
        r@ == snapshot_text(goal@),
{
    reveal(snapshot_text);
    let mut out: String = "Goal ".to_owned();
    out.append(goal.goal_id.as_str());
    out.append(" status: ");
    out.append(goal.status.as_str());
    out.append("\nObjective: ");
    out.append(goal.objective.as_str());
    out.append("\nBudget: ");
    text::push_i64(&mut out, goal.tokens_used);
    out.append("/");
    push_limit(&mut out, goal.token_budget);
    out.append(" tokens used (");
    push_limit(&mut out, goal.remaining_tokens());
    out.append(" remaining)\nTime spent: ");
    text::push_i64(&mut out, goal.time_used_seconds);
    out.append("s");
    match &goal.verify_command {
        Some(c) => {
            out.append("\nVerify command: `");
            out.append(c.as_str());
            out.append("`");
        },
        None => {},
    }
    match &goal.status_reason {
        Some(r) => {
            out.append("\nReason: ");
            out.append(r.as_str());
        },
        None => {},
    }
    out
}

/// What a model is told on a thread without a goal.
pub open spec fn no_goal(t: Seq<char>) -> Seq<char> {
    "No goal is set on thread "@ + t
        + ". Use create_goal to arm one (only when the user explicitly asks)."@
}

/// What a model is told on a thread without a goal.
pub fn no_goal_text(thread_id: &str) -> (r: String)
    ensures
        r@ == no_goal(thread_id@),
{
    let mut out: String = "No goal is set on thread ".to_owned();
    out.append(thread_id);
    out.append(". Use create_goal to arm one (only when the user explicitly asks).");
    out
}

/// Why a tool call failed.
#[derive(Debug, Clone, PartialEq, Eq)]
pub enum ToolCallError {
    InvalidInput(String),
    ToolError(String),
}

/// The mathematical value of a [`ToolCallError`].
pub enum ToolErrorView {
    InvalidInput(Seq<char>),
    ToolError(Seq<char>),
}

impl View for ToolCallError {
    type V = ToolErrorView;

    open spec fn view(&self) -> ToolErrorView {
        match self {
            ToolCallError::InvalidInput(s) => ToolErrorView::InvalidInput(s@),
            ToolCallError::ToolError(s) => ToolErrorView::ToolError(s@),
        }
    }
}

/// Whether `r` is the answer, or the error, `want`.
pub open spec fn answer_is(
    r: Result<String, ToolCallError>,
    want: Result<Seq<char>, ToolErrorView>,
) -> bool {
    match want {
        Ok(s) => r is Ok && r->Ok_0@ == s,
        Err(e) => r is Err && r->Err_0@ == e,
    }
}

/// The tool that shows a model its goal.
pub struct GetGoalTool;

impl GetGoalTool {
    /// Shows the thread's goal, with its objective in full.
    pub fn call(&self, handle: &GoalRuntimeHandle, service: &GoalService) -> (r: String)
        requires
            service.wf(),
        ensures
            r@ == match service@.store.goal(handle@.thread_id) {
                Some(g) => snapshot_text(service@.store.resolved(g)),
                None => no_goal(handle@.thread_id),
            },
    {
        match service.store.read(handle.thread_id()) {
            None => no_goal_text(handle.thread_id()),
            Some(g) => {
                proof {
                    service.store.lemma_wf();
                }
                let full: Goal = service.resolve_objective(g);
                render_goal_snapshot(&full)
            },
        }
    }
}

/// What a model is told that may not create a goal yet.
pub const CREATE_REFUSED: &'static str =
    "Refused: this session already has an unfinished goal. Check it with get_goal, drive it to `complete` via update_goal, or mark it `blocked` with a reason; then create the new goal. You may not overwrite an unfinished goal.";

/// The tool by which a model creates its goal.
pub struct CreateGoalTool;

/// The objective and budget that a call asks for.
pub open spec fn create_args(args: JsonView) -> Result<(Seq<char>, Option<i64>), ToolErrorView> {
    let objective = match args.field("objective"@) {
        Some(v) => v.text(),
        None => None,
    };
    match objective {
        None => Err(ToolErrorView::InvalidInput("objective (string) is required"@)),
        Some(o) => match args.field("token_budget"@) {
            None => Ok((o, None)),
            Some(JsonView::Null) => Ok((o, None)),
            Some(v) => match v.signed() {
                Some(n) => Ok((o, Some(n as i64))),
                None => Err(ToolErrorView::InvalidInput("token_budget must be an integer"@)),
            },
        },
    }
}

/// What a tool call leaves behind.
pub struct CallEnd {
    pub rt: RuntimeView,
    pub svc: ServiceView,
    pub answer: Result<Seq<char>, ToolErrorView>,
}

/// A call that creates a goal.
pub open spec fn create_called(
    rt: RuntimeView,
    svc: ServiceView,
    args: JsonView,
    goal_id: Seq<char>,
    usage: Option<TokenTotals>,
    env: Env,
) -> CallEnd {
    match create_args(args) {
        Err(e) => CallEnd { rt, svc, answer: Err(e) },
        Ok((objective, budget)) => {
            let req = RequestView {
                thread_id: rt.thread_id,
                objective,
                token_budget: budget,
                verify_command: None,
            };
            match svc.store.created(req, goal_id, env.cap, env.now.wall_ms) {
                Ok(g) => CallEnd {
                    rt: runtime::armed(
                        rt,
                        goal_id,
                        match usage {
                            Some(u) => u,
                            None => runtime::known_usage(rt),
                        },
                    ),
                    svc: ServiceView { store: svc.store.with_goal(rt.thread_id, g), ..svc },
                    answer: Ok("Goal created and armed.\n\n"@ + snapshot_text(g)),
                },
                Err(StoreErrorView::ExistingUnfinishedGoal(_)) => CallEnd {
                    rt,
                    svc,
                    answer: Ok(CREATE_REFUSED@),
                },
                Err(StoreErrorView::Validation(e)) => CallEnd {
                    rt,
                    svc,
                    answer: Ok("Invalid goal: "@ + types::validation_text(e)),
                },
                Err(e) => CallEnd {
                    rt,
                    svc,
                    answer: Err(ToolErrorView::ToolError(store::store_error_text(e))),
                },
            }
        },
    }
}

fn parse_create_args(args: &Json) -> (r: Result<(String, Option<i64>), ToolCallError>)
    ensures
        match create_args(args@) {
            Ok((o, b)) => r is Ok && r->Ok_0.0@ == o && r->Ok_0.1 == b,
            Err(e) => r is Err && r->Err_0@ == e,
        },
{
    let objective: Option<String> = match args.get("objective") {
        Some(v) => text::own_opt(v.as_str()),
        None => None,
    };
    let objective: String = match objective {
        Some(o) => o,
        None => {
            return Err(ToolCallError::InvalidInput("objective (string) is required".to_owned()));
        },
    };
    match args.get("token_budget") {
        None => Ok((objective, None)),
        Some(Json::Null) => Ok((objective, None)),
        Some(v) => match v.as_i64() {
            Some(n) => Ok((objective, Some(n))),
            None => Err(ToolCallError::InvalidInput("token_budget must be an integer".to_owned())),
        },
    }
}

impl CreateGoalTool {
    /// Creates a goal with the id `goal_id`. Its usage counts from `usage`, or
    /// from the totals last known.
    pub fn call(
        &self,
        handle: &mut GoalRuntimeHandle,
        service: &mut GoalService,
        args: &Json,
        goal_id: &str,
        usage: Option<TokenTotals>,
        env: Env,
    ) -> (r: Result<String, ToolCallError>)
        requires
            old(handle).wf(),
            old(service).wf(),
        ensures
            final(handle).wf(),
            final(service).wf(),
            ({
                let end = create_called(old(handle)@, old(service)@, args@, goal_id@, usage, env);
                &&& final(handle)@ == end.rt
                &&& final(service)@ == end.svc
                &&& answer_is(r, end.answer)
            }),
    {
        let (objective, token_budget): (String, Option<i64>) = match parse_create_args(args) {
            Ok(p) => p,
            Err(e) => {
                return Err(e);
            },
        };
        let req: CreateGoalRequest = CreateGoalRequest {
            thread_id: handle.thread_id().to_owned(),
            objective,
            token_budget,
            verify_command: None,
        };
        match service.store.create(&req, goal_id, env.cap, env.now.wall_ms) {
            Ok(goal) => {
                match usage {
                    Some(u) => handle.note_goal_armed_at(goal_id, u),
                    None => handle.note_goal_armed(goal_id),
                }
                let mut out: String = "Goal created and armed.\n\n".to_owned();
                out.append(render_goal_snapshot(&goal).as_str());
                Ok(out)
            },
            Err(GoalStoreError::ExistingUnfinishedGoal(_)) => Ok(CREATE_REFUSED.to_owned()),
            Err(GoalStoreError::Validation(e)) => {
                let mut out: String = "Invalid goal: ".to_owned();
                out.append(e.message().as_str());
                Ok(out)
            },
            Err(e) => Err(ToolCallError::ToolError(e.message())),
        }
    }
}

/// The tool by which a model reports its goal complete or blocked.
pub struct UpdateGoalTool;

/// What an update comes to, before anything is changed.
#[derive(Debug)]
pub enum UpdatePlan {
    /// The call asks for something else.
    Refused(ToolCallError),
    /// The thread has no goal; the model is told so.
    NoGoal(String),
    Block { goal_id: String, reason: String },
    /// Where there is a verify command, the host runs it first.
    Complete { goal_id: String, verify_command: Option<String>, report: String },
}

/// The mathematical value of an [`UpdatePlan`].
#[allow(inconsistent_fields)]
pub enum PlanView {
    Refused(ToolErrorView),
    NoGoal(Seq<char>),
    Block { goal_id: Seq<char>, reason: Seq<char> },
    Complete { goal_id: Seq<char>, verify_command: Option<Seq<char>>, report: Seq<char> },
}

impl View for UpdatePlan {
    type V = PlanView;

    open spec fn view(&self) -> PlanView {
        match self {
            UpdatePlan::Refused(e) => PlanView::Refused(e@),
            UpdatePlan::NoGoal(s) => PlanView::NoGoal(s@),
            UpdatePlan::Block { goal_id, reason } => PlanView::Block {
                goal_id: goal_id@,
                reason: reason@,
            },
            UpdatePlan::Complete { goal_id, verify_command, report } => PlanView::Complete {
                goal_id: goal_id@,
                verify_command: text::opt_text(*verify_command),
                report: report@,
            },
        }
    }
}

/// The text under a key, or none at all.
pub open spec fn text_or_empty(args: JsonView, key: Seq<char>) -> Seq<char> {
    match args.field(key) {
        Some(v) => match v.text() {
            Some(s) => s,
            None => Seq::empty(),
        },
        None => Seq::empty(),
    }
}

/// Why a goal is blocked where the model gives no reason.
pub const BLOCKED_BY_MODEL: &'static str = "blocked by model";

/// What a call that updates the goal of thread `t` comes to.
pub open spec fn update_plan(s: StoreView, t: Seq<char>, args: JsonView) -> PlanView {
    let status = match args.field("status"@) {
        Some(v) => v.text(),
        None => None,
    };
    match status {
        None => PlanView::Refused(ToolErrorView::InvalidInput("status (string) is required"@)),
        Some(status) => if status == "blocked"@ {
            match s.goal(t) {
                None => PlanView::NoGoal(no_goal(t)),
                Some(g) => PlanView::Block {
                    goal_id: g.goal_id,
                    reason: if text_or_empty(args, "reason"@).len() == 0 {
                        BLOCKED_BY_MODEL@
                    } else {
                        text_or_empty(args, "reason"@)
                    },
                },
            }
        } else if status == "complete"@ {
            match s.goal(t) {
                None => PlanView::NoGoal(no_goal(t)),
                Some(g) => PlanView::Complete {
                    goal_id: g.goal_id,
                    verify_command: g.verify_command,
                    report: text_or_empty(args, "completion_budget_report"@),
                },
            }
        } else {
            PlanView::Refused(
                ToolErrorView::InvalidInput(
                    "status must be `complete` or `blocked`, got `"@ + status + "`"@,
                ),
            )
        },
    }
}

fn owned_text(args: &Json, key: &str) -> (r: String)
    ensures
        r@ == text_or_empty(args@, key@),
{
    match args.get(key) {
        Some(v) => match v.as_str() {
            Some(s) => s.to_owned(),
            None => String::new(),
        },
        None => String::new(),
    }
}

/// What a model is told whose completion did not pass its verify command.
pub open spec fn completion_refused(command: Seq<char>, output: Seq<char>) -> Seq<char> {
    "Completion REFUSED: verify command `"@ + command + "` failed.\n--- verify output ---\n"@ + output
        + "\n---------------------\nFix the issue and continue working toward the goal."@
}

/// What a model is told whose goal is complete.
pub open spec fn completion_text(g: GoalView, report: Seq<char>) -> Seq<char> {
    let head = "Goal "@ + g.goal_id + " marked complete."@;
    let told = if report.len() == 0 {
        head
    } else {
        head + "\nCompletion report:\n"@ + report
    };
    told + "\nFinal accounting: "@ + text::int_text(g.tokens_used as int) + "/"@ + limit_text(
        budget_of(g),
    ) + " tokens, "@ + text::int_text(g.time_used_seconds as int) + "s."@
}

/// Carrying out an update: usage is settled while the goal can still take it,
/// then the goal changes. A verify command that failed refuses completion and
/// changes nothing.
pub open spec fn updated(
    rt: RuntimeView,
    svc: ServiceView,
    plan: PlanView,
    verify: Option<(bool, Seq<char>)>,
    usage: Option<TokenTotals>,
    now: Clock,
) -> CallEnd {
    let t = rt.thread_id;
    let settled = runtime::settled(rt, svc, usage, now);
    match plan {
        PlanView::Refused(e) => CallEnd { rt, svc, answer: Err(e) },
        PlanView::NoGoal(s) => CallEnd { rt, svc, answer: Ok(s) },
        PlanView::Block { goal_id, reason } => match settled.turn {
            Err(e) => CallEnd {
                rt: settled.rt,
                svc: settled.svc,
                answer: Err(ToolErrorView::ToolError(store::store_error_text(e))),
            },
            Ok(_) => match settled.svc.store.blocked(t, goal_id, reason, now.wall_ms) {
                Ok(g) => CallEnd {
                    rt: settled.rt,
                    svc: ServiceView {
                        store: settled.svc.store.with_goal(t, g),
                        metrics: settled.svc.metrics.recorded(Counter::GoalsBlocked, t),
                    },
                    answer: Ok(
                        "Goal "@ + g.goal_id
                            + " marked blocked. Surface the blocker to the user clearly; do not keep retrying the same failing approach."@,
                    ),
                },
                Err(_) => CallEnd {
                    rt: settled.rt,
                    svc: settled.svc,
                    answer: Ok(
                        "Goal "@ + goal_id + " is not in active state; cannot mark blocked."@,
                    ),
                },
            },
        },
        PlanView::Complete { goal_id, verify_command, report } => if verify_command is Some && verify
            is Some && !verify->Some_0.0 {
            CallEnd {
                rt,
                svc,
                answer: Ok(completion_refused(verify_command->Some_0, verify->Some_0.1)),
            }
        } else {
            match settled.turn {
                Err(e) => CallEnd {
                    rt: settled.rt,
                    svc: settled.svc,
                    answer: Err(ToolErrorView::ToolError(store::store_error_text(e))),
                },
                Ok(_) => match settled.svc.store.completed(t, goal_id, now.wall_ms) {
                    Ok(g) => CallEnd {
                        rt: settled.rt,
                        svc: ServiceView {
                            store: settled.svc.store.with_goal(t, g),
                            metrics: settled.svc.metrics.recorded(Counter::GoalsCompleted, t),
                        },
                        answer: Ok(completion_text(g, report)),
                    },
                    Err(_) => CallEnd {
                        rt: settled.rt,
                        svc: settled.svc,
                        answer: Ok(
                            "Goal "@ + goal_id + " is not in active state; cannot complete."@,
                        ),
                    },
                },
            }
        },
    }
}

/// The value of an optional verify outcome.
pub open spec fn verify_view(v: Option<VerifyOutcome>) -> Option<(bool, Seq<char>)> {
    match v {
        Some(o) => Some((o.ok, o.output@)),
        None => None,
    }
}

impl UpdateGoalTool {
    /// What a call comes to.
    pub fn plan(&self, handle: &GoalRuntimeHandle, service: &GoalService, args: &Json) -> (r:
        UpdatePlan)
        requires
            service.wf(),
        ensures
            r@ == update_plan(service@.store, handle@.thread_id, args@),
    {
        let status: Option<String> = match args.get("status") {
            Some(v) => text::own_opt(v.as_str()),
            None => None,
        };
        let status: String = match status {
            Some(s) => s,
            None => {
                return UpdatePlan::Refused(
                    ToolCallError::InvalidInput("status (string) is required".to_owned()),
                );
            },
        };
        if text::same(status.as_str(), "blocked") {
            match service.store.read(handle.thread_id()) {
                None => UpdatePlan::NoGoal(no_goal_text(handle.thread_id())),
                Some(g) => {
                    let given: String = owned_text(args, "reason");
                    let reason: String = if given.as_str().is_empty() {
                        BLOCKED_BY_MODEL.to_owned()
                    } else {
                        given
                    };
                    UpdatePlan::Block { goal_id: g.goal_id, reason }
                },
            }
        } else if text::same(status.as_str(), "complete") {
            match service.store.read(handle.thread_id()) {
                None => UpdatePlan::NoGoal(no_goal_text(handle.thread_id())),
                Some(g) => UpdatePlan::Complete {
                    goal_id: g.goal_id,
                    verify_command: g.verify_command,
                    report: owned_text(args, "completion_budget_report"),
                },
            }
        } else {
            let mut m: String = "status must be `complete` or `blocked`, got `".to_owned();
            m.append(status.as_str());
            m.append("`");
            UpdatePlan::Refused(ToolCallError::InvalidInput(m))
        }
    }

    /// Carries out a call. `verify` is how the verify command went, which the
    /// host has run where the plan has one.
    pub fn call(
        &self,
        handle: &mut GoalRuntimeHandle,
        service: &mut GoalService,
        plan: UpdatePlan,
        verify: Option<VerifyOutcome>,
        usage: Option<TokenTotals>,
        now: Clock,
    ) -> (r: Result<String, ToolCallError>)
        requires
            old(handle).wf(),
            old(service).wf(),
            plan@ matches PlanView::Complete { verify_command, .. } && verify_command is Some
                ==> verify is Some,
        ensures
            final(handle).wf(),
            final(service).wf(),
            ({
                let end = updated(
                    old(handle)@,
                    old(service)@,
                    plan@,
                    verify_view(verify),
                    usage,
                    now,
                );
                &&& final(handle)@ == end.rt
                &&& final(service)@ == end.svc
                &&& answer_is(r, end.answer)
            }),
    {
        match plan {
            UpdatePlan::Refused(e) => Err(e),
            UpdatePlan::NoGoal(s) => Ok(s),
            UpdatePlan::Block { goal_id, reason } => {
                match handle.before_model_status_update(service, usage, now) {
                    Ok(()) => {},
                    Err(e) => {
                        return Err(ToolCallError::ToolError(e.message()));
                    },
                }
                match service.store.mark_blocked(
                    handle.thread_id(),
                    goal_id.as_str(),
                    reason.as_str(),
                    now.wall_ms,
                ) {
                    Ok(g) => {
                        service.metrics.record_blocked(handle.thread_id());
                        let mut out: String = "Goal ".to_owned();
                        out.append(g.goal_id.as_str());
                        out.append(
                            " marked blocked. Surface the blocker to the user clearly; do not keep retrying the same failing approach.",
                        );
                        Ok(out)
                    },
                    Err(_) => {
                        let mut out: String = "Goal ".to_owned();
                        out.append(goal_id.as_str());
                        out.append(" is not in active state; cannot mark blocked.");
                        Ok(out)
                    },
                }
            },
            UpdatePlan::Complete { goal_id, verify_command, report } => {
                match (&verify_command, &verify) {
                    (Some(command), Some(outcome)) => {
                        if !outcome.ok {
                            let mut out: String = "Completion REFUSED: verify command `".to_owned();
                            out.append(command.as_str());
                            out.append("` failed.\n--- verify output ---\n");
                            out.append(outcome.output.as_str());
                            out.append(
                                "\n---------------------\nFix the issue and continue working toward the goal.",
                            );
                            return Ok(out);
                        }
                    },
                    _ => {},
                }
                match handle.before_model_status_update(service, usage, now) {
                    Ok(()) => {},
                    Err(e) => {
                        return Err(ToolCallError::ToolError(e.message()));
                    },
                }
                match service.store.mark_complete(
                    handle.thread_id(),
                    goal_id.as_str(),
                    now.wall_ms,
                ) {
                    Ok(g) => {
                        service.metrics.record_complete(handle.thread_id());
                        let mut out: String = "Goal ".to_owned();
                        out.append(g.goal_id.as_str());
                        out.append(" marked complete.");
                        if !report.as_str().is_empty() {
                            out.append("\nCompletion report:\n");
                            out.append(report.as_str());
                        }
                        out.append("\nFinal accounting: ");
                        text::push_i64(&mut out, g.tokens_used);
                        out.append("/");
                        push_limit(&mut out, g.token_budget);
                        out.append(" tokens, ");
                        text::push_i64(&mut out, g.time_used_seconds);
                        out.append("s.");
                        Ok(out)
                    },
                    Err(_) => {
                        let mut out: String = "Goal ".to_owned();
                        out.append(goal_id.as_str());
                        out.append(" is not in active state; cannot complete.");
                        Ok(out)
                    },
                }
            },
        }
    }
}

/// A goal with a verify command is not completed while the command fails: the
/// model is refused, and neither the table nor the account changes.
pub proof fn law_failed_verify_refuses_completion(
    rt: RuntimeView,
    svc: ServiceView,
    args: JsonView,
    output: Seq<char>,
    usage: Option<TokenTotals>,
    now: Clock,
)
    requires
        rt.wf(),
        svc.store.wf(),
        update_plan(svc.store, rt.thread_id, args) matches PlanView::Complete {
            verify_command,
            ..
        } && verify_command is Some,
    ensures
        ({
            let plan = update_plan(svc.store, rt.thread_id, args);
            let end = updated(rt, svc, plan, Some((false, output)), usage, now);
            &&& end.svc == svc
            &&& end.rt == rt
            &&& end.answer == Ok::<Seq<char>, ToolErrorView>(
                completion_refused(plan->verify_command->Some_0, output),
            )
        }),
{
}

/// A model changes its goal's status to complete or blocked and to nothing
/// else, and only from active; whatever it reports, a goal in another status
/// keeps it.
pub proof fn law_model_ends_active_goals_only(
    rt: RuntimeView,
    svc: ServiceView,
    args: JsonView,
    verify: Option<(bool, Seq<char>)>,
    usage: Option<TokenTotals>,
    now: Clock,
)
    requires
        rt.wf(),
        svc.store.wf(),
        svc.store.rows.contains_key(rt.thread_id),
    ensures
        ({
            let g = svc.store.rows[rt.thread_id];
            let end = updated(
                rt,
                svc,
                update_plan(svc.store, rt.thread_id, args),
                verify,
                usage,
                now,
            );
            let h = end.svc.store.rows[rt.thread_id];
            &&& end.svc.store.rows.contains_key(rt.thread_id)
            &&& h.goal_id == g.goal_id
            &&& g.status != types::GoalStatus::Active ==> h.status == g.status
            &&& g.status == types::GoalStatus::Active ==> (h.status == types::GoalStatus::Active
                || h.status == types::GoalStatus::Complete || h.status == types::GoalStatus::Blocked
                || h.status == types::GoalStatus::BudgetLimited)
        }),
{
}

/// What a tool is called, what it is for, and what it takes.
#[derive(Debug)]
pub struct ToolSpec {
    pub name: &'static str,
    pub description: &'static str,
    pub parameters: Json,
}

/// What the tool that shows a goal is for.
pub const GET_DESCRIPTION: &'static str =
    "Get the current goal state for this session: status, objective, token budget usage (tokens_used / token_budget / remaining) and time spent. Check this before planning long work or when unsure whether a goal is active.";

/// What the tool that creates a goal is for.
pub const CREATE_DESCRIPTION: &'static str =
    "Create the goal for this session. ONLY create a goal when the user or the system explicitly asks to set/track a goal — never on your own initiative. Rules:\n- You cannot create a new goal while an unfinished one exists (complete or get it blocked first).\n- `objective` must be a concrete, verifiable statement of done.\n- `token_budget` is optional; when set it must be positive and within the allowed maximum.\n- The new goal starts in `active` status immediately.";

/// What the tool that updates a goal is for.
pub const UPDATE_DESCRIPTION: &'static str =
    "Update the active goal's lifecycle status. Rules:\n- `status` must be `complete` or `blocked` — nothing else is accepted.\n- Use `complete` ONLY after performing a completion audit: restate the objective as concrete deliverables, verify every item against the actual current state, and include a `completion_budget_report` (what was delivered, what was intentionally left out, remaining risks).\n- If a verify command is configured, it will run before completion is accepted; on failure you must continue working.\n- Use `blocked` when progress is impossible and needs user intervention. If you have found yourself blocked on this goal for roughly three consecutive attempts (each time reporting blocked and re-attempting without new information), stop attempting and clearly surface the blocker to the user instead of repeating.";

/// An entry.
pub open spec fn entry(key: Seq<char>, value: JsonView) -> FieldView {
    FieldView { key, value }
}

/// The schema of an object with some properties, of which some are required.
pub open spec fn schema(properties: Seq<FieldView>, required: Option<Seq<char>>) -> JsonView {
    let head = seq![
        entry("type"@, JsonView::Str("object"@)),
        entry("properties"@, JsonView::Obj(properties)),
    ];
    let listed = match required {
        Some(r) => head.push(entry("required"@, JsonView::Arr(seq![JsonView::Str(r)]))),
        None => head,
    };
    JsonView::Obj(listed.push(entry("additionalProperties"@, JsonView::Bool(false))))
}

/// The schema of the tool that creates a goal.
pub open spec fn create_schema() -> JsonView {
    schema(
        seq![
            entry(
                "objective"@,
                JsonView::Obj(
                    seq![
                        entry("type"@, JsonView::Str("string"@)),
                        entry("minLength"@, JsonView::Int(1)),
                        entry(
                            "description"@,
                            JsonView::Str("Concrete, verifiable statement of done."@),
                        ),
                    ],
                ),
            ),
            entry(
                "token_budget"@,
                JsonView::Obj(
                    seq![
                        entry("type"@, JsonView::Str("integer"@)),
                        entry("exclusiveMinimum"@, JsonView::Int(0)),
                        entry(
                            "description"@,
                            JsonView::Str("Optional token budget for the goal."@),
                        ),
                    ],
                ),
            ),
        ],
        Some("objective"@),
    )
}

/// The schema of the tool that updates a goal.
pub open spec fn update_schema() -> JsonView {
    schema(
        seq![
            entry(
                "status"@,
                JsonView::Obj(
                    seq![
                        entry("type"@, JsonView::Str("string"@)),
                        entry(
                            "enum"@,
                            JsonView::Arr(
                                seq![JsonView::Str("complete"@), JsonView::Str("blocked"@)],
                            ),
                        ),
                    ],
                ),
            ),
            entry(
                "reason"@,
                JsonView::Obj(
                    seq![
                        entry("type"@, JsonView::Str("string"@)),
                        entry(
                            "description"@,
                            JsonView::Str("For blocked: what is blocking progress."@),
                        ),
                    ],
                ),
            ),
            entry(
                "completion_budget_report"@,
                JsonView::Obj(
                    seq![
                        entry("type"@, JsonView::Str("string"@)),
                        entry(
                            "description"@,
                            JsonView::Str(
                                "For complete: what was delivered / left out / remaining risks."@,
                            ),
                        ),
                    ],
                ),
            ),
        ],
        Some("status"@),
    )
}

fn make_schema(properties: Vec<Field>, required: Option<&str>) -> (r: Json)
    ensures
        r@ == schema(json::fields_view(properties@), text::opt_str(required)),
{
    let mut f: Vec<Field> = json::no_fields();
    json::put(&mut f, "type", json::string("object"));
    json::put(&mut f, "properties", json::object(properties));
    assert(json::fields_view(f@) =~= seq![
        entry("type"@, JsonView::Str("object"@)),
        entry("properties"@, JsonView::Obj(json::fields_view(properties@))),
    ]);
    match required {
        Some(key) => {
            let mut names: Vec<Json> = Vec::new();
            names.push(json::string(key));
            assert(json::items_view(names@) =~= seq![JsonView::Str(key@)]);
            json::put(&mut f, "required", json::array(names));
        },
        None => {},
    }
    json::put(&mut f, "additionalProperties", Json::Bool(false));
    json::object(f)
}

impl GetGoalTool {
    /// What the tool is called, what it is for, and what it takes.
    pub fn spec(&self) -> (r: ToolSpec)
        ensures
            r.name@ == "get_goal"@,
            r.description@ == GET_DESCRIPTION@,
            r.parameters@ == schema(Seq::empty(), None),
    {
        ToolSpec {
            name: "get_goal",
            description: GET_DESCRIPTION,
            parameters: make_schema(json::no_fields(), None),
        }
    }
}

impl CreateGoalTool {
    /// What the tool is called, what it is for, and what it takes.
    pub fn spec(&self) -> (r: ToolSpec)
        ensures
            r.name@ == "create_goal"@,
            r.description@ == CREATE_DESCRIPTION@,
            r.parameters@ == create_schema(),
    {
        let mut objective: Vec<Field> = json::no_fields();
        json::put(&mut objective, "type", json::string("string"));
        json::put(&mut objective, "minLength", json::integer(1));
        json::put(
            &mut objective,
            "description",
            json::string("Concrete, verifiable statement of done."),
        );
        let mut budget: Vec<Field> = json::no_fields();
        json::put(&mut budget, "type", json::string("integer"));
        json::put(&mut budget, "exclusiveMinimum", json::integer(0));
        json::put(&mut budget, "description", json::string("Optional token budget for the goal."));
        assert(json::fields_view(objective@) =~= seq![
            entry("type"@, JsonView::Str("string"@)),
            entry("minLength"@, JsonView::Int(1)),
            entry("description"@, JsonView::Str("Concrete, verifiable statement of done."@)),
        ]);
        assert(json::fields_view(budget@) =~= seq![
            entry("type"@, JsonView::Str("integer"@)),
            entry("exclusiveMinimum"@, JsonView::Int(0)),
            entry("description"@, JsonView::Str("Optional token budget for the goal."@)),
        ]);
        let mut f: Vec<Field> = json::no_fields();
        json::put(&mut f, "objective", json::object(objective));
        json::put(&mut f, "token_budget", json::object(budget));
        let ghost fields = json::fields_view(f@);
        let parameters: Json = make_schema(f, Some("objective"));
        assert(schema(fields, Some("objective"@)) == create_schema()) by {
            assert(fields =~= create_schema()->Obj_0[1].value->Obj_0);
        }
        ToolSpec { name: "create_goal", description: CREATE_DESCRIPTION, parameters }
    }
}

impl UpdateGoalTool {
    /// What the tool is called, what it is for, and what it takes.
    pub fn spec(&self) -> (r: ToolSpec)
        ensures
            r.name@ == "update_goal"@,
            r.description@ == UPDATE_DESCRIPTION@,
            r.parameters@ == update_schema(),
    {
        let mut names: Vec<Json> = Vec::new();
        names.push(json::string("complete"));
        names.push(json::string("blocked"));
        assert(json::items_view(names@) =~= seq![
            JsonView::Str("complete"@),
            JsonView::Str("blocked"@),
        ]);
        let mut status: Vec<Field> = json::no_fields();
        json::put(&mut status, "type", json::string("string"));
        json::put(&mut status, "enum", json::array(names));
        let mut reason: Vec<Field> = json::no_fields();
        json::put(&mut reason, "type", json::string("string"));
        json::put(
            &mut reason,
            "description",
            json::string("For blocked: what is blocking progress."),
        );
        let mut report: Vec<Field> = json::no_fields();
        json::put(&mut report, "type", json::string("string"));
        json::put(
            &mut report,
            "description",
            json::string("For complete: what was delivered / left out / remaining risks."),
        );
        assert(json::fields_view(status@) =~= seq![
            entry("type"@, JsonView::Str("string"@)),
            entry(
                "enum"@,
                JsonView::Arr(seq![JsonView::Str("complete"@), JsonView::Str("blocked"@)]),
            ),
        ]);
        assert(json::fields_view(reason@) =~= seq![
            entry("type"@, JsonView::Str("string"@)),
            entry("description"@, JsonView::Str("For blocked: what is blocking progress."@)),
        ]);
        assert(json::fields_view(report@) =~= seq![
            entry("type"@, JsonView::Str("string"@)),
            entry(
                "description"@,
                JsonView::Str("For complete: what was delivered / left out / remaining risks."@),
            ),
        ]);
        let mut f: Vec<Field> = json::no_fields();
        json::put(&mut f, "status", json::object(status));
        json::put(&mut f, "reason", json::object(reason));
        json::put(&mut f, "completion_budget_report", json::object(report));
        let ghost fields = json::fields_view(f@);
        let parameters: Json = make_schema(f, Some("status"));
        assert(schema(fields, Some("status"@)) == update_schema()) by {
            assert(fields =~= update_schema()->Obj_0[1].value->Obj_0);
        }
        ToolSpec { name: "update_goal", description: UPDATE_DESCRIPTION, parameters }
    }
}

impl GetGoalTool {
    /// What the tool is called.
    pub fn name(&self) -> (r: &'static str)
        ensures
            r@ == "get_goal"@,
    {
        "get_goal"
    }
}

impl CreateGoalTool {
    /// What the tool is called.
    pub fn name(&self) -> (r: &'static str)
        ensures
            r@ == "create_goal"@,
    {
        "create_goal"
    }
}

impl UpdateGoalTool {
    /// What the tool is called.
    pub fn name(&self) -> (r: &'static str)
        ensures
            r@ == "update_goal"@,
    {
        "update_goal"
    }
}

/// The tools of a session: what each is called, what it is for, and what it
/// takes. Only the session that the goal belongs to gets them.
pub fn goal_tools() -> (r: Vec<ToolSpec>)
    ensures
        r@.len() == 3,
        r@[0].name@ == "get_goal"@,
        r@[0].description@ == GET_DESCRIPTION@,
        r@[0].parameters@ == schema(Seq::empty(), None),
        r@[1].name@ == "create_goal"@,
        r@[1].description@ == CREATE_DESCRIPTION@,
        r@[1].parameters@ == create_schema(),
        r@[2].name@ == "update_goal"@,
        r@[2].description@ == UPDATE_DESCRIPTION@,
        r@[2].parameters@ == update_schema(),
{
    vec![GetGoalTool {  }.spec(), CreateGoalTool {  }.spec(), UpdateGoalTool {  }.spec()]
}

/// What a command's output is cut to: its first 4000 characters, errors behind output.
/// A command that failed without a word is told by its exit code.
pub proof fn law_verify_output(success: bool, code: i32, stdout: Seq<char>, stderr: Seq<char>)
    ensures
        ({
            let told = verify_output(success, Some(code), stdout, stderr);
            let all = stdout + stderr;
            let silent = text::trimmed(text::head(all, 4000)).len() == 0;
            &&& success || !silent ==> {
                &&& all.len() <= 4000 ==> told == all
                &&& all.len() > 4000 ==> told == all.take(4000)
            }
            &&& !success && silent ==> told == "exit code: "@ + text::int_text(code as int)
            &&& !success && silent ==> verify_output(success, None, stdout, stderr) == "exit code: "@
                + text::int_text(-1)
        }),
{
}

/// What a snapshot tells of a goal: its id, status and objective, what it used out of
/// what and what is left, and the time spent; a goal without a budget has no limit. A
/// verify command and a reason are added where there are any.
pub proof fn law_snapshot_tells_the_goal(g: GoalView, b: i64, command: Seq<char>, reason: Seq<char>)
    requires
        0 <= g.tokens_used <= b,
    ensures
        ({
            let bare = GoalView { verify_command: None, status_reason: None, ..g };
            let unlimited = GoalView { token_budget: None, ..bare };
            let limited = GoalView { token_budget: Some(b), ..bare };
            let head = "Goal "@ + g.goal_id + " status: "@ + types::status_text(g.status)
                + "\nObjective: "@ + g.objective + "\nBudget: "@ + text::int_text(
                g.tokens_used as int,
            ) + "/"@;
            let tail = " remaining)\nTime spent: "@ + text::int_text(g.time_used_seconds as int)
                + "s"@;
            &&& snapshot_text(unlimited) == head + "∞"@ + " tokens used ("@ + "∞"@ + tail
            &&& snapshot_text(limited) == head + text::int_text(b as int) + " tokens used ("@
                + text::int_text(b - g.tokens_used) + tail
            &&& snapshot_text(GoalView { verify_command: Some(command), ..limited })
                == snapshot_text(limited) + ("\nVerify command: `"@ + command + "`"@)
            &&& snapshot_text(GoalView { status_reason: Some(reason), ..limited }) == snapshot_text(
                limited,
            ) + ("\nReason: "@ + reason)
        }),
{
    reveal(snapshot_text);
    let bare = GoalView { verify_command: None, status_reason: None, ..g };
    let unlimited = GoalView { token_budget: None, ..bare };
    let limited = GoalView { token_budget: Some(b), ..bare };
    let head = "Goal "@ + g.goal_id + " status: "@ + types::status_text(g.status) + "\nObjective: "@
        + g.objective + "\nBudget: "@ + text::int_text(g.tokens_used as int) + "/"@;
    let tail = " remaining)\nTime spent: "@ + text::int_text(g.time_used_seconds as int) + "s"@;
    assert(snapshot_text(unlimited) =~= head + "∞"@ + " tokens used ("@ + "∞"@ + tail);
    assert(snapshot_text(limited) =~= head + text::int_text(b as int) + " tokens used ("@
        + text::int_text(b - g.tokens_used) + tail);
    assert(snapshot_text(GoalView { verify_command: Some(command), ..limited }) =~= snapshot_text(
        limited,
    ) + ("\nVerify command: `"@ + command + "`"@));
    assert(snapshot_text(GoalView { status_reason: Some(reason), ..limited }) =~= snapshot_text(
        limited,
    ) + ("\nReason: "@ + reason));
}

/// What a model's new goal is: the objective and the budget of the call, on a thread
/// whose goal, if any, is complete. It has no verify command, its usage counts from the
/// totals that are reported or last known, and the answer shows it. A call that cannot
/// be read, a goal that is not valid and one that would overwrite another change nothing.
pub proof fn law_model_creates_a_goal(
    rt: RuntimeView,
    svc: ServiceView,
    args: JsonView,
    objective: Seq<char>,
    budget: Option<i64>,
    goal_id: Seq<char>,
    usage: Option<TokenTotals>,
    env: Env,
)
    requires
        args.field("objective"@) == Some(JsonView::Str(objective)),
        args.field("token_budget"@) == match budget {
            Some(b) => Some(JsonView::Int(b as int)),
            None => None,
        },
    ensures
        ({
            let t = rt.thread_id;
            let end = create_called(rt, svc, args, goal_id, usage, env);
            let valid = types::objective_fault(objective) is None && (budget matches Some(b) ==> 1 <= b
                <= env.cap);
            let free = svc.store.rows.contains_key(t) ==> svc.store.rows[t].status is Complete;
            let g = end.svc.store.rows[t];
            &&& valid && free ==> {
                &&& end.svc.store.rows.contains_key(t)
                &&& g.objective == text::trimmed(objective)
                &&& g.token_budget == budget
                &&& g.goal_id == goal_id && g.thread_id == t && g.status is Active
                &&& g.verify_command is None && g.tokens_used == 0
                &&& g.created_at_ms == env.now.wall_ms
                &&& usage matches Some(u) ==> end.rt.account.baseline == Some((goal_id, u))
                &&& usage is None ==> end.rt.account.baseline == Some(
                    (goal_id, runtime::known_usage(rt)),
                )
                &&& end.rt.account.since is None
                &&& end.answer == Ok::<Seq<char>, ToolErrorView>(
                    "Goal created and armed.\n\n"@ + snapshot_text(g),
                )
                &&& end.svc.metrics == svc.metrics
            }
            &&& !(valid && free) ==> end.svc == svc && end.rt == rt
            &&& valid && !free ==> end.answer == Ok::<Seq<char>, ToolErrorView>(CREATE_REFUSED@)
            &&& !valid ==> end.answer is Ok && "Invalid goal: "@.is_prefix_of(end.answer->Ok_0)
        }),
{
    let end = create_called(rt, svc, args, goal_id, usage, env);
    let req = RequestView {
        thread_id: rt.thread_id,
        objective,
        token_budget: budget,
        verify_command: None,
    };
    match req.fault(env.cap) {
        Some(e) => {
            let told = "Invalid goal: "@ + types::validation_text(e);
            assert(told.subrange(0, "Invalid goal: "@.len() as int) =~= "Invalid goal: "@);
        },
        None => {},
    }
}

/// Which calls that create a goal cannot be read: those without an objective that is a
/// text, and those with a budget that is neither nothing nor an integer.
pub proof fn law_create_arguments(args: JsonView)
    ensures
        create_args(args) is Ok <==> (args.field("objective"@) matches Some(JsonView::Str(_))) && (
        args.field("token_budget"@) matches Some(b) ==> b is Null || b.signed() is Some),
        create_args(args) matches Ok((o, b)) ==> args.field("objective"@) == Some(JsonView::Str(o)),
        create_args(args) matches Err(e) ==> e is InvalidInput,
        (args.field("token_budget"@) matches Some(JsonView::Null)) ==> (create_args(args) matches Ok(
            (o, b),
        ) ==> b is None),
{
}

/// What a model may ask of its goal: that it is blocked, for the reason that it gives or
/// else by the model, or complete, with its report; on the goal that the thread has, with
/// the verify command that the goal has. Anything else is refused.
pub proof fn law_model_updates_its_goal(
    s: StoreView,
    t: Seq<char>,
    args: JsonView,
    status: Seq<char>,
    note: Seq<char>,
)
    requires
        args.field("status"@) == Some(JsonView::Str(status)),
        args.field("reason"@) == Some(JsonView::Str(note)),
        args.field("completion_budget_report"@) == Some(JsonView::Str(note)),
    ensures
        ({
            let plan = update_plan(s, t, args);
            let known = status == "blocked"@ || status == "complete"@;
            &&& !known ==> plan is Refused
            &&& known && !s.rows.contains_key(t) ==> plan == PlanView::NoGoal(no_goal(t))
            &&& status == "blocked"@ && s.rows.contains_key(t) ==> plan == (PlanView::Block {
                goal_id: s.rows[t].goal_id,
                reason: if note.len() > 0 {
                    note
                } else {
                    "blocked by model"@
                },
            })
            &&& status == "complete"@ && s.rows.contains_key(t) ==> plan == (PlanView::Complete {
                goal_id: s.rows[t].goal_id,
                verify_command: s.rows[t].verify_command,
                report: note,
            })
        }),
{
    reveal_strlit("blocked");
    reveal_strlit("complete");
    assert("blocked"@.len() != "complete"@.len());
}

/// What a model's update leaves of an active goal: its usage is booked first, then the
/// goal is blocked for the reason, or complete where the verify command passed or there
/// is none, unless that usage was the last of the budget. The change is counted.
pub proof fn law_model_update_is_carried_out(
    rt: RuntimeView,
    svc: ServiceView,
    reason: Seq<char>,
    command: Option<Seq<char>>,
    report: Seq<char>,
    output: Seq<char>,
    base: TokenTotals,
    c: TokenTotals,
    now: Clock,
)
    requires
        runtime::counts_up(rt, svc.store, base, c, now),
        svc.store.rows[rt.thread_id].token_budget matches Some(b) ==> svc.store.rows[rt.thread_id].tokens_used
            + runtime::used_between(base, c) < b,
    ensures
        ({
            let t = rt.thread_id;
            let g = svc.store.rows[t];
            let block = updated(
                rt,
                svc,
                PlanView::Block { goal_id: g.goal_id, reason },
                None,
                Some(c),
                now,
            );
            let plan = PlanView::Complete { goal_id: g.goal_id, verify_command: command, report };
            let done = updated(rt, svc, plan, Some((true, output)), Some(c), now);
            let b = block.svc.store.rows[t];
            let d = done.svc.store.rows[t];
            &&& runtime::has_usage(g, b, rt, base, c, now)
            &&& b.status is Blocked && b.status_reason == Some(reason)
            &&& block.svc.metrics == svc.metrics.recorded(Counter::GoalsBlocked, t)
            &&& block.answer is Ok
            &&& runtime::has_usage(g, d, rt, base, c, now)
            &&& d.status is Complete && d.status_reason is None
            &&& done.svc.metrics == svc.metrics.recorded(Counter::GoalsCompleted, t)
            &&& done.answer == Ok::<Seq<char>, ToolErrorView>(completion_text(d, report))
            &&& updated(
                rt,
                svc,
                PlanView::Complete { goal_id: g.goal_id, verify_command: None, report },
                None,
                Some(c),
                now,
            ).svc == done.svc
            &&& command is Some ==> updated(rt, svc, plan, Some((false, output)), Some(c), now).svc == svc
        }),
{
    runtime::law_usage_is_settled_first(rt, svc, base, c, now);
    let first = crate::accounting::booked(
        rt.account,
        svc.store,
        Some(c),
        types::AccountingMode::ActiveStatusOnly,
        false,
        now,
    );
    crate::accounting::law_usage_shows_in_the_row(
        rt.account,
        svc.store,
        base,
        c,
        types::AccountingMode::ActiveStatusOnly,
        false,
        now,
    );
}

/// What is told of a complete goal: its id, the report where there is one, and what it
/// used in the end, out of what.
pub proof fn law_completion_is_told(g: GoalView, report: Seq<char>)
    requires
        report.len() > 0,
    ensures
        ({
            let head = "Goal "@ + g.goal_id + " marked complete."@;
            let tail = "\nFinal accounting: "@ + text::int_text(g.tokens_used as int) + "/"@
                + if g.token_budget is Some {
                text::int_text(g.token_budget->0 as int)
            } else {
                "∞"@
            } + " tokens, "@ + text::int_text(g.time_used_seconds as int) + "s."@;
            &&& completion_text(g, Seq::empty()) == head + tail
            &&& completion_text(g, report) == head + ("\nCompletion report:\n"@ + report) + tail
        }),
{
    let head = "Goal "@ + g.goal_id + " marked complete."@;
    let tail = "\nFinal accounting: "@ + text::int_text(g.tokens_used as int) + "/"@
        + if g.token_budget is Some {
        text::int_text(g.token_budget->0 as int)
    } else {
        "∞"@
    } + " tokens, "@ + text::int_text(g.time_used_seconds as int) + "s."@;
    assert(completion_text(g, Seq::empty()) =~= head + tail);
    assert(completion_text(g, report) =~= head + ("\nCompletion report:\n"@ + report) + tail);
}

} // verus!
