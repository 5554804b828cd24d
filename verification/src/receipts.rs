//! What users read after a `/goal` command.

use crate::commands::{GoalSubcommand, GoalSubcommandView};
use crate::metrics::Counter;
use crate::service;
use crate::service::{Env, GoalService, GoalServiceError, ServiceErrorView, ServiceView};
use crate::store;
use crate::text;
use crate::tools;
use crate::types::{Goal, GoalStatus, GoalView};
use vstd::prelude::*;
use vstd::string::*;

verus! {

/// What a thread without a goal shows.
pub const NO_GOAL: &'static str = "No goal set.";

/// What setting a goal yields; without the lock it does not come to that.
pub open spec fn set_outcome(
    svc: ServiceView,
    t: Seq<char>,
    description: Seq<char>,
    goal_id: Seq<char>,
    env: Env,
    locked: bool,
) -> Result<GoalView, ServiceErrorView> {
    if locked {
        svc.set_result(t, description, None, None, goal_id, env)
    } else {
        Err(ServiceErrorView::LockTimeout)
    }
}

/// The service after a command.
pub open spec fn after_command(
    svc: ServiceView,
    t: Seq<char>,
    cmd: GoalSubcommandView,
    goal_id: Seq<char>,
    env: Env,
    locked: bool,
) -> ServiceView {
    match cmd {
        GoalSubcommandView::SetGoal { description } => if locked {
            svc.after_set(t, description, None, None, goal_id, env)
        } else {
            svc
        },
        GoalSubcommandView::Show => svc,
        GoalSubcommandView::Pause => svc.after(
            t,
            svc.pause_result(t, env.now.wall_ms),
            Counter::GoalsPaused,
        ),
        GoalSubcommandView::Resume => svc.after(
            t,
            svc.resume_result(t, env.now.wall_ms),
            Counter::GoalsResumed,
        ),
        GoalSubcommandView::Clear => if locked {
            svc.after_clear(t)
        } else {
            svc
        },
        GoalSubcommandView::Budget { tokens } => match svc.budget_result(t, tokens, env) {
            Ok(g) => ServiceView { store: svc.store.with_goal(t, g), ..svc },
            Err(_) => svc,
        },
        GoalSubcommandView::Edit { description } => svc.after_edit(t, description, env),
    }
}

/// That something failed, and why.
pub open spec fn failed(what: Seq<char>, e: ServiceErrorView) -> Seq<char> {
    what + service::service_error_text(e)
}

/// What users read after a command. `kept` says in brackets what a new budget
/// leaves as it was.
pub open spec fn receipt(
    svc: ServiceView,
    t: Seq<char>,
    cmd: GoalSubcommandView,
    kept: Seq<char>,
    goal_id: Seq<char>,
    env: Env,
    locked: bool,
) -> Seq<char> {
    let after = after_command(svc, t, cmd, goal_id, env, locked);
    match cmd {
        GoalSubcommandView::SetGoal { description } => match set_outcome(
            svc,
            t,
            description,
            goal_id,
            env,
            locked,
        ) {
            Ok(g) => "Goal armed: "@ + after.store.resolved(g).objective,
            Err(e) => failed("Goal set failed: "@, e),
        },
        GoalSubcommandView::Show => match svc.store.goal(t) {
            Some(g) => tools::snapshot_text(svc.store.resolved(g)),
            None => NO_GOAL@,
        },
        GoalSubcommandView::Pause => match svc.pause_result(t, env.now.wall_ms) {
            Ok(g) => "Goal paused ("@ + text::int_text(g.tokens_used as int) + " tokens used)."@,
            Err(e) => failed("Goal pause failed: "@, e),
        },
        GoalSubcommandView::Resume => match svc.resume_result(t, env.now.wall_ms) {
            Ok(g) => "Goal resumed."@,
            Err(e) => failed("Goal resume failed: "@, e),
        },
        GoalSubcommandView::Clear => if !locked {
            failed("Goal clear failed: "@, ServiceErrorView::LockTimeout)
        } else if svc.store.rows.contains_key(t) {
            "Goal cleared."@
        } else {
            NO_GOAL@
        },
        GoalSubcommandView::Budget { tokens } => match svc.budget_result(t, tokens, env) {
            Ok(g) => if g.status == GoalStatus::BudgetLimited {
                "Budget updated ("@ + kept
                    + "). Goal is budget_limited — run /goal resume to continue."@
            } else {
                "Budget updated to "@ + text::int_text(tokens as int) + " tokens ("@ + kept + ")."@
            },
            Err(e) => failed("Goal budget update failed: "@, e),
        },
        GoalSubcommandView::Edit { description } => match svc.edit_result(t, description, env) {
            Ok(g) => "Goal objective updated: "@ + after.store.resolved(g).objective,
            Err(e) => failed("Goal edit failed: "@, e),
        },
    }
}

/// The objective that a command puts where it belongs, if it comes to that:
/// setting a goal needs the lock, and only a goal that is there is edited.
pub open spec fn objective_kept(
    svc: ServiceView,
    t: Seq<char>,
    cmd: GoalSubcommandView,
    locked: bool,
) -> Option<Seq<char>> {
    match cmd {
        GoalSubcommandView::SetGoal { description } => if locked {
            Some(description)
        } else {
            None
        },
        GoalSubcommandView::Edit { description } => if svc.store.rows.contains_key(t) {
            Some(description)
        } else {
            None
        },
        _ => None,
    }
}

/// The objective whose file has to be written before a command is carried out, if
/// it needs one.
pub fn objective_to_keep(service: &GoalService, t: &str, cmd: &GoalSubcommand, locked: bool) -> (r:
    Option<String>)
    requires
        service.wf(),
    ensures
        text::opt_text(r) == objective_kept(service@, t@, cmd@, locked),
{
    match cmd {
        GoalSubcommand::SetGoal { description } => if locked {
            Some(description.clone())
        } else {
            None
        },
        GoalSubcommand::Edit { description } => if service.show(t).is_some() {
            Some(description.clone())
        } else {
            None
        },
        _ => None,
    }
}

/// A command that keeps no objective writes no file: whatever file there is
/// afterwards was there before, with the same text.
pub proof fn law_files_are_written_for_objectives(
    svc: ServiceView,
    t: Seq<char>,
    cmd: GoalSubcommandView,
    goal_id: Seq<char>,
    env: Env,
    locked: bool,
)
    requires
        objective_kept(svc, t, cmd, locked) is None,
    ensures
        after_command(svc, t, cmd, goal_id, env, locked).store.files.submap_of(svc.store.files),
{
}

fn told(what: &str, more: &str) -> (r: String)
    ensures
        r@ == what@ + more@,
{
    let mut r: String = what.to_owned();
    r.append(more);
    r
}

fn told_error(what: &str, e: GoalServiceError) -> (r: String)
    ensures
        r@ == failed(what@, e@),
{
    told(what, e.message().as_str())
}

/// What a command did.
#[derive(Debug)]
pub struct Receipt {
    /// What users read.
    pub text: String,
    /// The goal that it set, paused, resumed, edited or gave a new budget.
    pub goal: Option<Goal>,
    /// Whether it cleared a goal.
    pub cleared: bool,
}

/// The goal that a command yields, if it yields one.
pub open spec fn yielded(
    svc: ServiceView,
    t: Seq<char>,
    cmd: GoalSubcommandView,
    goal_id: Seq<char>,
    env: Env,
    locked: bool,
) -> Option<GoalView> {
    let r = match cmd {
        GoalSubcommandView::SetGoal { description } => set_outcome(
            svc,
            t,
            description,
            goal_id,
            env,
            locked,
        ),
        GoalSubcommandView::Pause => svc.pause_result(t, env.now.wall_ms),
        GoalSubcommandView::Resume => svc.resume_result(t, env.now.wall_ms),
        GoalSubcommandView::Budget { tokens } => svc.budget_result(t, tokens, env),
        GoalSubcommandView::Edit { description } => svc.edit_result(t, description, env),
        _ => Err(ServiceErrorView::LockTimeout),
    };
    match r {
        Ok(g) => Some(g),
        Err(_) => None,
    }
}

/// Whether a command clears a goal.
pub open spec fn clears(svc: ServiceView, t: Seq<char>, cmd: GoalSubcommandView, locked: bool) -> bool {
    cmd is Clear && locked && svc.store.rows.contains_key(t)
}

fn limited_text(kept: &str) -> (r: String)
    ensures
        r@ == "Budget updated ("@ + kept@
            + "). Goal is budget_limited — run /goal resume to continue."@,
{
    let mut m: String = "Budget updated (".to_owned();
    m.append(kept);
    m.append("). Goal is budget_limited — run /goal resume to continue.");
    m
}

fn budget_text(tokens: i64, kept: &str) -> (r: String)
    ensures
        r@ == "Budget updated to "@ + text::int_text(tokens as int) + " tokens ("@ + kept@ + ")."@,
{
    let mut m: String = "Budget updated to ".to_owned();
    text::push_i64(&mut m, tokens);
    m.append(" tokens (");
    m.append(kept);
    m.append(").");
    m
}

fn only(text: String) -> (r: Receipt)
    ensures
        r.text@ == text@,
        r.goal is None,
        !r.cleared,
{
    Receipt { text, goal: None, cleared: false }
}

/// Carries a command out.
pub fn carry_out(
    service: &mut GoalService,
    t: &str,
    cmd: &GoalSubcommand,
    kept: &str,
    goal_id: &str,
    env: Env,
    locked: bool,
) -> (r: Receipt)
    requires
        old(service).wf(),
    ensures
        final(service).wf(),
        final(service)@ == after_command(old(service)@, t@, cmd@, goal_id@, env, locked),
        r.text@ == receipt(old(service)@, t@, cmd@, kept@, goal_id@, env, locked),
        store::opt_goal(r.goal) == yielded(old(service)@, t@, cmd@, goal_id@, env, locked),
        r.cleared == clears(old(service)@, t@, cmd@, locked),
{
    match cmd {
        GoalSubcommand::SetGoal { description } => {
            if !locked {
                return only(told_error("Goal set failed: ", GoalServiceError::LockTimeout));
            }
            match service.set_with_verify_outcome(t, description.as_str(), None, None, goal_id, env) {
                Ok(o) => {
                    let full: Goal = service.resolve_objective(o.goal.clone());
                    Receipt {
                        text: told("Goal armed: ", full.objective.as_str()),
                        goal: Some(o.goal),
                        cleared: false,
                    }
                },
                Err(e) => only(told_error("Goal set failed: ", e)),
            }
        },
        GoalSubcommand::Show => match service.show(t) {
            Some(g) => {
                proof {
                    service.store.lemma_wf();
                }
                let full: Goal = service.resolve_objective(g);
                only(tools::render_goal_snapshot(&full))
            },
            None => only(NO_GOAL.to_owned()),
        },
        GoalSubcommand::Pause => match service.pause(t, env.now.wall_ms) {
            Ok(g) => {
                let mut m: String = "Goal paused (".to_owned();
                text::push_i64(&mut m, g.tokens_used);
                m.append(" tokens used).");
                Receipt { text: m, goal: Some(g), cleared: false }
            },
            Err(e) => only(told_error("Goal pause failed: ", e)),
        },
        GoalSubcommand::Resume => match service.resume(t, env.now.wall_ms) {
            Ok(g) => Receipt {
                text: "Goal resumed.".to_owned(),
                goal: Some(g),
                cleared: false,
            },
            Err(e) => only(told_error("Goal resume failed: ", e)),
        },
        GoalSubcommand::Clear => {
            if !locked {
                return only(told_error("Goal clear failed: ", GoalServiceError::LockTimeout));
            }
            if service.clear(t) {
                Receipt { text: "Goal cleared.".to_owned(), goal: None, cleared: true }
            } else {
                only(NO_GOAL.to_owned())
            }
        },
        GoalSubcommand::Budget { tokens } => match service.update_budget(t, *tokens, env) {
            Ok(g) => {
                let m: String = if g.status == GoalStatus::BudgetLimited {
                    limited_text(kept)
                } else {
                    budget_text(*tokens, kept)
                };
                Receipt { text: m, goal: Some(g), cleared: false }
            },
            Err(e) => only(told_error("Goal budget update failed: ", e)),
        },
        GoalSubcommand::Edit { description } => match service.edit(t, description.as_str(), env) {
            Ok(g) => {
                let full: Goal = service.resolve_objective(g.clone());
                Receipt {
                    text: told("Goal objective updated: ", full.objective.as_str()),
                    goal: Some(g),
                    cleared: false,
                }
            },
            Err(e) => only(told_error("Goal edit failed: ", e)),
        },
    }
}

/// What commands leave of other threads, and what they may not do: without the lock
/// no goal is set or cleared, and showing changes nothing.
pub proof fn law_commands_keep_to_their_thread(
    svc: ServiceView,
    t: Seq<char>,
    u: Seq<char>,
    cmd: GoalSubcommandView,
    goal_id: Seq<char>,
    env: Env,
    locked: bool,
)
    ensures
        ({
            let after = after_command(svc, t, cmd, goal_id, env, locked);
            &&& u != t ==> after.store.goal(u) == svc.store.goal(u) && after.store.deferred.contains(u)
                == svc.store.deferred.contains(u)
            &&& cmd is Show ==> after == svc
            &&& (cmd is SetGoal || cmd is Clear) && !locked ==> after == svc
            &&& after.store.goals_dir == svc.store.goals_dir
        }),
{
    if cmd is SetGoal {
        service::law_set_starts_anew(
            svc,
            t,
            u,
            cmd->SetGoal_description,
            None,
            None,
            goal_id,
            env,
        );
    }
}

/// What commands make of the goal: pausing and resuming move it and leave its work, a
/// budget and a new objective change what they name, clearing takes it away, and each
/// success but that of a budget is counted as what it is.
pub proof fn law_commands_do_what_they_say(
    svc: ServiceView,
    t: Seq<char>,
    description: Seq<char>,
    tokens: i64,
    goal_id: Seq<char>,
    env: Env,
)
    requires
        svc.store.rows.contains_key(t),
    ensures
        ({
            let g = svc.store.rows[t];
            let to = |cmd: GoalSubcommandView| after_command(svc, t, cmd, goal_id, env, true);
            let paused = to(GoalSubcommandView::Pause);
            let resumed = to(GoalSubcommandView::Resume);
            let cleared = to(GoalSubcommandView::Clear);
            let funded = to(GoalSubcommandView::Budget { tokens });
            let edited = to(GoalSubcommandView::Edit { description });
            let waits = g.status is Paused || g.status is Blocked || g.status is UsageLimited
                || g.status is BudgetLimited;
            &&& g.status is Active ==> paused.store.rows[t].status is Paused && store::same_work(
                g,
                paused.store.rows[t],
            ) && paused.metrics == svc.metrics.recorded(Counter::GoalsPaused, t)
            &&& !(g.status is Active) ==> paused == svc
            &&& waits ==> resumed.store.rows[t].status is Active && store::same_work(
                g,
                resumed.store.rows[t],
            ) && resumed.metrics == svc.metrics.recorded(Counter::GoalsResumed, t)
            &&& !waits ==> resumed == svc
            &&& cleared.store.goal(t) is None && cleared.metrics == svc.metrics.recorded(
                Counter::GoalsCleared,
                t,
            )
            &&& 1 <= tokens <= env.cap && !(g.status is Complete)
                ==> funded.store.rows[t].token_budget == Some(tokens) && funded.store.rows[t].status
                == g.status && funded.store.rows[t].tokens_used == g.tokens_used
            &&& !(1 <= tokens <= env.cap) || g.status is Complete ==> funded == svc
            &&& funded.metrics == svc.metrics
            &&& edited.store.rows[t].goal_id == g.goal_id
            &&& edited.store.rows[t].tokens_used == g.tokens_used
            &&& edited.store.rows[t].status == g.status
            &&& edited.store.rows[t].token_budget == g.token_budget
            &&& (edited.store.rows[t] != g ==> edited.metrics == svc.metrics.recorded(
                Counter::GoalsEdited,
                t,
            ))
        }),
{
}

/// A goal that is set by a command has no budget and no verify command, and is told as
/// it reads in full.
pub proof fn law_command_sets_a_goal(
    svc: ServiceView,
    t: Seq<char>,
    description: Seq<char>,
    kept: Seq<char>,
    goal_id: Seq<char>,
    env: Env,
)
    requires
        svc.store.wf(),
        text::trimmed(description).len() > 0,
        service::reads_back(svc.store, t, description, env.writable),
    ensures
        ({
            let cmd = GoalSubcommandView::SetGoal { description };
            let after = after_command(svc, t, cmd, goal_id, env, true);
            let g = after.store.rows[t];
            &&& after.store.rows.contains_key(t)
            &&& g.goal_id == goal_id && g.status is Active
            &&& g.token_budget is None && g.verify_command is None && g.tokens_used == 0
            &&& after.store.resolved(g).objective == text::trimmed(description)
            &&& after.metrics == svc.metrics.recorded_set(t, svc.store.rows.contains_key(t))
            &&& receipt(svc, t, cmd, kept, goal_id, env, true) == "Goal armed: "@ + text::trimmed(
                description,
            )
            &&& yielded(svc, t, cmd, goal_id, env, true) == Some(g)
        }),
{
    service::law_objective_reads_back(svc, t, description, None, None, goal_id, env);
    service::law_set_starts_anew(svc, t, t, description, None, None, goal_id, env);
}

/// What users read: a command that failed says so, one that found no goal says that,
/// and one that succeeded tells what there is to tell.
pub proof fn law_receipts_tell_what_happened(
    svc: ServiceView,
    t: Seq<char>,
    tokens: i64,
    kept: Seq<char>,
    goal_id: Seq<char>,
    env: Env,
)
    ensures
        ({
            let read = |cmd: GoalSubcommandView| receipt(svc, t, cmd, kept, goal_id, env, true);
            let there = svc.store.rows.contains_key(t);
            let g = svc.store.rows[t];
            &&& !there ==> {
                &&& read(GoalSubcommandView::Show) == "No goal set."@
                &&& read(GoalSubcommandView::Clear) == "No goal set."@
                &&& read(GoalSubcommandView::Pause) == "Goal pause failed: "@ + ("no goal on thread "@ + t)
                &&& read(GoalSubcommandView::Resume) == "Goal resume failed: "@ + ("no goal on thread "@
                    + t)
            }
            &&& there ==> {
                &&& read(GoalSubcommandView::Show) == tools::snapshot_text(svc.store.resolved(g))
                &&& read(GoalSubcommandView::Clear) == "Goal cleared."@
                &&& g.status is Active ==> read(GoalSubcommandView::Pause) == "Goal paused ("@
                    + text::int_text(g.tokens_used as int) + " tokens used)."@
                &&& (g.status is Paused || g.status is Blocked || g.status is UsageLimited
                    || g.status is BudgetLimited) ==> read(GoalSubcommandView::Resume)
                    == "Goal resumed."@
                &&& 1 <= tokens <= env.cap && g.status is BudgetLimited ==> read(
                    GoalSubcommandView::Budget { tokens },
                ) == "Budget updated ("@ + kept
                    + "). Goal is budget_limited — run /goal resume to continue."@
                &&& 1 <= tokens <= env.cap && !(g.status is BudgetLimited) && !(g.status is Complete)
                    ==> read(GoalSubcommandView::Budget { tokens }) == "Budget updated to "@
                    + text::int_text(tokens as int) + " tokens ("@ + kept + ")."@
            }
        }),
{
}

/// Which commands yield a goal, and which clear one.
pub proof fn law_what_commands_yield(
    svc: ServiceView,
    t: Seq<char>,
    cmd: GoalSubcommandView,
    goal_id: Seq<char>,
    env: Env,
    locked: bool,
)
    ensures
        yielded(svc, t, cmd, goal_id, env, locked) matches Some(g) ==> after_command(
            svc,
            t,
            cmd,
            goal_id,
            env,
            locked,
        ).store.goal(t) == Some(g),
        cmd is Show || cmd is Clear ==> yielded(svc, t, cmd, goal_id, env, locked) is None,
        cmd is SetGoal && !locked ==> yielded(svc, t, cmd, goal_id, env, locked) is None,
        clears(svc, t, cmd, locked) <==> cmd is Clear && locked && svc.store.goal(t) is Some,
        clears(svc, t, cmd, locked) ==> after_command(svc, t, cmd, goal_id, env, locked).store.goal(
            t,
        ) is None,
        cmd is Pause ==> (yielded(svc, t, cmd, goal_id, env, locked) is Some <==> (svc.store.goal(
            t,
        ) matches Some(g) && g.status is Active)),
{
}

/// Which commands bring an objective to keep: one that sets a goal with the lock held,
/// and one that edits the goal that there is; each its own text.
pub proof fn law_which_commands_bring_objectives(
    svc: ServiceView,
    t: Seq<char>,
    text: Seq<char>,
    cmd: GoalSubcommandView,
    locked: bool,
)
    ensures
        objective_kept(svc, t, GoalSubcommandView::SetGoal { description: text }, true) == Some(text),
        objective_kept(svc, t, GoalSubcommandView::SetGoal { description: text }, false) is None,
        svc.store.rows.contains_key(t) ==> objective_kept(
            svc,
            t,
            GoalSubcommandView::Edit { description: text },
            locked,
        ) == Some(text),
        !svc.store.rows.contains_key(t) ==> objective_kept(
            svc,
            t,
            GoalSubcommandView::Edit { description: text },
            locked,
        ) is None,
        !(cmd is SetGoal || cmd is Edit) ==> objective_kept(svc, t, cmd, locked) is None,
{
}

} // verus!
