//! `/goal` commands on a thread that has a runtime: goal turns follow by
//! themselves.

use crate::accounting::TokenTotals;
use crate::commands::{GoalSubcommand, GoalSubcommandView};
use crate::receipts;
use crate::receipts::Receipt;
use crate::runtime;
use crate::runtime::{GoalRuntimeHandle, RuntimeView};
use crate::service::{Env, GoalService, ServiceView};
use crate::store::GoalStoreError;
use crate::text;
use crate::types::GoalStatus;
use vstd::prelude::*;
use vstd::string::*;

verus! {

/// What a new budget leaves as it was.
pub const KEPT: &'static str = "tokens_used kept";

/// What a command leaves behind.
pub struct CommandEnd {
    pub rt: RuntimeView,
    pub svc: ServiceView,
    pub text: Seq<char>,
    /// Whether the host should see to a goal turn right away.
    pub kick: bool,
}

/// Carrying a command out. Where it takes the place of another goal, a new goal
/// waits for the next turn; a first goal, and one that is resumed, go on at
/// once.
pub open spec fn commanded(
    rt: RuntimeView,
    svc: ServiceView,
    cmd: GoalSubcommandView,
    goal_id: Seq<char>,
    env: Env,
    locked: bool,
) -> CommandEnd {
    let t = rt.thread_id;
    let after = receipts::after_command(svc, t, cmd, goal_id, env, locked);
    let text = receipts::receipt(svc, t, cmd, KEPT@, goal_id, env, locked);
    let plain = CommandEnd { rt, svc: after, text, kick: false };
    match (cmd, receipts::yielded(svc, t, cmd, goal_id, env, locked)) {
        (GoalSubcommandView::SetGoal { description }, Some(g)) => {
            let armed = runtime::armed(rt, g.goal_id, runtime::known_usage(rt));
            if svc.store.rows.contains_key(t) {
                CommandEnd { rt: armed, svc: runtime::put_off_on(after, t), text, kick: false }
            } else {
                CommandEnd { rt: armed, svc: after, text, kick: true }
            }
        },
        (GoalSubcommandView::Pause, Some(g)) => {
            let noted = runtime::status_changed(rt, after, GoalStatus::Paused, env.now);
            CommandEnd { rt: noted.rt, svc: noted.svc, text, kick: false }
        },
        (GoalSubcommandView::Resume, Some(g)) => {
            let noted = runtime::status_changed(rt, after, GoalStatus::Active, env.now);
            CommandEnd { rt: noted.rt, svc: noted.svc, text, kick: true }
        },
        (GoalSubcommandView::Clear, _) => if receipts::clears(svc, t, cmd, locked) {
            CommandEnd { rt: runtime::disarmed(rt), svc: after, text, kick: false }
        } else {
            plain
        },
        _ => plain,
    }
}

/// A receipt, and whether the host should see to a goal turn right away.
#[derive(Debug)]
pub struct CommandReceipt {
    pub text: String,
    pub kick: bool,
}

/// Carries a `/goal` command out on the runtime's thread. `locked` says whether
/// the host holds the lock that keeps idle turns and users apart.
pub fn run_goal_subcommand(
    runtime: &mut GoalRuntimeHandle,
    service: &mut GoalService,
    subcommand: &GoalSubcommand,
    goal_id: &str,
    env: Env,
    locked: bool,
) -> (r: CommandReceipt)
    requires
        old(runtime).wf(),
        old(service).wf(),
    ensures
        final(runtime).wf(),
        final(service).wf(),
        ({
            let end = commanded(
                old(runtime)@,
                old(service)@,
                subcommand@,
                goal_id@,
                env,
                locked,
            );
            &&& final(runtime)@ == end.rt
            &&& final(service)@ == end.svc
            &&& r.text@ == end.text
            &&& r.kick == end.kick
        }),
{
    let thread_id: String = runtime.thread_id().to_owned();
    let t: &str = thread_id.as_str();
    let replaces: bool = service.show(t).is_some();
    let done: Receipt = receipts::carry_out(
        service,
        t,
        subcommand,
        KEPT,
        goal_id,
        env,
        locked,
    );
    let mut kick: bool = false;
    match (subcommand, &done.goal) {
        (GoalSubcommand::SetGoal { .. }, Some(g)) => {
            runtime.note_goal_armed(g.goal_id.as_str());
            if replaces {
                let put_off: bool = runtime.defer_continuation(service);
            } else {
                kick = true;
            }
        },
        (GoalSubcommand::Pause, Some(g)) => {
            let noted: Result<(), GoalStoreError> = runtime.on_goal_status_changed(
                service,
                GoalStatus::Paused,
                env.now,
            );
        },
        (GoalSubcommand::Resume, Some(g)) => {
            let noted: Result<(), GoalStoreError> = runtime.on_goal_status_changed(
                service,
                GoalStatus::Active,
                env.now,
            );
            kick = true;
        },
        (GoalSubcommand::Clear, _) => {
            if done.cleared {
                runtime.on_goal_replaced(None, TokenTotals::default());
            }
        },
        _ => {},
    }
    CommandReceipt { text: done.text, kick }
}

/// A goal that takes the place of another one does not go on at once: the next
/// goal turn is put off.
pub proof fn law_replaced_goal_waits(
    rt: RuntimeView,
    svc: ServiceView,
    description: Seq<char>,
    goal_id: Seq<char>,
    env: Env,
    locked: bool,
)
    requires
        svc.store.rows.contains_key(rt.thread_id),
        rt.visible != Some(false),
    ensures
        ({
            let cmd = GoalSubcommandView::SetGoal { description };
            let end = commanded(rt, svc, cmd, goal_id, env, locked);
            let set = receipts::yielded(svc, rt.thread_id, cmd, goal_id, env, locked) is Some;
            set ==> !end.kick && runtime::put_off(end.rt, end.svc.store, true)
        }),
{
}

/// The session in which a goal turn can be started: the one that is bound to
/// the thread, as long as the agent is there and nothing runs in the session.
pub fn session_for_turn(agent_alive: bool, session_id: Option<&str>, busy: bool) -> (r: Option<
    String,
>)
    ensures
        text::opt_text(r) == if agent_alive && !busy {
            text::opt_str(session_id)
        } else {
            None
        },
{
    if agent_alive && !busy {
        text::own_opt(session_id)
    } else {
        None
    }
}

/// What a command does on a thread with a runtime is what it does anywhere, with the
/// account following: a new goal counts from the totals last known, a paused one books
/// its time, a resumed one has its clock started, and a cleared one leaves nothing to
/// count. A first goal and a resumed one go on at once, and nothing else does.
pub proof fn law_commands_and_the_next_turn(
    rt: RuntimeView,
    svc: ServiceView,
    cmd: GoalSubcommandView,
    goal_id: Seq<char>,
    env: Env,
    locked: bool,
)
    ensures
        ({
            let t = rt.thread_id;
            let end = commanded(rt, svc, cmd, goal_id, env, locked);
            let after = receipts::after_command(svc, t, cmd, goal_id, env, locked);
            let goal = receipts::yielded(svc, t, cmd, goal_id, env, locked);
            &&& end.kick <==> goal is Some && (cmd is Resume || cmd is SetGoal
                && !svc.store.rows.contains_key(t))
            &&& end.text == receipts::receipt(
                svc,
                t,
                cmd,
                "tokens_used kept"@,
                goal_id,
                env,
                locked,
            )
            &&& goal is None && !(cmd is Clear) ==> end.rt == rt && end.svc == after
            &&& cmd is Show || cmd is Budget || cmd is Edit ==> end.rt == rt && end.svc == after
            &&& cmd is SetGoal && goal is Some ==> {
                &&& end.rt.account.since is None
                &&& end.rt.account.baseline == Some((goal->0.goal_id, runtime::known_usage(rt)))
                &&& end.svc.store.rows == after.store.rows
                &&& end.svc.metrics == after.metrics
                &&& svc.store.rows.contains_key(t) ==> end.svc.store.deferred.contains(t)
                &&& !svc.store.rows.contains_key(t) ==> end.svc == after
            }
            &&& cmd is Pause && goal is Some ==> end.rt.binding is None && end.rt.account
                == runtime::status_changed(rt, after, GoalStatus::Paused, env.now).rt.account
            &&& cmd is Resume && goal is Some ==> end.rt.binding == rt.binding && end.svc == after
                && end.rt.account == crate::accounting::clock_started(
                rt.account,
                after.store,
                env.now,
            )
            &&& cmd is Clear && locked && svc.store.rows.contains_key(t)
                ==> end.rt.account.baseline is None && end.rt.account.since is None && end.svc
                == after
            &&& cmd is Clear && !(locked && svc.store.rows.contains_key(t)) ==> end.rt == rt
            &&& end.rt.thread_id == t && end.rt.tools == rt.tools && end.rt.last_seen
                == rt.last_seen && end.rt.visible == rt.visible
        }),
{
}

} // verus!
