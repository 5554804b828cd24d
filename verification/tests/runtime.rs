use goal::accounting::{Clock, TokenTotals};
use goal::commands::GoalSubcommand;
use goal::goal_repl;
use goal::goal_runtime::{self, session_for_turn};
use goal::receipts::objective_to_keep;
use goal::runtime::{store_error_from, GoalRuntimeHandle, GoalTurnReason, PlannedTurn};
use goal::service::{Env, GoalService, GoalServiceError};
use goal::store::{GoalStore, GoalStoreError};
use goal::types::{CreateGoalRequest, Goal, GoalStatus, DEFAULT_MAX_GOAL_TOKEN_BUDGET};

const NOW: Clock = Clock {
    wall_ms: 1_700_000_000_000,
    mono_ns: 5_000_000_000,
};

const ENV: Env = Env {
    now: NOW,
    cap: DEFAULT_MAX_GOAL_TOKEN_BUDGET,
    writable: true,
};

struct Host {
    running: bool,
    started: Vec<String>,
}

impl Host {
    fn new() -> Host {
        Host {
            running: false,
            started: Vec::new(),
        }
    }

    fn start(&mut self, handle: &mut GoalRuntimeHandle, svc: &mut GoalService, turn: &PlannedTurn) -> bool {
        let ok = !self.running;
        if ok {
            self.running = true;
            self.started
                .push(format!("{}|{}", handle.thread_id(), turn.message));
        }
        handle.turn_started(svc, turn, ok, NOW.wall_ms);
        ok
    }

    fn idle(&mut self, handle: &mut GoalRuntimeHandle, svc: &mut GoalService) -> bool {
        match handle.continue_if_idle(svc, true) {
            Some(turn) => self.start(handle, svc, &turn),
            None => false,
        }
    }

    fn finish(
        &mut self,
        handle: &mut GoalRuntimeHandle,
        svc: &mut GoalService,
        totals: Option<TokenTotals>,
    ) -> Option<String> {
        match handle.on_turn_finish(svc, totals, NOW).expect("finish") {
            Some(turn) => {
                self.start(handle, svc, &turn);
                Some(turn.message)
            }
            None => None,
        }
    }
}

fn input(n: u64) -> Option<TokenTotals> {
    Some(TokenTotals {
        input_tokens: n,
        output_tokens: 0,
        cached_tokens: 0,
    })
}

fn setup(budget: Option<i64>) -> (GoalRuntimeHandle, GoalService, Host) {
    let mut svc = GoalService::new(GoalStore::new());
    let mut handle = GoalRuntimeHandle::new("t1");
    let g = svc.set("t1", "objective", budget, "g1", ENV).expect("set");
    handle.on_goal_replaced(Some(&g.goal_id), TokenTotals::default());
    (handle, svc, Host::new())
}

fn read(svc: &GoalService) -> Goal {
    svc.show("t1").expect("exists")
}

#[test]
fn idle_continuation_idempotent() {
    let (mut handle, mut svc, mut host) = setup(None);
    let a = host.idle(&mut handle, &mut svc);
    let b = host.idle(&mut handle, &mut svc);
    assert!(a);
    assert!(!b, "no second turn while one runs");
    assert_eq!(host.started.len(), 1);
    assert!(host.started[0].starts_with("t1|Continue working"));
}

#[test]
fn idle_continuation_fails_closed_when_goal_tools_are_missing() {
    let (mut handle, mut svc, mut host) = setup(None);
    handle.record_goal_tools_visibility(false);
    assert!(!host.idle(&mut handle, &mut svc));
    assert!(host.started.is_empty());

    handle.record_goal_tools_visibility(true);
    assert!(host.idle(&mut handle, &mut svc));
    assert_eq!(host.started.len(), 1);
}

#[test]
fn visibility_of_tools_is_unknown_until_told() {
    let (mut handle, mut svc, mut host) = setup(None);
    assert_eq!(handle.goal_tools_visible(), None);
    assert!(host.idle(&mut handle, &mut svc));
    handle.record_goal_tools_visibility(false);
    assert_eq!(handle.goal_tools_visible(), Some(false));
}

#[test]
fn continuation_publishes_incremented_iteration_snapshot() {
    let (mut handle, mut svc, mut host) = setup(None);
    handle.set_status_notifier();
    assert!(host.idle(&mut handle, &mut svc));
    let iterations: Vec<i64> = handle
        .take_notifications()
        .iter()
        .map(|g| g.iteration_count)
        .collect();
    assert_eq!(iterations.as_slice(), &[1]);
}

#[test]
fn idle_skips_paused_cleared_deferred() {
    let (mut handle, mut svc, mut host) = setup(None);

    svc.pause("t1", NOW.wall_ms).expect("pause");
    assert!(!host.idle(&mut handle, &mut svc));

    svc.resume("t1", NOW.wall_ms).expect("resume");
    handle.defer_continuation(&mut svc);
    assert!(!host.idle(&mut handle, &mut svc));
    handle.on_turn_start(&mut svc, NOW);
    assert!(host.idle(&mut handle, &mut svc));

    svc.clear("t1");
    handle.on_goal_replaced(None, TokenTotals::default());
    assert!(!host.idle(&mut handle, &mut svc));
    assert_eq!(host.started.len(), 1);
    assert!(host.started[0].contains("Continue working"));
}

#[test]
fn state_lock_serializes_idle_and_user_set() {
    let (mut handle, mut svc, _host) = setup(None);
    assert!(
        handle.continue_if_idle(&mut svc, false).is_none(),
        "without the lock no turn is planned"
    );
    let during = GoalSubcommand::SetGoal {
        description: "during window".into(),
    };
    let r = goal_runtime::run_goal_subcommand(&mut handle, &mut svc, &during, "g2", ENV, false);
    assert!(r.text.starts_with("Goal set failed: "), "{}", r.text);
    assert_eq!(read(&svc).objective, "objective");
    let r = goal_runtime::run_goal_subcommand(&mut handle, &mut svc, &during, "g2", ENV, true);
    assert_eq!(r.text, "Goal armed: during window");
    assert_eq!(read(&svc).objective, "during window");
}

#[test]
fn turn_error_marks_blocked_and_accounts() {
    let (mut handle, mut svc, _host) = setup(Some(100_000));
    handle.on_turn_start(&mut svc, NOW);
    let steering = handle
        .on_turn_error(&mut svc, "boom", input(500), NOW)
        .expect("error hook");
    assert!(steering.is_none());
    let g = read(&svc);
    assert_eq!(g.status, GoalStatus::Blocked);
    assert_eq!(g.tokens_used, 500);
    assert_eq!(g.status_reason.as_deref(), Some("boom"));
}

#[test]
fn consecutive_turns_account_each_prompt_from_zero() {
    let (mut handle, mut svc, mut host) = setup(Some(100_000));
    handle.on_turn_start(&mut svc, NOW);
    host.finish(&mut handle, &mut svc, input(100));
    handle.on_turn_start(&mut svc, NOW);
    host.finish(&mut handle, &mut svc, input(80));
    assert_eq!(read(&svc).tokens_used, 180, "each prompt counts");
}

#[test]
fn quota_error_accounts_before_marking_limited() {
    let (mut handle, mut svc, _host) = setup(Some(100_000));
    handle.on_turn_start(&mut svc, NOW);
    handle
        .on_provider_quota_exhausted_with_usage(
            &mut svc,
            "quota exhausted",
            Some(TokenTotals {
                input_tokens: 75,
                output_tokens: 25,
                cached_tokens: 0,
            }),
            NOW,
        )
        .expect("quota hook");
    let goal = read(&svc);
    assert_eq!(goal.tokens_used, 100);
    assert_eq!(goal.status, GoalStatus::UsageLimited);
}

#[test]
fn budget_overrun_injects_wrapup_once() {
    let (mut handle, mut svc, mut host) = setup(Some(100));
    handle.on_turn_start(&mut svc, NOW);
    let s1 = host.finish(&mut handle, &mut svc, input(150));
    assert!(s1.is_some(), "the first time there is a turn to wrap up");
    assert_eq!(read(&svc).status, GoalStatus::BudgetLimited);

    let s2 = host.finish(&mut handle, &mut svc, input(160));
    assert_eq!(s2, None, "the second time there is none");

    assert!(!host.idle(&mut handle, &mut svc));
    assert_eq!(host.started.len(), 1);
    assert!(host.started[0].contains("budget_limited"));
}

#[test]
fn abort_crossing_budget_limits_but_starts_no_turn() {
    let (mut handle, mut svc, mut host) = setup(Some(100));
    handle.on_turn_start(&mut svc, NOW);
    handle
        .on_turn_abort(&mut svc, input(150), NOW)
        .expect("abort");
    let g = read(&svc);
    assert_eq!(g.status, GoalStatus::BudgetLimited, "the budget is exhausted all the same");
    assert_eq!(g.tokens_used, 150);
    assert!(host.started.is_empty(), "no turn follows an abort");
    let s = host.finish(&mut handle, &mut svc, input(160));
    assert!(s.is_some(), "a later turn still reports the budget");
}

#[test]
fn quota_exhausted_marks_usage_limited() {
    let (mut handle, mut svc, _host) = setup(None);
    handle
        .on_provider_quota_exhausted(&mut svc, "provider 429", NOW)
        .expect("quota");
    let g = read(&svc);
    assert_eq!(g.status, GoalStatus::UsageLimited);
    assert_eq!(g.status_reason.as_deref(), Some("provider 429"));
    assert!(svc.resume("t1", NOW.wall_ms).is_ok());
}

#[test]
fn b2_budget_limited_coverage_resume_and_update_budget() {
    let (mut handle, mut svc, mut host) = setup(Some(100));
    let goal_id = read(&svc).goal_id;

    host.finish(&mut handle, &mut svc, input(150));
    assert_eq!(read(&svc).status, GoalStatus::BudgetLimited);
    handle
        .on_provider_quota_exhausted_with_usage(&mut svc, "quota exhausted", None, NOW)
        .unwrap();
    assert_eq!(read(&svc).status, GoalStatus::UsageLimited);

    svc.resume("t1", NOW.wall_ms).unwrap();
    host.finish(&mut handle, &mut svc, input(200));
    assert_eq!(read(&svc).status, GoalStatus::BudgetLimited);

    let updated = svc.update_budget("t1", 10_000, ENV).unwrap();
    assert_eq!(updated.goal_id, goal_id, "the goal stays the same");
    assert_eq!(updated.status, GoalStatus::BudgetLimited, "so does its status");
    assert_eq!(updated.tokens_used, 200);
    assert_eq!(updated.token_budget, Some(10_000));

    svc.resume("t1", NOW.wall_ms).unwrap();
    assert_eq!(read(&svc).status, GoalStatus::Active);

    svc.store.mark_complete("t1", &goal_id, NOW.wall_ms).unwrap();
    assert!(svc.update_budget("t1", 999, ENV).is_err());
    assert!(svc.update_budget("t1", 0, ENV).is_err());
}

#[test]
fn c1_continuation_increments_iteration_count() {
    let (mut handle, mut svc, mut host) = setup(None);
    handle.on_turn_start_for(&mut svc, "tt-c1", NOW);
    host.finish(&mut handle, &mut svc, None);
    host.idle(&mut handle, &mut svc);
    assert_eq!(read(&svc).iteration_count, 1);
    assert!(host.started[0].contains("Continue working"));
}

#[test]
fn c2_midturn_edit_renders_objective_updated_steering() {
    let (mut handle, mut svc, mut host) = setup(None);
    handle.on_turn_start_for(&mut svc, "tt-c2", NOW);
    svc.edit("t1", "revised objective", ENV).expect("edit");
    host.finish(&mut handle, &mut svc, None);
    host.idle(&mut handle, &mut svc);
    let g = read(&svc);
    assert_eq!(g.objective_revision, 1);
    assert_eq!(g.iteration_count, 1);
    let msg = host.started[0].clone();
    assert!(msg.contains("revised objective"), "{msg}");
    assert!(!msg.contains("Continue working toward"), "{msg}");
    host.running = false;
    host.idle(&mut handle, &mut svc);
    let msg2 = host.started[1].clone();
    assert!(msg2.contains("Continue working toward"));
    assert_eq!(read(&svc).iteration_count, 2);
}

#[test]
fn c3_exempt_turn_errors_do_not_block_goal() {
    let (mut handle, mut svc, _host) = setup(None);
    handle.on_turn_start_exempt(&mut svc, "tt-c3", NOW);
    handle
        .on_turn_error(&mut svc, "boom", None, NOW)
        .expect("error");
    let g = read(&svc);
    assert_eq!(g.status, GoalStatus::Active, "an exempt turn blocks nothing");
    assert_eq!(g.tokens_used, 0, "and books nothing");
}

#[test]
fn turn_error_does_not_block_replacement_goal() {
    let (mut handle, mut svc, _host) = setup(None);
    handle.on_turn_start_for(&mut svc, "tt-1", NOW);
    let replaced = svc
        .set("t1", "replaced objective", None, "g2", ENV)
        .expect("replace set");
    handle.on_goal_replaced(Some(&replaced.goal_id), TokenTotals::default());
    handle
        .on_turn_error(&mut svc, "boom", None, NOW)
        .expect("error hook");
    let g = read(&svc);
    assert_eq!(g.goal_id, replaced.goal_id);
    assert_eq!(g.status, GoalStatus::Active, "the new goal is spared");
    assert_eq!(g.objective, "replaced objective");
}

#[test]
fn turn_error_does_not_override_paused_status() {
    let (mut handle, mut svc, _host) = setup(None);
    handle.on_turn_start_for(&mut svc, "tt-2", NOW);
    svc.pause("t1", NOW.wall_ms).expect("pause");
    handle
        .on_turn_error(&mut svc, "boom", None, NOW)
        .expect("error hook");
    assert_eq!(read(&svc).status, GoalStatus::Paused);
}

#[test]
fn status_notifier_fires_on_system_blocked() {
    let (mut handle, mut svc, _host) = setup(None);
    handle.set_status_notifier();
    handle.on_turn_start_for(&mut svc, "tt-3", NOW);
    handle
        .on_turn_error(&mut svc, "boom", None, NOW)
        .expect("error hook");
    let got = handle.take_notifications();
    assert_eq!(
        (got.len(), got.first().map(|g| g.status)),
        (1, Some(GoalStatus::Blocked))
    );
    assert_eq!(read(&svc).status, GoalStatus::Blocked);
}

#[test]
fn three_consecutive_failed_exec_turns_block_goal() {
    let (mut handle, mut svc, mut host) = setup(None);
    for i in 0..3 {
        handle.on_turn_start_for(&mut svc, &format!("tt-{i}"), NOW);
        handle.record_tool_outcome("bash", true);
        host.finish(&mut handle, &mut svc, None);
        let expected = if i < 2 {
            GoalStatus::Active
        } else {
            GoalStatus::Blocked
        };
        assert_eq!(read(&svc).status, expected, "turn {i}");
    }
    assert!(read(&svc)
        .status_reason
        .as_deref()
        .unwrap_or("")
        .contains("execution"));
}

#[test]
fn successful_tool_resets_execution_failure_streak() {
    let (mut handle, mut svc, mut host) = setup(None);
    for i in 0..2 {
        handle.on_turn_start_for(&mut svc, &format!("tt-a{i}"), NOW);
        handle.record_tool_outcome("bash", true);
        host.finish(&mut handle, &mut svc, None);
    }
    handle.on_turn_start_for(&mut svc, "tt-b", NOW);
    handle.record_tool_outcome("read", false);
    handle.record_tool_outcome("bash", true);
    host.finish(&mut handle, &mut svc, None);
    for i in 0..2 {
        handle.on_turn_start_for(&mut svc, &format!("tt-c{i}"), NOW);
        handle.record_tool_outcome("bash", true);
        host.finish(&mut handle, &mut svc, None);
        assert_eq!(read(&svc).status, GoalStatus::Active);
    }
}

#[test]
fn model_create_cannot_overwrite_unfinished() {
    let (_handle, mut svc, _host) = setup(None);
    let err = svc
        .store
        .create(
            &CreateGoalRequest {
                thread_id: "t1".into(),
                objective: "second".into(),
                token_budget: None,
                verify_command: None,
            },
            "g-model",
            ENV.cap,
            NOW.wall_ms,
        )
        .expect_err("must reject");
    assert!(matches!(err, GoalStoreError::ExistingUnfinishedGoal(_)));
}

#[test]
fn planned_turns_say_why() {
    let (mut handle, mut svc, _host) = setup(None);
    let turn = handle.continue_if_idle(&mut svc, true).expect("turn");
    assert_eq!(turn.meta.reason, GoalTurnReason::ActiveGoal);
    assert_eq!(turn.meta.goal_id, "g1");
    assert_eq!(turn.meta.iteration, 1);
    handle.turn_started(&mut svc, &turn, false, NOW.wall_ms);
    assert_eq!(read(&svc).iteration_count, 0, "a turn that did not start does not count");
}

#[test]
fn mark_lasts_until_the_next_turn() {
    let (mut handle, mut svc, _host) = setup(None);
    assert!(handle.defer_continuation(&mut svc));
    assert!(!handle.defer_continuation(&mut svc));
    assert!(handle.continue_if_idle(&mut svc, true).is_none());
    assert!(handle.clear_deferral(&mut svc));
    assert!(!handle.clear_deferral(&mut svc));
    assert!(handle.continue_if_idle(&mut svc, true).is_some());
    assert_eq!(svc.metrics.snapshot().continuations_deferred, 1);
}

#[test]
fn model_update_books_usage_first() {
    let (mut handle, mut svc, _host) = setup(Some(100));
    handle.on_turn_start(&mut svc, NOW);
    handle
        .before_model_status_update(&mut svc, input(60), NOW)
        .expect("booked");
    assert_eq!(read(&svc).tokens_used, 60);
}

#[test]
fn service_errors_become_store_errors() {
    assert_eq!(
        store_error_from(GoalServiceError::LockTimeout),
        GoalStoreError::LockTimeout
    );
    assert_eq!(
        store_error_from(GoalServiceError::Store(GoalStoreError::NotFoundOrDisallowed("t".into()))),
        GoalStoreError::NotFoundOrDisallowed("t".into())
    );
    assert_eq!(
        store_error_from(GoalServiceError::NoGoal("t".into())),
        GoalStoreError::CorruptStatus("no goal on thread t".into())
    );
}

fn embedded() -> (GoalRuntimeHandle, GoalService, Host) {
    (
        GoalRuntimeHandle::new("t-embed"),
        GoalService::new(GoalStore::new()),
        Host::new(),
    )
}

fn set(description: &str) -> GoalSubcommand {
    GoalSubcommand::SetGoal {
        description: description.into(),
    }
}

#[test]
fn fresh_set_kicks_idle_continuation() {
    let (mut handle, mut svc, mut host) = embedded();
    let r = goal_runtime::run_goal_subcommand(&mut handle, &mut svc, &set("do the thing"), "g1", ENV, true);
    assert!(r.text.contains("Goal armed"), "{}", r.text);
    assert!(r.kick);
    assert!(host.idle(&mut handle, &mut svc));
    assert!(host.started[0].contains("Continue working"));
}

#[test]
fn replaced_set_defers_continuation() {
    let (mut handle, mut svc, mut host) = embedded();
    let r = goal_runtime::run_goal_subcommand(&mut handle, &mut svc, &set("first"), "g1", ENV, true);
    assert!(r.kick);
    assert!(host.idle(&mut handle, &mut svc));
    host.running = false;

    let r = goal_runtime::run_goal_subcommand(&mut handle, &mut svc, &set("second"), "g2", ENV, true);
    assert!(r.text.contains("Goal armed"), "{}", r.text);
    assert!(!r.kick);
    assert!(!host.idle(&mut handle, &mut svc));
    assert_eq!(host.started.len(), 1, "a goal that replaces another one waits");
}

#[test]
fn resume_kicks_idle_continuation_but_pause_does_not() {
    let (mut handle, mut svc, mut host) = embedded();
    let _ = goal_runtime::run_goal_subcommand(&mut handle, &mut svc, &set("g"), "g1", ENV, true);
    assert!(host.idle(&mut handle, &mut svc));
    host.running = false;

    let r = goal_runtime::run_goal_subcommand(&mut handle, &mut svc, &GoalSubcommand::Pause, "x", ENV, true);
    assert!(r.text.contains("paused"), "{}", r.text);
    assert!(!r.kick);
    assert!(!host.idle(&mut handle, &mut svc));

    let r = goal_runtime::run_goal_subcommand(&mut handle, &mut svc, &GoalSubcommand::Resume, "x", ENV, true);
    assert!(r.text.contains("resumed"), "{}", r.text);
    assert!(r.kick);
    assert!(host.idle(&mut handle, &mut svc));
    assert_eq!(host.started.len(), 2);
}

#[test]
fn commands_are_receipted() {
    let mut svc = GoalService::new(GoalStore::new());
    let mut run = |svc: &mut GoalService, c: &GoalSubcommand| {
        goal_repl::run_goal_subcommand(svc, c, "repl", "g1", ENV)
    };
    assert_eq!(run(&mut svc, &GoalSubcommand::Show), "No goal set.");
    assert_eq!(
        run(&mut svc, &GoalSubcommand::Pause),
        "Goal pause failed: no goal on thread repl"
    );
    assert_eq!(run(&mut svc, &set("  ship it ")), "Goal armed: ship it");
    assert!(run(&mut svc, &GoalSubcommand::Show).contains("Objective: ship it"));
    assert_eq!(
        run(&mut svc, &GoalSubcommand::Budget { tokens: 50 }),
        "Budget updated to 50 tokens (tokens used kept)."
    );
    assert_eq!(run(&mut svc, &GoalSubcommand::Pause), "Goal paused (0 tokens used).");
    assert_eq!(run(&mut svc, &GoalSubcommand::Resume), "Goal resumed.");
    assert_eq!(
        run(
            &mut svc,
            &GoalSubcommand::Edit {
                description: "other".into()
            }
        ),
        "Goal objective updated: other"
    );
    assert_eq!(run(&mut svc, &GoalSubcommand::Clear), "Goal cleared.");
    assert_eq!(run(&mut svc, &GoalSubcommand::Clear), "No goal set.");
    assert_eq!(
        run(&mut svc, &set("  ")),
        "Goal set failed: validation: objective is empty after trim"
    );
}

#[test]
fn a_limited_goal_is_told_to_be_resumed() {
    let (mut handle, mut svc, mut host) = setup(Some(100));
    handle.on_turn_start(&mut svc, NOW);
    host.finish(&mut handle, &mut svc, input(150));
    let r = goal_runtime::run_goal_subcommand(
        &mut handle,
        &mut svc,
        &GoalSubcommand::Budget { tokens: 500 },
        "x",
        ENV,
        true,
    );
    assert_eq!(
        r.text,
        "Budget updated (tokens_used kept). Goal is budget_limited — run /goal resume to continue."
    );
}

#[test]
fn turns_start_in_idle_sessions() {
    assert_eq!(session_for_turn(true, Some("s"), false).as_deref(), Some("s"));
    assert_eq!(session_for_turn(true, Some("s"), true), None);
    assert_eq!(session_for_turn(false, Some("s"), false), None);
    assert_eq!(session_for_turn(true, None, false), None);
}

#[test]
fn only_commands_that_keep_an_objective_need_its_file() {
    let mut svc = GoalService::new(GoalStore::new());
    let set = GoalSubcommand::SetGoal {
        description: "work".into(),
    };
    let edit = GoalSubcommand::Edit {
        description: "more".into(),
    };
    assert_eq!(objective_to_keep(&svc, "t", &set, false), None);
    assert_eq!(objective_to_keep(&svc, "t", &set, true), Some("work".to_string()));
    assert_eq!(objective_to_keep(&svc, "t", &edit, true), None);
    svc.set("t", "work", None, "g", ENV).expect("set");
    assert_eq!(objective_to_keep(&svc, "t", &edit, false), Some("more".to_string()));
    assert_eq!(objective_to_keep(&svc, "t", &GoalSubcommand::Show, true), None);
}
