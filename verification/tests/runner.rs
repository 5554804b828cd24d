use goal::extension::GoalStatus as WireStatus;
use goal::goal_cmd::{
    exits_with_failure, outcome_line, plan_goal_command, task_id_line, GoalArgs, GoalPlan,
};
use goal::goal_file::{
    generate_goal_id, mcp_config_text, GoalFileStore, RuntimeControls, Shown,
};
use goal::goal_meta::{GoalLifecycle, GoalMeta, GoalOutcome, HistoryEntry, TaskStatus};
use goal::goal_runner::{
    goal_session, GoalResult, GoalRun, GoalRunError, RunAction, RunEvent, Stage, MAX_ITERATIONS,
};
use goal::json::Json;
use goal::migrate::{
    migrate_goals_json, migrate_task_meta, next_page, unreadable_warning, warning_for, warning_with,
    LegacyGoalJson, MigrateSummary, TaskRecord,
};
use goal::store::{GoalStore, GoalStoreError};
use goal::types::GoalStatus;

#[test]
fn test_goal_result_fields() {
    let result = GoalResult {
        task_id: "test-id-123".to_string(),
        outcome: GoalOutcome::Achieved,
    };
    assert_eq!(result.task_id, "test-id-123");
    assert!(matches!(result.outcome, GoalOutcome::Achieved));
}

#[test]
fn test_goal_run_error_display() {
    let err = GoalRunError::Init("test error".to_string());
    assert_eq!(err.message(), "goal init error: test error");
    let err = GoalRunError::Unavailable("x".to_string());
    assert_eq!(err.message(), "goal runner unavailable: x");
}

#[test]
fn legacy_store_roundtrip() {
    let mut store = GoalFileStore::new();
    let id = generate_goal_id();
    store.runtime_start(
        Shown {
            working_directory: "/work",
            title: "T",
            description: "D",
            task_id: "task-1",
            session_id: Some("s-legacy"),
            model: None,
            effort: Some("high"),
        },
        &id,
        "t0",
    );
    assert_eq!(store.goals.len(), 1);
    assert_eq!(store.goals[0].id, id);
    assert_eq!(store.goals[0].status, WireStatus::Active);
    assert_eq!(store.goals[0].session_ids, vec!["s-legacy"]);
    let meta = store.goals[0].metadata.as_ref().unwrap();
    assert_eq!(meta.get("taskId").unwrap().as_str(), Some("task-1"));
    assert_eq!(meta.get("model"), Some(&Json::Null));
    assert_eq!(meta.get("effort").unwrap().as_str(), Some("high"));

    store
        .runtime_set_status(&id, WireStatus::Paused, "t1")
        .unwrap();
    assert_eq!(store.goals[0].status, WireStatus::Paused);
    assert_eq!(store.goals[0].updated_at, "t1");
    assert_eq!(store.goals[0].created_at, "t0");
    assert_eq!(
        store.runtime_set_status("nope", WireStatus::Paused, "t1"),
        Err("goal 'nope' not found".to_string())
    );
}

#[test]
fn runtime_control_register_unregister() {
    let mut controls = RuntimeControls::new();
    let control = controls.register_runtime_goal("legacy-ctl-test");
    assert!(!control.is_terminal());
    let later = controls.register_runtime_goal("legacy-ctl-test");
    assert_ne!(control.instance_id, later.instance_id);
    controls.unregister_runtime_goal("legacy-ctl-test", &control);
    controls.unregister_runtime_goal("legacy-ctl-test", &later);
}

#[test]
fn shown_goals_get_ids_of_their_own() {
    let id = generate_goal_id();
    assert!(id.starts_with("goal-"));
    assert_eq!(id.len(), 41);
    assert_ne!(id, generate_goal_id());
    assert_eq!(&id[19..20], "4");
    assert!("89ab".contains(&id[24..25]));
    let control = RuntimeControls::new().register_runtime_goal(&id);
    assert_eq!(control.instance_id.len(), 36);
    assert_eq!(&control.instance_id[14..15], "4");
    assert_eq!(
        mcp_config_text("C:\\tasks.db"),
        "{\"mcpServers\":{\"task\":{\"command\":\"task-mcp-server\",\"args\":[\"--db-path\",\"C:\\\\tasks.db\"]}}}"
    );
}

fn blank() -> GoalMeta {
    GoalMeta {
        tool: String::new(),
        model: None,
        effort: None,
        tokens_used: 0,
        token_budget: None,
        time_used_seconds: 0,
        verify_command: None,
        lifecycle: GoalLifecycle::Active,
        lifecycle_reason: None,
        iteration: 0,
        history: Vec::new(),
    }
}

fn polled() -> RunEvent {
    RunEvent::Polled {
        cancelled: false,
        terminal: false,
        timestamp: "now".into(),
    }
}

fn finish(actions: &[RunAction]) -> &Result<GoalResult, GoalRunError> {
    match actions.last() {
        Some(RunAction::Finish(r)) => r,
        other => panic!("not finished: {other:?}"),
    }
}

fn begun() -> GoalRun {
    let (mut run, first) = GoalRun::run_goal(
        "ship it".into(),
        Some("m1".into()),
        None,
        Some("s".into()),
        blank(),
        2,
    );
    assert!(matches!(first[..], [RunAction::OpenDb]));
    let a = run.step(RunEvent::DbReady);
    assert!(matches!(&a[..], [RunAction::Create { objective }] if objective == "ship it"));
    let a = run.step(RunEvent::Created("task-0123456789".into()));
    assert!(matches!(&a[..], [RunAction::WriteConfig]));
    let a = run.step(RunEvent::ConfigWritten);
    assert!(matches!(
        &a[..],
        [RunAction::Materialize { task_id, model: Some(m), .. }]
            if task_id == "task-0123456789" && m == "m1"
    ));
    let a = run.step(RunEvent::Materialized("goal-1".into()));
    assert!(matches!(&a[..], [RunAction::Poll]));
    run
}

#[test]
fn a_run_goes_on_until_its_task_is_completed() {
    let mut run = begun();
    let a = run.step(polled());
    match &a[..] {
        [RunAction::Save { meta, .. }, RunAction::RunTurn {
            session_id,
            iteration,
            history_summary,
            ..
        }] => {
            assert_eq!(meta.tool, "anureo");
            assert_eq!(meta.iteration, 1);
            assert_eq!(meta.history.len(), 1);
            assert_eq!(session_id, "goal-task-012");
            assert_eq!(*iteration, 1);
            assert_eq!(*history_summary, None);
        }
        other => panic!("{other:?}"),
    }
    assert!(run
        .step(RunEvent::Usage {
            input: 10,
            output: 5
        })
        .is_empty());
    let a = run.step(RunEvent::TurnFinished);
    assert!(matches!(&a[..], [RunAction::Save { meta, .. }, RunAction::Show { .. }] if meta.tokens_used == 15));
    let a = run.step(RunEvent::Shown(TaskStatus::InProgress));
    assert!(matches!(&a[..], [RunAction::Poll]));

    let a = run.step(polled());
    assert!(matches!(
        &a[1],
        RunAction::RunTurn { history_summary: Some(h), .. }
            if h == "Previous iterations:\n  iter 1: completed"
    ));
    run.step(RunEvent::TurnFinished);
    run.step(RunEvent::Shown(TaskStatus::InProgress));
    let a = run.step(polled());
    match &a[0] {
        RunAction::Save { meta, .. } => {
            assert_eq!(
                meta.history.iter().map(|e| e.iteration).collect::<Vec<_>>(),
                vec![2, 3]
            );
        }
        other => panic!("{other:?}"),
    }
    run.step(RunEvent::TurnFinished);
    let a = run.step(RunEvent::Shown(TaskStatus::Completed));
    assert!(matches!(
        &a[1],
        RunAction::SetStatus {
            status: WireStatus::Completed,
            ..
        }
    ));
    assert!(matches!(&a[2], RunAction::Unregister { goal_id } if goal_id == "goal-1"));
    assert_eq!(
        finish(&a),
        &Ok(GoalResult {
            task_id: "task-0123456789".into(),
            outcome: GoalOutcome::Achieved
        })
    );
    assert_eq!(run.stage(), Stage::Done);
    assert_eq!(run.meta().lifecycle, GoalLifecycle::Completed);
    assert!(run.step(polled()).is_empty());
}

#[test]
fn a_goal_has_only_so_many_turns() {
    let mut run = begun();
    let mut turns = 0;
    loop {
        let a = run.step(polled());
        assert!(matches!(&a[1], RunAction::RunTurn { .. }));
        turns += 1;
        run.step(RunEvent::TurnFinished);
        let a = run.step(RunEvent::Shown(TaskStatus::InProgress));
        if !matches!(&a[..], [RunAction::Poll]) {
            assert_eq!(
                finish(&a).as_ref().unwrap().outcome,
                GoalOutcome::Blocked("max iterations (100) reached".into())
            );
            break;
        }
    }
    assert_eq!(turns, MAX_ITERATIONS);
}

#[test]
fn a_stopped_run_says_whether_for_good() {
    for (terminal, reason, to, status) in [
        (true, "cancelled by user", TaskStatus::Cancelled, WireStatus::Cancelled),
        (false, "aborted by user", TaskStatus::Pending, WireStatus::Paused),
    ] {
        let mut run = begun();
        let a = run.step(RunEvent::Polled {
            cancelled: true,
            terminal,
            timestamp: "now".into(),
        });
        assert!(matches!(&a[0], RunAction::Move { to: t, .. } if *t == to));
        assert!(matches!(&a[3], RunAction::SetStatus { status: s, .. } if *s == status));
        assert_eq!(
            finish(&a).as_ref().unwrap().outcome,
            GoalOutcome::Error(reason.into())
        );

        let mut run = begun();
        run.step(polled());
        let a = run.step(RunEvent::TurnCancelled { terminal });
        assert!(matches!(&a[1], RunAction::Move { to: t, .. } if *t == to));
        assert_eq!(run.meta().lifecycle_reason.as_deref(), Some(reason));
    }
}

#[test]
fn a_failed_turn_can_be_tried_again() {
    let mut run = begun();
    run.step(polled());
    let a = run.step(RunEvent::TurnFailed("no network".into()));
    assert!(matches!(
        &a[1],
        RunAction::Move {
            to: TaskStatus::Pending,
            ..
        }
    ));
    assert_eq!(
        finish(&a),
        &Err(GoalRunError::Unavailable("goal turn failed: no network".into()))
    );
    assert_eq!(
        run.meta().lifecycle_reason.as_deref(),
        Some("goal turn failed; retryable: no network")
    );
}

fn resumed(recovering: bool) -> GoalRun {
    let (mut run, _) = GoalRun::resume_goal(
        "task-1".into(),
        "goal-1".into(),
        "ship it".into(),
        Some("m1".into()),
        Some("low".into()),
        recovering,
        blank(),
        5,
    );
    let a = run.step(RunEvent::DbReady);
    assert!(matches!(&a[..], [RunAction::Claim { task_id }] if task_id == "task-1"));
    run
}

#[test]
fn an_existing_task_goes_on_with_what_it_remembers() {
    let mut run = resumed(false);
    run.step(RunEvent::Claimed(true));
    run.step(RunEvent::Shown(TaskStatus::InProgress));
    let a = run.step(RunEvent::ConfigWritten);
    assert!(matches!(&a[..], [RunAction::Recall { .. }]));
    let mut m = blank();
    m.model = Some("m0".into());
    m.iteration = 7;
    m.tokens_used = 40;
    m.lifecycle = GoalLifecycle::Paused;
    m.history = vec![HistoryEntry {
        iteration: 7,
        timestamp: "then".into(),
        summary: None,
    }];
    let a = run.step(RunEvent::Recalled(Some(m)));
    assert!(matches!(&a[..], [RunAction::Register { goal_id }, RunAction::Poll] if goal_id == "goal-1"));
    assert_eq!(run.meta().lifecycle, GoalLifecycle::Active);
    let a = run.step(polled());
    assert!(matches!(
        &a[1],
        RunAction::RunTurn { iteration: 8, model: Some(m), effort: Some(e), .. }
            if m == "m0" && e == "low"
    ));
    run.step(RunEvent::Usage { input: 2, output: 0 });
    run.step(RunEvent::TurnFinished);
    assert_eq!(run.meta().tokens_used, 42);
}

#[test]
fn a_task_that_cannot_be_claimed_is_refused() {
    let mut run = resumed(false);
    let a = run.step(RunEvent::Claimed(false));
    assert_eq!(
        finish(&a),
        &Err(GoalRunError::Init("goal task 'task-1' is not resumable".into()))
    );

    let mut run = resumed(true);
    let a = run.step(RunEvent::Claimed(false));
    assert!(matches!(&a[..], [RunAction::Show { .. }]));
    let a = run.step(RunEvent::Shown(TaskStatus::InProgress));
    assert!(matches!(&a[..], [RunAction::Show { .. }]));
    assert_eq!(run.stage(), Stage::Reading);

    let mut run = resumed(true);
    run.step(RunEvent::Claimed(false));
    let a = run.step(RunEvent::Shown(TaskStatus::Completed));
    assert!(matches!(
        &a[0],
        RunAction::Move {
            to: TaskStatus::Pending,
            ..
        }
    ));
    assert!(finish(&a).is_err());
}

#[test]
fn what_cannot_be_set_up_is_rolled_back() {
    let errors: Vec<(Vec<RunEvent>, &str)> = vec![
        (vec![RunEvent::DirFailed("e".into())], "create task DB directory: e"),
        (vec![RunEvent::OpenFailed("e".into())], "open task DB: e"),
        (
            vec![RunEvent::DbReady, RunEvent::CreateFailed("e".into())],
            "create goal task: e",
        ),
        (
            vec![
                RunEvent::DbReady,
                RunEvent::Created("t".into()),
                RunEvent::ConfigFailed("e".into()),
            ],
            "write goal MCP config: e",
        ),
        (
            vec![
                RunEvent::DbReady,
                RunEvent::Created("t".into()),
                RunEvent::ConfigWritten,
                RunEvent::MaterializeFailed("e".into()),
            ],
            "materialize ACP goal: e",
        ),
    ];
    for (events, why) in errors {
        let (mut run, _) = GoalRun::run_goal("o".into(), None, None, None, blank(), 5);
        let mut last = Vec::new();
        for e in events {
            last = run.step(e);
        }
        assert_eq!(finish(&last), &Err(GoalRunError::Init(why.into())));
        assert_eq!(run.stage(), Stage::Done);
    }
    for (e, why) in [
        (RunEvent::RecallFailed("e".into()), "read goal metadata: e"),
        (RunEvent::DecodeFailed("e".into()), "decode goal metadata: e"),
    ] {
        let mut run = resumed(false);
        run.step(RunEvent::Claimed(true));
        run.step(RunEvent::Shown(TaskStatus::InProgress));
        run.step(RunEvent::ConfigWritten);
        let a = run.step(e);
        assert!(matches!(
            &a[0],
            RunAction::Move {
                to: TaskStatus::Pending,
                ..
            }
        ));
        assert_eq!(finish(&a), &Err(GoalRunError::Init(why.into())));
    }
    let mut run = resumed(false);
    let a = run.step(RunEvent::ClaimFailed("e".into()));
    assert_eq!(finish(&a), &Err(GoalRunError::Init("resume goal task: e".into())));
    let mut run = resumed(false);
    run.step(RunEvent::Claimed(true));
    let a = run.step(RunEvent::ShowFailed("e".into()));
    assert_eq!(finish(&a), &Err(GoalRunError::Init("read goal task: e".into())));
}

#[test]
fn sessions_are_named_after_their_task() {
    assert_eq!(goal_session("0123456789"), "goal-01234567");
    assert_eq!(goal_session("目目目"), "goal-目目");
    assert_eq!(task_id_line("0123456789"), "task_id: 01234567");
}

fn args(resume: Option<&str>, description: Option<&str>, id: Option<&str>) -> GoalArgs {
    GoalArgs {
        migrate: false,
        resume: resume.map(str::to_string),
        description: description.map(str::to_string),
        id: id.map(str::to_string),
        tool: "anureo".into(),
    }
}

#[test]
fn the_command_line_is_planned() {
    assert_eq!(plan_goal_command(&args(None, None, None)), GoalPlan::Missing);
    assert_eq!(
        plan_goal_command(&args(Some("t"), Some("d"), None)),
        GoalPlan::Resume { id: "t".into() }
    );
    assert_eq!(
        plan_goal_command(&args(None, Some("d"), Some("  "))),
        GoalPlan::EmptyId
    );
    assert_eq!(
        plan_goal_command(&args(None, Some("d"), Some(" x "))),
        GoalPlan::Start {
            description: "d".into(),
            id: Some("x".into()),
            own_tool: true
        }
    );
    let shell = GoalArgs {
        tool: "codex".into(),
        ..args(None, Some("d"), None)
    };
    assert_eq!(
        plan_goal_command(&shell),
        GoalPlan::Start {
            description: "d".into(),
            id: None,
            own_tool: false
        }
    );
    let migrate = GoalArgs {
        migrate: true,
        ..args(Some("t"), None, None)
    };
    assert_eq!(plan_goal_command(&migrate), GoalPlan::Migrate);
}

#[test]
fn outcomes_are_printed() {
    let limited = GoalOutcome::UsageLimited {
        tokens_used: 7,
        token_budget: 5,
    };
    assert_eq!(outcome_line(&GoalOutcome::Achieved), "goal achieved");
    assert_eq!(outcome_line(&GoalOutcome::Error("e".into())), "goal failed: e");
    assert_eq!(outcome_line(&GoalOutcome::Blocked("b".into())), "goal blocked: b");
    assert_eq!(
        outcome_line(&limited),
        "goal stopped: token budget exhausted (7/5)"
    );
    assert!(!exits_with_failure(&GoalOutcome::Achieved));
    assert!(!exits_with_failure(&limited));
    assert!(exits_with_failure(&GoalOutcome::Error("e".into())));
    assert!(exits_with_failure(&GoalOutcome::Blocked("b".into())));
}

fn task(id: &str, lifecycle: GoalLifecycle, reason: Option<&str>) -> TaskRecord {
    let mut m = blank();
    m.lifecycle = lifecycle;
    m.lifecycle_reason = reason.map(str::to_string);
    m.tokens_used = 9;
    m.token_budget = Some(100);
    m.time_used_seconds = -4;
    TaskRecord {
        id: id.into(),
        name: format!(" name of {id} "),
        description: " ".into(),
        meta: Some(m),
    }
}

#[test]
fn goals_of_tasks_are_brought_in_once() {
    let tasks = vec![
        task("a", GoalLifecycle::Active, Some("ignored")),
        task("p", GoalLifecycle::Paused, None),
        task("b", GoalLifecycle::Blocked, Some("why")),
        task("u", GoalLifecycle::UsageLimited, Some("quota")),
        task("c", GoalLifecycle::Completed, None),
        task("f", GoalLifecycle::Failed, None),
        task("x", GoalLifecycle::Cancelled, None),
        TaskRecord {
            id: "n".into(),
            name: "n".into(),
            description: "n".into(),
            meta: None,
        },
    ];
    let mut store = GoalStore::new();
    let mut sum = MigrateSummary::default();
    migrate_task_meta(&mut store, &mut sum, &tasks, 5).unwrap();
    assert_eq!(sum.task_meta_migrated, 6);
    assert_eq!(sum.task_meta_skipped_cancelled, 1);
    assert_eq!(sum.task_meta_existing, 0);
    let a = store.read("a").unwrap();
    assert_eq!(a.objective, "name of a");
    assert_eq!(a.status, GoalStatus::Active);
    assert_eq!(a.status_reason, None);
    assert_eq!((a.tokens_used, a.token_budget, a.time_used_seconds), (9, Some(100), 0));
    assert!(a.goal_id.starts_with("goal-"));
    assert_eq!(store.read("p").unwrap().status, GoalStatus::Paused);
    assert_eq!(store.read("b").unwrap().status_reason.as_deref(), Some("why"));
    assert_eq!(store.read("u").unwrap().status, GoalStatus::UsageLimited);
    assert_eq!(store.read("c").unwrap().status, GoalStatus::Complete);
    let f = store.read("f").unwrap();
    assert_eq!(f.status, GoalStatus::Blocked);
    assert_eq!(
        f.status_reason.as_deref(),
        Some("migrated from GoalLifecycle::Failed")
    );
    assert!(store.read("x").is_none());

    migrate_task_meta(&mut store, &mut sum, &tasks, 6).unwrap();
    assert_eq!(sum.task_meta_migrated, 6);
    assert_eq!(sum.task_meta_existing, 6);
    assert_eq!(store.read("a"), Some(a));
}

fn shown(id: &str, status: &str, session: Option<&str>) -> LegacyGoalJson {
    LegacyGoalJson {
        id: id.into(),
        title: "title".into(),
        description: String::new(),
        status: status.into(),
        session_ids: session.into_iter().map(str::to_string).collect(),
    }
}

#[test]
fn shown_goals_are_brought_in_once() {
    let goals = vec![
        shown("1", " Pending ", Some("s1")),
        shown("2", "paused", Some("s2")),
        shown("3", "COMPLETED", Some("s3")),
        shown("4", "failed", Some("s4")),
        shown("5", "cancelled", Some("s5")),
        shown("6", "active", None),
        shown("7", "odd", Some("s7")),
        shown("8", "active", Some("s1")),
    ];
    let mut store = GoalStore::new();
    let mut sum = MigrateSummary::default();
    migrate_goals_json(&mut store, &mut sum, &goals, 5).unwrap();
    assert_eq!(sum.json_migrated, 4);
    assert_eq!(sum.json_skipped_cancelled, 1);
    assert_eq!(sum.json_skipped_no_session, 1);
    assert_eq!(sum.json_existing, 1);
    let g = store.read("s1").unwrap();
    assert_eq!((g.goal_id.as_str(), g.objective.as_str()), ("1", "title"));
    assert_eq!(g.status_reason.as_deref(), Some("migrated from goals.json"));
    assert_eq!(store.read("s4").unwrap().status, GoalStatus::Blocked);
    assert!(store.read("s7").is_none());
    assert_eq!(
        sum.report(),
        "goal 迁移完成：\n  task meta（GoalMeta）：迁移 0，跳过(cancelled) 0，已存在 0\n  goals.json：迁移 4，跳过(cancelled) 1，跳过(无 session) 1，已存在 1\n  合计写入 4 行到 thread_goals"
    );
    migrate_goals_json(&mut store, &mut sum, &goals, 6).unwrap();
    assert_eq!(sum.json_migrated, 4);
    assert_eq!(sum.total_migrated(), 4);
}

#[test]
fn a_goal_without_an_objective_stops_the_migration() {
    let mut empty = shown("1", "active", Some("s1"));
    empty.title = "  ".into();
    let mut store = GoalStore::new();
    let mut sum = MigrateSummary::default();
    let r = migrate_goals_json(
        &mut store,
        &mut sum,
        &vec![empty, shown("2", "active", Some("s2"))],
        5,
    );
    assert!(matches!(r, Err(GoalStoreError::Validation(_))));
    assert!(store.read("s2").is_none());
}

#[test]
fn goals_left_out_are_warned_of() {
    assert_eq!(
        warning_for(&shown("g1", " Odd ", Some("s"))).as_deref(),
        Some("warn: goal g1 状态 “odd” 未知，跳过")
    );
    assert_eq!(
        warning_for(&shown("g1", "ÉTÉ", None)).as_deref(),
        Some("warn: goal g1 状态 “été” 未知，跳过")
    );
    assert_eq!(
        warning_with(&shown("g1", "odd", None), "x").as_deref(),
        Some("warn: goal g1 状态 “x” 未知，跳过")
    );
    let lost = warning_for(&shown("g2", "active", None)).unwrap();
    assert!(lost.starts_with("warn: goal g2（"));
    assert!(lost.ends_with("）无 sessionIds，无 thread 可绑，跳过"));
    assert_eq!(warning_for(&shown("g3", "cancelled", None)), None);
    assert_eq!(warning_for(&shown("g4", "paused", Some("s"))), None);
}

#[test]
fn tasks_are_read_page_by_page() {
    assert_eq!(next_page(1, 200), Some(2));
    assert_eq!(next_page(7, 201), Some(8));
    assert_eq!(next_page(1, 199), None);
    assert_eq!(next_page(1, 0), None);
    assert_eq!(
        unreadable_warning("t1", "missing field"),
        "warn: task t1 的 goal meta 解析失败，跳过：missing field"
    );
}

#[test]
fn the_first_task_on_a_thread_brings_its_goal() {
    let mut store = GoalStore::new();
    let mut sum = MigrateSummary::default();
    let tasks = vec![
        task("t", GoalLifecycle::Cancelled, None),
        task("t", GoalLifecycle::Failed, Some("boom")),
        task("t", GoalLifecycle::Completed, None),
    ];
    migrate_task_meta(&mut store, &mut sum, &tasks, 5).unwrap();
    let g = store.read("t").unwrap();
    assert_eq!(g.status, GoalStatus::Blocked);
    assert_eq!(g.status_reason.as_deref(), Some("boom"));
    assert_eq!(g.goal_id.len(), 41);
    assert_eq!(sum.task_meta_existing, 1);
}
