use goal::store::{goal_from_row, GoalStore, GoalStoreError, StoredRow};
use goal::types::{
    AccountingMode as Mode, AccountingOutcome, CreateGoalRequest, Goal, GoalStatus,
    GoalValidationError, DEFAULT_MAX_GOAL_TOKEN_BUDGET,
};
use std::str::FromStr;

const CAP: i64 = DEFAULT_MAX_GOAL_TOKEN_BUDGET;
const NOW: i64 = 1_700_000_000_000;

fn req(thread: &str, objective: &str, budget: Option<i64>) -> CreateGoalRequest {
    CreateGoalRequest {
        thread_id: thread.into(),
        objective: objective.into(),
        token_budget: budget,
        verify_command: None,
    }
}

fn make_active(store: &mut GoalStore, thread: &str, budget: Option<i64>) -> Goal {
    store
        .create(&req(thread, "objective", budget), "g1", CAP, NOW)
        .expect("create")
}

#[test]
fn create_and_read_roundtrip() {
    let mut store = GoalStore::new();
    let mut r = req("t1", "  ship the thing  ", Some(1000));
    r.verify_command = Some("cargo test".into());
    let g = store.create(&r, "g1", CAP, NOW).expect("create");
    assert_eq!(g.status, GoalStatus::Active);
    assert_eq!(g.objective, "ship the thing");
    assert_eq!(g.verify_command.as_deref(), Some("cargo test"));
    assert_eq!(g.tokens_used, 0);
    assert_eq!(g.created_at_ms, NOW);
    assert_eq!(store.read("t1"), Some(g));
    assert_eq!(store.read("missing"), None);
}

#[test]
fn create_only_replaces_complete_goal() {
    let mut store = GoalStore::new();
    let active = make_active(&mut store, "t1", None);

    let err = store
        .create(&req("t1", "second", None), "g2", CAP, NOW)
        .expect_err("create over active must fail");
    assert!(matches!(err, GoalStoreError::ExistingUnfinishedGoal(_)));

    store
        .mark_complete("t1", &active.goal_id, NOW)
        .expect("complete");
    let completed_replacement = store
        .create(&req("t1", "second", None), "g2", CAP, NOW)
        .expect("create over complete");
    assert_eq!(completed_replacement.goal_id, "g2");

    let limited = make_active(&mut store, "limited", Some(1));
    store
        .account_thread_goal_usage("limited", &limited.goal_id, Mode::ActiveStatusOnly, 1, 0, NOW)
        .expect("limit goal");
    let err = store
        .create(&req("limited", "replacement", None), "g-limited-2", CAP, NOW)
        .expect_err("create over budget_limited must fail");
    assert!(matches!(err, GoalStoreError::ExistingUnfinishedGoal(_)));

    let g = store
        .replace(&req("t1", "third", None), "g3", CAP, NOW)
        .expect("replace");
    assert_eq!(g.goal_id, "g3");
}

#[test]
fn cas_stale_goal_id_is_unchanged() {
    let mut store = GoalStore::new();
    make_active(&mut store, "t1", None);
    store
        .replace(&req("t1", "v2", None), "g2", CAP, NOW)
        .expect("replace");

    let out = store
        .account_thread_goal_usage("t1", "g1", Mode::ActiveStatusOnly, 500, 10, NOW)
        .expect("account");
    assert_eq!(out, AccountingOutcome::Unchanged);
    let g = store.read("t1").expect("exists");
    assert_eq!(g.tokens_used, 0, "usage of a replaced goal is dropped");
}

#[test]
fn account_mode_matrix_over_sql() {
    for status in GoalStatus::ALL {
        let mut store = GoalStore::new();
        let g = make_active(&mut store, "t1", None);
        match status {
            GoalStatus::Active => {}
            GoalStatus::Paused => {
                store.pause("t1", &g.goal_id, NOW).expect("pause");
            }
            GoalStatus::Blocked => {
                store
                    .mark_blocked("t1", &g.goal_id, "x", NOW)
                    .expect("blocked");
            }
            GoalStatus::UsageLimited => {
                store
                    .mark_usage_limited("t1", &g.goal_id, "q", NOW)
                    .expect("usage");
            }
            GoalStatus::BudgetLimited => {
                let _ = store.clear("t1");
                store
                    .create(&req("t1", "obj", Some(100)), "gb", CAP, NOW)
                    .expect("create");
                let out = store
                    .account_thread_goal_usage("t1", "gb", Mode::ActiveStatusOnly, 150, 0, NOW)
                    .expect("account");
                assert!(matches!(
                    out,
                    AccountingOutcome::Updated {
                        status: GoalStatus::BudgetLimited,
                        ..
                    }
                ));
                continue;
            }
            GoalStatus::Complete => {
                store
                    .mark_complete("t1", &g.goal_id, NOW)
                    .expect("complete");
            }
        }
        for mode in [
            Mode::ActiveStatusOnly,
            Mode::ActiveOnly,
            Mode::ActiveOrComplete,
            Mode::ActiveOrStopped,
        ] {
            let out = store
                .account_thread_goal_usage("t1", &g.goal_id, mode, 10, 1, NOW)
                .expect("account");
            let expected_updated = mode.allows(status);
            assert_eq!(
                matches!(out, AccountingOutcome::Updated { .. }),
                expected_updated,
                "mode {mode:?} and status {status:?}"
            );
        }
    }
}

#[test]
fn budget_flip_is_terminal_and_catchup_works() {
    let mut store = GoalStore::new();
    store
        .create(&req("t1", "obj", Some(100)), "g1", CAP, NOW)
        .expect("create");

    let out = store
        .account_thread_goal_usage("t1", "g1", Mode::ActiveStatusOnly, 40, 0, NOW)
        .expect("account");
    assert_eq!(
        out,
        AccountingOutcome::Updated {
            tokens_used: 40,
            status: GoalStatus::Active
        }
    );

    let out = store
        .account_thread_goal_usage("t1", "g1", Mode::ActiveStatusOnly, 60, 5, NOW)
        .expect("account");
    assert_eq!(
        out,
        AccountingOutcome::Updated {
            tokens_used: 100,
            status: GoalStatus::BudgetLimited
        }
    );
    let limited = store.read("t1").expect("goal");
    assert_eq!(limited.status_reason.as_deref(), Some("budget_limited"));

    let normal = store
        .account_thread_goal_usage("t1", "g1", Mode::ActiveStatusOnly, 10, 0, NOW)
        .expect("account");
    assert_eq!(normal, AccountingOutcome::Unchanged, "a terminal goal books nothing more");

    let catchup = store
        .account_thread_goal_usage("t1", "g1", Mode::ActiveOnly, 10, 0, NOW)
        .expect("account");
    assert!(matches!(
        catchup,
        AccountingOutcome::Updated {
            status: GoalStatus::BudgetLimited,
            ..
        }
    ));
}

#[test]
fn user_transitions_pause_resume_clear() {
    let mut store = GoalStore::new();
    let g = make_active(&mut store, "t1", None);

    let paused = store.pause("t1", &g.goal_id, NOW).expect("pause");
    assert_eq!(paused.status, GoalStatus::Paused);
    assert!(
        store.pause("t1", &g.goal_id, NOW).is_err(),
        "a paused goal cannot be paused"
    );

    let active = store.resume("t1", &g.goal_id, NOW).expect("resume");
    assert_eq!(active.status, GoalStatus::Active);

    store
        .mark_usage_limited("t1", &g.goal_id, "quota", NOW)
        .expect("usage");
    assert_eq!(
        store.resume("t1", &g.goal_id, NOW).expect("resume").status,
        GoalStatus::Active
    );
    store
        .mark_blocked("t1", &g.goal_id, "boom", NOW)
        .expect("blocked");
    let r = store.resume("t1", &g.goal_id, NOW).expect("resume");
    assert_eq!(r.status, GoalStatus::Active);
    assert_eq!(r.status_reason, None, "resuming clears the reason");

    store
        .mark_complete("t1", &g.goal_id, NOW)
        .expect("complete");
    assert!(store.resume("t1", &g.goal_id, NOW).is_err());

    assert!(store.clear("t1"));
    assert!(!store.clear("t1"), "clearing twice changes nothing");
    assert_eq!(store.read("t1"), None);
}

#[test]
fn deferral_lifecycle_and_fk_cascade() {
    let mut store = GoalStore::new();
    let g = make_active(&mut store, "t1", None);

    assert!(store.defer_continuation("t1"));
    assert!(store.has_continuation_deferral("t1"));

    store.clear("t1");
    assert!(
        !store.has_continuation_deferral("t1"),
        "the mark goes with the goal"
    );

    assert!(!store.defer_continuation("ghost"));
    assert!(!store.has_continuation_deferral("ghost"));

    let _ = make_active(&mut store, "t2", None);
    store.defer_continuation("t2");
    assert!(store.clear_continuation_deferral("t2"));
    assert!(!store.clear_continuation_deferral("t2"));
    let _ = g;
}

#[test]
fn replace_allows_any_status_and_cascades() {
    let mut store = GoalStore::new();
    let g = make_active(&mut store, "t1", None);
    store.defer_continuation("t1");

    let v2 = store
        .replace(&req("t1", "v2", Some(50)), "g2", CAP, NOW)
        .expect("replace");
    assert_eq!(v2.goal_id, "g2");
    assert!(
        !store.has_continuation_deferral("t1"),
        "the mark goes with the goal"
    );

    let out = store
        .account_thread_goal_usage("t1", &g.goal_id, Mode::ActiveOrStopped, 999, 9, NOW)
        .expect("account");
    assert_eq!(out, AccountingOutcome::Unchanged, "the old goal cannot write to the new row");

    let g2 = store.pause("t1", "g2", NOW).expect("pause");
    assert_eq!(g2.status, GoalStatus::Paused);
    store
        .replace(&req("t1", "v3", None), "g3", CAP, NOW)
        .expect("replace paused");
    assert_eq!(
        store.read("t1").map(|g| g.goal_id),
        Some("g3".into())
    );
}

#[test]
fn edit_objective_rules() {
    let mut store = GoalStore::new();
    let g = make_active(&mut store, "t1", None);

    let edited = store
        .edit_objective("t1", &g.goal_id, "  new objective  ", NOW)
        .expect("edit");
    assert_eq!(edited.objective, "new objective");

    store
        .mark_complete("t1", &g.goal_id, NOW)
        .expect("complete");
    assert!(
        store
            .edit_objective("t1", &g.goal_id, "nope", NOW)
            .is_err(),
        "a terminal goal cannot be edited"
    );
    assert!(
        store.edit_objective("t1", &g.goal_id, "   ", NOW).is_err(),
        "an empty objective is refused"
    );
}

#[test]
fn sqlite_connect_options_parse_with_query() {
    let _ = sqlx::sqlite::SqliteConnectOptions::from_str("sqlite:x.db?mode=rwc")
        .expect("parse connect options");
}

fn row(status: &str) -> StoredRow {
    StoredRow {
        thread_id: "t".into(),
        goal_id: "g".into(),
        objective: "@file:t.md".into(),
        status: status.into(),
        token_budget: Some(5),
        tokens_used: 3,
        time_used_seconds: 4,
        verify_command: None,
        status_reason: Some("why".into()),
        created_at_ms: 10,
        updated_at_ms: 20,
        objective_revision: 1,
        iteration_count: 2,
    }
}

#[test]
fn rows_are_read_with_their_status() {
    let g = goal_from_row(&row("usage_limited")).expect("row");
    assert_eq!(g.status, GoalStatus::UsageLimited);
    assert!(g.objective_file);
    assert_eq!(g.iteration_count, 2);
    assert_eq!(
        goal_from_row(&row("gone")),
        Err(GoalStoreError::Sqlx(
            "error occurred while decoding column status: unknown goal status: gone".into()
        ))
    );
    let mut store = GoalStore::new();
    store.restore(&row("paused"), true).expect("restore");
    assert!(store.has_continuation_deferral("t"));
    assert_eq!(store.read("t").expect("goal").status, GoalStatus::Paused);
}

#[test]
fn errors_say_what_happened() {
    let mut store = GoalStore::new();
    make_active(&mut store, "t1", None);
    let e = store.create(&req("t1", "x", None), "g2", CAP, NOW).unwrap_err();
    assert_eq!(e, GoalStoreError::ExistingUnfinishedGoal("t1".into()));
    assert!(e.message().contains("t1"));
    let e = store.pause("t1", "other", NOW).unwrap_err();
    assert_eq!(e, GoalStoreError::NotFoundOrDisallowed("t1".into()));
    let e = store.create(&req("t2", " ", None), "g2", CAP, NOW).unwrap_err();
    assert_eq!(e, GoalStoreError::Validation(GoalValidationError::EmptyObjective));
    let e = store.update_budget("t1", "g1", 0, CAP, NOW).unwrap_err();
    assert_eq!(e, GoalStoreError::Validation(GoalValidationError::BudgetMustBePositive));
    store.account_thread_goal_usage("t1", "g1", Mode::ActiveOnly, i64::MAX, 0, NOW).expect("fits");
    let e = store
        .account_thread_goal_usage("t1", "g1", Mode::ActiveOnly, 1, 0, NOW)
        .unwrap_err();
    assert_eq!(e, GoalStoreError::Sqlx("integer overflow".into()));
    assert!(!GoalStoreError::LockTimeout.message().is_empty());
}

#[test]
fn new_budget_lets_a_limited_goal_go_on() {
    let mut store = GoalStore::new();
    store.create(&req("t", "obj", Some(10)), "g", CAP, NOW).expect("create");
    store.account_thread_goal_usage("t", "g", Mode::ActiveOnly, 10, 0, NOW).expect("account");
    assert_eq!(store.read("t").expect("goal").status, GoalStatus::BudgetLimited);
    let g = store.update_budget("t", "g", 100, CAP, NOW).expect("budget");
    assert_eq!(g.tokens_used, 10);
    assert_eq!(g.token_budget, Some(100));
    let g = store.resume("t", "g", NOW).expect("resume");
    assert_eq!(g.status, GoalStatus::Active);
    assert_eq!(g.tokens_used, 10);
}

#[test]
fn listing_is_newest_first_and_finds_by_id() {
    let mut store = GoalStore::new();
    store.create(&req("a", "x", None), "ga", CAP, 1).expect("create");
    store.create(&req("b", "x", None), "gb", CAP, 3).expect("create");
    store.create(&req("c", "x", None), "gc", CAP, 2).expect("create");
    let ids: Vec<String> = store.list_all().into_iter().map(|(t, _)| t).collect();
    assert_eq!(ids, vec!["b", "c", "a"]);
    assert_eq!(store.find_by_goal_id("gc").expect("found").0, "c");
    assert!(store.find_by_goal_id("gd").is_none());
}

#[test]
fn other_threads_are_left_alone() {
    let mut store = GoalStore::new();
    make_active(&mut store, "a", None);
    let b = make_active(&mut store, "b", Some(7));
    store.pause("a", "g1", NOW + 1).expect("pause");
    store.clear("a");
    assert_eq!(store.read("b"), Some(b));
}

#[test]
fn a_row_is_read_whatever_was_used() {
    let mut store = GoalStore::new();
    let r = StoredRow {
        tokens_used: -5,
        time_used_seconds: -1,
        token_budget: Some(i64::MAX),
        ..row("active")
    };
    store.restore(&r, false).unwrap();
    let g = store.read(&r.thread_id).unwrap();
    assert_eq!(g.tokens_used, -5);
    assert_eq!(g.remaining_tokens(), Some(i64::MAX));
}
