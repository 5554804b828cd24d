use goal::accounting::{Clock, GoalAccounting, TokenTotals};
use goal::store::GoalStore;
use goal::types::{
    AccountingMode, AccountingOutcome, CreateGoalRequest, GoalStatus, DEFAULT_MAX_GOAL_TOKEN_BUDGET,
};

const CAP: i64 = DEFAULT_MAX_GOAL_TOKEN_BUDGET;

fn at(ms: i64) -> Clock {
    Clock {
        wall_ms: ms,
        mono_ns: (ms as u64) * 1_000_000,
    }
}

fn req(objective: &str, budget: Option<i64>) -> CreateGoalRequest {
    CreateGoalRequest {
        thread_id: "t1".into(),
        objective: objective.into(),
        token_budget: budget,
        verify_command: None,
    }
}

fn setup(budget: Option<i64>) -> (GoalAccounting, GoalStore) {
    let mut store = GoalStore::new();
    store
        .create(&req("obj", budget), "g1", CAP, 0)
        .expect("create");
    (
        GoalAccounting::new("t1", "g1", TokenTotals::default()),
        store,
    )
}

fn totals(input: u64, output: u64, cached: u64) -> TokenTotals {
    TokenTotals {
        input_tokens: input,
        output_tokens: output,
        cached_tokens: cached,
    }
}

#[test]
fn baseline_advances_only_on_updated() {
    let (mut acc, mut store) = setup(Some(10_000));
    let now = at(1);

    let out = acc
        .record_usage(&mut store, totals(100, 50, 10), now)
        .expect("record");
    assert!(matches!(
        out,
        AccountingOutcome::Updated {
            tokens_used: 140,
            ..
        }
    ));
    assert_eq!(acc.token_baseline(), Some(totals(100, 50, 10)));

    let out = acc
        .record_usage(&mut store, totals(100, 50, 10), now)
        .expect("record");
    assert_eq!(out, AccountingOutcome::Unchanged);

    store
        .replace(&req("v2", Some(10_000)), "g2", CAP, 0)
        .expect("replace");
    let out = acc
        .record_usage(&mut store, totals(500, 100, 0), now)
        .expect("record");
    assert_eq!(
        out,
        AccountingOutcome::Unchanged,
        "usage of the replaced goal is dropped"
    );
    assert_eq!(
        acc.token_baseline(),
        Some(totals(500, 100, 0)),
        "the new goal counts from here"
    );

    let out = acc
        .record_usage(&mut store, totals(500, 100, 0), now)
        .expect("record");
    assert_eq!(out, AccountingOutcome::Unchanged);
    let out = acc
        .record_usage(&mut store, totals(600, 100, 0), now)
        .expect("record");
    assert!(matches!(
        out,
        AccountingOutcome::Updated {
            tokens_used: 100,
            ..
        }
    ));

    let g = store.read("t1").expect("exists");
    assert_eq!(g.tokens_used, 100, "only what came after the replacement counts");
}

#[test]
fn concurrent_record_usage_interleaved_with_status() {
    let (mut acc, mut store) = setup(Some(100_000));
    let now = at(1);
    let goal = store.read("t1").expect("exists");

    let mut updated = 0;
    for _ in 0..8 {
        let out = acc
            .record_usage(&mut store, totals(800, 0, 0), now)
            .expect("record");
        if matches!(out, AccountingOutcome::Updated { .. }) {
            updated += 1;
        }
    }
    assert_eq!(updated, 1, "the same totals are booked once");
    let g = store.read("t1").expect("exists");
    assert_eq!(g.tokens_used, 800);

    store.pause("t1", &goal.goal_id, 0).expect("pause");
    let out = acc
        .record_usage(&mut store, totals(900, 0, 0), now)
        .expect("record");
    assert_eq!(out, AccountingOutcome::Unchanged);
    assert_eq!(
        acc.token_baseline(),
        Some(totals(800, 0, 0)),
        "the baseline stays"
    );

    store.resume("t1", &goal.goal_id, 0).expect("resume");
    let out = acc
        .record_usage(&mut store, totals(1000, 0, 0), now)
        .expect("record");
    assert!(matches!(
        out,
        AccountingOutcome::Updated {
            tokens_used: 1000,
            ..
        }
    ));
}

#[test]
fn budget_steering_reported_once() {
    let (mut acc, mut store) = setup(Some(100));
    let now = at(1);

    let out = acc
        .record_usage(&mut store, totals(150, 0, 0), now)
        .expect("record");
    assert!(matches!(
        out,
        AccountingOutcome::Updated {
            status: GoalStatus::BudgetLimited,
            ..
        }
    ));

    let s1 = acc.take_budget_steering_if_flipped(&store, &out);
    assert!(s1.is_some(), "the first time there is something to say");
    assert!(s1.unwrap().contains("budget_limited"));

    let out2 = acc
        .finish_turn(&mut store, Some(totals(160, 0, 0)), now)
        .expect("catchup");
    assert!(matches!(
        out2,
        AccountingOutcome::Updated {
            status: GoalStatus::BudgetLimited,
            ..
        }
    ));
    let s2 = acc.take_budget_steering_if_flipped(&store, &out2);
    assert_eq!(s2, None, "the second time there is not");
}

#[test]
fn wall_clock_start_stop_resume() {
    let (mut acc, mut store) = setup(None);
    let goal = store.read("t1").expect("exists");

    acc.start_wall_clock_if_active(&store, at(0));
    store.pause("t1", &goal.goal_id, 0).expect("pause");
    acc.start_wall_clock_if_active(&store, at(0));

    let out = acc
        .flush_wall_clock(&mut store, AccountingMode::ActiveOrStopped, at(2_500))
        .expect("flush");
    let out2 = acc
        .flush_wall_clock(&mut store, AccountingMode::ActiveOrStopped, at(9_000))
        .expect("flush2");
    assert_eq!(out2, AccountingOutcome::Unchanged);
    let _ = out;

    store.resume("t1", &goal.goal_id, 0).expect("resume");
    acc.start_wall_clock_if_active(&store, at(10_000));
    acc.reset_baselines("g1", TokenTotals::default());
    assert_eq!(acc.token_baseline(), Some(TokenTotals::default()));
}

#[test]
fn a_turn_without_an_active_goal_leaves_the_account_alone() {
    let (mut acc, mut store) = setup(None);
    acc.start_wall_clock_if_active(&store, at(1_000));
    store.pause("t1", "g1", 0).expect("pause");
    acc.start_wall_clock_if_active(&store, at(5_000));
    assert_eq!(acc.token_baseline(), Some(TokenTotals::default()));
    acc.flush_wall_clock(&mut store, AccountingMode::ActiveOrStopped, at(6_000))
        .expect("flush");
    assert_eq!(store.read("t1").expect("goal").time_used_seconds, 5);
}

#[test]
fn abnormal_stop_books_what_was_used() {
    let (mut acc, mut store) = setup(None);
    store.mark_blocked("t1", "g1", "boom", 0).expect("blocked");
    let out = acc
        .stop_abnormal(&mut store, Some(totals(30, 5, 10)), at(1))
        .expect("stop");
    assert_eq!(
        out,
        AccountingOutcome::Updated {
            tokens_used: 25,
            status: GoalStatus::Blocked
        }
    );
    assert_eq!(acc.last_totals(), totals(30, 5, 10));
}

#[test]
fn nothing_is_booked_without_a_goal() {
    let mut store = GoalStore::new();
    let mut acc = GoalAccounting::new_unarmed("t1");
    let out = acc
        .record_usage(&mut store, totals(5, 5, 0), at(1))
        .expect("record");
    assert_eq!(out, AccountingOutcome::Unchanged);
    assert_eq!(acc.thread_id(), "t1");
}

#[test]
fn whole_seconds_are_booked() {
    let (mut acc, mut store) = setup(None);
    acc.start_wall_clock_if_active(&store, at(1_000));
    store.pause("t1", "g1", 0).expect("pause");
    let out = acc
        .flush_wall_clock(&mut store, AccountingMode::ActiveOrStopped, at(3_999))
        .expect("flush");
    assert!(matches!(out, AccountingOutcome::Updated { .. }));
    assert_eq!(store.read("t1").expect("goal").time_used_seconds, 2);
    let again = acc
        .flush_wall_clock(&mut store, AccountingMode::ActiveOrStopped, at(9_000))
        .expect("flush");
    assert_eq!(again, AccountingOutcome::Unchanged);
    assert_eq!(store.read("t1").expect("goal").time_used_seconds, 2);
}
