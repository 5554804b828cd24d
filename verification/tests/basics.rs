use goal::accounting::{goal_token_delta, TokenTotals};
use goal::commands::{parse, Command, GoalSubcommand};
use goal::metrics::{Counter, GoalMetrics};
use goal::objective_file::{
    file_name_for, file_path, goals_dir_for, is_file_backed, marker_file_name, marker_for, needs_file_backing,
    objective_exceeds_limit,
};
use goal::table::Table;
use goal::text;
use goal::tool_accounting::{ToolAccounting, MAX_CONSECUTIVE_EXECUTION_FAILURES};
use goal::tools::ShellVerifyRunner;
use goal::types::{
    max_goal_token_budget, AccountingMode, CreateGoalRequest, Goal, GoalStatus, GoalValidationError,
    DEFAULT_MAX_GOAL_TOKEN_BUDGET, MAX_OBJECTIVE_LEN,
};

#[test]
fn parse_reset_aliases() {
    assert_eq!(parse("/reset"), Some(Command::ResetContext));
    assert_eq!(parse("/clear"), Some(Command::ResetContext));
    assert_eq!(parse("/new"), Some(Command::ResetContext));
    assert_eq!(parse("  /reset  "), Some(Command::ResetContext));
}

#[test]
fn parse_compact_with_and_without_instructions() {
    assert_eq!(
        parse("/compact"),
        Some(Command::Compact { instructions: None })
    );
    assert_eq!(
        parse("/compact focus on auth module"),
        Some(Command::Compact {
            instructions: Some("focus on auth module".into())
        })
    );
}

#[test]
fn parse_summarize() {
    assert_eq!(parse("/summarize"), Some(Command::Summarize));
}

#[test]
fn parse_models_variants() {
    assert_eq!(parse("/models"), Some(Command::Models { query: None }));
    assert_eq!(
        parse("/models gpt"),
        Some(Command::Models {
            query: Some("gpt".into())
        })
    );
    assert_eq!(
        parse("/models use gpt-4o"),
        Some(Command::ModelsUse {
            model_id: "gpt-4o".into()
        })
    );
}

#[test]
fn parse_goal_subcommands() {
    assert_eq!(
        parse("/goal set fix the login bug"),
        Some(Command::Goal {
            subcommand: GoalSubcommand::SetGoal {
                description: "fix the login bug".into()
            }
        })
    );
    assert_eq!(
        parse("/goal edit  migrate to Pydantic v2  "),
        Some(Command::Goal {
            subcommand: GoalSubcommand::Edit {
                description: "migrate to Pydantic v2".into()
            }
        })
    );
    assert_eq!(
        parse("/goal show"),
        Some(Command::Goal {
            subcommand: GoalSubcommand::Show
        })
    );
    assert_eq!(
        parse("/goal pause"),
        Some(Command::Goal {
            subcommand: GoalSubcommand::Pause
        })
    );
    assert_eq!(
        parse("/goal resume"),
        Some(Command::Goal {
            subcommand: GoalSubcommand::Resume
        })
    );
    assert_eq!(
        parse("/goal clear"),
        Some(Command::Goal {
            subcommand: GoalSubcommand::Clear
        })
    );
}

#[test]
fn parse_goal_bare_compatibility() {
    assert_eq!(
        parse("/goal"),
        Some(Command::Goal {
            subcommand: GoalSubcommand::Show
        })
    );
    assert_eq!(
        parse("  /goal   "),
        Some(Command::Goal {
            subcommand: GoalSubcommand::Show
        })
    );
    assert_eq!(
        parse("/goal fix the login bug"),
        Some(Command::Goal {
            subcommand: GoalSubcommand::SetGoal {
                description: "fix the login bug".into()
            }
        })
    );
    assert_eq!(
        parse("/goal settle the migration"),
        Some(Command::Goal {
            subcommand: GoalSubcommand::SetGoal {
                description: "settle the migration".into()
            }
        })
    );
}

#[test]
fn parse_goal_set_edit_require_description() {
    assert_eq!(parse("/goal set"), None);
    assert_eq!(parse("/goal edit"), None);
    assert_eq!(parse("/goal set   "), None);
}

#[test]
fn parse_non_command_returns_none() {
    assert_eq!(parse("hello world"), None);
    assert_eq!(parse("/unknown"), None);
    assert_eq!(parse(""), None);
}

#[test]
fn parse_other_commands() {
    assert_eq!(
        parse("/model"),
        Some(Command::Model { model_id: None })
    );
    assert_eq!(
        parse("/model  m1 "),
        Some(Command::Model {
            model_id: Some("m1".into())
        })
    );
    assert_eq!(parse("/help goal"), Some(Command::Help { command: Some("goal".into()) }));
    assert_eq!(parse("/tools"), Some(Command::Tools));
    assert_eq!(parse("/undo"), Some(Command::Undo));
    assert_eq!(parse("/retry"), Some(Command::Retry));
    assert_eq!(parse("/history 12"), Some(Command::History { count: Some(12) }));
    assert_eq!(parse("/history x"), Some(Command::History { count: None }));
    assert_eq!(
        parse("/history 99999999999999999999999"),
        Some(Command::History { count: None })
    );
    assert_eq!(parse("/exit"), Some(Command::Exit));
    assert_eq!(parse("/quit"), Some(Command::Exit));
    assert_eq!(
        parse("/resume last"),
        Some(Command::Resume {
            selector: Some("last".into())
        })
    );
}

fn totals(input: u64, output: u64, cached: u64) -> TokenTotals {
    TokenTotals {
        input_tokens: input,
        output_tokens: output,
        cached_tokens: cached,
    }
}

#[test]
fn token_formula_matches_codex() {
    assert_eq!(
        goal_token_delta(totals(100, 50, 10), totals(300, 80, 60)),
        180
    );
    assert_eq!(goal_token_delta(totals(100, 80, 0), totals(150, 50, 0)), 50);
    assert_eq!(
        goal_token_delta(totals(100, 10, 20), totals(120, 10, 200)),
        0
    );
    assert_eq!(
        goal_token_delta(totals(500, 500, 100), totals(100, 100, 50)),
        0
    );
    let huge = u64::MAX;
    assert_eq!(
        goal_token_delta(totals(0, 0, 0), totals(huge, huge, 0)),
        i64::MAX
    );
    assert_eq!(goal_token_delta(totals(10, 10, 5), totals(10, 10, 5)), 0);
}

#[test]
fn global_counters_monotonic() {
    let mut m = GoalMetrics::new();
    let before = m.snapshot();
    m.record_set("t-metrics", true);
    m.record_continuation_started("t-metrics");
    let after = m.snapshot();
    assert!(after.goals_set > before.goals_set);
    assert!(after.goals_replaced > before.goals_replaced);
    assert!(after.continuations_started > before.continuations_started);
}

#[test]
fn each_counter_counts_its_own_event() {
    let mut m = GoalMetrics::new();
    m.record_set("t", false);
    m.record_pause("t");
    m.record_resume("t");
    m.record_resume("t");
    m.record_clear("t");
    m.record_edit("t");
    m.record_complete("t");
    m.record_blocked("t");
    m.record_usage_limited("t");
    m.record_budget_limited("t");
    m.record_continuation_deferred("t");
    let s = m.snapshot();
    assert_eq!(s.goals_set, 1);
    assert_eq!(s.goals_replaced, 0);
    assert_eq!(s.goals_paused, 1);
    assert_eq!(s.goals_resumed, 2);
    assert_eq!(s.goals_cleared, 1);
    assert_eq!(s.goals_edited, 1);
    assert_eq!(s.goals_completed, 1);
    assert_eq!(s.goals_blocked, 1);
    assert_eq!(s.goals_usage_limited, 1);
    assert_eq!(s.goals_budget_limited, 1);
    assert_eq!(s.continuations_started, 0);
    assert_eq!(s.continuations_deferred, 1);
    for c in Counter::ALL {
        assert!(!c.event_name().is_empty());
        assert!(!c.instrument_name().is_empty());
        assert!(!c.description().is_empty());
    }
    assert_eq!(m.take_events().len(), 11);
    assert_eq!(m.take_events().len(), 0);
}

#[test]
fn limit_boundary() {
    assert!(!objective_exceeds_limit(&"a".repeat(4000)));
    assert!(objective_exceeds_limit(&"a".repeat(4001)));
    let wide = "目".repeat(4000);
    assert!(!objective_exceeds_limit(&wide));
    assert!(objective_exceeds_limit(&format!("{wide}!")));
}

#[test]
fn file_name_sanitized() {
    assert_eq!(file_name_for("s-abc_123"), "s-abc_123.md");
    assert_eq!(file_name_for("a/b:c"), "a_b_c.md");
}

#[test]
fn file_backing_goes_by_characters_and_bytes() {
    assert!(!needs_file_backing(&"a".repeat(4000)));
    assert!(needs_file_backing(&"a".repeat(4001)));
    assert!(needs_file_backing(&"目".repeat(MAX_OBJECTIVE_LEN / 3 + 1)));
    assert_eq!(marker_for("a/b"), "@file:a_b.md");
    assert!(is_file_backed("@file:a_b.md"));
    assert!(!is_file_backed("file:a_b.md"));
    assert_eq!(marker_file_name("@file:a_b.md"), Some("a_b.md"));
    assert_eq!(marker_file_name("plain"), None);
    assert_eq!(file_path("goals", "a/b"), "goals/a_b.md");
    assert_eq!(file_path("goals/", "t"), "goals/t.md");
    assert_eq!(file_path("", "t"), "t.md");
}

#[test]
fn three_consecutive_failed_exec_turns_trigger() {
    let mut ta = ToolAccounting::new();
    for _ in 0..2 {
        ta.begin_turn();
        ta.record_tool_outcome("bash", true);
        assert!(ta.execution_failure_goal(Some("g1")).is_none());
    }
    ta.begin_turn();
    ta.record_tool_outcome("bash", true);
    assert_eq!(
        ta.execution_failure_goal(Some("g1")).as_deref(),
        Some("g1"),
        "the third failed turn is one too many"
    );
}

#[test]
fn only_failed_turns_of_the_goal_count_towards_a_report() {
    let mut ta = ToolAccounting::new();
    let turns: [(&[(&str, bool)], Option<&str>, bool); 12] = [
        (&[("bash", true)], Some("g"), false),
        (&[("bash", true)], None, false),
        (&[("read", true)], Some("g"), false),
        (&[("shell", true)], Some("g"), false),
        (&[("exec", true)], Some("g"), true),
        (&[("bash", true)], Some("g"), false),
        (&[("bash", true)], Some("g"), false),
        (&[("read", false)], None, false),
        (&[("bash", true)], Some("g"), false),
        (&[("bash", true)], Some("h"), false),
        (&[("bash", true)], Some("h"), false),
        (&[("bash", true)], Some("h"), true),
    ];
    for (k, (outcomes, goal, reported)) in turns.into_iter().enumerate() {
        ta.begin_turn();
        for (tool, failed) in outcomes {
            ta.record_tool_outcome(tool, *failed);
        }
        let want = if reported { goal } else { None };
        assert_eq!(ta.execution_failure_goal(goal).as_deref(), want, "turn {k}");
    }
}

#[test]
fn a_list_holds_each_allowed_name_once() {
    for mode in [
        AccountingMode::ActiveStatusOnly,
        AccountingMode::ActiveOnly,
        AccountingMode::ActiveOrComplete,
        AccountingMode::ActiveOrStopped,
    ] {
        for status in GoalStatus::ALL {
            let name = format!("'{}'", status.as_str());
            let count = mode.allowed_statuses_sql().matches(&name).count();
            assert_eq!(count, usize::from(mode.allows(status)));
        }
    }
}

#[test]
fn any_successful_tool_resets_streak_and_exempts_turn() {
    let mut ta = ToolAccounting::new();
    for _ in 0..2 {
        ta.begin_turn();
        ta.record_tool_outcome("bash", true);
        assert!(ta.execution_failure_goal(Some("g1")).is_none());
    }
    ta.begin_turn();
    ta.record_tool_outcome("read", false);
    ta.record_tool_outcome("bash", true);
    assert!(ta.execution_failure_goal(Some("g1")).is_none());
    for _ in 0..2 {
        ta.begin_turn();
        ta.record_tool_outcome("bash", true);
        assert!(ta.execution_failure_goal(Some("g1")).is_none());
    }
    ta.begin_turn();
    ta.record_tool_outcome("bash", true);
    assert!(ta.execution_failure_goal(Some("g1")).is_some());
}

#[test]
fn goal_change_restarts_audit() {
    let mut ta = ToolAccounting::new();
    for _ in 0..2 {
        ta.begin_turn();
        ta.record_tool_outcome("bash", true);
        assert!(ta.execution_failure_goal(Some("g1")).is_none());
    }
    ta.begin_turn();
    ta.record_tool_outcome("bash", true);
    assert!(ta.execution_failure_goal(Some("g2")).is_none());
}

#[test]
fn non_exec_failures_and_unnamed_tool_errors_are_ignored() {
    let mut ta = ToolAccounting::new();
    for _ in 0..MAX_CONSECUTIVE_EXECUTION_FAILURES + 1 {
        ta.begin_turn();
        ta.record_tool_outcome("read", true);
        ta.record_tool_outcome("", true);
        assert!(ta.execution_failure_goal(Some("g1")).is_none());
    }
}

#[test]
fn unbound_turns_do_not_accumulate() {
    let mut ta = ToolAccounting::new();
    for _ in 0..MAX_CONSECUTIVE_EXECUTION_FAILURES + 1 {
        ta.begin_turn();
        ta.record_tool_outcome("bash", true);
        assert!(ta.execution_failure_goal(None).is_none());
    }
}

#[test]
fn trigger_restarts_count_for_post_resume_audit() {
    let mut ta = ToolAccounting::new();
    for _ in 0..MAX_CONSECUTIVE_EXECUTION_FAILURES - 1 {
        ta.begin_turn();
        ta.record_tool_outcome("bash", true);
        assert!(ta.execution_failure_goal(Some("g1")).is_none());
    }
    ta.begin_turn();
    ta.record_tool_outcome("bash", true);
    assert!(ta.execution_failure_goal(Some("g1")).is_some());
    for _ in 0..MAX_CONSECUTIVE_EXECUTION_FAILURES - 1 {
        ta.begin_turn();
        ta.record_tool_outcome("bash", true);
        assert!(ta.execution_failure_goal(Some("g1")).is_none());
    }
    ta.begin_turn();
    ta.record_tool_outcome("bash", true);
    assert!(ta.execution_failure_goal(Some("g1")).is_some());
}

#[test]
fn terminal_states_are_budget_limited_and_complete() {
    assert!(GoalStatus::BudgetLimited.is_terminal());
    assert!(GoalStatus::Complete.is_terminal());
    for s in [
        GoalStatus::Active,
        GoalStatus::Paused,
        GoalStatus::Blocked,
        GoalStatus::UsageLimited,
    ] {
        assert!(!s.is_terminal(), "{s:?} is not terminal");
    }
}

#[test]
fn status_roundtrip_via_str() {
    for s in GoalStatus::ALL {
        assert_eq!(GoalStatus::parse(s.as_str()), Some(s));
    }
    assert_eq!(GoalStatus::parse("cancelled"), None);
}

#[test]
fn accounting_mode_matrix() {
    let (active, paused, blocked) = (GoalStatus::Active, GoalStatus::Paused, GoalStatus::Blocked);
    let (usage, budget, complete) =
        (GoalStatus::UsageLimited, GoalStatus::BudgetLimited, GoalStatus::Complete);
    let cases: [(AccountingMode, &[GoalStatus]); 4] = [
        (AccountingMode::ActiveStatusOnly, &[active]),
        (AccountingMode::ActiveOnly, &[active, budget]),
        (AccountingMode::ActiveOrComplete, &[active, budget, complete]),
        (
            AccountingMode::ActiveOrStopped,
            &[active, paused, blocked, usage, budget],
        ),
    ];
    for (mode, allowed) in cases {
        for status in GoalStatus::ALL {
            assert_eq!(
                mode.allows(status),
                allowed.contains(&status),
                "{mode:?} and {status:?}"
            );
        }
    }
}

#[test]
fn allowed_sql_matches_allows() {
    for mode in [
        AccountingMode::ActiveStatusOnly,
        AccountingMode::ActiveOnly,
        AccountingMode::ActiveOrComplete,
        AccountingMode::ActiveOrStopped,
    ] {
        for status in GoalStatus::ALL {
            let in_sql = mode.allowed_statuses_sql().contains(status.as_str());
            assert_eq!(in_sql, mode.allows(status), "{mode:?} and {status:?}");
        }
    }
}

fn request(objective: &str, token_budget: Option<i64>) -> CreateGoalRequest {
    CreateGoalRequest {
        thread_id: "t".into(),
        objective: objective.into(),
        token_budget,
        verify_command: None,
    }
}

#[test]
fn create_request_validation() {
    let cap = DEFAULT_MAX_GOAL_TOKEN_BUDGET;
    let ok = request("  do it  ", Some(100));
    assert!(ok.validate(cap).is_ok());
    assert_eq!(ok.trimmed_objective(), "do it");

    let empty = request("   ", Some(100));
    assert_eq!(empty.validate(cap), Err(GoalValidationError::EmptyObjective));

    let nonpos = request("  do it  ", Some(0));
    assert_eq!(
        nonpos.validate(cap),
        Err(GoalValidationError::BudgetMustBePositive)
    );

    let huge = request("  do it  ", Some(i64::MAX));
    assert!(matches!(
        huge.validate(cap),
        Err(GoalValidationError::BudgetAboveCap(_))
    ));
}

#[test]
fn validation_limits_are_inclusive() {
    let cap = DEFAULT_MAX_GOAL_TOKEN_BUDGET;
    assert!(request(&"a".repeat(MAX_OBJECTIVE_LEN), None).validate(cap).is_ok());
    assert_eq!(
        request(&"a".repeat(MAX_OBJECTIVE_LEN + 1), None).validate(cap),
        Err(GoalValidationError::ObjectiveTooLong)
    );
    assert!(request("a", Some(cap)).validate(cap).is_ok());
    assert_eq!(
        request("a", Some(cap + 1)).validate(cap),
        Err(GoalValidationError::BudgetAboveCap(cap))
    );
    assert_eq!(max_goal_token_budget(None), cap);
    assert_eq!(max_goal_token_budget(Some("12")), 12);
    assert_eq!(max_goal_token_budget(Some("0")), cap);
    assert_eq!(max_goal_token_budget(Some("-3")), cap);
    assert_eq!(max_goal_token_budget(Some("many")), cap);
}

fn sample_goal() -> Goal {
    Goal {
        thread_id: "t".into(),
        goal_id: "g".into(),
        objective: "obj".into(),
        status: GoalStatus::Active,
        token_budget: None,
        tokens_used: 0,
        time_used_seconds: 0,
        verify_command: None,
        status_reason: None,
        created_at_ms: 0,
        updated_at_ms: 0,
        objective_revision: 0,
        iteration_count: 0,
        objective_file: false,
    }
}

#[test]
fn remaining_tokens_saturates_at_zero() {
    let mut g = sample_goal();
    g.token_budget = Some(100);
    g.tokens_used = 150;
    assert_eq!(g.remaining_tokens(), Some(0));
    g.tokens_used = 40;
    assert_eq!(g.remaining_tokens(), Some(60));
    g.token_budget = None;
    assert_eq!(g.remaining_tokens(), None);
}

#[test]
fn whitespace_is_what_the_language_says() {
    let mut n: u32 = 0;
    while n <= 0x10FFFF {
        if let Some(c) = char::from_u32(n) {
            assert_eq!(text::is_whitespace(c), c.is_whitespace(), "{n:x}");
        }
        n += 1;
    }
    for s in ["", " ", "a", " a b ", "\u{3000}x\u{a0}", "\n\t x"] {
        assert_eq!(text::trim(s), s.trim());
    }
}

#[test]
fn numbers_are_written_and_read() {
    for n in [0, 1, 9, 10, 12345, i64::MAX, -1, -10, i64::MIN] {
        let mut s = String::new();
        text::push_i64(&mut s, n);
        assert_eq!(s, n.to_string());
        assert_eq!(text::parse_i64(&s), Some(n));
    }
    for s in ["", "+", "-", "+5", "-0", "5a", "9223372036854775808", "-9223372036854775809"] {
        assert_eq!(text::parse_i64(s), s.parse::<i64>().ok(), "{s}");
        assert_eq!(text::parse_usize(s), s.parse::<usize>().ok(), "{s}");
    }
}

#[test]
fn beginnings_end_at_whole_characters() {
    assert_eq!(text::take_bytes("abcdefghij", 8), "abcdefgh");
    assert_eq!(text::take_bytes("abc", 8), "abc");
    assert_eq!(text::take_bytes("目目目", 8), "目目");
    assert_eq!(text::take_bytes("é", 1), "");
    assert_eq!(text::take_chars("目a目", 2), "目a");
}

#[test]
fn table_holds_what_was_put() {
    let mut t: Table<u32> = Table::new();
    t.insert("a", 1);
    t.insert("b", 2);
    t.insert("a", 3);
    assert_eq!(t.len(), 2);
    assert_eq!(t.get("a"), Some(&3));
    assert_eq!(t.remove("a"), Some(3));
    assert_eq!(t.remove("a"), None);
    assert!(!t.contains("a"));
    assert!(t.contains("b"));
}

#[test]
fn objective_files_lie_beside_the_tasks() {
    let dir = |p: &str| goals_dir_for(p);
    assert_eq!(dir("/home/u/tasks/tasks.db"), Some("/home/u/goals".to_string()));
    assert_eq!(dir("/tasks/tasks.db"), Some("/goals".to_string()));
    assert_eq!(dir("tasks/tasks.db"), Some("goals".to_string()));
    for path in [
        "h/tasks//tasks.db",
        "h//tasks/tasks.db",
        "h/tasks/./tasks.db",
        "h/./tasks/tasks.db",
        "h/tasks/tasks.db/",
        "h/tasks/tasks.db/./",
        "h/tasks/..",
    ] {
        assert_eq!(dir(path), Some("h/goals".to_string()), "{path}");
    }
    assert_eq!(dir("a//b/tasks/tasks.db"), Some("a//b/goals".to_string()));
    assert_eq!(dir("//tasks/tasks.db"), Some("/goals".to_string()));
    assert_eq!(dir("/./tasks/tasks.db"), Some("/goals".to_string()));
    assert_eq!(dir("./tasks/tasks.db"), Some("./goals".to_string()));
    assert_eq!(dir("././/tasks/tasks.db"), Some("./goals".to_string()));
    assert_eq!(dir("../tasks/tasks.db"), Some("../goals".to_string()));
    for path in ["tasks/.", "tasks/", "./tasks", ".", "/", "//", "h/tasks/../tasks.db", "h/tasks./tasks.db"] {
        assert_eq!(dir(path), None, "{path}");
    }
    for path in [
        "h/tasks//tasks.db",
        "a//b/tasks/tasks.db",
        "//tasks/tasks.db",
        "./././tasks/x",
        "/tasks/..",
        "h/tasks/x/.",
        "..",
        ".x/tasks/y",
        "./.",
        "tasks/x",
        "tasks/x/..//",
    ] {
        let db = std::path::Path::new(path);
        let want = db
            .parent()
            .filter(|p| p.file_name().and_then(|n| n.to_str()) == Some("tasks"))
            .and_then(std::path::Path::parent)
            .map(|home| home.join("goals"));
        assert_eq!(dir(path), want.map(|p| p.to_string_lossy().into_owned()), "{path}");
    }
    assert_eq!(dir("/home/u/mytasks/tasks.db"), None);
    assert_eq!(dir("/home/u/other/tasks.db"), None);
    assert_eq!(dir("/tasks.db"), None);
    assert_eq!(dir("tasks.db"), None);
    assert_eq!(dir(""), None);
}

#[test]
fn a_timeout_is_told_in_its_unit() {
    let told = |secs: u64, nanos: u32| {
        let runner = ShellVerifyRunner {
            timeout_secs: secs,
            timeout_subsec_nanos: nanos,
        };
        runner.timed_out().output
    };
    for (secs, nanos) in [(600, 0), (1, 500_000_000), (2, 50_000_001), (0, 250_000_000), (0, 1_500_000), (0, 1_020), (0, 7), (0, 0)] {
        let want = format!(
            "verify command timed out after {:?}",
            std::time::Duration::new(secs, nanos)
        );
        assert_eq!(told(secs, nanos), want);
    }
    assert_eq!(told(600, 0), "verify command timed out after 600s");
}
