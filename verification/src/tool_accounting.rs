//! Noticing that commands no longer run.
//!
//! A turn fails when a command-running tool failed in it and no tool
//! succeeded. Several failed turns in a row for one goal mean that the
//! environment is broken, and the goal should not drive any more turns.

use crate::text;
use vstd::prelude::*;
use vstd::string::*;

verus! {

/// The tools that run commands.
pub const EXEC_TOOL_NAMES: [&'static str; 3] = ["bash", "exec", "shell"];

/// How many failed turns in a row are too many.
pub const MAX_CONSECUTIVE_EXECUTION_FAILURES: u8 = 3;

/// Whether a tool runs commands.
pub open spec fn runs_commands(tool: Seq<char>) -> bool {
    tool == "bash"@ || tool == "exec"@ || tool == "shell"@
}

/// What happened with tools on a thread.
pub struct ToolAccounting {
    failed_execution: bool,
    successful_tool: bool,
    execution_failure_goal_id: Option<String>,
    consecutive_execution_failure_turns: u8,
}

/// The mathematical value of a [`ToolAccounting`].
#[verifier::ext_equal]
pub struct ToolsView {
    /// A command-running tool failed in this turn.
    pub failed: bool,
    /// Some tool succeeded in this turn.
    pub succeeded: bool,
    /// The goal for which failed turns are counted.
    pub goal: Option<Seq<char>>,
    /// How many turns in a row failed.
    pub streak: int,
}

impl View for ToolAccounting {
    type V = ToolsView;

    closed spec fn view(&self) -> ToolsView {
        ToolsView {
            failed: self.failed_execution,
            succeeded: self.successful_tool,
            goal: text::opt_text(self.execution_failure_goal_id),
            streak: self.consecutive_execution_failure_turns as int,
        }
    }
}

impl ToolsView {
    /// The streak has not reached its limit.
    pub open spec fn wf(self) -> bool {
        0 <= self.streak < MAX_CONSECUTIVE_EXECUTION_FAILURES
    }

    /// A new turn: nothing happened in it, the streak goes on.
    pub open spec fn new_turn(self) -> ToolsView {
        ToolsView { failed: false, succeeded: false, ..self }
    }

    /// After a tool finished: a success ends the streak and saves the turn, a
    /// failure counts where the tool runs commands.
    pub open spec fn with_outcome(self, tool: Seq<char>, failed: bool) -> ToolsView {
        if !failed {
            ToolsView { succeeded: true, goal: None, streak: 0, ..self }
        } else if runs_commands(tool) {
            ToolsView { failed: true, ..self }
        } else {
            self
        }
    }

    /// Whether the turn failed.
    pub open spec fn turn_failed(self) -> bool {
        self.failed && !self.succeeded
    }

    /// The streak of goal `g`, which starts anew with each goal.
    pub open spec fn streak_of(self, g: Seq<char>) -> int {
        if self.goal == Some(g) {
            self.streak
        } else {
            0
        }
    }

    /// Whether this turn is one failed turn too many for goal `g`.
    pub open spec fn too_many(self, g: Seq<char>) -> bool {
        self.turn_failed() && self.streak_of(g) + 1 >= MAX_CONSECUTIVE_EXECUTION_FAILURES
    }

    /// At the end of a turn of goal `g`: a failed turn adds to the streak,
    /// which starts anew once there were too many.
    pub open spec fn turn_ended(self, g: Seq<char>) -> ToolsView {
        ToolsView {
            goal: Some(g),
            streak: if self.too_many(g) {
                0
            } else if self.turn_failed() {
                self.streak_of(g) + 1
            } else {
                self.streak_of(g)
            },
            ..self
        }
    }
}

impl ToolAccounting {
    /// The streak has not reached its limit.
    pub open spec fn wf(self) -> bool {
        self@.wf()
    }

    /// Nothing happened yet.
    pub fn new() -> (r: ToolAccounting)
        ensures
            r.wf(),
            r@ == ToolsView::fresh(),
    {
        ToolAccounting {
            failed_execution: false,
            successful_tool: false,
            execution_failure_goal_id: None,
            consecutive_execution_failure_turns: 0,
        }
    }

    /// Notes the outcome of a tool.
    pub fn record_tool_outcome(&mut self, tool: &str, failed: bool)
        requires
            old(self).wf(),
        ensures
            final(self).wf(),
            final(self)@ == old(self)@.with_outcome(tool@, failed),
    {
        if failed {
            if text::same(tool, "bash") || text::same(tool, "exec") || text::same(tool, "shell") {
                self.failed_execution = true;
            }
        } else {
            self.successful_tool = true;
            self.execution_failure_goal_id = None;
            self.consecutive_execution_failure_turns = 0;
        }
    }

    /// Begins a turn.
    pub fn begin_turn(&mut self)
        requires
            old(self).wf(),
        ensures
            final(self).wf(),
            final(self)@ == old(self)@.new_turn(),
    {
        self.failed_execution = false;
        self.successful_tool = false;
    }

    /// Ends a turn of the goal `bound_goal_id`; returns the goal when it has
    /// had too many failed turns. A turn of no goal counts for nothing.
    pub fn execution_failure_goal(&mut self, bound_goal_id: Option<&str>) -> (r: Option<String>)
        requires
            old(self).wf(),
        ensures
            final(self).wf(),
            match bound_goal_id {
                Some(g) => {
                    &&& final(self)@ == old(self)@.turn_ended(g@)
                    &&& text::opt_text(r) == if old(self)@.too_many(g@) {
                        Some(g@)
                    } else {
                        None
                    }
                },
                None => r is None && final(self)@ == old(self)@,
            },
    {
        let goal_id: &str = match bound_goal_id {
            Some(g) => g,
            None => {
                return None;
            },
        };
        let known: bool = match &self.execution_failure_goal_id {
            Some(id) => text::same(id.as_str(), goal_id),
            None => false,
        };
        if !known {
            self.execution_failure_goal_id = Some(goal_id.to_owned());
            self.consecutive_execution_failure_turns = 0;
        }
        if self.successful_tool || !self.failed_execution {
            return None;
        }
        let streak: u8 = self.consecutive_execution_failure_turns + 1;
        if streak >= MAX_CONSECUTIVE_EXECUTION_FAILURES {
            self.consecutive_execution_failure_turns = 0;
            return Some(goal_id.to_owned());
        }
        self.consecutive_execution_failure_turns = streak;
        None
    }
}

/// A turn in which a command failed and nothing succeeded.
pub open spec fn failing_turn(v: ToolsView, tool: Seq<char>) -> ToolsView {
    v.new_turn().with_outcome(tool, true)
}

/// Three failed turns of one goal in a row are too many, two are not, and the
/// count then starts anew.
pub proof fn law_third_failed_turn_is_too_many(v: ToolsView, g: Seq<char>, tool: Seq<char>)
    requires
        v.wf(),
        v.streak_of(g) == 0,
        runs_commands(tool),
    ensures
        ({
            let one = failing_turn(v, tool);
            let two = failing_turn(one.turn_ended(g), tool);
            let three = failing_turn(two.turn_ended(g), tool);
            &&& !one.too_many(g)
            &&& !two.too_many(g)
            &&& three.too_many(g)
            &&& three.turn_ended(g).streak_of(g) == 0
        }),
{
}

/// A turn in which some tool succeeded is never one too many, and leaves no
/// streak behind, whatever failed in it.
pub proof fn law_success_saves_the_turn(
    v: ToolsView,
    g: Seq<char>,
    good: Seq<char>,
    bad: Seq<char>,
)
    requires
        v.wf(),
    ensures
        ({
            let w = v.new_turn().with_outcome(good, false).with_outcome(bad, true);
            &&& !w.too_many(g)
            &&& w.turn_ended(g).streak_of(g) == 0
        }),
        ({
            let w = v.new_turn().with_outcome(bad, true).with_outcome(good, false);
            &&& !w.too_many(g)
            &&& w.turn_ended(g).streak_of(g) == 0
        }),
{
}

/// The failed turns of one goal do not count against another.
pub proof fn law_other_goal_starts_anew(v: ToolsView, g: Seq<char>, h: Seq<char>)
    requires
        v.wf(),
        g != h,
    ensures
        v.turn_ended(g).streak_of(h) == 0,
        !v.turn_ended(g).too_many(h),
{
}

/// A turn from its beginning to its end: the tools that finished in it, each with
/// whether it failed, and the goal that the turn was bound to.
pub struct ToolTurn {
    pub outcomes: Seq<(Seq<char>, bool)>,
    pub goal: Option<Seq<char>>,
}

impl ToolTurn {
    /// Some tool succeeded in the turn.
    pub open spec fn succeeded(self) -> bool {
        exists|i: int| 0 <= i < self.outcomes.len() && !(#[trigger] self.outcomes[i]).1
    }

    /// A command-running tool failed in the turn, and none succeeded.
    pub open spec fn failed(self) -> bool {
        &&& !self.succeeded()
        &&& exists|i: int|
            0 <= i < self.outcomes.len() && runs_commands((#[trigger] self.outcomes[i]).0)
    }
}

impl ToolsView {
    /// Where nothing happened yet.
    pub open spec fn fresh() -> ToolsView {
        ToolsView { failed: false, succeeded: false, goal: None, streak: 0 }
    }

    /// After several tools finished.
    pub open spec fn with_outcomes(self, outcomes: Seq<(Seq<char>, bool)>) -> ToolsView
        decreases outcomes.len(),
    {
        if outcomes.len() == 0 {
            self
        } else {
            self.with_outcomes(outcomes.drop_last()).with_outcome(
                outcomes.last().0,
                outcomes.last().1,
            )
        }
    }
}

/// What is known after `turns`, one after the other from the beginning.
pub open spec fn after_turns(turns: Seq<ToolTurn>) -> ToolsView
    decreases turns.len(),
{
    if turns.len() == 0 {
        ToolsView::fresh()
    } else {
        let v = after_turns(turns.drop_last()).new_turn().with_outcomes(turns.last().outcomes);
        match turns.last().goal {
            Some(g) => v.turn_ended(g),
            None => v,
        }
    }
}

/// The goal that is reported at the end of the last of `turns`.
pub open spec fn reported(turns: Seq<ToolTurn>) -> Option<Seq<char>> {
    let v = after_turns(turns.drop_last()).new_turn().with_outcomes(turns.last().outcomes);
    match turns.last().goal {
        Some(g) => if v.too_many(g) {
            Some(g)
        } else {
            None
        },
        None => None,
    }
}

/// Whether the count for goal `g` starts anew after the first `k` of `turns`: at
/// the beginning, after a turn in which a tool succeeded, after a turn of another
/// goal, and after a report.
pub open spec fn starts_anew(turns: Seq<ToolTurn>, g: Seq<char>, k: int) -> bool {
    ||| k == 0
    ||| turns[k - 1].succeeded()
    ||| turns[k - 1].goal is Some && turns[k - 1].goal != Some(g)
    ||| reported(turns.take(k)) is Some
}

/// After how many turns, `k` at most, the count for goal `g` last started anew.
pub open spec fn last_start(turns: Seq<ToolTurn>, g: Seq<char>, k: int) -> int
    decreases k,
{
    if k <= 0 || starts_anew(turns, g, k) {
        k
    } else {
        last_start(turns, g, k - 1)
    }
}

/// How many of the turns from `from` on and before `to` are failed turns of `g`.
pub open spec fn failed_turns(turns: Seq<ToolTurn>, g: Seq<char>, from: int, to: int) -> int
    decreases to - from,
{
    if to <= from {
        0
    } else {
        failed_turns(turns, g, from, to - 1) + if turns[to - 1].goal == Some(g)
            && turns[to - 1].failed() {
            1int
        } else {
            0
        }
    }
}

/// At the end of a turn a goal is reported exactly when it is the turn's own, the
/// turn failed, and it is the third failed turn of the goal since the latest of the
/// beginning, a turn with a success, a turn of another goal, and a report.
pub proof fn law_third_failed_turn_is_reported(turns: Seq<ToolTurn>, g: Seq<char>)
    requires
        turns.len() > 0,
    ensures
        reported(turns) == Some(g) <==> {
            &&& turns.last().goal == Some(g)
            &&& turns.last().failed()
            &&& failed_turns(
                turns,
                g,
                last_start(turns, g, turns.len() - 1),
                turns.len() as int,
            ) == 3
        },
{
    let n = turns.len() - 1;
    let before = after_turns(turns.drop_last());
    lemma_streak(turns, g, n);
    lemma_last_start(turns, g, n);
    assert(turns.take(n) =~= turns.drop_last());
    lemma_outcomes(before.new_turn(), turns.last());
}

/// What the tools of a turn amount to.
proof fn lemma_outcomes(v: ToolsView, turn: ToolTurn)
    requires
        !v.failed,
        !v.succeeded,
    ensures
        ({
            let w = v.with_outcomes(turn.outcomes);
            &&& w.succeeded == turn.succeeded()
            &&& w.turn_failed() == turn.failed()
            &&& turn.succeeded() ==> w.goal is None && w.streak == 0
            &&& !turn.succeeded() ==> w.goal == v.goal && w.streak == v.streak
            &&& !turn.succeeded() ==> w.failed == turn.failed()
        }),
    decreases turn.outcomes.len(),
{
    let outcomes = turn.outcomes;
    if outcomes.len() > 0 {
        let fewer = outcomes.drop_last();
        let last = outcomes.last();
        let part = ToolTurn { outcomes: fewer, goal: turn.goal };
        lemma_outcomes(v, part);
        assert(outcomes =~= fewer.push(last));
        assert(turn.outcomes[outcomes.len() - 1] == last);
        assert(forall|i: int| 0 <= i < fewer.len() ==> #[trigger] turn.outcomes[i] == part.outcomes[i]);
        assert(turn.succeeded() == (part.succeeded() || !last.1)) by {
            if part.succeeded() {
                let i = choose|i: int| 0 <= i < fewer.len() && !(#[trigger] part.outcomes[i]).1;
                assert(!turn.outcomes[i].1);
            }
        }
        if !turn.succeeded() {
            assert(turn.failed() == (part.failed() || runs_commands(last.0))) by {
                if part.failed() {
                    let i = choose|i: int|
                        0 <= i < fewer.len() && runs_commands((#[trigger] part.outcomes[i]).0);
                    assert(runs_commands(turn.outcomes[i].0));
                }
            }
        }
    }
}

/// Where the count last started anew, it did so, and not since.
proof fn lemma_last_start(turns: Seq<ToolTurn>, g: Seq<char>, k: int)
    requires
        0 <= k,
    ensures
        0 <= last_start(turns, g, k) <= k,
        starts_anew(turns, g, last_start(turns, g, k)),
    decreases k,
{
    if k > 0 && !starts_anew(turns, g, k) {
        lemma_last_start(turns, g, k - 1);
    }
}

/// The streak of a goal counts its failed turns since the count last started anew.
proof fn lemma_streak(turns: Seq<ToolTurn>, g: Seq<char>, k: int)
    requires
        0 <= k <= turns.len(),
    ensures
        after_turns(turns.take(k)).wf(),
        after_turns(turns.take(k)).streak_of(g) == failed_turns(
            turns,
            g,
            last_start(turns, g, k),
            k,
        ),
    decreases k,
{
    if k > 0 {
        let now = turns.take(k);
        let turn = turns[k - 1];
        lemma_streak(turns, g, k - 1);
        lemma_last_start(turns, g, k - 1);
        assert(now.drop_last() =~= turns.take(k - 1));
        assert(now.last() == turn);
        lemma_outcomes(after_turns(turns.take(k - 1)).new_turn(), turn);
    }
}

/// The tools that run commands are three, and no others.
pub proof fn law_command_tools(tool: Seq<char>)
    ensures
        runs_commands(tool) <==> tool == "bash"@ || tool == "exec"@ || tool == "shell"@,
{
}

/// What the outcome of a tool changes: a success saves the turn and ends every streak, a
/// failure marks the turn where the tool runs commands, and is nothing otherwise.
pub proof fn law_outcomes_of_tools(v: ToolsView, tool: Seq<char>)
    ensures
        ({
            let good = v.with_outcome(tool, false);
            let bad = v.with_outcome(tool, true);
            let runs = tool == "bash"@ || tool == "exec"@ || tool == "shell"@;
            &&& good.succeeded && good.streak == 0 && good.goal is None && good.failed == v.failed
            &&& runs ==> bad.failed && bad.succeeded == v.succeeded
            &&& !runs ==> bad == v
            &&& bad.streak == v.streak && bad.goal == v.goal
            &&& !v.new_turn().failed && !v.new_turn().succeeded
            &&& v.new_turn().streak == v.streak && v.new_turn().goal == v.goal
        }),
{
}

} // verus!
