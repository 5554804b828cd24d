//! Counts of what happened to goals, and the events that go with them.

use vstd::prelude::*;
use vstd::string::*;

verus! {

/// What is counted.
#[derive(Debug, Clone, Copy, PartialEq, Eq, Structural)]
pub enum Counter {
    GoalsSet,
    GoalsReplaced,
    GoalsPaused,
    GoalsResumed,
    GoalsCleared,
    GoalsEdited,
    GoalsCompleted,
    GoalsBlocked,
    GoalsUsageLimited,
    GoalsBudgetLimited,
    ContinuationsStarted,
    ContinuationsDeferred,
}

/// How often each thing happened.
#[derive(Debug, Clone, Copy, PartialEq, Eq, Structural)]
pub struct GoalMetricsSnapshot {
    pub goals_set: u64,
    pub goals_replaced: u64,
    pub goals_paused: u64,
    pub goals_resumed: u64,
    pub goals_cleared: u64,
    pub goals_edited: u64,
    pub goals_completed: u64,
    pub goals_blocked: u64,
    pub goals_usage_limited: u64,
    pub goals_budget_limited: u64,
    pub continuations_started: u64,
    pub continuations_deferred: u64,
}

/// Nothing has happened.
pub open spec fn no_counts() -> GoalMetricsSnapshot {
    GoalMetricsSnapshot {
        goals_set: 0,
        goals_replaced: 0,
        goals_paused: 0,
        goals_resumed: 0,
        goals_cleared: 0,
        goals_edited: 0,
        goals_completed: 0,
        goals_blocked: 0,
        goals_usage_limited: 0,
        goals_budget_limited: 0,
        continuations_started: 0,
        continuations_deferred: 0,
    }
}

impl Default for GoalMetricsSnapshot {
    fn default() -> (r: GoalMetricsSnapshot)
        ensures
            r == no_counts(),
    {
        GoalMetricsSnapshot {
            goals_set: 0,
            goals_replaced: 0,
            goals_paused: 0,
            goals_resumed: 0,
            goals_cleared: 0,
            goals_edited: 0,
            goals_completed: 0,
            goals_blocked: 0,
            goals_usage_limited: 0,
            goals_budget_limited: 0,
            continuations_started: 0,
            continuations_deferred: 0,
        }
    }
}

/// The number after `n`, back to zero at the end of the range.
pub open spec fn next(n: u64) -> u64 {
    if n == u64::MAX {
        0
    } else {
        (n + 1) as u64
    }
}

/// One count of a snapshot.
pub open spec fn count(s: GoalMetricsSnapshot, c: Counter) -> u64 {
    match c {
        Counter::GoalsSet => s.goals_set,
        Counter::GoalsReplaced => s.goals_replaced,
        Counter::GoalsPaused => s.goals_paused,
        Counter::GoalsResumed => s.goals_resumed,
        Counter::GoalsCleared => s.goals_cleared,
        Counter::GoalsEdited => s.goals_edited,
        Counter::GoalsCompleted => s.goals_completed,
        Counter::GoalsBlocked => s.goals_blocked,
        Counter::GoalsUsageLimited => s.goals_usage_limited,
        Counter::GoalsBudgetLimited => s.goals_budget_limited,
        Counter::ContinuationsStarted => s.continuations_started,
        Counter::ContinuationsDeferred => s.continuations_deferred,
    }
}

/// A snapshot with one count more.
pub open spec fn bumped(s: GoalMetricsSnapshot, c: Counter) -> GoalMetricsSnapshot {
    match c {
        Counter::GoalsSet => GoalMetricsSnapshot { goals_set: next(s.goals_set), ..s },
        Counter::GoalsReplaced => GoalMetricsSnapshot { goals_replaced: next(s.goals_replaced), ..s },
        Counter::GoalsPaused => GoalMetricsSnapshot { goals_paused: next(s.goals_paused), ..s },
        Counter::GoalsResumed => GoalMetricsSnapshot { goals_resumed: next(s.goals_resumed), ..s },
        Counter::GoalsCleared => GoalMetricsSnapshot { goals_cleared: next(s.goals_cleared), ..s },
        Counter::GoalsEdited => GoalMetricsSnapshot { goals_edited: next(s.goals_edited), ..s },
        Counter::GoalsCompleted => GoalMetricsSnapshot { goals_completed: next(s.goals_completed), ..s },
        Counter::GoalsBlocked => GoalMetricsSnapshot { goals_blocked: next(s.goals_blocked), ..s },
        Counter::GoalsUsageLimited => GoalMetricsSnapshot { goals_usage_limited: next(s.goals_usage_limited), ..s },
        Counter::GoalsBudgetLimited => GoalMetricsSnapshot { goals_budget_limited: next(s.goals_budget_limited), ..s },
        Counter::ContinuationsStarted => GoalMetricsSnapshot { continuations_started: next(s.continuations_started), ..s },
        Counter::ContinuationsDeferred => GoalMetricsSnapshot { continuations_deferred: next(s.continuations_deferred), ..s },
    }
}

/// Counting one thing adds one to its count, short of the end of the range, and
/// leaves all others.
pub proof fn law_bump_counts_one(s: GoalMetricsSnapshot, c: Counter, d: Counter)
    ensures
        count(s, c) < u64::MAX ==> count(bumped(s, c), c) == count(s, c) + 1,
        d != c ==> count(bumped(s, c), d) == count(s, d),
{
}

/// The name of an event.
pub open spec fn event_text(c: Counter) -> Seq<char> {
    match c {
        Counter::GoalsSet => "goals_set"@,
        Counter::GoalsReplaced => "goals_replaced"@,
        Counter::GoalsPaused => "goals_paused"@,
        Counter::GoalsResumed => "goals_resumed"@,
        Counter::GoalsCleared => "goals_cleared"@,
        Counter::GoalsEdited => "goals_edited"@,
        Counter::GoalsCompleted => "goals_completed"@,
        Counter::GoalsBlocked => "goals_blocked"@,
        Counter::GoalsUsageLimited => "goals_usage_limited"@,
        Counter::GoalsBudgetLimited => "goals_budget_limited"@,
        Counter::ContinuationsStarted => "continuations_started"@,
        Counter::ContinuationsDeferred => "continuations_deferred"@,
    }
}

/// The name under which a count is published.
pub open spec fn instrument_text(c: Counter) -> Seq<char> {
    match c {
        Counter::GoalsSet => "anureo.goal.set.total"@,
        Counter::GoalsReplaced => "anureo.goal.replaced.total"@,
        Counter::GoalsPaused => "anureo.goal.paused.total"@,
        Counter::GoalsResumed => "anureo.goal.resumed.total"@,
        Counter::GoalsCleared => "anureo.goal.cleared.total"@,
        Counter::GoalsEdited => "anureo.goal.edited.total"@,
        Counter::GoalsCompleted => "anureo.goal.completed.total"@,
        Counter::GoalsBlocked => "anureo.goal.blocked.total"@,
        Counter::GoalsUsageLimited => "anureo.goal.usage_limited.total"@,
        Counter::GoalsBudgetLimited => "anureo.goal.budget_limited.total"@,
        Counter::ContinuationsStarted => "anureo.goal.continuations.started.total"@,
        Counter::ContinuationsDeferred => "anureo.goal.continuations.deferred.total"@,
    }
}

/// What a published count means.
pub open spec fn description_text(c: Counter) -> Seq<char> {
    match c {
        Counter::GoalsSet => "Goals set via user/system set (includes replacements)."@,
        Counter::GoalsReplaced => "Set operations that replaced an existing goal (snapshot replacement)."@,
        Counter::GoalsPaused => "Goals paused by user."@,
        Counter::GoalsResumed => "Goals resumed by user."@,
        Counter::GoalsCleared => "Goals cleared by user."@,
        Counter::GoalsEdited => "Goal objectives edited."@,
        Counter::GoalsCompleted => "Goals reached complete (model declaration / verify gate)."@,
        Counter::GoalsBlocked => "Goals blocked (turn error / model declaration)."@,
        Counter::GoalsUsageLimited => "Goals moved to usage_limited (provider quota exhausted)."@,
        Counter::GoalsBudgetLimited => "Goals moved to budget_limited (token budget exceeded)."@,
        Counter::ContinuationsStarted => "Idle continuations actually started (start_turn_if_idle accepted)."@,
        Counter::ContinuationsDeferred => "Idle continuations deferred (deferral marker present)."@,
    }
}

impl Counter {
    /// Everything that is counted.
    pub const ALL: [Counter; 12] = [
        Counter::GoalsSet,
        Counter::GoalsReplaced,
        Counter::GoalsPaused,
        Counter::GoalsResumed,
        Counter::GoalsCleared,
        Counter::GoalsEdited,
        Counter::GoalsCompleted,
        Counter::GoalsBlocked,
        Counter::GoalsUsageLimited,
        Counter::GoalsBudgetLimited,
        Counter::ContinuationsStarted,
        Counter::ContinuationsDeferred,
    ];

    /// The name of the event that goes with the count.
    pub fn event_name(self) -> (r: &'static str)
        ensures
            r@ == event_text(self),
    {
        match self {
            Counter::GoalsSet => "goals_set",
            Counter::GoalsReplaced => "goals_replaced",
            Counter::GoalsPaused => "goals_paused",
            Counter::GoalsResumed => "goals_resumed",
            Counter::GoalsCleared => "goals_cleared",
            Counter::GoalsEdited => "goals_edited",
            Counter::GoalsCompleted => "goals_completed",
            Counter::GoalsBlocked => "goals_blocked",
            Counter::GoalsUsageLimited => "goals_usage_limited",
            Counter::GoalsBudgetLimited => "goals_budget_limited",
            Counter::ContinuationsStarted => "continuations_started",
            Counter::ContinuationsDeferred => "continuations_deferred",
        }
    }

    /// The name under which the count is published.
    pub fn instrument_name(self) -> (r: &'static str)
        ensures
            r@ == instrument_text(self),
    {
        match self {
            Counter::GoalsSet => "anureo.goal.set.total",
            Counter::GoalsReplaced => "anureo.goal.replaced.total",
            Counter::GoalsPaused => "anureo.goal.paused.total",
            Counter::GoalsResumed => "anureo.goal.resumed.total",
            Counter::GoalsCleared => "anureo.goal.cleared.total",
            Counter::GoalsEdited => "anureo.goal.edited.total",
            Counter::GoalsCompleted => "anureo.goal.completed.total",
            Counter::GoalsBlocked => "anureo.goal.blocked.total",
            Counter::GoalsUsageLimited => "anureo.goal.usage_limited.total",
            Counter::GoalsBudgetLimited => "anureo.goal.budget_limited.total",
            Counter::ContinuationsStarted => "anureo.goal.continuations.started.total",
            Counter::ContinuationsDeferred => "anureo.goal.continuations.deferred.total",
        }
    }

    /// What the published count means.
    pub fn description(self) -> (r: &'static str)
        ensures
            r@ == description_text(self),
    {
        match self {
            Counter::GoalsSet => "Goals set via user/system set (includes replacements).",
            Counter::GoalsReplaced => "Set operations that replaced an existing goal (snapshot replacement).",
            Counter::GoalsPaused => "Goals paused by user.",
            Counter::GoalsResumed => "Goals resumed by user.",
            Counter::GoalsCleared => "Goals cleared by user.",
            Counter::GoalsEdited => "Goal objectives edited.",
            Counter::GoalsCompleted => "Goals reached complete (model declaration / verify gate).",
            Counter::GoalsBlocked => "Goals blocked (turn error / model declaration).",
            Counter::GoalsUsageLimited => "Goals moved to usage_limited (provider quota exhausted).",
            Counter::GoalsBudgetLimited => "Goals moved to budget_limited (token budget exceeded).",
            Counter::ContinuationsStarted => "Idle continuations actually started (start_turn_if_idle accepted).",
            Counter::ContinuationsDeferred => "Idle continuations deferred (deferral marker present).",
        }
    }
}

impl GoalMetricsSnapshot {
    /// One count of the snapshot.
    pub fn get(&self, c: Counter) -> (r: u64)
        ensures
            r == count(*self, c),
    {
        match c {
            Counter::GoalsSet => self.goals_set,
            Counter::GoalsReplaced => self.goals_replaced,
            Counter::GoalsPaused => self.goals_paused,
            Counter::GoalsResumed => self.goals_resumed,
            Counter::GoalsCleared => self.goals_cleared,
            Counter::GoalsEdited => self.goals_edited,
            Counter::GoalsCompleted => self.goals_completed,
            Counter::GoalsBlocked => self.goals_blocked,
            Counter::GoalsUsageLimited => self.goals_usage_limited,
            Counter::GoalsBudgetLimited => self.goals_budget_limited,
            Counter::ContinuationsStarted => self.continuations_started,
            Counter::ContinuationsDeferred => self.continuations_deferred,
        }
    }

    fn bump(&mut self, c: Counter)
        ensures
            *final(self) == bumped(*old(self), c),
    {
        match c {
            Counter::GoalsSet => {
                self.goals_set = self.goals_set.wrapping_add(1);
            },
            Counter::GoalsReplaced => {
                self.goals_replaced = self.goals_replaced.wrapping_add(1);
            },
            Counter::GoalsPaused => {
                self.goals_paused = self.goals_paused.wrapping_add(1);
            },
            Counter::GoalsResumed => {
                self.goals_resumed = self.goals_resumed.wrapping_add(1);
            },
            Counter::GoalsCleared => {
                self.goals_cleared = self.goals_cleared.wrapping_add(1);
            },
            Counter::GoalsEdited => {
                self.goals_edited = self.goals_edited.wrapping_add(1);
            },
            Counter::GoalsCompleted => {
                self.goals_completed = self.goals_completed.wrapping_add(1);
            },
            Counter::GoalsBlocked => {
                self.goals_blocked = self.goals_blocked.wrapping_add(1);
            },
            Counter::GoalsUsageLimited => {
                self.goals_usage_limited = self.goals_usage_limited.wrapping_add(1);
            },
            Counter::GoalsBudgetLimited => {
                self.goals_budget_limited = self.goals_budget_limited.wrapping_add(1);
            },
            Counter::ContinuationsStarted => {
                self.continuations_started = self.continuations_started.wrapping_add(1);
            },
            Counter::ContinuationsDeferred => {
                self.continuations_deferred = self.continuations_deferred.wrapping_add(1);
            },
        }
    }
}

/// Something that happened to a thread's goal.
#[derive(Debug, PartialEq, Eq)]
pub struct GoalEvent {
    pub kind: Counter,
    pub thread_id: String,
}

/// The counts, and the events that were not handed out yet.
pub struct GoalMetrics {
    counts: GoalMetricsSnapshot,
    events: Vec<GoalEvent>,
}

/// The mathematical value of [`GoalMetrics`].
#[verifier::ext_equal]
pub struct MetricsView {
    pub counts: GoalMetricsSnapshot,
    pub events: Seq<(Counter, Seq<char>)>,
}

/// The values of a list of events.
pub open spec fn event_views(events: Seq<GoalEvent>) -> Seq<(Counter, Seq<char>)> {
    events.map_values(|e: GoalEvent| (e.kind, e.thread_id@))
}

impl View for GoalMetrics {
    type V = MetricsView;

    closed spec fn view(&self) -> MetricsView {
        MetricsView { counts: self.counts, events: event_views(self.events@) }
    }
}

impl MetricsView {
    /// One more of `c`, on thread `t`.
    pub open spec fn recorded(self, c: Counter, t: Seq<char>) -> MetricsView {
        MetricsView { counts: bumped(self.counts, c), events: self.events.push((c, t)) }
    }

    /// One more goal set on thread `t`, over an earlier one if `replaced`.
    pub open spec fn recorded_set(self, t: Seq<char>, replaced: bool) -> MetricsView {
        let set = bumped(self.counts, Counter::GoalsSet);
        MetricsView {
            counts: if replaced {
                bumped(set, Counter::GoalsReplaced)
            } else {
                set
            },
            events: self.events.push((Counter::GoalsSet, t)),
        }
    }
}

impl GoalMetrics {
    /// Nothing has happened.
    pub fn new() -> (r: GoalMetrics)
        ensures
            r@ == (MetricsView { counts: no_counts(), events: Seq::empty() }),
    {
        let r: GoalMetrics = GoalMetrics {
            counts: GoalMetricsSnapshot::default(),
            events: Vec::new(),
        };
        assert(r@.events =~= Seq::empty());
        r
    }

    fn emit(&mut self, kind: Counter, thread_id: &str)
        ensures
            final(self)@ == (MetricsView {
                events: old(self)@.events.push((kind, thread_id@)),
                ..old(self)@
            }),
    {
        self.events.push(GoalEvent { kind, thread_id: thread_id.to_owned() });
        assert(self@.events =~= old(self)@.events.push((kind, thread_id@)));
    }

    fn record(&mut self, kind: Counter, thread_id: &str)
        ensures
            final(self)@ == old(self)@.recorded(kind, thread_id@),
    {
        self.counts.bump(kind);
        self.emit(kind, thread_id);
    }

    /// A goal was set, over an earlier one if `replaced`.
    pub fn record_set(&mut self, thread_id: &str, replaced: bool)
        ensures
            final(self)@ == old(self)@.recorded_set(thread_id@, replaced),
    {
        self.counts.bump(Counter::GoalsSet);
        if replaced {
            self.counts.bump(Counter::GoalsReplaced);
        }
        self.emit(Counter::GoalsSet, thread_id);
    }

    /// A goal was paused.
    pub fn record_pause(&mut self, thread_id: &str)
        ensures
            final(self)@ == old(self)@.recorded(Counter::GoalsPaused, thread_id@),
    {
        self.record(Counter::GoalsPaused, thread_id);
    }

    /// A goal was resumed.
    pub fn record_resume(&mut self, thread_id: &str)
        ensures
            final(self)@ == old(self)@.recorded(Counter::GoalsResumed, thread_id@),
    {
        self.record(Counter::GoalsResumed, thread_id);
    }

    /// A goal was cleared.
    pub fn record_clear(&mut self, thread_id: &str)
        ensures
            final(self)@ == old(self)@.recorded(Counter::GoalsCleared, thread_id@),
    {
        self.record(Counter::GoalsCleared, thread_id);
    }

    /// A goal was edited.
    pub fn record_edit(&mut self, thread_id: &str)
        ensures
            final(self)@ == old(self)@.recorded(Counter::GoalsEdited, thread_id@),
    {
        self.record(Counter::GoalsEdited, thread_id);
    }

    /// A goal was completed.
    pub fn record_complete(&mut self, thread_id: &str)
        ensures
            final(self)@ == old(self)@.recorded(Counter::GoalsCompleted, thread_id@),
    {
        self.record(Counter::GoalsCompleted, thread_id);
    }

    /// A goal was blocked.
    pub fn record_blocked(&mut self, thread_id: &str)
        ensures
            final(self)@ == old(self)@.recorded(Counter::GoalsBlocked, thread_id@),
    {
        self.record(Counter::GoalsBlocked, thread_id);
    }

    /// A goal ran out of quota.
    pub fn record_usage_limited(&mut self, thread_id: &str)
        ensures
            final(self)@ == old(self)@.recorded(Counter::GoalsUsageLimited, thread_id@),
    {
        self.record(Counter::GoalsUsageLimited, thread_id);
    }

    /// A goal ran out of budget.
    pub fn record_budget_limited(&mut self, thread_id: &str)
        ensures
            final(self)@ == old(self)@.recorded(Counter::GoalsBudgetLimited, thread_id@),
    {
        self.record(Counter::GoalsBudgetLimited, thread_id);
    }

    /// A goal drove a turn.
    pub fn record_continuation_started(&mut self, thread_id: &str)
        ensures
            final(self)@ == old(self)@.recorded(Counter::ContinuationsStarted, thread_id@),
    {
        self.record(Counter::ContinuationsStarted, thread_id);
    }

    /// A goal turn was put off.
    pub fn record_continuation_deferred(&mut self, thread_id: &str)
        ensures
            final(self)@ == old(self)@.recorded(Counter::ContinuationsDeferred, thread_id@),
    {
        self.record(Counter::ContinuationsDeferred, thread_id);
    }

    /// The counts so far.
    pub fn snapshot(&self) -> (r: GoalMetricsSnapshot)
        ensures
            r == self@.counts,
    {
        self.counts
    }

    /// Hands out the events since the last time.
    pub fn take_events(&mut self) -> (r: Vec<GoalEvent>)
        ensures
            event_views(r@) == old(self)@.events,
            final(self)@ == (MetricsView { events: Seq::empty(), ..old(self)@ }),
    {
        let mut out: Vec<GoalEvent> = Vec::new();
        std::mem::swap(&mut out, &mut self.events);
        assert(self@.events =~= Seq::empty());
        out
    }
}

/// What is recorded is counted once, and told once with its thread, behind what was
/// told before; nothing else is counted. A goal that is set over another one also
/// counts as a replacement, which is not told by itself.
pub proof fn law_records_count_and_tell(m: MetricsView, c: Counter, d: Counter, t: Seq<char>)
    requires
        count(m.counts, d) < u64::MAX,
    ensures
        m.recorded(c, t).events == m.events.push((c, t)),
        count(m.recorded(c, t).counts, d) == count(m.counts, d) + if c == d {
            1int
        } else {
            0
        },
        m.recorded_set(t, true).events == m.events.push((Counter::GoalsSet, t)),
        m.recorded_set(t, false).events == m.events.push((Counter::GoalsSet, t)),
        count(m.recorded_set(t, true).counts, d) == count(m.counts, d) + if d is GoalsSet
            || d is GoalsReplaced {
            1int
        } else {
            0
        },
        count(m.recorded_set(t, false).counts, d) == count(m.counts, d) + if d is GoalsSet {
            1int
        } else {
            0
        },
        count(no_counts(), d) == 0,
{
}

/// Each count is kept under its own name.
pub proof fn law_counts_by_name(s: GoalMetricsSnapshot)
    ensures
        count(s, Counter::GoalsSet) == s.goals_set,
        count(s, Counter::GoalsReplaced) == s.goals_replaced,
        count(s, Counter::GoalsPaused) == s.goals_paused,
        count(s, Counter::GoalsResumed) == s.goals_resumed,
        count(s, Counter::GoalsCleared) == s.goals_cleared,
        count(s, Counter::GoalsEdited) == s.goals_edited,
        count(s, Counter::GoalsCompleted) == s.goals_completed,
        count(s, Counter::GoalsBlocked) == s.goals_blocked,
        count(s, Counter::GoalsUsageLimited) == s.goals_usage_limited,
        count(s, Counter::GoalsBudgetLimited) == s.goals_budget_limited,
        count(s, Counter::ContinuationsStarted) == s.continuations_started,
        count(s, Counter::ContinuationsDeferred) == s.continuations_deferred,
{
}

} // verus!
