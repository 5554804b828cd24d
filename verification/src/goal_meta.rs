//! What a task that works on a goal by itself remembers between its turns.

use crate::text;
use vstd::prelude::*;
use vstd::string::*;

verus! {

/// Where a goal of a task stands.
#[derive(Debug, Clone, Copy, PartialEq, Eq, Structural)]
pub enum GoalLifecycle {
    Active,
    Paused,
    Blocked,
    UsageLimited,
    Completed,
    Failed,
    Cancelled,
}

/// The status of a task; what no decision looks at is `Other`.
#[derive(Debug, Clone, Copy, PartialEq, Eq, Structural)]
pub enum TaskStatus {
    Pending,
    InProgress,
    Completed,
    Cancelled,
    Other,
}

/// A turn that was begun.
#[derive(Debug, PartialEq, Eq)]
pub struct HistoryEntry {
    pub iteration: u32,
    pub timestamp: String,
    pub summary: Option<String>,
}

/// The mathematical value of a [`HistoryEntry`].
pub struct EntryView {
    pub iteration: u32,
    pub timestamp: Seq<char>,
    pub summary: Option<Seq<char>>,
}

impl View for HistoryEntry {
    type V = EntryView;

    open spec fn view(&self) -> EntryView {
        EntryView {
            iteration: self.iteration,
            timestamp: self.timestamp@,
            summary: text::opt_text(self.summary),
        }
    }
}

impl Clone for HistoryEntry {
    fn clone(&self) -> (r: HistoryEntry)
        ensures
            r@ == self@,
    {
        HistoryEntry {
            iteration: self.iteration,
            timestamp: self.timestamp.clone(),
            summary: text::clone_opt(&self.summary),
        }
    }
}

/// What a task remembers of its goal.
#[derive(Debug, PartialEq, Eq)]
pub struct GoalMeta {
    pub tool: String,
    pub model: Option<String>,
    pub effort: Option<String>,
    pub tokens_used: u32,
    pub token_budget: Option<u32>,
    pub time_used_seconds: i64,
    pub verify_command: Option<String>,
    pub lifecycle: GoalLifecycle,
    pub lifecycle_reason: Option<String>,
    pub iteration: u32,
    pub history: Vec<HistoryEntry>,
}

/// The mathematical value of a [`GoalMeta`].
#[verifier::ext_equal]
pub struct MetaView {
    pub tool: Seq<char>,
    pub model: Option<Seq<char>>,
    pub effort: Option<Seq<char>>,
    pub tokens_used: u32,
    pub token_budget: Option<u32>,
    pub time_used_seconds: i64,
    pub verify_command: Option<Seq<char>>,
    pub lifecycle: GoalLifecycle,
    pub lifecycle_reason: Option<Seq<char>>,
    pub iteration: u32,
    pub history: Seq<EntryView>,
}

/// The values of a list of turns.
pub open spec fn entries(v: Seq<HistoryEntry>) -> Seq<EntryView> {
    v.map_values(|e: HistoryEntry| e@)
}

impl View for GoalMeta {
    type V = MetaView;

    open spec fn view(&self) -> MetaView {
        MetaView {
            tool: self.tool@,
            model: text::opt_text(self.model),
            effort: text::opt_text(self.effort),
            tokens_used: self.tokens_used,
            token_budget: self.token_budget,
            time_used_seconds: self.time_used_seconds,
            verify_command: text::opt_text(self.verify_command),
            lifecycle: self.lifecycle,
            lifecycle_reason: text::opt_text(self.lifecycle_reason),
            iteration: self.iteration,
            history: entries(self.history@),
        }
    }
}

impl Clone for GoalMeta {
    fn clone(&self) -> (r: GoalMeta)
        ensures
            r@ == self@,
    {
        let mut history: Vec<HistoryEntry> = Vec::new();
        let mut i: usize = 0;
        while i < self.history.len()
            invariant
                i <= self.history@.len(),
                history@.len() == i,
                forall|k: int| 0 <= k < i ==> (#[trigger] history@[k])@ == self.history@[k]@,
            decreases self.history.len() - i,
        {
            history.push(self.history[i].clone());
            i += 1;
        }
        assert(entries(history@) =~= entries(self.history@));
        GoalMeta {
            tool: self.tool.clone(),
            model: text::clone_opt(&self.model),
            effort: text::clone_opt(&self.effort),
            tokens_used: self.tokens_used,
            token_budget: self.token_budget,
            time_used_seconds: self.time_used_seconds,
            verify_command: text::clone_opt(&self.verify_command),
            lifecycle: self.lifecycle,
            lifecycle_reason: text::clone_opt(&self.lifecycle_reason),
            iteration: self.iteration,
            history,
        }
    }
}

/// How a run of turns ended.
#[derive(Debug, PartialEq, Eq)]
pub enum GoalOutcome {
    Achieved,
    Blocked(String),
    UsageLimited { tokens_used: u32, token_budget: u32 },
    Error(String),
}

/// The mathematical value of a [`GoalOutcome`].
pub enum OutcomeView {
    Achieved,
    Blocked(Seq<char>),
    UsageLimited { tokens_used: u32, token_budget: u32 },
    Error(Seq<char>),
}

impl View for GoalOutcome {
    type V = OutcomeView;

    open spec fn view(&self) -> OutcomeView {
        match self {
            GoalOutcome::Achieved => OutcomeView::Achieved,
            GoalOutcome::Blocked(s) => OutcomeView::Blocked(s@),
            GoalOutcome::UsageLimited { tokens_used, token_budget } => OutcomeView::UsageLimited {
                tokens_used: *tokens_used,
                token_budget: *token_budget,
            },
            GoalOutcome::Error(s) => OutcomeView::Error(s@),
        }
    }
}

} // verus!
