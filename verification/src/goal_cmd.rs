//! The `goal` command of the command line.

use crate::goal_meta::{GoalOutcome, OutcomeView};
use crate::goal_runner;
use crate::text;
use vstd::prelude::*;
use vstd::string::*;

verus! {

/// What the command was given.
#[derive(Debug)]
pub struct GoalArgs {
    pub migrate: bool,
    pub resume: Option<String>,
    pub description: Option<String>,
    pub id: Option<String>,
    pub tool: String,
}

/// The mathematical value of [`GoalArgs`].
pub struct ArgsView {
    pub migrate: bool,
    pub resume: Option<Seq<char>>,
    pub description: Option<Seq<char>>,
    pub id: Option<Seq<char>>,
    pub tool: Seq<char>,
}

impl View for GoalArgs {
    type V = ArgsView;

    open spec fn view(&self) -> ArgsView {
        ArgsView {
            migrate: self.migrate,
            resume: text::opt_text(self.resume),
            description: text::opt_text(self.description),
            id: text::opt_text(self.id),
            tool: self.tool@,
        }
    }
}

/// What the command should do.
#[derive(Debug, PartialEq, Eq)]
pub enum GoalPlan {
    /// Bring goals in from where they used to be kept.
    Migrate,
    /// Go on with a task.
    Resume { id: String },
    /// Nothing was asked for.
    Missing,
    /// Begin a task under an identifier, or under a new one. With `own_tool` it
    /// is the agent itself that works on it, else a program of the given name.
    Start { description: String, id: Option<String>, own_tool: bool },
    /// The identifier is empty.
    EmptyId,
}

/// The mathematical value of a [`GoalPlan`].
pub enum PlanView {
    Migrate,
    Resume { id: Seq<char> },
    Missing,
    Start { description: Seq<char>, id: Option<Seq<char>>, own_tool: bool },
    EmptyId,
}

impl View for GoalPlan {
    type V = PlanView;

    open spec fn view(&self) -> PlanView {
        match self {
            GoalPlan::Migrate => PlanView::Migrate,
            GoalPlan::Resume { id } => PlanView::Resume { id: id@ },
            GoalPlan::Missing => PlanView::Missing,
            GoalPlan::Start { description, id, own_tool } => PlanView::Start {
                description: description@,
                id: text::opt_text(*id),
                own_tool: *own_tool,
            },
            GoalPlan::EmptyId => PlanView::EmptyId,
        }
    }
}

/// What users read who asked for nothing.
pub const USAGE: &'static str = "anureo goal: provide a goal description or use --resume <ID>";

/// What users read whose identifier is empty.
pub const EMPTY_ID: &'static str = "--id must not be empty";

/// The agent's own name among the tools.
pub const OWN_TOOL: &'static str = "anureo";

/// What the command should do: migration comes first, then resuming.
pub open spec fn planned(a: ArgsView) -> PlanView {
    if a.migrate {
        PlanView::Migrate
    } else {
        match (a.resume, a.description) {
            (Some(id), _) => PlanView::Resume { id },
            (None, None) => PlanView::Missing,
            (None, Some(description)) => match a.id {
                None => PlanView::Start { description, id: None, own_tool: a.tool == OWN_TOOL@ },
                Some(id) => if text::trimmed(id).len() == 0 {
                    PlanView::EmptyId
                } else {
                    PlanView::Start {
                        description,
                        id: Some(text::trimmed(id)),
                        own_tool: a.tool == OWN_TOOL@,
                    }
                },
            },
        }
    }
}

/// What the command should do.
pub fn plan_goal_command(ga: &GoalArgs) -> (r: GoalPlan)
    ensures
        r@ == planned(ga@),
{
    if ga.migrate {
        return GoalPlan::Migrate;
    }
    match &ga.resume {
        Some(id) => {
            return GoalPlan::Resume { id: id.clone() };
        },
        None => {},
    }
    let description: String = match &ga.description {
        Some(d) => d.clone(),
        None => {
            return GoalPlan::Missing;
        },
    };
    let own_tool: bool = text::same(ga.tool.as_str(), OWN_TOOL);
    match &ga.id {
        None => GoalPlan::Start { description, id: None, own_tool },
        Some(id) => {
            let trimmed: &str = text::trim(id.as_str());
            if trimmed.is_empty() {
                GoalPlan::EmptyId
            } else {
                GoalPlan::Start { description, id: Some(trimmed.to_owned()), own_tool }
            }
        },
    }
}

/// The line that names a task.
pub fn task_id_line(task_id: &str) -> (r: String)
    ensures
        r@ == "task_id: "@ + text::byte_head(task_id@, goal_runner::SHORT_ID as nat),
{
    let mut r: String = "task_id: ".to_owned();
    r.append(text::take_bytes(task_id, goal_runner::SHORT_ID));
    r
}

/// What users read of how a run ended.
pub open spec fn outcome_text(o: OutcomeView) -> Seq<char> {
    match o {
        OutcomeView::Error(e) => "goal failed: "@ + e,
        OutcomeView::Blocked(e) => "goal blocked: "@ + e,
        OutcomeView::UsageLimited { tokens_used, token_budget } =>
            "goal stopped: token budget exhausted ("@ + text::nat_text(tokens_used as nat) + "/"@
            + text::nat_text(token_budget as nat) + ")"@,
        OutcomeView::Achieved => "goal achieved"@,
    }
}

/// What users read of how a run ended.
pub fn outcome_line(outcome: &GoalOutcome) -> (r: String)
    ensures
        r@ == outcome_text(outcome@),
{
    match outcome {
        GoalOutcome::Error(e) => {
            let mut r: String = "goal failed: ".to_owned();
            r.append(e.as_str());
            r
        },
        GoalOutcome::Blocked(e) => {
            let mut r: String = "goal blocked: ".to_owned();
            r.append(e.as_str());
            r
        },
        GoalOutcome::UsageLimited { tokens_used, token_budget } => {
            let mut r: String = "goal stopped: token budget exhausted (".to_owned();
            text::push_u64(&mut r, *tokens_used as u64);
            r.append("/");
            text::push_u64(&mut r, *token_budget as u64);
            r.append(")");
            r
        },
        GoalOutcome::Achieved => "goal achieved".to_owned(),
    }
}

/// Whether the command fails when a run ended like this.
pub open spec fn is_failure(o: OutcomeView) -> bool {
    o is Error || o is Blocked
}

/// Whether the command fails when a run ended like this.
pub fn exits_with_failure(outcome: &GoalOutcome) -> (r: bool)
    ensures
        r == is_failure(outcome@),
{
    matches!(outcome, GoalOutcome::Error(_) | GoalOutcome::Blocked(_))
}

/// What the command comes to: migration where it is asked for, else the task to go on
/// with, else a new one for the description, under the identifier that is given. With
/// neither, nothing was asked for, and a blank identifier is refused.
pub proof fn law_what_the_command_does(a: ArgsView)
    ensures
        a.migrate ==> planned(a) is Migrate,
        !a.migrate && a.resume is Some ==> planned(a) == (PlanView::Resume { id: a.resume->0 }),
        !a.migrate && a.resume is None && a.description is None ==> planned(a) is Missing,
        !a.migrate && a.resume is None && a.description is Some ==> {
            &&& a.id is None ==> planned(a) == (PlanView::Start {
                description: a.description->0,
                id: None,
                own_tool: a.tool == "anureo"@,
            })
            &&& a.id matches Some(id) ==> {
                &&& text::trimmed(id).len() == 0 ==> planned(a) is EmptyId
                &&& text::trimmed(id).len() > 0 ==> planned(a) == (PlanView::Start {
                    description: a.description->0,
                    id: Some(text::trimmed(id)),
                    own_tool: a.tool == "anureo"@,
                })
            }
        },
{
}

/// A run that ended in an error or blocked fails the command; one that achieved its goal
/// or used up its budget does not. Each is told in its own words.
pub proof fn law_how_runs_end(e: Seq<char>, used: u32, budget: u32)
    ensures
        is_failure(OutcomeView::Error(e)),
        is_failure(OutcomeView::Blocked(e)),
        !is_failure(OutcomeView::Achieved),
        !is_failure(OutcomeView::UsageLimited { tokens_used: used, token_budget: budget }),
        outcome_text(OutcomeView::Error(e)) == "goal failed: "@ + e,
        outcome_text(OutcomeView::Blocked(e)) == "goal blocked: "@ + e,
        outcome_text(OutcomeView::Achieved) == "goal achieved"@,
        outcome_text(OutcomeView::UsageLimited { tokens_used: used, token_budget: budget })
            == "goal stopped: token budget exhausted ("@ + text::int_text(used as int) + "/"@
            + text::int_text(budget as int) + ")"@,
{
}

} // verus!
