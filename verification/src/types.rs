//! Goals, their statuses, and the rules for asking for one.

use crate::text;
use vstd::prelude::*;
use vstd::string::*;

verus! {

/// Where a goal stands.
#[derive(Debug, Clone, Copy, PartialEq, Eq, Hash, Structural)]
pub enum GoalStatus {
    Active,
    Paused,
    Blocked,
    /// The provider or the account ran out of quota; set by the system.
    UsageLimited,
    BudgetLimited,
    Complete,
}

/// The name of a status.
pub open spec fn status_text(s: GoalStatus) -> Seq<char> {
    match s {
        GoalStatus::Active => "active"@,
        GoalStatus::Paused => "paused"@,
        GoalStatus::Blocked => "blocked"@,
        GoalStatus::UsageLimited => "usage_limited"@,
        GoalStatus::BudgetLimited => "budget_limited"@,
        GoalStatus::Complete => "complete"@,
    }
}

/// Whether `s` ends the goal's own progress.
pub open spec fn terminal(s: GoalStatus) -> bool {
    s == GoalStatus::BudgetLimited || s == GoalStatus::Complete
}

/// Whether a user may bring a goal back to active from `s`.
pub open spec fn resumable(s: GoalStatus) -> bool {
    s != GoalStatus::Active && s != GoalStatus::Complete
}

impl GoalStatus {
    /// Every status, in order of declaration.
    pub const ALL: [GoalStatus; 6] = [
        GoalStatus::Active,
        GoalStatus::Paused,
        GoalStatus::Blocked,
        GoalStatus::UsageLimited,
        GoalStatus::BudgetLimited,
        GoalStatus::Complete,
    ];

    /// The name of the status.
    pub fn as_str(self) -> (r: &'static str)
        ensures
            r@ == status_text(self),
    {
        match self {
            GoalStatus::Active => "active",
            GoalStatus::Paused => "paused",
            GoalStatus::Blocked => "blocked",
            GoalStatus::UsageLimited => "usage_limited",
            GoalStatus::BudgetLimited => "budget_limited",
            GoalStatus::Complete => "complete",
        }
    }

    /// The status of that name, if there is one.
    pub fn parse(s: &str) -> (r: Option<GoalStatus>)
        ensures
            match r {
                Some(status) => s@ == status_text(status),
                None => forall|status: GoalStatus| s@ != #[trigger] status_text(status),
            },
    {
        if text::same(s, "active") {
            Some(GoalStatus::Active)
        } else if text::same(s, "paused") {
            Some(GoalStatus::Paused)
        } else if text::same(s, "blocked") {
            Some(GoalStatus::Blocked)
        } else if text::same(s, "usage_limited") {
            Some(GoalStatus::UsageLimited)
        } else if text::same(s, "budget_limited") {
            Some(GoalStatus::BudgetLimited)
        } else if text::same(s, "complete") {
            Some(GoalStatus::Complete)
        } else {
            None
        }
    }

    /// Whether the status is terminal: budget-limited or complete.
    pub fn is_terminal(self) -> (r: bool)
        ensures
            r == terminal(self),
    {
        matches!(self, GoalStatus::BudgetLimited | GoalStatus::Complete)
    }

    /// Whether a user may resume from the status: paused, blocked,
    /// usage-limited or budget-limited.
    pub fn user_resumable(self) -> (r: bool)
        ensures
            r == resumable(self),
    {
        matches!(
            self,
            GoalStatus::Paused | GoalStatus::Blocked | GoalStatus::UsageLimited | GoalStatus::BudgetLimited
        )
    }
}

/// Different statuses have different names, so a name reads back as the status
/// that it was written for.
pub proof fn law_status_names_differ(a: GoalStatus, b: GoalStatus)
    ensures
        status_text(a) == status_text(b) ==> a == b,
{
    reveal_strlit("active");
    reveal_strlit("paused");
    reveal_strlit("blocked");
    reveal_strlit("usage_limited");
    reveal_strlit("budget_limited");
    reveal_strlit("complete");
    assert(status_text(a).len() == status_text(b).len() || status_text(a) != status_text(b));
    assert("active"@[0] == 'a');
    assert("paused"@[0] == 'p');
    assert("blocked"@[0] == 'b');
    assert("complete"@[0] == 'c');
}

/// How a turn that failed for good bears on its goal.
#[derive(Debug, Clone, Copy, PartialEq, Eq, Structural)]
pub enum TurnErrorClass {
    /// Quota or credit ran out.
    UsageLimited,
    /// Any other unrecoverable failure.
    TurnError,
}

/// In which statuses usage may still be booked on a goal.
#[derive(Debug, Clone, Copy, PartialEq, Eq, Structural)]
pub enum AccountingMode {
    /// Ordinary progress: active only.
    ActiveStatusOnly,
    /// The end of a tool call or turn: active or budget-limited.
    ActiveOnly,
    /// Completion by the model: active, budget-limited or complete.
    ActiveOrComplete,
    /// Errors and stops: anything but complete.
    ActiveOrStopped,
}

/// Whether `mode` books usage on a goal in `status`.
pub open spec fn mode_allows(mode: AccountingMode, status: GoalStatus) -> bool {
    match mode {
        AccountingMode::ActiveStatusOnly => status == GoalStatus::Active,
        AccountingMode::ActiveOnly => status == GoalStatus::Active || status
            == GoalStatus::BudgetLimited,
        AccountingMode::ActiveOrComplete => status == GoalStatus::Active || status
            == GoalStatus::BudgetLimited || status == GoalStatus::Complete,
        AccountingMode::ActiveOrStopped => status != GoalStatus::Complete,
    }
}

/// The statuses that `mode` allows, in order of declaration.
pub open spec fn allowed_statuses(mode: AccountingMode) -> Seq<GoalStatus> {
    seq![
        GoalStatus::Active,
        GoalStatus::Paused,
        GoalStatus::Blocked,
        GoalStatus::UsageLimited,
        GoalStatus::BudgetLimited,
        GoalStatus::Complete,
    ].filter(|s: GoalStatus| mode_allows(mode, s))
}

/// The name of a status in single quotes.
pub open spec fn quoted(status: GoalStatus) -> Seq<char> {
    "'"@ + status_text(status) + "'"@
}

/// Status names in single quotes, separated by commas.
pub open spec fn quoted_list(statuses: Seq<GoalStatus>) -> Seq<char>
    decreases statuses.len(),
{
    if statuses.len() == 0 {
        Seq::empty()
    } else {
        let last = quoted(statuses.last());
        if statuses.len() == 1 {
            last
        } else {
            quoted_list(statuses.drop_last()) + ","@ + last
        }
    }
}

impl AccountingMode {
    /// Whether usage may be booked on a goal in `status`.
    pub fn allows(self, status: GoalStatus) -> (r: bool)
        ensures
            r == mode_allows(self, status),
    {
        match self {
            AccountingMode::ActiveStatusOnly => matches!(status, GoalStatus::Active),
            AccountingMode::ActiveOnly => matches!(status, GoalStatus::Active | GoalStatus::BudgetLimited),
            AccountingMode::ActiveOrComplete => matches!(
                status,
                GoalStatus::Active | GoalStatus::BudgetLimited | GoalStatus::Complete
            ),
            AccountingMode::ActiveOrStopped => !matches!(status, GoalStatus::Complete),
        }
    }

    /// The statuses that the mode allows, quoted for an SQL `IN` list.
    pub fn allowed_statuses_sql(self) -> (r: &'static str)
        ensures
            r@ == quoted_list(allowed_statuses(self)),
    {
        proof {
            lemma_allowed_statuses(self);
        }
        match self {
            AccountingMode::ActiveStatusOnly => "'active'",
            AccountingMode::ActiveOnly => "'active','budget_limited'",
            AccountingMode::ActiveOrComplete => "'active','budget_limited','complete'",
            AccountingMode::ActiveOrStopped => "'active','paused','blocked','usage_limited','budget_limited'",
        }
    }
}

proof fn lemma_allowed_statuses(mode: AccountingMode)
    ensures
        quoted_list(allowed_statuses(mode)) == match mode {
            AccountingMode::ActiveStatusOnly => "'active'"@,
            AccountingMode::ActiveOnly => "'active','budget_limited'"@,
            AccountingMode::ActiveOrComplete => "'active','budget_limited','complete'"@,
            AccountingMode::ActiveOrStopped => "'active','paused','blocked','usage_limited','budget_limited'"@,
        },
{
    let f = |s: GoalStatus| mode_allows(mode, s);
    let all = seq![
        GoalStatus::Active,
        GoalStatus::Paused,
        GoalStatus::Blocked,
        GoalStatus::UsageLimited,
        GoalStatus::BudgetLimited,
        GoalStatus::Complete,
    ];
    reveal(Seq::filter);
    reveal_with_fuel(Seq::filter, 7);
    reveal_with_fuel(quoted_list, 6);
    assert(all.drop_last() == seq![
        GoalStatus::Active,
        GoalStatus::Paused,
        GoalStatus::Blocked,
        GoalStatus::UsageLimited,
        GoalStatus::BudgetLimited,
    ]);
    reveal_strlit("'");
    reveal_strlit(",");
    reveal_strlit("active");
    reveal_strlit("paused");
    reveal_strlit("blocked");
    reveal_strlit("usage_limited");
    reveal_strlit("budget_limited");
    reveal_strlit("complete");
    reveal_strlit("'active'");
    reveal_strlit("'active','budget_limited'");
    reveal_strlit("'active','budget_limited','complete'");
    reveal_strlit("'active','paused','blocked','usage_limited','budget_limited'");
    match mode {
        AccountingMode::ActiveStatusOnly => {
            assert(all.filter(f) == seq![GoalStatus::Active]);
            assert(quoted_list(all.filter(f)) =~= "'active'"@);
        },
        AccountingMode::ActiveOnly => {
            assert(all.filter(f) == seq![GoalStatus::Active, GoalStatus::BudgetLimited]);
            assert(quoted_list(all.filter(f)) =~= "'active','budget_limited'"@);
        },
        AccountingMode::ActiveOrComplete => {
            assert(all.filter(f) == seq![GoalStatus::Active, GoalStatus::BudgetLimited, GoalStatus::Complete]);
            assert(quoted_list(all.filter(f)) =~= "'active','budget_limited','complete'"@);
        },
        AccountingMode::ActiveOrStopped => {
            assert(all.filter(f) == all.drop_last());
            assert(quoted_list(all.filter(f)) =~= "'active','paused','blocked','usage_limited','budget_limited'"@);
        },
    }
}

/// Whether `part` stands in `s` from index `i` on.
pub open spec fn stands_at(s: Seq<char>, part: Seq<char>, i: int) -> bool {
    0 <= i && i + part.len() <= s.len() && s.subrange(i, i + part.len()) == part
}

/// The list of a mode holds the quoted name of a status exactly when the mode
/// allows the status, and holds no name twice.
pub proof fn law_list_holds_what_is_allowed(mode: AccountingMode, status: GoalStatus)
    ensures
        (exists|i: int| stands_at(quoted_list(allowed_statuses(mode)), quoted(status), i))
            <==> mode_allows(mode, status),
        forall|i: int, j: int|
            stands_at(quoted_list(allowed_statuses(mode)), quoted(status), i) && stands_at(
                quoted_list(allowed_statuses(mode)),
                quoted(status),
                j,
            ) ==> i == j,
{
    lemma_allowed_once(mode, status);
    lemma_quoted_in_list(allowed_statuses(mode), status);
}

/// The allowed statuses, each once.
proof fn lemma_allowed_once(mode: AccountingMode, status: GoalStatus)
    ensures
        allowed_statuses(mode).contains(status) <==> mode_allows(mode, status),
        allowed_statuses(mode).no_duplicates(),
{
    let f = |s: GoalStatus| mode_allows(mode, s);
    let all = seq![
        GoalStatus::Active,
        GoalStatus::Paused,
        GoalStatus::Blocked,
        GoalStatus::UsageLimited,
        GoalStatus::BudgetLimited,
        GoalStatus::Complete,
    ];
    assert(all.drop_last() =~= seq![
        GoalStatus::Active,
        GoalStatus::Paused,
        GoalStatus::Blocked,
        GoalStatus::UsageLimited,
        GoalStatus::BudgetLimited,
    ]);
    reveal(Seq::filter);
    reveal_with_fuel(Seq::filter, 7);
    let some = all.filter(f);
    match mode {
        AccountingMode::ActiveStatusOnly => {
            assert(some == seq![GoalStatus::Active]);
            assert(some[0] == GoalStatus::Active);
        },
        AccountingMode::ActiveOnly => {
            assert(some == seq![GoalStatus::Active, GoalStatus::BudgetLimited]);
            assert(some[0] == GoalStatus::Active && some[1] == GoalStatus::BudgetLimited);
        },
        AccountingMode::ActiveOrComplete => {
            assert(some == seq![GoalStatus::Active, GoalStatus::BudgetLimited, GoalStatus::Complete]);
            assert(some[0] == GoalStatus::Active && some[1] == GoalStatus::BudgetLimited && some[2]
                == GoalStatus::Complete);
        },
        AccountingMode::ActiveOrStopped => {
            assert(some == all.drop_last());
            assert(some[0] == GoalStatus::Active && some[1] == GoalStatus::Paused && some[2]
                == GoalStatus::Blocked && some[3] == GoalStatus::UsageLimited && some[4]
                == GoalStatus::BudgetLimited);
        },
    }
}

/// A quoted name begins and ends with its only quotes, and holds no comma.
proof fn lemma_quoted(status: GoalStatus)
    ensures
        quoted(status).len() >= 3,
        quoted(status)[0] == '\'',
        quoted(status).last() == '\'',
        forall|i: int|
            0 < i < quoted(status).len() - 1 ==> #[trigger] quoted(status)[i] != '\'' && quoted(
                status,
            )[i] != ',',
{
    reveal_strlit("'");
    reveal_strlit("active");
    reveal_strlit("paused");
    reveal_strlit("blocked");
    reveal_strlit("usage_limited");
    reveal_strlit("budget_limited");
    reveal_strlit("complete");
    let q = quoted(status);
    assert forall|i: int| 0 < i < q.len() - 1 implies #[trigger] q[i] != '\'' && q[i] != ',' by {
        assert(q[i] == status_text(status)[i - 1]);
    }
}

/// A quoted name in a list stands where the list has that status.
proof fn lemma_stands(statuses: Seq<GoalStatus>, status: GoalStatus, i: int)
    requires
        statuses.len() > 0,
        stands_at(quoted_list(statuses), quoted(status), i),
    ensures
        ({
            let whole = quoted_list(statuses).len();
            let part = quoted(status).len();
            ||| statuses.last() == status && i == whole - part
            ||| stands_at(quoted_list(statuses.drop_last()), quoted(status), i)
        }),
{
    reveal_strlit(",");
    reveal_strlit("'");
    let list = quoted_list(statuses);
    let before = quoted_list(statuses.drop_last());
    let last = quoted(statuses.last());
    let part = quoted(status);
    let n = part.len();
    lemma_quoted(status);
    lemma_quoted(statuses.last());
    let start = list.len() - last.len();
    assert(list.skip(start) =~= last);
    assert forall|k: int| 0 <= k < n implies list[i + k] == #[trigger] part[k] by {
        assert(list.subrange(i, i + n)[k] == list[i + k]);
    }
    assert(list[i] == part[0]);
    assert(list[i + n - 1] == part[n - 1]);
    if i >= start {
        assert(list[i] == last[i - start]);
        assert(list[i + 1] == part[1]);
        assert(i == start);
        assert(list[i + n - 1] == last[n - 1]);
        assert(last.len() == n);
        assert(last =~= part) by {
            assert forall|k: int| 0 <= k < n implies last[k] == part[k] by {
                assert(list[start + k] == last[k]);
            }
        }
        assert(status_text(status) =~= part.subrange(1, n - 1));
        assert(status_text(statuses.last()) =~= last.subrange(1, n - 1));
        law_status_names_differ(status, statuses.last());
    } else {
        assert(statuses.len() > 1);
        lemma_list_ends(statuses.drop_last());
        assert(start == before.len() + 1);
        assert(list[before.len() as int] == ',');
        assert(list[before.len() - 1] == before.last());
        if i + n <= before.len() {
            assert(before.subrange(i, i + n) =~= part);
        } else {
            let k = before.len() - i;
            assert(0 <= k < n);
            assert(list[i + k] == part[k]);
            assert(false);
        }
    }
}

/// A list that is not empty ends with a quote.
proof fn lemma_list_ends(statuses: Seq<GoalStatus>)
    requires
        statuses.len() > 0,
    ensures
        quoted_list(statuses).len() > 0,
        quoted_list(statuses).last() == '\'',
{
    lemma_quoted(statuses.last());
    let list = quoted_list(statuses);
    let last = quoted(statuses.last());
    assert(list.skip(list.len() - last.len()) =~= last);
    assert(list.last() == last.last());
}

/// Where the quoted name of a status stands in a list that has no status twice.
proof fn lemma_quoted_in_list(statuses: Seq<GoalStatus>, status: GoalStatus)
    requires
        statuses.no_duplicates(),
    ensures
        (exists|i: int| stands_at(quoted_list(statuses), quoted(status), i)) <==> statuses.contains(
            status,
        ),
        forall|i: int, j: int|
            stands_at(quoted_list(statuses), quoted(status), i) && stands_at(
                quoted_list(statuses),
                quoted(status),
                j,
            ) ==> i == j,
    decreases statuses.len(),
{
    let list = quoted_list(statuses);
    let part = quoted(status);
    lemma_quoted(status);
    if statuses.len() > 0 {
        let fewer = statuses.drop_last();
        let before = quoted_list(fewer);
        lemma_quoted_in_list(fewer, status);
        assert(statuses =~= fewer.push(statuses.last()));
        assert forall|i: int| stands_at(list, part, i) implies (statuses.last() == status && i
            == list.len() - part.len()) || stands_at(before, part, i) by {
            lemma_stands(statuses, status, i);
        }
        if statuses.last() == status {
            assert(statuses[statuses.len() - 1] == status);
            let i = list.len() - part.len();
            assert(list.subrange(i, i + part.len()) =~= part);
            assert(stands_at(list, part, i));
            assert(!fewer.contains(status)) by {
                if fewer.contains(status) {
                    let k = fewer.index_of(status);
                    assert(statuses[k] == statuses[statuses.len() - 1]);
                }
            }
        } else if fewer.contains(status) {
            let i = choose|i: int| stands_at(before, part, i);
            assert(list.subrange(i, i + part.len()) =~= before.subrange(i, i + part.len()));
            assert(stands_at(list, part, i));
            let k = fewer.index_of(status);
            assert(statuses[k] == status);
        } else {
            assert(!statuses.contains(status));
        }
    }
}

/// A goal: one row of the goal table.
#[derive(Debug, PartialEq, Eq)]
pub struct Goal {
    pub thread_id: String,
    pub goal_id: String,
    pub objective: String,
    pub status: GoalStatus,
    pub token_budget: Option<i64>,
    pub tokens_used: i64,
    pub time_used_seconds: i64,
    /// The command that has to succeed before the goal may be completed.
    pub verify_command: Option<String>,
    /// Why the goal is where it is.
    pub status_reason: Option<String>,
    pub created_at_ms: i64,
    pub updated_at_ms: i64,
    /// How often a user edited the objective.
    pub objective_revision: i64,
    /// How many turns the goal has driven.
    pub iteration_count: i64,
    /// Whether `objective` is the marker of a file that holds the text.
    pub objective_file: bool,
}

/// The mathematical value of a [`Goal`].
#[verifier::ext_equal]
pub struct GoalView {
    pub thread_id: Seq<char>,
    pub goal_id: Seq<char>,
    pub objective: Seq<char>,
    pub status: GoalStatus,
    pub token_budget: Option<i64>,
    pub tokens_used: i64,
    pub time_used_seconds: i64,
    pub verify_command: Option<Seq<char>>,
    pub status_reason: Option<Seq<char>>,
    pub created_at_ms: i64,
    pub updated_at_ms: i64,
    pub objective_revision: i64,
    pub iteration_count: i64,
    pub objective_file: bool,
}

impl View for Goal {
    type V = GoalView;

    open spec fn view(&self) -> GoalView {
        GoalView {
            thread_id: self.thread_id@,
            goal_id: self.goal_id@,
            objective: self.objective@,
            status: self.status,
            token_budget: self.token_budget,
            tokens_used: self.tokens_used,
            time_used_seconds: self.time_used_seconds,
            verify_command: text::opt_text(self.verify_command),
            status_reason: text::opt_text(self.status_reason),
            created_at_ms: self.created_at_ms,
            updated_at_ms: self.updated_at_ms,
            objective_revision: self.objective_revision,
            iteration_count: self.iteration_count,
            objective_file: self.objective_file,
        }
    }
}

impl Clone for Goal {
    fn clone(&self) -> (r: Self)
        ensures
            r == *self,
    {
        Goal {
            thread_id: self.thread_id.clone(),
            goal_id: self.goal_id.clone(),
            objective: self.objective.clone(),
            status: self.status,
            token_budget: self.token_budget,
            tokens_used: self.tokens_used,
            time_used_seconds: self.time_used_seconds,
            verify_command: text::clone_opt(&self.verify_command),
            status_reason: text::clone_opt(&self.status_reason),
            created_at_ms: self.created_at_ms,
            updated_at_ms: self.updated_at_ms,
            objective_revision: self.objective_revision,
            iteration_count: self.iteration_count,
            objective_file: self.objective_file,
        }
    }
}

impl GoalView {
    /// What is left of the budget: at least nothing, and at most what can be
    /// counted.
    pub open spec fn remaining(self) -> Option<int> {
        match self.token_budget {
            Some(b) => Some(
                if b <= self.tokens_used {
                    0
                } else if b - self.tokens_used > i64::MAX {
                    i64::MAX as int
                } else {
                    b - self.tokens_used
                },
            ),
            None => None,
        }
    }
}

impl Goal {
    /// The budget less what was used, and at least nothing; `None` without a
    /// budget.
    pub fn remaining_tokens(&self) -> (r: Option<i64>)
        ensures
            match self@.remaining() {
                Some(n) => r == Some(n as i64) && 0 <= n <= i64::MAX,
                None => r is None,
            },
    {
        match self.token_budget {
            Some(b) => if b <= self.tokens_used {
                Some(0)
            } else if self.tokens_used < 0 && b > i64::MAX + self.tokens_used {
                Some(i64::MAX)
            } else {
                Some(b - self.tokens_used)
            },
            None => None,
        }
    }
}

/// The most bytes that an objective may have in its row.
pub const MAX_OBJECTIVE_LEN: usize = 4000;

/// The largest budget that a goal may have where nothing is configured.
pub const DEFAULT_MAX_GOAL_TOKEN_BUDGET: i64 = 5_000_000;

/// The largest budget that a goal may have, given the configured text: a
/// positive number counts, anything else leaves the default.
pub open spec fn budget_cap(configured: Option<Seq<char>>) -> int {
    match configured {
        Some(s) => match text::signed_value(s) {
            Some(n) => if n > 0 {
                n
            } else {
                DEFAULT_MAX_GOAL_TOKEN_BUDGET as int
            },
            None => DEFAULT_MAX_GOAL_TOKEN_BUDGET as int,
        },
        None => DEFAULT_MAX_GOAL_TOKEN_BUDGET as int,
    }
}

/// The largest budget that a goal may have. `configured` is the value of
/// `ANUREO_MAX_GOAL_TOKEN_BUDGET`, if it is set.
pub fn max_goal_token_budget(configured: Option<&str>) -> (r: i64)
    ensures
        r == budget_cap(text::opt_str(configured)),
        r > 0,
{
    match configured {
        Some(s) => match text::parse_i64(s) {
            Some(n) => if n > 0 {
                n
            } else {
                DEFAULT_MAX_GOAL_TOKEN_BUDGET
            },
            None => DEFAULT_MAX_GOAL_TOKEN_BUDGET,
        },
        None => DEFAULT_MAX_GOAL_TOKEN_BUDGET,
    }
}

/// A request for a goal.
#[derive(Debug, Clone, PartialEq, Eq)]
pub struct CreateGoalRequest {
    pub thread_id: String,
    pub objective: String,
    pub token_budget: Option<i64>,
    pub verify_command: Option<String>,
}

/// The mathematical value of a [`CreateGoalRequest`].
pub struct RequestView {
    pub thread_id: Seq<char>,
    pub objective: Seq<char>,
    pub token_budget: Option<i64>,
    pub verify_command: Option<Seq<char>>,
}

impl View for CreateGoalRequest {
    type V = RequestView;

    open spec fn view(&self) -> RequestView {
        RequestView {
            thread_id: self.thread_id@,
            objective: self.objective@,
            token_budget: self.token_budget,
            verify_command: text::opt_text(self.verify_command),
        }
    }
}

/// Why a request for a goal is refused.
#[derive(Debug, Clone, Copy, PartialEq, Eq, Structural)]
pub enum GoalValidationError {
    EmptyObjective,
    ObjectiveTooLong,
    BudgetMustBePositive,
    BudgetAboveCap(i64),
}

/// What is wrong with an objective, if anything: it must not be empty, nor too
/// long, once trimmed.
pub open spec fn objective_fault(objective: Seq<char>) -> Option<GoalValidationError> {
    if text::trimmed(objective).len() == 0 {
        Some(GoalValidationError::EmptyObjective)
    } else if text::byte_len(text::trimmed(objective)) > MAX_OBJECTIVE_LEN {
        Some(GoalValidationError::ObjectiveTooLong)
    } else {
        None
    }
}

/// What is wrong with a budget under the cap `cap`, if anything.
pub open spec fn budget_fault(budget: i64, cap: i64) -> Option<GoalValidationError> {
    if budget <= 0 {
        Some(GoalValidationError::BudgetMustBePositive)
    } else if budget > cap {
        Some(GoalValidationError::BudgetAboveCap(cap))
    } else {
        None
    }
}

impl RequestView {
    /// What is wrong with the request, if anything; the objective comes first.
    pub open spec fn fault(self, cap: i64) -> Option<GoalValidationError> {
        match objective_fault(self.objective) {
            Some(e) => Some(e),
            None => match self.token_budget {
                Some(b) => budget_fault(b, cap),
                None => None,
            },
        }
    }
}

/// Checks an objective.
pub fn check_objective(objective: &str) -> (r: Result<(), GoalValidationError>)
    ensures
        match objective_fault(objective@) {
            Some(e) => r == Err::<(), GoalValidationError>(e),
            None => r is Ok,
        },
{
    let t: &str = text::trim(objective);
    if t.is_empty() {
        return Err(GoalValidationError::EmptyObjective);
    }
    if text::bytes_in(t) > MAX_OBJECTIVE_LEN {
        return Err(GoalValidationError::ObjectiveTooLong);
    }
    Ok(())
}

/// Checks a budget.
pub fn check_budget(budget: i64, cap: i64) -> (r: Result<(), GoalValidationError>)
    ensures
        match budget_fault(budget, cap) {
            Some(e) => r == Err::<(), GoalValidationError>(e),
            None => r is Ok,
        },
{
    if budget <= 0 {
        return Err(GoalValidationError::BudgetMustBePositive);
    }
    if budget > cap {
        return Err(GoalValidationError::BudgetAboveCap(cap));
    }
    Ok(())
}

impl CreateGoalRequest {
    /// Checks the request, with budgets up to `cap`.
    pub fn validate(&self, cap: i64) -> (r: Result<(), GoalValidationError>)
        ensures
            match self@.fault(cap) {
                Some(e) => r == Err::<(), GoalValidationError>(e),
                None => r is Ok,
            },
    {
        match check_objective(self.objective.as_str()) {
            Ok(()) => {},
            Err(e) => {
                return Err(e);
            },
        }
        match self.token_budget {
            Some(b) => check_budget(b, cap),
            None => Ok(()),
        }
    }

    /// The objective without the white space around it.
    pub fn trimmed_objective(&self) -> (r: &str)
        ensures
            r@ == text::trimmed(self.objective@),
    {
        text::trim(self.objective.as_str())
    }
}

/// The text of a validation error.
pub open spec fn validation_text(e: GoalValidationError) -> Seq<char> {
    match e {
        GoalValidationError::EmptyObjective => "objective is empty after trim"@,
        GoalValidationError::ObjectiveTooLong => "objective exceeds 4000 chars"@,
        GoalValidationError::BudgetMustBePositive => "token budget must be positive"@,
        GoalValidationError::BudgetAboveCap(cap) =>
            "token budget exceeds max_goal_token_budget cap ("@ + text::int_text(cap as int) + ")"@,
    }
}

impl GoalValidationError {
    /// The text of the error.
    pub fn message(&self) -> (r: String)
        ensures
            r@ == validation_text(*self),
    {
        match self {
            GoalValidationError::EmptyObjective => "objective is empty after trim".to_owned(),
            GoalValidationError::ObjectiveTooLong => "objective exceeds 4000 chars".to_owned(),
            GoalValidationError::BudgetMustBePositive => "token budget must be positive".to_owned(),
            GoalValidationError::BudgetAboveCap(cap) => {
                let mut out: String = "token budget exceeds max_goal_token_budget cap (".to_owned();
                text::push_i64(&mut out, *cap);
                out.append(")");
                out
            },
        }
    }
}

/// What became of booked usage.
#[derive(Debug, Clone, Copy, PartialEq, Eq, Structural)]
pub enum AccountingOutcome {
    Updated { tokens_used: i64, status: GoalStatus },
    /// Nothing was booked: no goal, another goal, or a status that the mode
    /// does not allow.
    Unchanged,
}

/// In which modes usage is booked on a goal, status by status: on an active one
/// always, on a budget-limited one but for ordinary progress, on a complete one only
/// with completion, and on any other only at a stop.
pub proof fn law_modes_by_status(mode: AccountingMode)
    ensures
        mode_allows(mode, GoalStatus::Active),
        mode_allows(mode, GoalStatus::BudgetLimited) <==> mode != AccountingMode::ActiveStatusOnly,
        mode_allows(mode, GoalStatus::Complete) <==> mode == AccountingMode::ActiveOrComplete,
        mode_allows(mode, GoalStatus::Paused) <==> mode == AccountingMode::ActiveOrStopped,
        mode_allows(mode, GoalStatus::Blocked) <==> mode == AccountingMode::ActiveOrStopped,
        mode_allows(mode, GoalStatus::UsageLimited) <==> mode == AccountingMode::ActiveOrStopped,
{
}

/// A goal is over when it is complete or out of budget. Of all goals, only an active
/// one, which needs none, and a complete one cannot be resumed.
pub proof fn law_over_and_resumable()
    ensures
        forall|s: GoalStatus| #[trigger]
            terminal(s) <==> (s is Complete || s is BudgetLimited),
        forall|s: GoalStatus| #[trigger]
            resumable(s) <==> (s is Paused || s is Blocked || s is UsageLimited || s is BudgetLimited),
{
}

/// What was used and what remains make up the budget, until there is nothing left.
pub proof fn law_remaining_makes_up_the_budget(g: GoalView)
    requires
        g.tokens_used >= 0,
    ensures
        g.remaining() is Some <==> g.token_budget is Some,
        g.token_budget matches Some(b) ==> {
            &&& g.tokens_used <= b ==> g.remaining()->0 + g.tokens_used == b
            &&& g.tokens_used >= b ==> g.remaining()->0 == 0
        },
{
}

/// Which budgets are taken: those above nothing and up to the cap. A refusal tells
/// which bound was missed, and the cap.
pub proof fn law_budget_bounds(budget: i64, cap: i64)
    ensures
        budget_fault(budget, cap) is None <==> 1 <= budget <= cap,
        budget < 1 ==> budget_fault(budget, cap) == Some(GoalValidationError::BudgetMustBePositive),
        budget >= 1 && budget > cap ==> budget_fault(budget, cap) == Some(
            GoalValidationError::BudgetAboveCap(cap),
        ),
{
}

/// Which objectives are taken: those with something besides white space, and up to
/// 4000 bytes of it. White space around an objective makes no difference.
pub proof fn law_objective_bounds(objective: Seq<char>)
    ensures
        objective_fault(objective) is None <==> 1 <= text::byte_len(text::trimmed(objective)) <= 4000,
        objective_fault(objective) == Some(GoalValidationError::EmptyObjective) <==> text::trimmed(
            objective,
        ).len() == 0,
        objective_fault(objective) == Some(GoalValidationError::ObjectiveTooLong) <==> text::byte_len(
            text::trimmed(objective),
        ) > 4000,
        objective_fault(text::trimmed(objective)) == objective_fault(objective),
{
    text::lemma_trimmed_idempotent(objective);
    text::lemma_some_bytes(text::trimmed(objective));
}

/// A request is taken exactly when its objective and its budget, if it has one, are;
/// what is wrong with the objective is told first.
pub proof fn law_request_bounds(r: RequestView, cap: i64)
    ensures
        r.fault(cap) is None <==> objective_fault(r.objective) is None && (r.token_budget matches Some(
            b,
        ) ==> 1 <= b <= cap),
        objective_fault(r.objective) is Some ==> r.fault(cap) == objective_fault(r.objective),
        objective_fault(r.objective) is None ==> (r.token_budget matches Some(b) ==> r.fault(cap)
            == budget_fault(b, cap)),
{
}

/// A positive number that is configured is the cap; without one it is five million.
pub proof fn law_configured_cap_counts(n: int)
    requires
        i64::MIN <= n <= i64::MAX,
    ensures
        n > 0 ==> budget_cap(Some(text::int_text(n))) == n,
        n <= 0 ==> budget_cap(Some(text::int_text(n))) == 5_000_000,
        budget_cap(None) == 5_000_000,
{
    text::law_number_reads_back(n);
}

} // verus!
