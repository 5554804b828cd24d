//! Booking tokens and time on a thread's goal.
//!
//! Usage is reported as running totals. The account remembers, for the goal it
//! last saw, the totals up to which everything is booked; only a booking that
//! the table takes moves them on, so nothing is booked twice and nothing that
//! was refused is lost. Totals that belong to a goal which has since been
//! replaced are dropped.

use crate::steering;
use crate::store;
use crate::store::{GoalStore, GoalStoreError, StoreErrorView, StoreView};
use crate::text;
use crate::types::{AccountingMode, AccountingOutcome, Goal, GoalStatus, GoalView};
use vstd::prelude::*;
use vstd::string::*;

verus! {

/// How many seconds to wait for a lock.
pub const LOCK_TIMEOUT_SECS: u64 = 2;

/// A moment: milliseconds since the epoch, and nanoseconds on a clock that
/// never goes back.
#[derive(Debug, Clone, Copy, PartialEq, Eq, Structural)]
pub struct Clock {
    pub wall_ms: i64,
    pub mono_ns: u64,
}

/// Running totals of tokens.
#[derive(Debug, Clone, Copy, PartialEq, Eq, Structural)]
pub struct TokenTotals {
    pub input_tokens: u64,
    pub output_tokens: u64,
    pub cached_tokens: u64,
}

/// No tokens at all.
pub open spec fn zero_totals() -> TokenTotals {
    TokenTotals { input_tokens: 0, output_tokens: 0, cached_tokens: 0 }
}

impl Default for TokenTotals {
    fn default() -> (r: TokenTotals)
        ensures
            r == zero_totals(),
    {
        TokenTotals { input_tokens: 0, output_tokens: 0, cached_tokens: 0 }
    }
}

/// How much `b` exceeds `a`, and at least nothing.
pub open spec fn excess(a: int, b: int) -> int {
    if b > a {
        b - a
    } else {
        0
    }
}

/// The tokens that count towards a goal between two totals: new input that was
/// not cached, and new output.
pub open spec fn token_delta(last: TokenTotals, current: TokenTotals) -> int {
    let input = excess(last.input_tokens as int, current.input_tokens as int);
    let cached = excess(last.cached_tokens as int, current.cached_tokens as int);
    let output = excess(last.output_tokens as int, current.output_tokens as int);
    let sum = excess(cached, input) + output;
    if sum > i64::MAX {
        i64::MAX as int
    } else {
        sum
    }
}

/// The tokens that count towards a goal between two totals.
pub fn goal_token_delta(last: TokenTotals, current: TokenTotals) -> (r: i64)
    ensures
        r == token_delta(last, current),
        r >= 0,
{
    let d_input: u64 = current.input_tokens.saturating_sub(last.input_tokens);
    let d_cached: u64 = current.cached_tokens.saturating_sub(last.cached_tokens);
    let d_output: u64 = current.output_tokens.saturating_sub(last.output_tokens);
    let sum: u64 = d_input.saturating_sub(d_cached).saturating_add(d_output);
    if sum > i64::MAX as u64 {
        i64::MAX
    } else {
        sum as i64
    }
}

/// Totals that did not change count for nothing, and totals never count for
/// less than nothing.
pub proof fn law_token_delta(last: TokenTotals, current: TokenTotals)
    ensures
        token_delta(last, last) == 0,
        0 <= token_delta(last, current) <= i64::MAX,
{
}

/// The account of a thread.
pub struct GoalAccounting {
    thread_id: String,
    token_baseline: Option<(String, TokenTotals)>,
    wall_clock_since: Option<u64>,
    budget_reported_goal_id: Option<String>,
}

/// The mathematical value of a [`GoalAccounting`].
#[verifier::ext_equal]
pub struct AccountingView {
    pub thread_id: Seq<char>,
    /// The goal last seen, and the totals up to which its usage is booked.
    pub baseline: Option<(Seq<char>, TokenTotals)>,
    /// Since when time is running.
    pub since: Option<u64>,
    /// The goal whose exhausted budget was already reported.
    pub reported: Option<Seq<char>>,
}

impl View for GoalAccounting {
    type V = AccountingView;

    closed spec fn view(&self) -> AccountingView {
        AccountingView {
            thread_id: self.thread_id@,
            baseline: match self.token_baseline {
                Some((id, t)) => Some((id@, t)),
                None => None,
            },
            since: self.wall_clock_since,
            reported: text::opt_text(self.budget_reported_goal_id),
        }
    }
}

/// Whole seconds from `since` to `now`, and none if the clock stands earlier.
pub open spec fn elapsed_secs(since: u64, now: u64) -> int {
    excess(since as int, now as int) / 1_000_000_000
}

/// What a booking leaves behind.
pub struct Booking {
    pub account: AccountingView,
    pub store: StoreView,
    pub outcome: Result<AccountingOutcome, StoreErrorView>,
}

/// `t`, or no tokens at all.
pub open spec fn or_zero(t: Option<TokenTotals>) -> TokenTotals {
    match t {
        Some(t) => t,
        None => zero_totals(),
    }
}

/// `t`, or `d`.
pub open spec fn totals_or(t: Option<TokenTotals>, d: TokenTotals) -> TokenTotals {
    match t {
        Some(t) => t,
        None => d,
    }
}

/// Booking the usage up to the totals `current`, and with `flush` the time up to
/// `now`, on the goal that the thread has.
pub open spec fn booked(
    a: AccountingView,
    s: StoreView,
    current: Option<TokenTotals>,
    mode: AccountingMode,
    flush: bool,
    now: Clock,
) -> Booking {
    match s.goal(a.thread_id) {
        // Without a goal there is nothing to remember.
        None => Booking {
            account: AccountingView { baseline: None, ..a },
            store: s,
            outcome: Ok(AccountingOutcome::Unchanged),
        },
        Some(g) => if a.baseline matches Some(b) && b.0 != g.goal_id {
            // Another goal: what was used for the old one is dropped.
            Booking {
                account: AccountingView { baseline: Some((g.goal_id, or_zero(current))), ..a },
                store: s,
                outcome: Ok(AccountingOutcome::Unchanged),
            }
        } else {
            booked_on(a, s, g, current, mode, flush, now)
        },
    }
}

/// The totals up to which usage is booked on the goal that the thread has.
pub open spec fn known_totals(a: AccountingView, current: Option<TokenTotals>) -> TokenTotals {
    match a.baseline {
        Some(b) => b.1,
        None => or_zero(current),
    }
}

/// Booking on the goal `g` that the account knows, or is about to.
pub open spec fn booked_on(
    a: AccountingView,
    s: StoreView,
    g: GoalView,
    current: Option<TokenTotals>,
    mode: AccountingMode,
    flush: bool,
    now: Clock,
) -> Booking {
    let base = known_totals(a, current);
    let tokens = match current {
        Some(c) => token_delta(base, c),
        None => 0,
    };
    let seconds = if flush && a.since is Some {
        elapsed_secs(a.since->Some_0, now.mono_ns)
    } else {
        0
    };
    let kept = AccountingView {
        since: if flush {
            None
        } else {
            a.since
        },
        ..a
    };
    let moved_on = AccountingView {
        baseline: Some((g.goal_id, totals_or(current, base))),
        ..kept
    };
    if tokens == 0 && seconds == 0 {
        Booking { account: moved_on, store: s, outcome: Ok(AccountingOutcome::Unchanged) }
    } else {
        let r = s.accounted(a.thread_id, g.goal_id, mode, tokens as i64, seconds as i64, now.wall_ms);
        Booking {
            account: match r {
                Ok(Some(_)) => moved_on,
                Ok(None) => AccountingView { baseline: Some((g.goal_id, base)), ..kept },
                Err(_) => AccountingView { baseline: None, ..kept },
            },
            store: s.after_accounting(a.thread_id, r),
            outcome: match r {
                Ok(h) => Ok(store::outcome_of(h)),
                Err(e) => Err(e),
            },
        }
    }
}

/// Whether `r` is the outcome `want`.
pub open spec fn outcome_is(
    r: Result<AccountingOutcome, GoalStoreError>,
    want: Result<AccountingOutcome, StoreErrorView>,
) -> bool {
    match want {
        Ok(o) => r == Ok::<AccountingOutcome, GoalStoreError>(o),
        Err(e) => r is Err && r->Err_0@ == e,
    }
}

impl GoalAccounting {
    /// The account of a thread whose goal was set when the totals stood at
    /// `initial_totals`.
    pub fn new(thread_id: &str, goal_id: &str, initial_totals: TokenTotals) -> (r: GoalAccounting)
        ensures
            r@ == (AccountingView {
                thread_id: thread_id@,
                baseline: Some((goal_id@, initial_totals)),
                since: None,
                reported: None,
            }),
    {
        GoalAccounting {
            thread_id: thread_id.to_owned(),
            token_baseline: Some((goal_id.to_owned(), initial_totals)),
            wall_clock_since: None,
            budget_reported_goal_id: None,
        }
    }

    /// The account of a thread that has no goal yet.
    pub fn new_unarmed(thread_id: &str) -> (r: GoalAccounting)
        ensures
            r@ == (AccountingView {
                thread_id: thread_id@,
                baseline: None,
                since: None,
                reported: None,
            }),
    {
        GoalAccounting {
            thread_id: thread_id.to_owned(),
            token_baseline: None,
            wall_clock_since: None,
            budget_reported_goal_id: None,
        }
    }

    /// The thread.
    pub fn thread_id(&self) -> (r: &str)
        ensures
            r@ == self@.thread_id,
    {
        self.thread_id.as_str()
    }

    /// Books usage up to `current`, and with `flush_clock` the time that ran.
    pub fn account_with(
        &mut self,
        store: &mut GoalStore,
        current: Option<TokenTotals>,
        mode: AccountingMode,
        flush_clock: bool,
        now: Clock,
    ) -> (r: Result<AccountingOutcome, GoalStoreError>)
        requires
            old(store).wf(),
        ensures
            final(store).wf(),
            final(self)@ == booked(old(self)@, old(store)@, current, mode, flush_clock, now).account,
            final(store)@ == booked(old(self)@, old(store)@, current, mode, flush_clock, now).store,
            outcome_is(
                r,
                booked(old(self)@, old(store)@, current, mode, flush_clock, now).outcome,
            ),
    {
        let goal: Goal = match store.read(self.thread_id.as_str()) {
            Some(g) => g,
            None => {
                self.token_baseline = None;
                return Ok(AccountingOutcome::Unchanged);
            },
        };
        let known: Option<(String, TokenTotals)> = self.token_baseline.take();
        let baseline: TokenTotals = match &known {
            Some((id, t)) => {
                if !text::same(id.as_str(), goal.goal_id.as_str()) {
                    let totals: TokenTotals = match current {
                        Some(c) => c,
                        None => TokenTotals::default(),
                    };
                    self.token_baseline = Some((goal.goal_id, totals));
                    return Ok(AccountingOutcome::Unchanged);
                }
                *t
            },
            None => match current {
                Some(c) => c,
                None => TokenTotals::default(),
            },
        };
        let delta_tokens: i64 = match current {
            Some(c) => goal_token_delta(baseline, c),
            None => 0,
        };
        let delta_seconds: i64 = if flush_clock {
            match self.wall_clock_since.take() {
                Some(since) => (now.mono_ns.saturating_sub(since) / 1_000_000_000) as i64,
                None => 0,
            }
        } else {
            0
        };
        let moved_on: TokenTotals = match current {
            Some(c) => c,
            None => baseline,
        };
        if delta_tokens == 0 && delta_seconds == 0 {
            self.token_baseline = Some((goal.goal_id, moved_on));
            return Ok(AccountingOutcome::Unchanged);
        }
        let outcome: Result<AccountingOutcome, GoalStoreError> = store.account_thread_goal_usage(
            self.thread_id.as_str(),
            goal.goal_id.as_str(),
            mode,
            delta_tokens,
            delta_seconds,
            now.wall_ms,
        );
        match outcome {
            Ok(AccountingOutcome::Updated { tokens_used, status }) => {
                self.token_baseline = Some((goal.goal_id, moved_on));
            },
            Ok(AccountingOutcome::Unchanged) => {
                self.token_baseline = Some((goal.goal_id, baseline));
            },
            Err(_) => {},
        }
        outcome
    }
}

/// What the report of an exhausted budget says after a booking with `outcome`,
/// if it is due: once for each goal.
pub open spec fn budget_steering(
    a: AccountingView,
    s: StoreView,
    outcome: AccountingOutcome,
) -> Option<Seq<char>> {
    if outcome matches AccountingOutcome::Updated { status, .. } && status
        == GoalStatus::BudgetLimited && s.rows.contains_key(a.thread_id) && a.reported != Some(
        s.rows[a.thread_id].goal_id,
    ) {
        Some(steering::budget_limit_text(s.resolved(s.rows[a.thread_id])))
    } else {
        None
    }
}

/// The account after the report, if it was due.
pub open spec fn after_budget_steering(
    a: AccountingView,
    s: StoreView,
    outcome: AccountingOutcome,
) -> AccountingView {
    if budget_steering(a, s, outcome) is Some {
        AccountingView { reported: Some(s.rows[a.thread_id].goal_id), ..a }
    } else {
        a
    }
}

/// The account at the start of a turn: for an active goal, usage counts from
/// nothing and time runs from `now`; without one, the account stays as it is.
pub open spec fn clock_started(a: AccountingView, s: StoreView, now: Clock) -> AccountingView {
    if s.rows.contains_key(a.thread_id) && s.rows[a.thread_id].status == GoalStatus::Active {
        AccountingView {
            baseline: Some((s.rows[a.thread_id].goal_id, zero_totals())),
            since: Some(now.mono_ns),
            ..a
        }
    } else {
        a
    }
}

impl GoalAccounting {
    /// Books progress within a turn.
    pub fn record_usage(&mut self, store: &mut GoalStore, current: TokenTotals, now: Clock) -> (r:
        Result<AccountingOutcome, GoalStoreError>)
        requires
            old(store).wf(),
        ensures
            final(store).wf(),
            ({
                let b = booked(
                    old(self)@,
                    old(store)@,
                    Some(current),
                    AccountingMode::ActiveStatusOnly,
                    false,
                    now,
                );
                &&& final(self)@ == b.account
                &&& final(store)@ == b.store
                &&& outcome_is(r, b.outcome)
            }),
    {
        self.account_with(store, Some(current), AccountingMode::ActiveStatusOnly, false, now)
    }

    /// Books what is left at the end of a turn, and its time.
    pub fn finish_turn(
        &mut self,
        store: &mut GoalStore,
        current: Option<TokenTotals>,
        now: Clock,
    ) -> (r: Result<AccountingOutcome, GoalStoreError>)
        requires
            old(store).wf(),
        ensures
            final(store).wf(),
            ({
                let b = booked(
                    old(self)@,
                    old(store)@,
                    current,
                    AccountingMode::ActiveOnly,
                    true,
                    now,
                );
                &&& final(self)@ == b.account
                &&& final(store)@ == b.store
                &&& outcome_is(r, b.outcome)
            }),
    {
        self.account_with(store, current, AccountingMode::ActiveOnly, true, now)
    }

    /// Books what is left when a turn fails or is stopped, and its time.
    pub fn stop_abnormal(
        &mut self,
        store: &mut GoalStore,
        current: Option<TokenTotals>,
        now: Clock,
    ) -> (r: Result<AccountingOutcome, GoalStoreError>)
        requires
            old(store).wf(),
        ensures
            final(store).wf(),
            ({
                let b = booked(
                    old(self)@,
                    old(store)@,
                    current,
                    AccountingMode::ActiveOrStopped,
                    true,
                    now,
                );
                &&& final(self)@ == b.account
                &&& final(store)@ == b.store
                &&& outcome_is(r, b.outcome)
            }),
    {
        self.account_with(store, current, AccountingMode::ActiveOrStopped, true, now)
    }

    /// Books the time that ran, and stops the clock.
    pub fn flush_wall_clock(&mut self, store: &mut GoalStore, mode: AccountingMode, now: Clock) -> (r:
        Result<AccountingOutcome, GoalStoreError>)
        requires
            old(store).wf(),
        ensures
            final(store).wf(),
            ({
                let b = booked(old(self)@, old(store)@, None, mode, true, now);
                &&& final(self)@ == b.account
                &&& final(store)@ == b.store
                &&& outcome_is(r, b.outcome)
            }),
    {
        self.account_with(store, None, mode, true, now)
    }

    /// The text that has the model wrap up, where a booking with `outcome`
    /// found the budget exhausted and this goal was not reported yet.
    pub fn take_budget_steering_if_flipped(
        &mut self,
        store: &GoalStore,
        outcome: &AccountingOutcome,
    ) -> (r: Option<String>)
        requires
            store.wf(),
        ensures
            text::opt_text(r) == budget_steering(old(self)@, store@, *outcome),
            final(self)@ == after_budget_steering(old(self)@, store@, *outcome),
    {
        match outcome {
            AccountingOutcome::Updated { tokens_used, status } => {
                if *status != GoalStatus::BudgetLimited {
                    return None;
                }
            },
            AccountingOutcome::Unchanged => {
                return None;
            },
        }
        let goal: Goal = match store.read(self.thread_id.as_str()) {
            Some(g) => g,
            None => {
                return None;
            },
        };
        match &self.budget_reported_goal_id {
            Some(id) => {
                if text::same(id.as_str(), goal.goal_id.as_str()) {
                    return None;
                }
            },
            None => {},
        }
        self.budget_reported_goal_id = Some(goal.goal_id.clone());
        let full: Goal = store.resolve_objective(goal);
        Some(steering::budget_limit(&full))
    }

    /// Starts the clock and counts usage from nothing, where the thread has an
    /// active goal; does nothing otherwise.
    pub fn start_wall_clock_if_active(&mut self, store: &GoalStore, now: Clock)
        requires
            store.wf(),
        ensures
            final(self)@ == clock_started(old(self)@, store@, now),
    {
        match store.read(self.thread_id.as_str()) {
            Some(goal) => {
                if goal.status == GoalStatus::Active {
                    self.token_baseline = Some((goal.goal_id, TokenTotals::default()));
                    self.wall_clock_since = Some(now.mono_ns);
                }
            },
            None => {},
        }
    }

    /// Forgets the totals and stops the clock.
    pub fn clear_baselines(&mut self)
        ensures
            final(self)@ == (AccountingView { baseline: None, since: None, ..old(self)@ }),
    {
        self.token_baseline = None;
        self.wall_clock_since = None;
    }

    /// Counts usage of a new goal from `initial_totals`, with the clock
    /// stopped.
    pub fn reset_baselines(&mut self, goal_id: &str, initial_totals: TokenTotals)
        ensures
            final(self)@ == (AccountingView {
                baseline: Some((goal_id@, initial_totals)),
                since: None,
                ..old(self)@
            }),
    {
        self.token_baseline = Some((goal_id.to_owned(), initial_totals));
        self.wall_clock_since = None;
    }

    /// The totals up to which usage is booked.
    pub fn token_baseline(&self) -> (r: Option<TokenTotals>)
        ensures
            r == match self@.baseline {
                Some(b) => Some(b.1),
                None => None,
            },
    {
        match &self.token_baseline {
            Some((_, t)) => Some(*t),
            None => None,
        }
    }

    /// The totals up to which usage is booked, or none at all.
    pub fn last_totals(&self) -> (r: TokenTotals)
        ensures
            r == match self@.baseline {
                Some(b) => b.1,
                None => zero_totals(),
            },
    {
        match &self.token_baseline {
            Some((_, t)) => *t,
            None => TokenTotals::default(),
        }
    }
}

/// Reporting the same totals again books nothing: once usage up to `c` is
/// booked, a second report of `c` leaves the table as it is.
pub proof fn law_same_totals_are_booked_once(
    a: AccountingView,
    s: StoreView,
    c: TokenTotals,
    mode: AccountingMode,
    again: AccountingMode,
    now: Clock,
    later: Clock,
)
    requires
        s.wf(),
        booked(a, s, Some(c), mode, false, now).outcome matches Ok(AccountingOutcome::Updated { .. }),
    ensures
        ({
            let first = booked(a, s, Some(c), mode, false, now);
            let second = booked(first.account, first.store, Some(c), again, false, later);
            &&& second.outcome == Ok::<AccountingOutcome, StoreErrorView>(AccountingOutcome::Unchanged)
            &&& second.store == first.store
            &&& second.account == first.account
        }),
{
    let first = booked(a, s, Some(c), mode, false, now);
    let second = booked(first.account, first.store, Some(c), again, false, later);
    assert(second.account =~= first.account);
}

/// Usage that the goal's status refuses is not lost: the table and the totals
/// stay as they were, so a later booking finds all of it.
pub proof fn law_refused_usage_is_kept(
    a: AccountingView,
    s: StoreView,
    c: TokenTotals,
    mode: AccountingMode,
    now: Clock,
)
    requires
        s.wf(),
        s.rows.contains_key(a.thread_id),
        a.baseline matches Some(b) && b.0 == s.rows[a.thread_id].goal_id && token_delta(b.1, c) > 0,
        !crate::types::mode_allows(mode, s.rows[a.thread_id].status),
    ensures
        booked(a, s, Some(c), mode, false, now).account == a,
        booked(a, s, Some(c), mode, false, now).store == s,
        booked(a, s, Some(c), mode, false, now).outcome == Ok::<AccountingOutcome, StoreErrorView>(
            AccountingOutcome::Unchanged,
        ),
{
    assert(booked(a, s, Some(c), mode, false, now).account =~= a);
}

/// Usage of a goal that was replaced never reaches the new one: the table stays
/// as it is, and the new goal's usage counts from the totals reported.
pub proof fn law_usage_of_replaced_goal_is_dropped(
    a: AccountingView,
    s: StoreView,
    c: TokenTotals,
    mode: AccountingMode,
    flush: bool,
    now: Clock,
)
    requires
        s.wf(),
        s.rows.contains_key(a.thread_id),
        a.baseline matches Some(b) && b.0 != s.rows[a.thread_id].goal_id,
    ensures
        booked(a, s, Some(c), mode, flush, now).store == s,
        booked(a, s, Some(c), mode, flush, now).account.baseline == Some(
            (s.rows[a.thread_id].goal_id, c),
        ),
{
}

/// Booking changes no goal but the thread's own, and of that one only what
/// booking changes: the goal itself and its objective stay.
pub proof fn law_booking_keeps_the_goal(
    a: AccountingView,
    s: StoreView,
    current: Option<TokenTotals>,
    mode: AccountingMode,
    flush: bool,
    now: Clock,
    u: Seq<char>,
)
    requires
        s.wf(),
    ensures
        ({
            let b = booked(a, s, current, mode, flush, now);
            &&& b.store.wf()
            &&& u != a.thread_id ==> b.store.goal(u) == s.goal(u)
            &&& b.store.rows.contains_key(a.thread_id) == s.rows.contains_key(a.thread_id)
            &&& s.rows.contains_key(a.thread_id) ==> {
                let g = s.rows[a.thread_id];
                let h = b.store.rows[a.thread_id];
                &&& h.goal_id == g.goal_id
                &&& h.objective == g.objective
                &&& h.tokens_used >= g.tokens_used
                &&& h.time_used_seconds >= g.time_used_seconds
                &&& h.iteration_count == g.iteration_count
                &&& (h.status == g.status || g.status == GoalStatus::Active && h.status
                    == GoalStatus::BudgetLimited)
            }
        }),
{
}

/// Time is booked once: a booking that reads the clock stops it, and until it is
/// started again no booking finds any time.
pub proof fn law_time_is_booked_once(
    a: AccountingView,
    s: StoreView,
    current: Option<TokenTotals>,
    mode: AccountingMode,
    again: AccountingMode,
    now: Clock,
    later: Clock,
)
    requires
        s.wf(),
        s.rows.contains_key(a.thread_id),
        a.baseline matches Some(b) ==> b.0 == s.rows[a.thread_id].goal_id,
    ensures
        ({
            let first = booked(a, s, current, mode, true, now);
            let second = booked(first.account, first.store, None, again, true, later);
            &&& first.account.since is None
            &&& second.store == first.store
        }),
{
}

/// An exhausted budget is reported once for each goal: after a report, no
/// outcome of another booking on the same goal brings a second one.
pub proof fn law_budget_is_reported_once(
    a: AccountingView,
    s: StoreView,
    outcome: AccountingOutcome,
    later: StoreView,
    again: AccountingOutcome,
)
    requires
        s.wf(),
        later.wf(),
        budget_steering(a, s, outcome) is Some,
        later.rows.contains_key(a.thread_id),
        later.rows[a.thread_id].goal_id == s.rows[a.thread_id].goal_id,
    ensures
        budget_steering(after_budget_steering(a, s, outcome), later, again) is None,
{
}

/// Totals that only grow are booked in full: the new input less what of it was
/// cached, and all of the new output. Each further output token is one more token
/// booked.
pub proof fn law_new_tokens_are_booked(last: TokenTotals, current: TokenTotals)
    requires
        last.input_tokens <= current.input_tokens,
        last.output_tokens <= current.output_tokens,
        last.cached_tokens <= current.cached_tokens,
        current.cached_tokens - last.cached_tokens <= current.input_tokens - last.input_tokens,
        (current.input_tokens - last.input_tokens) - (current.cached_tokens - last.cached_tokens) + (
        current.output_tokens - last.output_tokens) <= i64::MAX,
    ensures
        token_delta(last, current) == (current.input_tokens - last.input_tokens) - (
        current.cached_tokens - last.cached_tokens) + (current.output_tokens - last.output_tokens),
        current.output_tokens < u64::MAX && token_delta(last, current) < i64::MAX ==> token_delta(
            last,
            TokenTotals { output_tokens: (current.output_tokens + 1) as u64, ..current },
        ) == token_delta(last, current) + 1,
        current.input_tokens < u64::MAX && token_delta(last, current) < i64::MAX ==> token_delta(
            last,
            TokenTotals { input_tokens: (current.input_tokens + 1) as u64, ..current },
        ) == token_delta(last, current) + 1,
{
}

/// Each total counts by itself, and one that went back counts for nothing: without
/// new input only the output is booked, without new output only the input, and
/// without newly cached input all of the input. More than can be counted is booked
/// as the most that can.
pub proof fn law_totals_count_by_themselves(last: TokenTotals, current: TokenTotals)
    ensures
        ({
            let input = current.input_tokens - last.input_tokens;
            let cached = current.cached_tokens - last.cached_tokens;
            let output = current.output_tokens - last.output_tokens;
            let booked = token_delta(last, current);
            &&& (input <= 0 || cached >= input) && 0 <= output <= i64::MAX ==> booked == output
            &&& output <= 0 && 0 <= cached <= input && input - cached <= i64::MAX ==> booked == input
                - cached
            &&& cached <= 0 && input >= 0 && output >= 0 && input + output <= i64::MAX ==> booked
                == input + output
            &&& cached <= 0 && input >= 0 && output >= 0 && input + output > i64::MAX ==> booked
                == i64::MAX
            &&& 0 <= cached <= input && output >= 0 && input - cached + output > i64::MAX ==> booked
                == i64::MAX
            &&& input <= 0 && output <= 0 ==> booked == 0
        }),
{
}

/// Booking in two steps books as much as booking at once.
pub proof fn law_steps_add_up(a: TokenTotals, b: TokenTotals, c: TokenTotals)
    requires
        a.input_tokens <= b.input_tokens <= c.input_tokens,
        a.output_tokens <= b.output_tokens <= c.output_tokens,
        a.cached_tokens <= b.cached_tokens <= c.cached_tokens,
        b.cached_tokens - a.cached_tokens <= b.input_tokens - a.input_tokens,
        c.cached_tokens - b.cached_tokens <= c.input_tokens - b.input_tokens,
        c.input_tokens <= 0x3fff_ffff_ffff_ffff,
        c.output_tokens <= 0x3fff_ffff_ffff_ffff,
    ensures
        token_delta(a, c) == token_delta(a, b) + token_delta(b, c),
{
}

/// Seconds are whole ones that have passed, and none where the clock went back.
pub proof fn law_whole_seconds_are_booked(since: u64, now: u64)
    ensures
        since <= now ==> elapsed_secs(since, now) * 1_000_000_000 <= now - since < (elapsed_secs(
            since,
            now,
        ) + 1) * 1_000_000_000,
        now < since ==> elapsed_secs(since, now) == 0,
{
}

/// What a booking leaves in the row of an active goal that the account knows: the
/// new tokens and, where the clock is read, the seconds since it was started are
/// added, and the goal is budget-limited exactly when it has then used its budget.
/// From there on usage counts from the totals that were reported.
pub proof fn law_usage_shows_in_the_row(
    a: AccountingView,
    s: StoreView,
    base: TokenTotals,
    c: TokenTotals,
    mode: AccountingMode,
    flush: bool,
    now: Clock,
)
    requires
        s.wf(),
        s.rows.contains_key(a.thread_id),
        s.rows[a.thread_id].status == GoalStatus::Active,
        a.baseline == Some((s.rows[a.thread_id].goal_id, base)),
        base.input_tokens <= c.input_tokens,
        base.output_tokens <= c.output_tokens,
        base.cached_tokens <= c.cached_tokens,
        c.cached_tokens - base.cached_tokens <= c.input_tokens - base.input_tokens,
        c.input_tokens <= 0x1fff_ffff_ffff_ffff,
        c.output_tokens <= 0x1fff_ffff_ffff_ffff,
        s.rows[a.thread_id].tokens_used <= 0x1fff_ffff_ffff_ffff,
        s.rows[a.thread_id].time_used_seconds <= 0x1fff_ffff_ffff_ffff,
        a.since matches Some(t) ==> t <= now.mono_ns,
    ensures
        ({
            let g = s.rows[a.thread_id];
            let b = booked(a, s, Some(c), mode, flush, now);
            let h = b.store.rows[a.thread_id];
            let tokens = (c.input_tokens - base.input_tokens) - (c.cached_tokens
                - base.cached_tokens) + (c.output_tokens - base.output_tokens);
            let seconds = if flush && a.since is Some {
                (now.mono_ns - a.since->0) / 1_000_000_000
            } else {
                0
            };
            &&& b.store.rows.contains_key(a.thread_id)
            &&& h.tokens_used == g.tokens_used + tokens
            &&& h.time_used_seconds == g.time_used_seconds + seconds
            &&& tokens > 0 || seconds > 0 ==> {
                &&& (h.status == GoalStatus::BudgetLimited <==> (g.token_budget matches Some(limit)
                    && limit <= h.tokens_used))
                &&& h.updated_at_ms == now.wall_ms
                &&& b.outcome == Ok::<AccountingOutcome, StoreErrorView>(
                    AccountingOutcome::Updated { tokens_used: h.tokens_used, status: h.status },
                )
            }
            &&& tokens == 0 && seconds == 0 ==> h == g && b.outcome == Ok::<
                AccountingOutcome,
                StoreErrorView,
            >(AccountingOutcome::Unchanged)
            &&& h.status == g.status || h.status == GoalStatus::BudgetLimited
            &&& h.goal_id == g.goal_id && h.objective == g.objective && h.token_budget
                == g.token_budget && h.verify_command == g.verify_command && h.created_at_ms
                == g.created_at_ms && h.objective_revision == g.objective_revision
                && h.iteration_count == g.iteration_count
            &&& b.store.deferred == s.deferred
            &&& b.account.baseline == Some((g.goal_id, c))
            &&& b.account.since == if flush {
                None
            } else {
                a.since
            }
            &&& b.account.thread_id == a.thread_id
            &&& b.account.reported == a.reported
        }),
{
    law_new_tokens_are_booked(base, c);
}

/// An account that has no totals yet books no tokens: usage counts from the totals
/// that it is first told of.
pub proof fn law_first_totals_only_begin(
    a: AccountingView,
    s: StoreView,
    c: TokenTotals,
    mode: AccountingMode,
    now: Clock,
)
    requires
        s.wf(),
        s.rows.contains_key(a.thread_id),
        a.baseline is None,
    ensures
        booked(a, s, Some(c), mode, false, now).store == s,
        booked(a, s, Some(c), mode, false, now).account.baseline == Some(
            (s.rows[a.thread_id].goal_id, c),
        ),
{
}

/// At the start of a turn of an active goal the clock is started and tokens count
/// from nothing; otherwise nothing is touched, and nothing else ever is.
pub proof fn law_turn_starts_the_clock(a: AccountingView, s: StoreView, now: Clock)
    ensures
        ({
            let b = clock_started(a, s, now);
            &&& b.thread_id == a.thread_id
            &&& b.reported == a.reported
            &&& s.rows.contains_key(a.thread_id) && s.rows[a.thread_id].status is Active ==> {
                &&& b.since == Some(now.mono_ns)
                &&& b.baseline matches Some((id, t)) && id == s.rows[a.thread_id].goal_id
                    && t.input_tokens == 0 && t.output_tokens == 0 && t.cached_tokens == 0
            }
            &&& !(s.rows.contains_key(a.thread_id) && s.rows[a.thread_id].status is Active) ==> b == a
        }),
{
}

/// A model is told to wrap up exactly when a booking left its goal budget-limited
/// and it was not told so of this goal before.
pub proof fn law_exhausted_budget_is_told(
    a: AccountingView,
    s: StoreView,
    used: i64,
    status: GoalStatus,
)
    requires
        s.rows.contains_key(a.thread_id),
    ensures
        ({
            let id = s.rows[a.thread_id].goal_id;
            let outcome = AccountingOutcome::Updated { tokens_used: used, status };
            &&& budget_steering(a, s, outcome) is Some <==> status == GoalStatus::BudgetLimited
                && a.reported != Some(id)
            &&& budget_steering(a, s, outcome) is Some ==> after_budget_steering(
                a,
                s,
                outcome,
            ).reported == Some(id)
            &&& budget_steering(a, s, AccountingOutcome::Unchanged) is None
            &&& after_budget_steering(a, s, outcome).baseline == a.baseline
            &&& after_budget_steering(a, s, outcome).since == a.since
        }),
{
}

} // verus!
