//! `/goal` commands where users drive every turn themselves.

use crate::commands::GoalSubcommand;
use crate::receipts;
use crate::receipts::Receipt;
use crate::service::{Env, GoalService};
use vstd::prelude::*;
use vstd::string::*;

verus! {

/// What a new budget leaves as it was.
pub const KEPT: &'static str = "tokens used kept";

/// Carries a `/goal` command out, and says what to print.
pub fn run_goal_subcommand(
    service: &mut GoalService,
    subcommand: &GoalSubcommand,
    thread_id: &str,
    goal_id: &str,
    env: Env,
) -> (r: String)
    requires
        old(service).wf(),
    ensures
        final(service).wf(),
        final(service)@ == receipts::after_command(
            old(service)@,
            thread_id@,
            subcommand@,
            goal_id@,
            env,
            true,
        ),
        r@ == receipts::receipt(
            old(service)@,
            thread_id@,
            subcommand@,
            KEPT@,
            goal_id@,
            env,
            true,
        ),
{
    let done: Receipt = receipts::carry_out(
        service,
        thread_id,
        subcommand,
        KEPT,
        goal_id,
        env,
        true,
    );
    done.text
}

} // verus!
