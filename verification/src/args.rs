//! The settings of an evaluation.

use vstd::prelude::*;

verus! {

/// How an expression is evaluated and shown.
#[derive(Debug, Clone, Copy)]
pub struct Args {
    /// Show the identity after each variable name.
    pub unique_id: bool,
    /// The largest number of steps to take.
    pub trace: usize,
    /// Show the term after each step.
    pub print_step: bool,
}

impl Default for Args {
    /// Ten steps at most, no identities shown, no steps shown.
    fn default() -> (r: Self)
        ensures
            r.unique_id == false,
            r.trace == 10,
            r.print_step == false,
    {
        Args { unique_id: false, trace: 10, print_step: false }
    }
}

} // verus!
