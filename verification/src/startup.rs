//! The startup decision: exactly one positional argument — a duration
//! string — starts a countdown; anything else, a wrong argument count as
//! much as a string the grammar rejects or a value that does not fit, is a
//! usage error. The driver prints the usage text and exits with
//! `USAGE_STATUS` without touching the terminal surface.

use vstd::prelude::*;
use crate::duration::{parse_duration, spec_duration};

verus! {

/// The exit status of an invocation rejected before the countdown starts.
pub const USAGE_STATUS: i32 = 2;

/// What startup decided: run a countdown over so many seconds, or report
/// usage and exit.
#[derive(Clone, Copy, PartialEq, Eq, Structural, Debug)]
pub enum StartAction {
    Run(u64),
    Usage,
}

/// The decision as a function of the argument list: one argument that
/// denotes a duration fitting a `u64` runs; every other list is a usage
/// error.
pub open spec fn spec_plan_start(args: Seq<Seq<char>>) -> StartAction {
    if args.len() != 1 {
        StartAction::Usage
    } else {
        match spec_duration(args[0]) {
            Some(n) => if n <= u64::MAX {
                StartAction::Run(n as u64)
            } else {
                StartAction::Usage
            },
            None => StartAction::Usage,
        }
    }
}

/// Decide what to do with the command-line arguments (the program name
/// already stripped).
pub fn plan_start(args: &Vec<String>) -> (r: StartAction)
    ensures
        r == spec_plan_start(args.deep_view()),
{
    if args.len() != 1 {
        StartAction::Usage
    } else {
        proof {
            assert(args.deep_view()[0] == args@[0]@);
        }
        match parse_duration(args[0].as_str()) {
            Ok(v) => StartAction::Run(v),
            Err(_) => StartAction::Usage,
        }
    }
}

/// Argument validation: any invocation with zero or with two or more
/// arguments is refused outright, whatever the arguments hold.
pub proof fn lemma_arg_count(args: Seq<Seq<char>>)
    requires
        args.len() != 1,
    ensures
        spec_plan_start(args) == StartAction::Usage,
{
}

} // verus!
