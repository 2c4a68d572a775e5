//! The rule for control stream files.

use vstd::prelude::*;

verus! {

/// The rule for control stream files.
pub struct ControlStreamRule;

impl ControlStreamRule {
    /// The rule.
    pub fn new() -> ControlStreamRule {
        ControlStreamRule
    }
}

/// Runs the rule on the file at `_path`. The rule passes every file.
pub fn run_control_stream_rule(_path: &str) -> (r: Result<(), String>)
    ensures
        r is Ok,
{
    Ok(())
}

} // verus!
