use vstd::prelude::*;
use crate::text::{lower_chars, normalized, str_eq, trim_chars};

verus! {

/// An operator's yes/no answer at a confirmation gate.
#[derive(PartialEq, Eq, Structural, Clone, Copy, Debug)]
pub enum Decision {
    Yes,
    No,
}

/// Whether a line of operator input counts as an affirmative answer: its
/// trimmed, lowercased form is exactly `y`.
pub open spec fn spec_decision(s: Seq<char>) -> Decision {
    if lower_chars(trim_chars(s)) == "y"@ {
        Decision::Yes
    } else {
        Decision::No
    }
}

/// The decision denoted by a line of operator input.
pub fn decision_from_input(s: &str) -> (r: Decision)
    ensures
        r == spec_decision(s@),
{
    let n = normalized(s);
    if str_eq(n.as_str(), "y") {
        Decision::Yes
    } else {
        Decision::No
    }
}

} // verus!
