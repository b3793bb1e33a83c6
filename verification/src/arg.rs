use vstd::prelude::*;
use crate::text::{lower_chars, normalized, str_eq, trim_chars};

verus! {

/// The action named by the command line's first token.
#[derive(PartialEq, Eq, Structural, Clone, Copy, Debug)]
pub enum Arg {
    Unknown,
    Add,
    Remove,
    List,
    Help,
}

/// The action a token denotes: short or full form, case-insensitive, with
/// surrounding whitespace ignored.
pub open spec fn spec_arg_of(s: Seq<char>) -> Arg {
    let t = lower_chars(trim_chars(s));
    if t == "a"@ || t == "add"@ {
        Arg::Add
    } else if t == "r"@ || t == "remove"@ {
        Arg::Remove
    } else if t == "l"@ || t == "list"@ {
        Arg::List
    } else if t == "h"@ || t == "help"@ {
        Arg::Help
    } else {
        Arg::Unknown
    }
}

impl Arg {
    /// Parses the command line's action token.
    pub fn from_str(s: &str) -> (r: Arg)
        ensures
            r == spec_arg_of(s@),
    {
        let n = normalized(s);
        let t = n.as_str();
        if str_eq(t, "a") || str_eq(t, "add") {
            Arg::Add
        } else if str_eq(t, "r") || str_eq(t, "remove") {
            Arg::Remove
        } else if str_eq(t, "l") || str_eq(t, "list") {
            Arg::List
        } else if str_eq(t, "h") || str_eq(t, "help") {
            Arg::Help
        } else {
            Arg::Unknown
        }
    }
}

} // verus!
