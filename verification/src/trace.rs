//! Trace events: what a traced rule reports when it is entered and left.

use vstd::prelude::*;

verus! {

/// A notification from one attempt at a traced rule.
#[derive(Clone, Copy, Debug, PartialEq, Eq, Structural)]
pub enum TraceEvent {
    /// The rule with index `rule` is attempted at `pos`.
    Enter { rule: usize, pos: usize },
    /// The attempt is over. On a match `pos` is the end of the match;
    /// otherwise it is the position at which the attempt began.
    Exit { rule: usize, pos: usize, matched: bool },
}

} // verus!
