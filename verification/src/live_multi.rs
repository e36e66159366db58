//! Settings of the live multi-pane terminal.

use vstd::prelude::*;

verus! {

/// Policy for what to drop when a pane's output buffer fills.
///
/// The default, `DropNewest`, discards bytes that arrive faster than the UI
/// drains them and marks the truncation point, keeping the head of the
/// output (where build and log streams keep their first error).
/// `DropOldest` suits live-tail use.
#[derive(Clone, Copy, Debug, PartialEq, Eq, Structural)]
pub enum OverflowPolicy {
    DropNewest,
    DropOldest,
}

impl Default for OverflowPolicy {
    fn default() -> (p: Self)
        ensures
            p == OverflowPolicy::DropNewest,
    {
        OverflowPolicy::DropNewest
    }
}

} // verus!
