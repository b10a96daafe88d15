//! Squeeze detection: collapsing runs of identical rows.

use vstd::prelude::*;

verus! {

/// The squeeze detector's state, carried from row to row.
///
/// * `NotSqueezing`: the previous row (if any) was rendered normally.
/// * `PendingMarker`: the current run of duplicate rows has suppressed one
///   row, but no marker line has been written yet.
/// * `Squeezing`: the marker line for the current run has been written;
///   further duplicate rows are suppressed silently.
#[derive(Clone, Copy, Debug, PartialEq, Eq, Structural)]
pub enum SqueezeState {
    NotSqueezing,
    PendingMarker,
    Squeezing,
}

/// One transition of the squeeze detector.
///
/// `duplicate` holds exactly when squeezing is enabled and the incoming row
/// is a full 16-byte row identical to the immediately preceding full row.
/// The result is `(next_state, visible, emit_marker)`: whether the row is
/// rendered, and whether a marker line is written in its place. A
/// non-duplicate row always resets the state and is always visible, so a
/// disabled detector is a total bypass.
pub open spec fn squeeze_step(st: SqueezeState, duplicate: bool) -> (SqueezeState, bool, bool) {
    if !duplicate {
        (SqueezeState::NotSqueezing, true, false)
    } else {
        match st {
            SqueezeState::NotSqueezing => (SqueezeState::PendingMarker, false, false),
            SqueezeState::PendingMarker => (SqueezeState::Squeezing, false, true),
            SqueezeState::Squeezing => (SqueezeState::Squeezing, false, false),
        }
    }
}

/// Decide the fate of one row: the next state, whether the row is rendered,
/// and whether a marker line is written instead.
pub fn squeeze_decide(st: SqueezeState, duplicate: bool) -> (r: (SqueezeState, bool, bool))
    ensures
        r == squeeze_step(st, duplicate),
{
    if !duplicate {
        (SqueezeState::NotSqueezing, true, false)
    } else {
        match st {
            SqueezeState::NotSqueezing => (SqueezeState::PendingMarker, false, false),
            SqueezeState::PendingMarker => (SqueezeState::Squeezing, false, true),
            SqueezeState::Squeezing => (SqueezeState::Squeezing, false, false),
        }
    }
}

} // verus!
