//! The repeat modes of the time-based value animation.

use vstd::prelude::*;

verus! {

/// How a tween behaves once its duration has elapsed.
#[derive(Clone, Copy, Debug, PartialEq, Eq)]
pub enum Repeat {
    /// Travel to the target and stay there.
    Once,
    /// Jump back to the start and travel again.
    Loop,
    /// Travel to the target, then back to the start, forever.
    PingPong,
}

} // verus!
