//! Vertical synchronisation modes and the order in which they degrade.

use vstd::prelude::*;

verus! {

/// How buffer swaps are synchronised with the display's refresh.
#[derive(Clone, Copy, Debug, PartialEq, Eq, Structural)]
pub enum Vsync {
    /// Swap immediately.
    Disabled,
    /// Swap on the vertical retrace.
    Enabled,
    /// Swap on the retrace unless the frame is late, then swap immediately.
    Adaptive,
}

impl Vsync {
    /// The swap interval that a windowing backend understands for this mode.
    pub open spec fn interval(self) -> int {
        match self {
            Vsync::Disabled => 0,
            Vsync::Enabled => 1,
            Vsync::Adaptive => -1,
        }
    }

    /// The mode to try when the backend refuses this one, if any is left.
    pub open spec fn next(self) -> Option<Vsync> {
        match self {
            Vsync::Adaptive => Some(Vsync::Enabled),
            Vsync::Enabled => Some(Vsync::Disabled),
            Vsync::Disabled => None,
        }
    }

    /// How many fallbacks a mode has ahead of it.
    pub open spec fn rank(self) -> nat {
        match self {
            Vsync::Adaptive => 2,
            Vsync::Enabled => 1,
            Vsync::Disabled => 0,
        }
    }

    /// The swap interval that a windowing backend understands for this
    /// mode.
    pub fn swap_interval(self) -> (r: i32)
        ensures
            r == self.interval(),
    {
        match self {
            Vsync::Disabled => 0,
            Vsync::Enabled => 1,
            Vsync::Adaptive => -1,
        }
    }

    /// The mode to try when the backend refuses this one: adaptive falls
    /// back to enabled, enabled to disabled, and after disabled nothing is
    /// left to try. Each fallback has fewer ahead of it, so the trying
    /// ends.
    pub fn fallback(self) -> (r: Option<Vsync>)
        ensures
            r == self.next(),
            r matches Some(next) ==> next.rank() + 1 == self.rank(),
            r is None <==> self == Vsync::Disabled,
    {
        match self {
            Vsync::Adaptive => Some(Vsync::Enabled),
            Vsync::Enabled => Some(Vsync::Disabled),
            Vsync::Disabled => None,
        }
    }
}

} // verus!
