//! The controls the simulation asks about once per step.
use vstd::prelude::*;

verus! {

/// The state of every control for one step. A host polls its input devices
/// and fills this in; the simulation itself never reads a device.
#[derive(Clone, Copy, Debug, PartialEq, Eq, Structural)]
pub struct Controls {
    /// The shoot control is held, or was pressed since the last step.
    pub shoot: bool,
    /// The shield control is held.
    pub shield: bool,
    /// The reverse-boost control is held.
    pub reverse_boost: bool,
    /// The slow-time control is held.
    pub slowmo: bool,
    /// The missile control was pressed since the last step.
    pub missile: bool,
    /// The laser control was pressed since the last step.
    pub laser: bool,
    /// The turn-left control is held.
    pub left: bool,
    /// The turn-right control is held.
    pub right: bool,
    /// The thrust-forward control is held.
    pub up: bool,
    /// The thrust-backward control is held.
    pub down: bool,
}

impl Controls {
    /// No control is active.
    pub fn idle() -> (c: Controls)
        ensures
            c == (Controls {
                shoot: false,
                shield: false,
                reverse_boost: false,
                slowmo: false,
                missile: false,
                laser: false,
                left: false,
                right: false,
                up: false,
                down: false,
            }),
    {
        Controls {
            shoot: false,
            shield: false,
            reverse_boost: false,
            slowmo: false,
            missile: false,
            laser: false,
            left: false,
            right: false,
            up: false,
            down: false,
        }
    }
}

} // verus!
