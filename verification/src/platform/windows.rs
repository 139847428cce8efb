//! Windows-specific computations: priority classes and I/O priority hints.

use vstd::prelude::*;
use crate::model::IoClass;

verus! {

/// `REALTIME_PRIORITY_CLASS`.
pub const REALTIME_PRIORITY_CLASS: u32 = 0x100;

/// `HIGH_PRIORITY_CLASS`.
pub const HIGH_PRIORITY_CLASS: u32 = 0x80;

/// `ABOVE_NORMAL_PRIORITY_CLASS`.
pub const ABOVE_NORMAL_PRIORITY_CLASS: u32 = 0x8000;

/// `NORMAL_PRIORITY_CLASS`.
pub const NORMAL_PRIORITY_CLASS: u32 = 0x20;

/// `BELOW_NORMAL_PRIORITY_CLASS`.
pub const BELOW_NORMAL_PRIORITY_CLASS: u32 = 0x4000;

/// `IDLE_PRIORITY_CLASS`.
pub const IDLE_PRIORITY_CLASS: u32 = 0x40;

/// `nice` clamped to the nice range `[-20, 19]`.
pub open spec fn clamp_nice(nice: int) -> int {
    if nice < -20 {
        -20
    } else if nice > 19 {
        19
    } else {
        nice
    }
}

/// The Windows priority class for a nice value: after clamping to
/// `[-20, 19]`, `-20..=-16` is realtime, `-15..=-9` high, `-8..=-1` above
/// normal, `0..=4` normal, `5..=10` below normal and `11..=19` idle.
pub open spec fn windows_priority_of(nice: int) -> u32 {
    let n = clamp_nice(nice);
    if n <= -16 {
        REALTIME_PRIORITY_CLASS
    } else if n <= -9 {
        HIGH_PRIORITY_CLASS
    } else if n <= -1 {
        ABOVE_NORMAL_PRIORITY_CLASS
    } else if n <= 4 {
        NORMAL_PRIORITY_CLASS
    } else if n <= 10 {
        BELOW_NORMAL_PRIORITY_CLASS
    } else {
        IDLE_PRIORITY_CLASS
    }
}

/// The Windows priority class that stands for a nice value.
pub fn nice_to_windows_priority(nice: i32) -> (class: u32)
    ensures
        class == windows_priority_of(nice as int),
{
    let n = if nice < -20 {
        -20
    } else if nice > 19 {
        19
    } else {
        nice
    };
    if n <= -16 {
        REALTIME_PRIORITY_CLASS
    } else if n <= -9 {
        HIGH_PRIORITY_CLASS
    } else if n <= -1 {
        ABOVE_NORMAL_PRIORITY_CLASS
    } else if n <= 4 {
        NORMAL_PRIORITY_CLASS
    } else if n <= 10 {
        BELOW_NORMAL_PRIORITY_CLASS
    } else {
        IDLE_PRIORITY_CLASS
    }
}

/// The rank of a Windows priority class, from idle (0) to realtime (5).
pub open spec fn priority_rank(class: u32) -> int {
    if class == REALTIME_PRIORITY_CLASS {
        5
    } else if class == HIGH_PRIORITY_CLASS {
        4
    } else if class == ABOVE_NORMAL_PRIORITY_CLASS {
        3
    } else if class == NORMAL_PRIORITY_CLASS {
        2
    } else if class == BELOW_NORMAL_PRIORITY_CLASS {
        1
    } else {
        0
    }
}

/// Nice values outside `[-20, 19]` map as the nearest end of the range does,
/// and a lower nice value never gets a lower priority class.
pub proof fn law_windows_priority_clamped_and_monotone(a: int, b: int)
    ensures
        windows_priority_of(a) == windows_priority_of(clamp_nice(a)),
        a <= b ==> priority_rank(windows_priority_of(a)) >= priority_rank(windows_priority_of(b)),
{
}

/// The Windows I/O priority hints.
#[derive(Debug, Clone, Copy, PartialEq, Eq, Structural)]
pub enum IoPriorityHint {
    /// Background I/O.
    VeryLow,
    /// Low.
    Low,
    /// The Windows default.
    Normal,
    /// High.
    High,
}

impl IoPriorityHint {
    /// The numeric value that `NtSetInformationProcess` takes.
    pub open spec fn spec_value(self) -> u32 {
        match self {
            IoPriorityHint::VeryLow => 0,
            IoPriorityHint::Low => 1,
            IoPriorityHint::Normal => 2,
            IoPriorityHint::High => 3,
        }
    }

    /// The numeric value that `NtSetInformationProcess` takes.
    pub fn value(self) -> (v: u32)
        ensures
            v == self.spec_value(),
    {
        match self {
            IoPriorityHint::VeryLow => 0,
            IoPriorityHint::Low => 1,
            IoPriorityHint::Normal => 2,
            IoPriorityHint::High => 3,
        }
    }
}

/// The Windows I/O priority hint for an I/O class: realtime is high, best
/// effort normal, idle very low. Windows has no levels within a hint.
pub fn io_priority_hint(class: IoClass) -> (hint: IoPriorityHint)
    ensures
        hint == match class {
            IoClass::Realtime => IoPriorityHint::High,
            IoClass::BestEffort => IoPriorityHint::Normal,
            IoClass::Idle => IoPriorityHint::VeryLow,
        },
{
    match class {
        IoClass::Realtime => IoPriorityHint::High,
        IoClass::BestEffort => IoPriorityHint::Normal,
        IoClass::Idle => IoPriorityHint::VeryLow,
    }
}

} // verus!
