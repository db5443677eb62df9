use vstd::prelude::*;

verus! {

/// One analog surface of the handheld controller, named abstractly.
/// Raw axis codes that do not belong to the layout fold into `Unknown`.
#[derive(Debug, Clone, Copy, Hash, Eq, PartialEq, Structural)]
pub enum Axis {
    LeftTrigger,
    RightTrigger,
    LeftJoystickX,
    LeftJoystickY,
    RightJoystickX,
    RightJoystickY,
    LeftTrackpadX,
    LeftTrackpadY,
    RightTrackpadX,
    RightTrackpadY,
    Unknown,
}

/// Number of `Axis` variants; the axis history holds exactly one cell per variant.
pub const AXIS_COUNT: usize = 11;

/// The semantic axis a raw absolute-axis code denotes; every unrecognized code is `Unknown`.
pub open spec fn axis_of_code(code: u16) -> Axis {
    if code == 0x00 {
        Axis::LeftJoystickX
    } else if code == 0x01 {
        Axis::LeftJoystickY
    } else if code == 0x03 {
        Axis::RightJoystickX
    } else if code == 0x04 {
        Axis::RightJoystickY
    } else if code == 0x10 {
        Axis::LeftTrackpadX
    } else if code == 0x11 {
        Axis::LeftTrackpadY
    } else if code == 0x12 {
        Axis::RightTrackpadX
    } else if code == 0x13 {
        Axis::RightTrackpadY
    } else if code == 0x15 {
        Axis::LeftTrigger
    } else if code == 0x14 {
        Axis::RightTrigger
    } else {
        Axis::Unknown
    }
}

/// The dense index of an axis into the history vector.
pub open spec fn axis_index_spec(a: Axis) -> int {
    match a {
        Axis::LeftTrigger => 0,
        Axis::RightTrigger => 1,
        Axis::LeftJoystickX => 2,
        Axis::LeftJoystickY => 3,
        Axis::RightJoystickX => 4,
        Axis::RightJoystickY => 5,
        Axis::LeftTrackpadX => 6,
        Axis::LeftTrackpadY => 7,
        Axis::RightTrackpadX => 8,
        Axis::RightTrackpadY => 9,
        Axis::Unknown => 10,
    }
}

impl Axis {
    /// Total translation of a raw absolute-axis code into its semantic axis.
    pub fn from_code(code: u16) -> (r: Axis)
        ensures
            r == axis_of_code(code),
    {
        match code {
            0x00 => Axis::LeftJoystickX,
            0x01 => Axis::LeftJoystickY,
            0x03 => Axis::RightJoystickX,
            0x04 => Axis::RightJoystickY,
            0x10 => Axis::LeftTrackpadX,
            0x11 => Axis::LeftTrackpadY,
            0x12 => Axis::RightTrackpadX,
            0x13 => Axis::RightTrackpadY,
            0x15 => Axis::LeftTrigger,
            0x14 => Axis::RightTrigger,
            _ => Axis::Unknown,
        }
    }

    /// The dense index of this axis, always below `AXIS_COUNT`.
    pub fn index(self) -> (r: usize)
        ensures
            r == axis_index_spec(self),
            r < AXIS_COUNT,
    {
        match self {
            Axis::LeftTrigger => 0,
            Axis::RightTrigger => 1,
            Axis::LeftJoystickX => 2,
            Axis::LeftJoystickY => 3,
            Axis::RightJoystickX => 4,
            Axis::RightJoystickY => 5,
            Axis::LeftTrackpadX => 6,
            Axis::LeftTrackpadY => 7,
            Axis::RightTrackpadX => 8,
            Axis::RightTrackpadY => 9,
            Axis::Unknown => 10,
        }
    }
}

} // verus!
