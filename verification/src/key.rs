use vstd::prelude::*;

verus! {

/// One physical button of the handheld controller, named abstractly.
/// Raw hardware codes that do not belong to the layout fold into `Unknown`.
#[derive(Debug, Clone, Copy, Hash, Eq, PartialEq, Structural)]
pub enum SteamDeckKey {
    X,
    Y,
    A,
    B,
    Up,
    Right,
    Down,
    Left,
    LeftTrackpad,
    RightTrackpad,
    LeftStick,
    RightStick,
    L1,
    L2,
    L3,
    L4,
    R1,
    R2,
    R3,
    R4,
    Select,
    Start,
    Steam,
    Dots,
    Unknown,
}

/// The semantic key a raw button code denotes; every unrecognized code is `Unknown`.
pub open spec fn key_of_code(code: u16) -> SteamDeckKey {
    if code == 0x133 {
        SteamDeckKey::X
    } else if code == 0x134 {
        SteamDeckKey::Y
    } else if code == 0x130 {
        SteamDeckKey::A
    } else if code == 0x131 {
        SteamDeckKey::B
    } else if code == 0x220 {
        SteamDeckKey::Up
    } else if code == 0x223 {
        SteamDeckKey::Right
    } else if code == 0x221 {
        SteamDeckKey::Down
    } else if code == 0x222 {
        SteamDeckKey::Left
    } else if code == 0x121 {
        SteamDeckKey::LeftTrackpad
    } else if code == 0x122 {
        SteamDeckKey::RightTrackpad
    } else if code == 0x13d {
        SteamDeckKey::LeftStick
    } else if code == 0x13e {
        SteamDeckKey::RightStick
    } else if code == 0x136 {
        SteamDeckKey::L1
    } else if code == 0x138 {
        SteamDeckKey::L2
    } else if code == 0x2c0 {
        SteamDeckKey::L3
    } else if code == 0x2c2 {
        SteamDeckKey::L4
    } else if code == 0x137 {
        SteamDeckKey::R1
    } else if code == 0x139 {
        SteamDeckKey::R2
    } else if code == 0x2c1 {
        SteamDeckKey::R3
    } else if code == 0x2c3 {
        SteamDeckKey::R4
    } else if code == 0x13a {
        SteamDeckKey::Select
    } else if code == 0x13b {
        SteamDeckKey::Start
    } else if code == 0x13c {
        SteamDeckKey::Steam
    } else if code == 0x126 {
        SteamDeckKey::Dots
    } else {
        SteamDeckKey::Unknown
    }
}

impl SteamDeckKey {
    /// Total translation of a raw button code into its semantic key.
    pub fn from_code(code: u16) -> (r: SteamDeckKey)
        ensures
            r == key_of_code(code),
    {
        match code {
            0x133 => SteamDeckKey::X,
            0x134 => SteamDeckKey::Y,
            0x130 => SteamDeckKey::A,
            0x131 => SteamDeckKey::B,
            0x220 => SteamDeckKey::Up,
            0x223 => SteamDeckKey::Right,
            0x221 => SteamDeckKey::Down,
            0x222 => SteamDeckKey::Left,
            0x121 => SteamDeckKey::LeftTrackpad,
            0x122 => SteamDeckKey::RightTrackpad,
            0x13d => SteamDeckKey::LeftStick,
            0x13e => SteamDeckKey::RightStick,
            0x136 => SteamDeckKey::L1,
            0x138 => SteamDeckKey::L2,
            0x2c0 => SteamDeckKey::L3,
            0x2c2 => SteamDeckKey::L4,
            0x137 => SteamDeckKey::R1,
            0x139 => SteamDeckKey::R2,
            0x2c1 => SteamDeckKey::R3,
            0x2c3 => SteamDeckKey::R4,
            0x13a => SteamDeckKey::Select,
            0x13b => SteamDeckKey::Start,
            0x13c => SteamDeckKey::Steam,
            0x126 => SteamDeckKey::Dots,
            _ => SteamDeckKey::Unknown,
        }
    }
}

} // verus!
