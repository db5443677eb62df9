use deck_remap::axis::Axis;
use deck_remap::key::SteamDeckKey;

#[test]
fn face_buttons_translate() {
    assert_eq!(SteamDeckKey::from_code(0x133), SteamDeckKey::X);
    assert_eq!(SteamDeckKey::from_code(0x134), SteamDeckKey::Y);
    assert_eq!(SteamDeckKey::from_code(0x130), SteamDeckKey::A);
    assert_eq!(SteamDeckKey::from_code(0x131), SteamDeckKey::B);
}

#[test]
fn dpad_and_menu_buttons_translate() {
    assert_eq!(SteamDeckKey::from_code(0x220), SteamDeckKey::Up);
    assert_eq!(SteamDeckKey::from_code(0x223), SteamDeckKey::Right);
    assert_eq!(SteamDeckKey::from_code(0x221), SteamDeckKey::Down);
    assert_eq!(SteamDeckKey::from_code(0x222), SteamDeckKey::Left);
    assert_eq!(SteamDeckKey::from_code(0x13a), SteamDeckKey::Select);
    assert_eq!(SteamDeckKey::from_code(0x13b), SteamDeckKey::Start);
    assert_eq!(SteamDeckKey::from_code(0x13c), SteamDeckKey::Steam);
    assert_eq!(SteamDeckKey::from_code(0x126), SteamDeckKey::Dots);
}

#[test]
fn shoulder_buttons_and_sticks_translate() {
    assert_eq!(SteamDeckKey::from_code(0x136), SteamDeckKey::L1);
    assert_eq!(SteamDeckKey::from_code(0x138), SteamDeckKey::L2);
    assert_eq!(SteamDeckKey::from_code(0x2c0), SteamDeckKey::L3);
    assert_eq!(SteamDeckKey::from_code(0x2c2), SteamDeckKey::L4);
    assert_eq!(SteamDeckKey::from_code(0x137), SteamDeckKey::R1);
    assert_eq!(SteamDeckKey::from_code(0x139), SteamDeckKey::R2);
    assert_eq!(SteamDeckKey::from_code(0x2c1), SteamDeckKey::R3);
    assert_eq!(SteamDeckKey::from_code(0x2c3), SteamDeckKey::R4);
    assert_eq!(SteamDeckKey::from_code(0x121), SteamDeckKey::LeftTrackpad);
    assert_eq!(SteamDeckKey::from_code(0x122), SteamDeckKey::RightTrackpad);
    assert_eq!(SteamDeckKey::from_code(0x13d), SteamDeckKey::LeftStick);
    assert_eq!(SteamDeckKey::from_code(0x13e), SteamDeckKey::RightStick);
}

#[test]
fn unrecognized_button_code_degrades_to_unknown() {
    assert_eq!(SteamDeckKey::from_code(0x100), SteamDeckKey::Unknown);
    assert_eq!(SteamDeckKey::from_code(0), SteamDeckKey::Unknown);
    assert_eq!(SteamDeckKey::from_code(0xffff), SteamDeckKey::Unknown);
}

#[test]
fn axis_codes_translate() {
    assert_eq!(Axis::from_code(0x00), Axis::LeftJoystickX);
    assert_eq!(Axis::from_code(0x01), Axis::LeftJoystickY);
    assert_eq!(Axis::from_code(0x03), Axis::RightJoystickX);
    assert_eq!(Axis::from_code(0x04), Axis::RightJoystickY);
    assert_eq!(Axis::from_code(0x10), Axis::LeftTrackpadX);
    assert_eq!(Axis::from_code(0x11), Axis::LeftTrackpadY);
    assert_eq!(Axis::from_code(0x12), Axis::RightTrackpadX);
    assert_eq!(Axis::from_code(0x13), Axis::RightTrackpadY);
    assert_eq!(Axis::from_code(0x15), Axis::LeftTrigger);
    assert_eq!(Axis::from_code(0x14), Axis::RightTrigger);
}

#[test]
fn unrecognized_axis_code_degrades_to_unknown() {
    assert_eq!(Axis::from_code(0x02), Axis::Unknown);
    assert_eq!(Axis::from_code(0x40), Axis::Unknown);
}

#[test]
fn axis_indices_are_dense_and_distinct() {
    let axes = [
        Axis::LeftTrigger,
        Axis::RightTrigger,
        Axis::LeftJoystickX,
        Axis::LeftJoystickY,
        Axis::RightJoystickX,
        Axis::RightJoystickY,
        Axis::LeftTrackpadX,
        Axis::LeftTrackpadY,
        Axis::RightTrackpadX,
        Axis::RightTrackpadY,
        Axis::Unknown,
    ];
    let mut seen = [false; 11];
    for a in axes {
        let i = a.index();
        assert!(i < 11);
        assert!(!seen[i]);
        seen[i] = true;
    }
}
