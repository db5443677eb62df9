use deck_remap::config::{Combo, Config, Mapping};
use deck_remap::daemon::Daemon;
use deck_remap::events::{Action, OutEvent, RawEvent, RelAxis};
use deck_remap::key::SteamDeckKey;

const BTN_A: u16 = 0x130;
const BTN_L1: u16 = 0x136;
const BTN_R1: u16 = 0x137;
const ABS_RIGHT_PAD_X: u16 = 0x12;
const ABS_RIGHT_PAD_Y: u16 = 0x13;
const ABS_LEFT_PAD_X: u16 = 0x10;
const KEY_ESC: u16 = 1;

fn empty_config() -> Config {
    Config { combo: vec![], mapping: vec![] }
}

#[test]
fn mapping_fires_on_key_down_and_up() {
    // Scenario: mapping A -> [ESC]; down(A) emits down(ESC), up(A) emits up(ESC).
    let config = Config {
        combo: vec![],
        mapping: vec![Mapping { from: SteamDeckKey::A, to: vec![KEY_ESC] }],
    };
    let mut d = Daemon::new(config);
    let acts = d.step(RawEvent::Key(BTN_A, 1));
    assert_eq!(acts, vec![Action::Emit(vec![OutEvent::KeyDown(KEY_ESC)])]);
    let acts = d.step(RawEvent::Key(BTN_A, 0));
    assert_eq!(acts, vec![Action::Emit(vec![OutEvent::KeyUp(KEY_ESC)])]);
    assert_eq!(d.pressed_count(), 0);
}

#[test]
fn combo_launches_once_and_shadows_mapping() {
    // Scenario: combo {L1, R1} -> "echo hi" with a mapping for R1 alone also
    // configured; down(L1) then down(R1) launches once and emits nothing.
    let config = Config {
        combo: vec![Combo {
            keys: vec![SteamDeckKey::L1, SteamDeckKey::R1],
            launch: "echo hi".to_string(),
        }],
        mapping: vec![Mapping { from: SteamDeckKey::R1, to: vec![48] }],
    };
    let mut d = Daemon::new(config);
    let acts = d.step(RawEvent::Key(BTN_L1, 1));
    assert_eq!(acts, vec![]);
    let acts = d.step(RawEvent::Key(BTN_R1, 1));
    assert_eq!(acts, vec![Action::Launch("echo hi".to_string())]);
}

#[test]
fn combo_with_wrong_cardinality_never_fires() {
    let config = Config {
        combo: vec![Combo {
            keys: vec![SteamDeckKey::L1, SteamDeckKey::R1],
            launch: "echo hi".to_string(),
        }],
        mapping: vec![],
    };
    let mut d = Daemon::new(config);
    // One key held: |keys| = 2 != 1, no fire.
    assert_eq!(d.step(RawEvent::Key(BTN_L1, 1)), vec![]);
    assert_eq!(d.pressed_count(), 1);
}

#[test]
fn combo_needs_every_held_key_in_its_set() {
    let config = Config {
        combo: vec![Combo {
            keys: vec![SteamDeckKey::L1, SteamDeckKey::R1],
            launch: "echo hi".to_string(),
        }],
        mapping: vec![],
    };
    let mut d = Daemon::new(config);
    // Two keys held, equal cardinality, but A is not in the combo's set.
    assert_eq!(d.step(RawEvent::Key(BTN_L1, 1)), vec![]);
    assert_eq!(d.step(RawEvent::Key(BTN_A, 1)), vec![]);
}

#[test]
fn first_matching_combo_wins() {
    let config = Config {
        combo: vec![
            Combo { keys: vec![SteamDeckKey::L1], launch: "first".to_string() },
            Combo { keys: vec![SteamDeckKey::L1], launch: "second".to_string() },
        ],
        mapping: vec![],
    };
    let mut d = Daemon::new(config);
    let acts = d.step(RawEvent::Key(BTN_L1, 1));
    assert_eq!(acts, vec![Action::Launch("first".to_string())]);
}

#[test]
fn down_order_preserved_up_order_reversed() {
    // Mapping A -> [K1, K2]: down(K1), down(K2) on press; up(K2), up(K1) on release.
    let config = Config {
        combo: vec![],
        mapping: vec![Mapping { from: SteamDeckKey::A, to: vec![10, 20] }],
    };
    let mut d = Daemon::new(config);
    let acts = d.step(RawEvent::Key(BTN_A, 1));
    assert_eq!(
        acts,
        vec![Action::Emit(vec![OutEvent::KeyDown(10), OutEvent::KeyDown(20)])]
    );
    let acts = d.step(RawEvent::Key(BTN_A, 0));
    assert_eq!(
        acts,
        vec![Action::Emit(vec![OutEvent::KeyUp(20), OutEvent::KeyUp(10)])]
    );
}

#[test]
fn only_first_mapping_fires_on_down_but_all_on_up() {
    let config = Config {
        combo: vec![],
        mapping: vec![
            Mapping { from: SteamDeckKey::A, to: vec![5] },
            Mapping { from: SteamDeckKey::A, to: vec![7] },
        ],
    };
    let mut d = Daemon::new(config);
    let acts = d.step(RawEvent::Key(BTN_A, 1));
    assert_eq!(acts, vec![Action::Emit(vec![OutEvent::KeyDown(5)])]);
    let acts = d.step(RawEvent::Key(BTN_A, 0));
    assert_eq!(
        acts,
        vec![
            Action::Emit(vec![OutEvent::KeyUp(5)]),
            Action::Emit(vec![OutEvent::KeyUp(7)]),
        ]
    );
}

#[test]
fn unmapped_key_produces_no_output() {
    let mut d = Daemon::new(empty_config());
    assert_eq!(d.step(RawEvent::Key(BTN_A, 1)), vec![]);
    assert_eq!(d.pressed_count(), 1);
    assert!(d.holds(SteamDeckKey::A));
    assert_eq!(d.step(RawEvent::Key(BTN_A, 0)), vec![]);
    assert_eq!(d.pressed_count(), 0);
    assert!(!d.holds(SteamDeckKey::A));
}

#[test]
fn unknown_button_is_tracked_but_matches_nothing() {
    let config = Config {
        combo: vec![],
        mapping: vec![Mapping { from: SteamDeckKey::A, to: vec![1] }],
    };
    let mut d = Daemon::new(config);
    assert_eq!(d.step(RawEvent::Key(0x100, 1)), vec![]);
    assert_eq!(d.pressed_count(), 1);
    assert!(d.holds(SteamDeckKey::Unknown));
    assert_eq!(d.step(RawEvent::Key(0x100, 0)), vec![]);
    assert_eq!(d.pressed_count(), 0);
}

#[test]
fn repeat_value_counts_as_release() {
    // A raw value other than 1 (the repeat signal included) is not-pressed.
    let config = Config {
        combo: vec![],
        mapping: vec![Mapping { from: SteamDeckKey::A, to: vec![KEY_ESC] }],
    };
    let mut d = Daemon::new(config);
    d.step(RawEvent::Key(BTN_A, 1));
    let acts = d.step(RawEvent::Key(BTN_A, 2));
    assert_eq!(acts, vec![Action::Emit(vec![OutEvent::KeyUp(KEY_ESC)])]);
    assert_eq!(d.pressed_count(), 0);
}

#[test]
fn axis_rest_and_first_sample_produce_no_output() {
    // Raw run 0, 0, v: the first two are at rest, v is a first sample.
    let mut d = Daemon::new(empty_config());
    assert_eq!(d.step(RawEvent::AbsAxis(ABS_RIGHT_PAD_X, 0)), vec![]);
    assert_eq!(d.step(RawEvent::AbsAxis(ABS_RIGHT_PAD_X, 0)), vec![]);
    assert_eq!(d.step(RawEvent::AbsAxis(ABS_RIGHT_PAD_X, 700)), vec![]);
    assert_eq!(d.batch_len(), 0);
    // The flush still happens, atomically and empty.
    let acts = d.step(RawEvent::Sync);
    assert_eq!(acts, vec![Action::Emit(vec![])]);
}

#[test]
fn repeated_identical_samples_are_silent() {
    let mut d = Daemon::new(empty_config());
    d.step(RawEvent::AbsAxis(ABS_RIGHT_PAD_X, 500));
    d.step(RawEvent::AbsAxis(ABS_RIGHT_PAD_X, 500));
    d.step(RawEvent::AbsAxis(ABS_RIGHT_PAD_X, 500));
    assert_eq!(d.batch_len(), 0);
}

#[test]
fn sub_threshold_motion_accumulates_until_it_crosses() {
    // Scale 50 / 10000 on the right trackpad's x direction: 0 -> 50 is a
    // first sample, 50 -> 100 rounds to zero and is suppressed with the
    // history kept, 100 -> 600 yields round(500 * 50 / 10000) = round(2.5),
    // which rounds away from zero to 3.
    let mut d = Daemon::new(empty_config());
    d.step(RawEvent::AbsAxis(ABS_RIGHT_PAD_X, 50));
    assert_eq!(d.batch_len(), 0);
    d.step(RawEvent::AbsAxis(ABS_RIGHT_PAD_X, 100));
    assert_eq!(d.batch_len(), 0);
    d.step(RawEvent::AbsAxis(ABS_RIGHT_PAD_X, 600));
    assert_eq!(d.batch_len(), 1);
    let acts = d.step(RawEvent::Sync);
    assert_eq!(acts, vec![Action::Emit(vec![OutEvent::Rel(RelAxis::X, 3)])]);
    assert_eq!(d.batch_len(), 0);
}

#[test]
fn deltas_round_half_away_from_zero() {
    // 100 -> 480 at 50 / 10000 is round(1.9) = 2.
    let mut d = Daemon::new(empty_config());
    d.step(RawEvent::AbsAxis(ABS_RIGHT_PAD_X, 100));
    d.step(RawEvent::AbsAxis(ABS_RIGHT_PAD_X, 480));
    let acts = d.step(RawEvent::Sync);
    assert_eq!(acts, vec![Action::Emit(vec![OutEvent::Rel(RelAxis::X, 2)])]);

    // 600 -> 100 at 50 / 10000 is round(-2.5) = -3: ties go away from zero.
    let mut d = Daemon::new(empty_config());
    d.step(RawEvent::AbsAxis(ABS_RIGHT_PAD_X, 600));
    d.step(RawEvent::AbsAxis(ABS_RIGHT_PAD_X, 100));
    let acts = d.step(RawEvent::Sync);
    assert_eq!(acts, vec![Action::Emit(vec![OutEvent::Rel(RelAxis::X, -3)])]);
}

#[test]
fn right_trackpad_y_scale_is_negative() {
    let mut d = Daemon::new(empty_config());
    d.step(RawEvent::AbsAxis(ABS_RIGHT_PAD_Y, 100));
    d.step(RawEvent::AbsAxis(ABS_RIGHT_PAD_Y, 700));
    let acts = d.step(RawEvent::Sync);
    assert_eq!(acts, vec![Action::Emit(vec![OutEvent::Rel(RelAxis::Y, -3)])]);
}

#[test]
fn left_trackpad_drives_horizontal_wheel() {
    // Scale 1 / 10000: 5000 -> 25000 yields round(20000 / 10000) = 2.
    let mut d = Daemon::new(empty_config());
    d.step(RawEvent::AbsAxis(ABS_LEFT_PAD_X, 5000));
    d.step(RawEvent::AbsAxis(ABS_LEFT_PAD_X, 25000));
    let acts = d.step(RawEvent::Sync);
    assert_eq!(
        acts,
        vec![Action::Emit(vec![OutEvent::Rel(RelAxis::HWheel, 2)])]
    );
}

#[test]
fn joysticks_and_triggers_pass_through_silently() {
    let mut d = Daemon::new(empty_config());
    for code in [0x00u16, 0x01, 0x03, 0x04, 0x14, 0x15] {
        d.step(RawEvent::AbsAxis(code, 1000));
        d.step(RawEvent::AbsAxis(code, 2000));
    }
    assert_eq!(d.batch_len(), 0);
}

#[test]
fn batch_groups_simultaneous_samples_into_one_emission() {
    let mut d = Daemon::new(empty_config());
    d.step(RawEvent::AbsAxis(ABS_RIGHT_PAD_X, 100));
    d.step(RawEvent::AbsAxis(ABS_RIGHT_PAD_Y, 100));
    d.step(RawEvent::AbsAxis(ABS_RIGHT_PAD_X, 700));
    d.step(RawEvent::AbsAxis(ABS_RIGHT_PAD_Y, 700));
    let acts = d.step(RawEvent::Sync);
    assert_eq!(
        acts,
        vec![Action::Emit(vec![
            OutEvent::Rel(RelAxis::X, 3),
            OutEvent::Rel(RelAxis::Y, -3),
        ])]
    );
}

#[test]
fn other_events_are_ignored() {
    let mut d = Daemon::new(empty_config());
    assert_eq!(d.step(RawEvent::Other), vec![]);
    assert_eq!(d.pressed_count(), 0);
    assert_eq!(d.batch_len(), 0);
}

#[test]
fn pressed_count_tracks_held_sequence() {
    let mut d = Daemon::new(empty_config());
    d.step(RawEvent::Key(BTN_L1, 1));
    d.step(RawEvent::Key(BTN_R1, 1));
    d.step(RawEvent::Key(BTN_A, 1));
    assert_eq!(d.pressed_count(), 3);
    d.step(RawEvent::Key(BTN_R1, 0));
    assert_eq!(d.pressed_count(), 2);
    assert!(d.holds(SteamDeckKey::L1));
    assert!(!d.holds(SteamDeckKey::R1));
    assert!(d.holds(SteamDeckKey::A));
}

#[test]
fn rel_axis_codes() {
    assert_eq!(RelAxis::X.code(), 0x00);
    assert_eq!(RelAxis::Y.code(), 0x01);
    assert_eq!(RelAxis::HWheel.code(), 0x06);
    assert_eq!(RelAxis::Wheel.code(), 0x08);
}
