use mpc_emulator::pads::{pad_click_action, pad_for_key, PadAction, PadKey, PAD_COUNT, UNKEYED_PAD};

const ALL_KEYS: [PadKey; 15] = [
    PadKey::Q,
    PadKey::W,
    PadKey::E,
    PadKey::A,
    PadKey::S,
    PadKey::D,
    PadKey::F,
    PadKey::Z,
    PadKey::X,
    PadKey::C,
    PadKey::V,
    PadKey::Num1,
    PadKey::Num2,
    PadKey::Num3,
    PadKey::Num4,
];

#[test]
fn keys_play_their_pads() {
    let pads: Vec<usize> = ALL_KEYS.iter().map(|&k| pad_for_key(k)).collect();
    assert_eq!(pads, vec![0, 1, 2, 4, 5, 6, 7, 8, 9, 10, 11, 12, 13, 14, 15]);
}

#[test]
fn keys_cover_every_pad_but_the_recording_one_once() {
    let mut hit = [0usize; 16];
    for &k in ALL_KEYS.iter() {
        let p = pad_for_key(k);
        assert!(p < PAD_COUNT);
        hit[p] += 1;
    }
    for p in 0..PAD_COUNT {
        assert_eq!(hit[p], if p == UNKEYED_PAD { 0 } else { 1 });
    }
}

#[test]
fn click_actions() {
    assert_eq!(pad_click_action(false, false, false), PadAction::Nothing);
    assert_eq!(pad_click_action(false, false, true), PadAction::Nothing);
    assert_eq!(pad_click_action(true, true, true), PadAction::Nothing);
    assert_eq!(pad_click_action(true, true, false), PadAction::Nothing);
    assert_eq!(pad_click_action(true, false, true), PadAction::AssignRecording);
    assert_eq!(pad_click_action(true, false, false), PadAction::Trigger);
}
