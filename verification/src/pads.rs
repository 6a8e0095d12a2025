//! The pad grid: which key plays which pad, and what a click on a pad does.
use vstd::prelude::*;

verus! {

/// Number of pads in the 4 x 4 grid.
pub const PAD_COUNT: usize = 16;

/// The pad that no key plays: its key, R, starts and stops sample recording.
pub const UNKEYED_PAD: usize = 3;

/// The keys that play pads.
#[derive(Clone, Copy, Debug, PartialEq, Eq)]
pub enum PadKey {
    Q,
    W,
    E,
    A,
    S,
    D,
    F,
    Z,
    X,
    C,
    V,
    Num1,
    Num2,
    Num3,
    Num4,
}

/// The pad that `key` plays: the keyboard rows Q W E, A S D F, Z X C V and
/// 1 2 3 4 lie over the grid's rows, with the fourth pad of the first row
/// left to R.
pub open spec fn key_pad(key: PadKey) -> usize {
    match key {
        PadKey::Q => 0,
        PadKey::W => 1,
        PadKey::E => 2,
        PadKey::A => 4,
        PadKey::S => 5,
        PadKey::D => 6,
        PadKey::F => 7,
        PadKey::Z => 8,
        PadKey::X => 9,
        PadKey::C => 10,
        PadKey::V => 11,
        PadKey::Num1 => 12,
        PadKey::Num2 => 13,
        PadKey::Num3 => 14,
        PadKey::Num4 => 15,
    }
}

/// The pad that `key` plays.
pub fn pad_for_key(key: PadKey) -> (pad: usize)
    ensures
        pad == key_pad(key),
{
    match key {
        PadKey::Q => 0,
        PadKey::W => 1,
        PadKey::E => 2,
        PadKey::A => 4,
        PadKey::S => 5,
        PadKey::D => 6,
        PadKey::F => 7,
        PadKey::Z => 8,
        PadKey::X => 9,
        PadKey::C => 10,
        PadKey::V => 11,
        PadKey::Num1 => 12,
        PadKey::Num2 => 13,
        PadKey::Num3 => 14,
        PadKey::Num4 => 15,
    }
}

/// The keyboard layout covers the grid once: every key plays a pad of the
/// grid other than the one left to R, no two keys play the same pad, and
/// every other pad has a key.
pub proof fn law_keys_cover_pads(k1: PadKey, k2: PadKey, pad: usize)
    ensures
        key_pad(k1) < PAD_COUNT,
        key_pad(k1) != UNKEYED_PAD,
        key_pad(k1) == key_pad(k2) ==> k1 == k2,
        pad < PAD_COUNT && pad != UNKEYED_PAD ==> exists|k: PadKey| key_pad(k) == pad,
{
    if pad < PAD_COUNT && pad != UNKEYED_PAD {
        if pad == 0 {
            assert(key_pad(PadKey::Q) == pad);
        } else if pad == 1 {
            assert(key_pad(PadKey::W) == pad);
        } else if pad == 2 {
            assert(key_pad(PadKey::E) == pad);
        } else if pad == 4 {
            assert(key_pad(PadKey::A) == pad);
        } else if pad == 5 {
            assert(key_pad(PadKey::S) == pad);
        } else if pad == 6 {
            assert(key_pad(PadKey::D) == pad);
        } else if pad == 7 {
            assert(key_pad(PadKey::F) == pad);
        } else if pad == 8 {
            assert(key_pad(PadKey::Z) == pad);
        } else if pad == 9 {
            assert(key_pad(PadKey::X) == pad);
        } else if pad == 10 {
            assert(key_pad(PadKey::C) == pad);
        } else if pad == 11 {
            assert(key_pad(PadKey::V) == pad);
        } else if pad == 12 {
            assert(key_pad(PadKey::Num1) == pad);
        } else if pad == 13 {
            assert(key_pad(PadKey::Num2) == pad);
        } else if pad == 14 {
            assert(key_pad(PadKey::Num3) == pad);
        } else {
            assert(key_pad(PadKey::Num4) == pad);
        }
    }
}

/// What a click on a pad does.
#[derive(Clone, Copy, Debug, PartialEq, Eq)]
pub enum PadAction {
    /// Nothing: there was no click, or it ended a long press.
    Nothing,
    /// The finished sample recording that waits for a pad goes to this pad.
    AssignRecording,
    /// The pad plays its sample.
    Trigger,
}

/// The effect of a click: a click that completes a long press does nothing
/// more; otherwise it hands a waiting recording to the pad, or, when none
/// waits, plays the pad.
pub fn pad_click_action(clicked: bool, long_press_complete: bool, recording_waiting: bool) -> (action: PadAction)
    ensures
        action == (if !clicked || long_press_complete {
            PadAction::Nothing
        } else if recording_waiting {
            PadAction::AssignRecording
        } else {
            PadAction::Trigger
        }),
{
    if clicked && !long_press_complete {
        if recording_waiting {
            PadAction::AssignRecording
        } else {
            PadAction::Trigger
        }
    } else {
        PadAction::Nothing
    }
}

} // verus!
