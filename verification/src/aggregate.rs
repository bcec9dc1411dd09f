//! The analog/d-pad aggregator: computes a complete gamepad frame from the
//! key state tables. Face-button bits are OR-ed over pressed keys and then
//! adjusted by the virtual-press bits of face-button pairs; triggers take
//! the maximum over pressed keys; stick axes keep the pressed value of
//! highest priority.

use vstd::prelude::*;

use crate::types::{
    find_pair_index, has_pair, keys_wf, pair_index, pairs_wf, ActionKind, Axis, GamepadFrame,
    KeyBinding, OppositeKeyPair, SocdKind,
};

verus! {

/// Priority of an analog axis value when several pressed keys drive the same
/// axis: positive directions outrank negative ones, larger magnitudes outrank
/// smaller ones, and neutral (zero) has the lowest priority of all.
pub open spec fn axis_priority(n: int) -> int {
    if n < 0 {
        -n
    } else if n > 0 {
        n + 32767
    } else {
        0
    }
}

/// The axis value that wins between an earlier candidate `a` and a later
/// candidate `b`: the one of higher priority, with ties kept by `a`.
pub open spec fn higher_priority(a: i16, b: i16) -> i16 {
    if a == 0 {
        b
    } else if b == 0 {
        a
    } else if axis_priority(a as int) >= axis_priority(b as int) {
        a
    } else {
        b
    }
}

/// Maps an axis value to its priority rank.
pub fn analog_priority_transform(n: i32) -> (r: i32)
    requires
        -0x7FFF_FFFF <= n <= 0x7FFF_8000,
    ensures
        r == axis_priority(n as int),
{
    if n < 0 {
        return -n;
    }
    if n > 0 {
        return n + 32767;
    }
    0
}

/// Picks the axis value of higher priority, keeping the first on a tie.
pub fn find_higher_priority(num1: i16, num2: i16) -> (r: i16)
    ensures
        r == higher_priority(num1, num2),
{
    if num1 == 0 {
        return num2;
    }
    if num2 == 0 {
        return num1;
    }
    if analog_priority_transform(num1 as i32) >= analog_priority_transform(num2 as i32) {
        num1
    } else {
        num2
    }
}

/// The larger of two unsigned values.
pub open spec fn max_u16(a: u16, b: u16) -> u16 {
    if a >= b {
        a
    } else {
        b
    }
}

/// OR of the face-button masks of the pressed keys among the first `n`
/// entries of the key table.
pub open spec fn face_bits_upto(keys: Seq<KeyBinding>, n: int) -> u16
    decreases n,
{
    if n <= 0 {
        0
    } else {
        let b = face_bits_upto(keys, n - 1);
        match keys[n - 1].action {
            ActionKind::FaceButton { mask } => if keys[n - 1].is_pressed {
                b | mask
            } else {
                b
            },
            _ => b,
        }
    }
}

/// Maximum trigger value over the pressed keys among the first `n` entries
/// of the key table; `left` selects the trigger side.
pub open spec fn trigger_upto(keys: Seq<KeyBinding>, n: int, left: bool) -> u16
    decreases n,
{
    if n <= 0 {
        0
    } else {
        let b = trigger_upto(keys, n - 1, left);
        match keys[n - 1].action {
            ActionKind::LeftTrigger { value } => if left && keys[n - 1].is_pressed {
                max_u16(b, value)
            } else {
                b
            },
            ActionKind::RightTrigger { value } => if !left && keys[n - 1].is_pressed {
                max_u16(b, value)
            } else {
                b
            },
            _ => b,
        }
    }
}

/// Highest-priority value for `axis` over the pressed keys among the first
/// `n` entries of the key table; ties keep the earliest entry.
pub open spec fn axis_value_upto(keys: Seq<KeyBinding>, n: int, axis: Axis) -> i16
    decreases n,
{
    if n <= 0 {
        0
    } else {
        let b = axis_value_upto(keys, n - 1, axis);
        match keys[n - 1].action {
            ActionKind::ThumbAxis { axis: a, value } => if keys[n - 1].is_pressed && a == axis {
                higher_priority(b, value)
            } else {
                b
            },
            _ => b,
        }
    }
}

/// Applies the virtual-press bits of the first `n` face-button pair entries
/// to the button bitmask `base`: for each entry whose opposite key maps to a
/// face button, that mask is set while the opposite key is virtually pressed
/// and cleared while it is not.
pub open spec fn socd_bits_upto(pairs: Seq<OppositeKeyPair>, n: int, base: u16) -> u16
    decreases n,
{
    if n <= 0 {
        base
    } else {
        let b = socd_bits_upto(pairs, n - 1, base);
        let e = pairs[n - 1];
        match e.opposite_kind {
            SocdKind::FaceButton => match e.opposite_mapping {
                Some(mask) => if has_pair(pairs, e.opposite_key) {
                    if pairs[pair_index(pairs, e.opposite_key)].is_virtual_pressed {
                        b | mask
                    } else {
                        b & !mask
                    }
                } else {
                    b
                },
                None => b,
            },
            SocdKind::Keyboard => b,
        }
    }
}

/// Whether `e` is a pressed key driving `axis` at full positive deflection.
pub open spec fn drives_full_positive(e: KeyBinding, axis: Axis) -> bool {
    e.is_pressed && e.action == (ActionKind::ThumbAxis { axis, value: 32767 })
}

proof fn lemma_full_positive_absorbs(a: i16)
    ensures
        higher_priority(a, 32767) == 32767,
        higher_priority(32767, a) == 32767,
{
}

/// Law: full positive deflection has the highest priority of all axis
/// values, so while any key bound to an axis at 32767 is pressed, that axis
/// reads 32767 — whatever other keys (a full negative deflection included)
/// are held, and in whatever order they were pressed.
pub proof fn lemma_axis_priority_full_positive(keys: Seq<KeyBinding>, n: int, axis: Axis)
    requires
        0 <= n <= keys.len(),
        exists|i: int| 0 <= i < n && drives_full_positive(#[trigger] keys[i], axis),
    ensures
        axis_value_upto(keys, n, axis) == 32767,
    decreases n,
{
    let w = choose|i: int| 0 <= i < n && drives_full_positive(#[trigger] keys[i], axis);
    if w == n - 1 {
        lemma_full_positive_absorbs(axis_value_upto(keys, n - 1, axis));
    } else {
        lemma_axis_priority_full_positive(keys, n - 1, axis);
        match keys[n - 1].action {
            ActionKind::ThumbAxis { axis: a, value } => {
                if keys[n - 1].is_pressed && a == axis {
                    lemma_full_positive_absorbs(value);
                }
            },
            _ => {},
        }
    }
}

/// The gamepad frame derived from the current key and pair tables.
pub open spec fn frame_of(keys: Seq<KeyBinding>, pairs: Seq<OppositeKeyPair>) -> GamepadFrame {
    GamepadFrame {
        buttons: socd_bits_upto(pairs, pairs.len() as int, face_bits_upto(keys, keys.len() as int)),
        left_trigger: trigger_upto(keys, keys.len() as int, true),
        right_trigger: trigger_upto(keys, keys.len() as int, false),
        thumb_lx: axis_value_upto(keys, keys.len() as int, Axis::Lx),
        thumb_ly: axis_value_upto(keys, keys.len() as int, Axis::Ly),
        thumb_rx: axis_value_upto(keys, keys.len() as int, Axis::Rx),
        thumb_ry: axis_value_upto(keys, keys.len() as int, Axis::Ry),
    }
}

/// Rebuilds the gamepad frame from scratch out of the key and pair tables.
pub fn compute_frame(keys: &Vec<KeyBinding>, pairs: &Vec<OppositeKeyPair>) -> (r: GamepadFrame)
    requires
        keys_wf(keys@),
        pairs_wf(pairs@),
    ensures
        r == frame_of(keys@, pairs@),
{
    let mut buttons: u16 = 0;
    let mut left_trigger: u16 = 0;
    let mut right_trigger: u16 = 0;
    let mut thumb_lx: i16 = 0;
    let mut thumb_ly: i16 = 0;
    let mut thumb_rx: i16 = 0;
    let mut thumb_ry: i16 = 0;

    let mut i: usize = 0;
    while i < keys.len()
        invariant
            i <= keys@.len(),
            buttons == face_bits_upto(keys@, i as int),
            left_trigger == trigger_upto(keys@, i as int, true),
            right_trigger == trigger_upto(keys@, i as int, false),
            thumb_lx == axis_value_upto(keys@, i as int, Axis::Lx),
            thumb_ly == axis_value_upto(keys@, i as int, Axis::Ly),
            thumb_rx == axis_value_upto(keys@, i as int, Axis::Rx),
            thumb_ry == axis_value_upto(keys@, i as int, Axis::Ry),
        decreases keys@.len() - i,
    {
        let e = keys[i];
        if e.is_pressed {
            match e.action {
                ActionKind::FaceButton { mask } => {
                    buttons = buttons | mask;
                },
                ActionKind::LeftTrigger { value } => {
                    if value > left_trigger {
                        left_trigger = value;
                    }
                },
                ActionKind::RightTrigger { value } => {
                    if value > right_trigger {
                        right_trigger = value;
                    }
                },
                ActionKind::ThumbAxis { axis, value } => {
                    match axis {
                        Axis::Lx => {
                            thumb_lx = find_higher_priority(thumb_lx, value);
                        },
                        Axis::Ly => {
                            thumb_ly = find_higher_priority(thumb_ly, value);
                        },
                        Axis::Rx => {
                            thumb_rx = find_higher_priority(thumb_rx, value);
                        },
                        Axis::Ry => {
                            thumb_ry = find_higher_priority(thumb_ry, value);
                        },
                    }
                },
                _ => {},
            }
        }
        i = i + 1;
    }

    let ghost base: u16 = buttons;
    let mut j: usize = 0;
    while j < pairs.len()
        invariant
            j <= pairs@.len(),
            pairs_wf(pairs@),
            buttons == socd_bits_upto(pairs@, j as int, base),
        decreases pairs@.len() - j,
    {
        let e = pairs[j];
        match e.opposite_kind {
            SocdKind::FaceButton => {
                if let Some(mask) = e.opposite_mapping {
                    match find_pair_index(pairs, e.opposite_key) {
                        Some(k) => {
                            if pairs[k].is_virtual_pressed {
                                buttons = buttons | mask;
                            } else {
                                buttons = buttons & !mask;
                            }
                        },
                        None => {},
                    }
                }
            },
            SocdKind::Keyboard => {},
        }
        j = j + 1;
    }

    GamepadFrame {
        buttons,
        left_trigger,
        right_trigger,
        thumb_lx,
        thumb_ly,
        thumb_rx,
        thumb_ry,
    }
}

} // verus!
