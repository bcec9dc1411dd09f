use overbind::{ActionKind, ConfigRecord, GamepadFrame, HatAxis, KeyEvent, KeyInterceptor};

fn rec(keycode: &str, result_type: &str, result_value: i32) -> ConfigRecord {
    ConfigRecord {
        keycode: String::from(keycode),
        result_type: String::from(result_type),
        result_value,
    }
}

fn started(records: Vec<ConfigRecord>) -> KeyInterceptor {
    let mut ki = KeyInterceptor::new();
    ki.start(&records, false).expect("config should load");
    ki
}

const LEFT: u32 = 0x25;
const UP: u32 = 0x26;
const RIGHT: u32 = 0x27;
const DOWN: u32 = 0x28;

fn socd_axis_pair() -> KeyInterceptor {
    started(vec![
        rec("25", "thumb_lx", -32768),
        rec("27", "thumb_lx", 32767),
        rec("25", "socd", 0x27),
        rec("27", "socd", 0x25),
    ])
}

fn frame_of(out: &overbind::EventOutput) -> GamepadFrame {
    out.frame.expect("a controller-bound event rebuilds the frame")
}

#[test]
fn end_to_end_socd_axis_scenario() {
    let mut ki = socd_axis_pair();
    let o1 = ki.on_physical_event(LEFT, true);
    assert_eq!(frame_of(&o1).thumb_lx, -32768);
    let o2 = ki.on_physical_event(RIGHT, true);
    assert_eq!(frame_of(&o2).thumb_lx, 32767);
    let o3 = ki.on_physical_event(RIGHT, false);
    assert_eq!(frame_of(&o3).thumb_lx, -32768);
    let o4 = ki.on_physical_event(LEFT, false);
    assert_eq!(frame_of(&o4).thumb_lx, 0);
}

#[test]
fn axis_priority_independent_of_press_order() {
    let mut ki = socd_axis_pair();
    ki.on_physical_event(RIGHT, true);
    let out = ki.on_physical_event(LEFT, true);
    assert_eq!(frame_of(&out).thumb_lx, 32767);

    let mut ki2 = socd_axis_pair();
    ki2.on_physical_event(LEFT, true);
    let out2 = ki2.on_physical_event(RIGHT, true);
    assert_eq!(frame_of(&out2).thumb_lx, 32767);
}

#[test]
fn socd_keyboard_pair_synthesizes_mapped_events() {
    // 0x41 and 0x43 are a pair; each is rebound to a keyboard code.
    let mut ki = started(vec![
        rec("41", "keyboard", 0x51),
        rec("43", "keyboard", 0x52),
        rec("41", "socd", 0x43),
        rec("43", "socd", 0x41),
    ]);
    let o1 = ki.on_physical_event(0x41, true);
    // Keyboard-bound: only the rebound event, no synthesis yet.
    assert_eq!(o1.key_events, vec![KeyEvent { code: 0x51, pressed: true }]);
    // Pressing the opposite defeats the held key: its mapped output (0x51)
    // is released first, then the new key's own rebound event is emitted.
    let o2 = ki.on_physical_event(0x43, true);
    assert_eq!(
        o2.key_events,
        vec![
            KeyEvent { code: 0x51, pressed: false },
            KeyEvent { code: 0x52, pressed: true },
        ]
    );
    // Releasing the winner restores the still-held loser's mapped output.
    let o3 = ki.on_physical_event(0x43, false);
    assert_eq!(
        o3.key_events,
        vec![
            KeyEvent { code: 0x51, pressed: true },
            KeyEvent { code: 0x52, pressed: false },
        ]
    );
}

#[test]
fn socd_face_button_pair_uses_virtual_bits() {
    // Both keys are rebound to face buttons; the pair synthesizes no
    // discrete key events, and the defeated side's button bit is cleared in
    // the frame even while the key stays physically held.
    let mut ki = started(vec![
        rec("41", "face_button", 0x1000),
        rec("42", "face_button", 0x2000),
        rec("41", "socd", 0x42),
        rec("42", "socd", 0x41),
    ]);
    let o1 = ki.on_physical_event(0x41, true);
    assert_eq!(frame_of(&o1).buttons, 0x1000);
    let o2 = ki.on_physical_event(0x42, true);
    assert_eq!(frame_of(&o2).buttons, 0x2000);
    assert_eq!(o2.key_events, vec![KeyEvent { code: 0x42, pressed: true }]);
    // Releasing the winner restores the still-held loser's bit.
    let o3 = ki.on_physical_event(0x42, false);
    assert_eq!(frame_of(&o3).buttons, 0x1000);
    let o4 = ki.on_physical_event(0x41, false);
    assert_eq!(frame_of(&o4).buttons, 0);
}

#[test]
fn keyboard_short_circuit_never_rebuilds_frame() {
    let mut ki = started(vec![rec("41", "keyboard", 0x42), rec("1000", "face_button", 0x1000)]);
    let press = ki.on_physical_event(0x41, true);
    assert!(press.frame.is_none());
    assert!(press.hat.is_none());
    assert_eq!(press.key_events, vec![KeyEvent { code: 0x42, pressed: true }]);
    let release = ki.on_physical_event(0x41, false);
    assert!(release.frame.is_none());
    assert_eq!(release.key_events, vec![KeyEvent { code: 0x42, pressed: false }]);
    // A controller-bound key does rebuild the frame.
    let other = ki.on_physical_event(0x1000, true);
    assert!(other.frame.is_some());
}

#[test]
fn dpad_complement_on_release() {
    let mut ki = started(vec![
        rec("26", "face_button", 0x1),
        rec("28", "face_button", 0x2),
    ]);
    let up = ki.on_physical_event(UP, true);
    let hat_up = up.hat.expect("d-pad press emits a hat event");
    assert!(matches!(hat_up.axis, HatAxis::Y));
    assert_eq!(hat_up.value, -1);

    let down = ki.on_physical_event(DOWN, true);
    let hat_down = down.hat.unwrap();
    assert_eq!(hat_down.value, 1);

    // Releasing Down while Up is still held re-emits Up's value, not neutral.
    let rel_down = ki.on_physical_event(DOWN, false);
    let hat_rel = rel_down.hat.unwrap();
    assert!(matches!(hat_rel.axis, HatAxis::Y));
    assert_eq!(hat_rel.value, -1);

    // Releasing the remaining key yields neutral.
    let rel_up = ki.on_physical_event(UP, false);
    assert_eq!(rel_up.hat.unwrap().value, 0);
}

#[test]
fn dpad_bits_appear_in_frame_buttons() {
    let mut ki = started(vec![
        rec("26", "face_button", 0x1),
        rec("28", "face_button", 0x2),
    ]);
    let up = ki.on_physical_event(UP, true);
    assert_eq!(frame_of(&up).buttons, 0x1);
    let down = ki.on_physical_event(DOWN, true);
    assert_eq!(frame_of(&down).buttons, 0x3);
    let rel = ki.on_physical_event(UP, false);
    assert_eq!(frame_of(&rel).buttons, 0x2);
}

#[test]
fn mash_trigger_gating() {
    let mut ki = started(vec![
        rec("31", "mash_trigger", 0x31),
        rec("32", "mash_trigger", 0x32),
    ]);
    let o1 = ki.on_physical_event(0x31, true);
    assert_eq!(o1.masher_changed, None);
    let o2 = ki.on_physical_event(0x32, true);
    assert_eq!(o2.masher_changed, Some(true));
    let o3 = ki.on_physical_event(0x31, false);
    assert_eq!(o3.masher_changed, Some(false));
    let o4 = ki.on_physical_event(0x31, true);
    assert_eq!(o4.masher_changed, Some(true));
    // A transition of an unrelated key never flips the masher flag.
    let o5 = ki.on_physical_event(0x55, true);
    assert_eq!(o5.masher_changed, None);
}

#[test]
fn repeated_transition_same_frame() {
    let mut ki = started(vec![
        rec("25", "thumb_lx", -32768),
        rec("27", "thumb_lx", 32767),
        rec("25", "socd", 0x27),
        rec("27", "socd", 0x25),
        rec("1000", "face_button", 0x1000),
    ]);
    ki.on_physical_event(LEFT, true);
    let first = ki.on_physical_event(0x1000, true);
    let second = ki.on_physical_event(0x1000, true);
    assert_eq!(frame_of(&first), frame_of(&second));

    let rel1 = ki.on_physical_event(LEFT, false);
    let rel2 = ki.on_physical_event(LEFT, false);
    assert_eq!(frame_of(&rel1), frame_of(&rel2));
}

#[test]
fn face_buttons_or_together_and_triggers_take_max() {
    let mut ki = started(vec![
        rec("41", "face_button", 0x1000),
        rec("42", "face_button", 0x2000),
        rec("43", "trigger_l", 255),
        rec("44", "trigger_l", 100),
        rec("45", "right_trigger", 10),
    ]);
    ki.on_physical_event(0x41, true);
    let o = ki.on_physical_event(0x42, true);
    assert_eq!(frame_of(&o).buttons, 0x3000);
    ki.on_physical_event(0x44, true);
    let o2 = ki.on_physical_event(0x43, true);
    // 255 scales to the full 0..=1023 output range and wins the max.
    assert_eq!(frame_of(&o2).left_trigger, 1023);
    let o3 = ki.on_physical_event(0x45, true);
    assert_eq!(frame_of(&o3).right_trigger, 10 * 1023 / 255);
}

#[test]
fn y_axes_are_flipped_at_load() {
    let mut ki = started(vec![rec("26", "thumb_ly", 32767), rec("27", "thumb_ry", -32768)]);
    let o = ki.on_physical_event(UP, true);
    assert_eq!(frame_of(&o).thumb_ly, -32767);
    let o2 = ki.on_physical_event(RIGHT, true);
    // The negative extreme flips to the saturated positive extreme.
    assert_eq!(frame_of(&o2).thumb_ry, 32767);
}

#[test]
fn unbound_key_passes_through() {
    let mut ki = started(vec![rec("41", "face_button", 0x1000)]);
    let o = ki.on_physical_event(0x77, true);
    assert_eq!(o.key_events, vec![KeyEvent { code: 0x77, pressed: true }]);
    assert!(o.frame.is_some());
    assert!(o.hat.is_none());
}

#[test]
fn block_kb_on_controller_suppresses_passthrough() {
    let mut ki = KeyInterceptor::new();
    ki.start(&vec![rec("41", "face_button", 0x1000)], true).unwrap();
    let bound = ki.on_physical_event(0x41, true);
    assert_eq!(bound.key_events, vec![]);
    let unbound = ki.on_physical_event(0x77, true);
    assert_eq!(unbound.key_events, vec![]);
}

#[test]
fn inject_toggles_one_mash_output_or_releases_all() {
    let ki = started(vec![
        rec("31", "mash_trigger", 0x61),
        rec("32", "mash_trigger", 0x62),
        rec("33", "mash_trigger", 0x63),
    ]);
    assert_eq!(ki.inject(1, true), vec![KeyEvent { code: 0x62, pressed: true }]);
    assert_eq!(ki.inject(1, false), vec![KeyEvent { code: 0x62, pressed: false }]);
    assert_eq!(
        ki.inject(100, true),
        vec![
            KeyEvent { code: 0x61, pressed: false },
            KeyEvent { code: 0x62, pressed: false },
            KeyEvent { code: 0x63, pressed: false },
        ]
    );
}

#[test]
fn stop_resets_and_silences_the_engine() {
    let mut ki = socd_axis_pair();
    assert!(ki.is_running());
    ki.on_physical_event(LEFT, true);
    let frame = ki.stop();
    assert_eq!(frame, GamepadFrame {
        buttons: 0,
        left_trigger: 0,
        right_trigger: 0,
        thumb_lx: 0,
        thumb_ly: 0,
        thumb_rx: 0,
        thumb_ry: 0,
    });
    assert!(!ki.is_running());
    // Events delivered after stop have no effect and no output.
    let out = ki.on_physical_event(LEFT, true);
    assert!(out.key_events.is_empty());
    assert!(out.frame.is_none());
    assert!(out.hat.is_none());
    assert_eq!(out.masher_changed, None);
    assert!(ki.inject(0, true).is_empty());
}

#[test]
fn new_interceptor_is_stopped() {
    let ki = KeyInterceptor::new();
    assert!(!ki.is_running());
}

#[test]
fn malformed_keycode_fails_start_with_first_index() {
    let mut ki = KeyInterceptor::new();
    let err = ki
        .start(
            &vec![rec("41", "keyboard", 0x42), rec("zz", "keyboard", 0x43), rec("", "socd", 1)],
            false,
        )
        .unwrap_err();
    assert_eq!(err.index, 1);
    assert!(!ki.is_running());
}

#[test]
fn empty_config_loads_and_passes_keys_through() {
    let mut ki = started(vec![]);
    assert!(ki.is_running());
    let o = ki.on_physical_event(0x41, true);
    assert_eq!(o.key_events, vec![KeyEvent { code: 0x41, pressed: true }]);
    assert_eq!(o.masher_changed, None);
}
