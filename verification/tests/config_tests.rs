use overbind::config::{parse_hex_keycode, parse_result_type, BindingType};
use overbind::{ConfigRecord, KeyEvent, KeyInterceptor};

fn rec(keycode: &str, result_type: &str, result_value: i32) -> ConfigRecord {
    ConfigRecord {
        keycode: String::from(keycode),
        result_type: String::from(result_type),
        result_value,
    }
}

#[test]
fn hex_keycodes_parse_exactly() {
    assert_eq!(parse_hex_keycode(&String::from("0")), Some(0));
    assert_eq!(parse_hex_keycode(&String::from("41")), Some(0x41));
    assert_eq!(parse_hex_keycode(&String::from("00ab")), Some(0xAB));
    assert_eq!(parse_hex_keycode(&String::from("AB")), Some(0xAB));
    assert_eq!(parse_hex_keycode(&String::from("+41")), Some(0x41));
    assert_eq!(parse_hex_keycode(&String::from("ffffffff")), Some(u32::MAX));
}

#[test]
fn bad_hex_keycodes_are_rejected() {
    assert_eq!(parse_hex_keycode(&String::from("")), None);
    assert_eq!(parse_hex_keycode(&String::from("+")), None);
    assert_eq!(parse_hex_keycode(&String::from("0x41")), None);
    assert_eq!(parse_hex_keycode(&String::from("zz")), None);
    assert_eq!(parse_hex_keycode(&String::from("-1")), None);
    assert_eq!(parse_hex_keycode(&String::from("100000000")), None);
    assert_eq!(parse_hex_keycode(&String::from("1ffffffff")), None);
}

#[test]
fn result_types_parse_with_both_trigger_spellings() {
    assert_eq!(parse_result_type(&String::from("keyboard")), Some(BindingType::Keyboard));
    assert_eq!(parse_result_type(&String::from("face_button")), Some(BindingType::FaceButton));
    assert_eq!(parse_result_type(&String::from("left_trigger")), Some(BindingType::TriggerL));
    assert_eq!(parse_result_type(&String::from("trigger_l")), Some(BindingType::TriggerL));
    assert_eq!(parse_result_type(&String::from("right_trigger")), Some(BindingType::TriggerR));
    assert_eq!(parse_result_type(&String::from("trigger_r")), Some(BindingType::TriggerR));
    assert_eq!(parse_result_type(&String::from("thumb_lx")), Some(BindingType::ThumbLx));
    assert_eq!(parse_result_type(&String::from("thumb_ly")), Some(BindingType::ThumbLy));
    assert_eq!(parse_result_type(&String::from("thumb_rx")), Some(BindingType::ThumbRx));
    assert_eq!(parse_result_type(&String::from("thumb_ry")), Some(BindingType::ThumbRy));
    assert_eq!(parse_result_type(&String::from("socd")), Some(BindingType::Socd));
    assert_eq!(parse_result_type(&String::from("mash_trigger")), Some(BindingType::MashTrigger));
    assert_eq!(parse_result_type(&String::from("volume")), None);
    assert_eq!(parse_result_type(&String::from("Keyboard")), None);
}

#[test]
fn out_of_domain_values_leave_the_key_unbound() {
    let mut ki = KeyInterceptor::new();
    ki.start(&vec![rec("41", "trigger_l", 256), rec("42", "thumb_lx", 40000)], false).unwrap();
    // Neither record bound its key, so both keys just pass through.
    let o = ki.on_physical_event(0x41, true);
    assert_eq!(o.key_events, vec![KeyEvent { code: 0x41, pressed: true }]);
    assert_eq!(o.frame.unwrap().left_trigger, 0);
    let o2 = ki.on_physical_event(0x42, true);
    assert_eq!(o2.frame.unwrap().thumb_lx, 0);
}

#[test]
fn unknown_result_type_is_ignored() {
    let mut ki = KeyInterceptor::new();
    ki.start(&vec![rec("41", "volume", 3)], false).unwrap();
    let o = ki.on_physical_event(0x41, true);
    assert_eq!(o.key_events, vec![KeyEvent { code: 0x41, pressed: true }]);
}

#[test]
fn first_record_wins_a_duplicated_key() {
    let mut ki = KeyInterceptor::new();
    ki.start(
        &vec![rec("41", "face_button", 0x1000), rec("41", "face_button", 0x2000)],
        false,
    )
    .unwrap();
    let o = ki.on_physical_event(0x41, true);
    assert_eq!(o.frame.unwrap().buttons, 0x1000);
}

#[test]
fn socd_pair_without_counterpart_binding_uses_raw_codes() {
    // Neither 0x41 nor 0x43 has a non-pair binding, so the synthesized
    // events carry the raw opposite keycodes.
    let mut ki = KeyInterceptor::new();
    ki.start(&vec![rec("41", "socd", 0x43), rec("43", "socd", 0x41)], false).unwrap();
    ki.on_physical_event(0x41, true);
    let o = ki.on_physical_event(0x43, true);
    assert_eq!(
        o.key_events,
        vec![
            KeyEvent { code: 0x41, pressed: false },
            KeyEvent { code: 0x43, pressed: true },
        ]
    );
}

#[test]
fn one_sided_socd_record_skips_synthesis() {
    // Only one side of the pair is configured: a transition of the covered
    // key finds no opposite entry and synthesizes nothing.
    let mut ki = KeyInterceptor::new();
    ki.start(&vec![rec("41", "socd", 0x43)], false).unwrap();
    let o = ki.on_physical_event(0x41, true);
    assert_eq!(o.key_events, vec![KeyEvent { code: 0x41, pressed: true }]);
}

#[test]
fn inject_with_no_mash_outputs_is_empty() {
    let mut ki = KeyInterceptor::new();
    ki.start(&vec![rec("41", "keyboard", 0x42)], false).unwrap();
    assert!(ki.inject(0, true).is_empty());
}
