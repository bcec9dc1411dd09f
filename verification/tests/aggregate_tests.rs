use overbind::aggregate::{analog_priority_transform, find_higher_priority};
use overbind::dpad::{dpad_button_opposite_key, dpad_button_to_abs_value};

#[test]
fn priority_transform_exact_values() {
    assert_eq!(analog_priority_transform(0), 0);
    assert_eq!(analog_priority_transform(-1), 1);
    assert_eq!(analog_priority_transform(-32768), 32768);
    assert_eq!(analog_priority_transform(1), 32768);
    assert_eq!(analog_priority_transform(32767), 65534);
}

#[test]
fn higher_priority_prefers_positive_then_magnitude() {
    // Full positive deflection beats full negative deflection either way.
    assert_eq!(find_higher_priority(-32768, 32767), 32767);
    assert_eq!(find_higher_priority(32767, -32768), 32767);
    // Any held direction beats neutral.
    assert_eq!(find_higher_priority(0, -5), -5);
    assert_eq!(find_higher_priority(-5, 0), -5);
    // Positive outranks negative even at smaller magnitude.
    assert_eq!(find_higher_priority(-1000, 1), 1);
    // Within a band, the larger magnitude wins.
    assert_eq!(find_higher_priority(-1000, -2000), -2000);
    assert_eq!(find_higher_priority(100, 200), 200);
    // Ties keep the first value.
    assert_eq!(find_higher_priority(7, 7), 7);
}

#[test]
fn dpad_codes_pair_up_and_map_to_hat_values() {
    assert_eq!(dpad_button_opposite_key(0x1), Some(0x2));
    assert_eq!(dpad_button_opposite_key(0x2), Some(0x1));
    assert_eq!(dpad_button_opposite_key(0x4), Some(0x8));
    assert_eq!(dpad_button_opposite_key(0x8), Some(0x4));
    assert_eq!(dpad_button_opposite_key(0x10), None);
    assert_eq!(dpad_button_to_abs_value(0x1), Some(-1));
    assert_eq!(dpad_button_to_abs_value(0x2), Some(1));
    assert_eq!(dpad_button_to_abs_value(0x4), Some(-1));
    assert_eq!(dpad_button_to_abs_value(0x8), Some(1));
    assert_eq!(dpad_button_to_abs_value(0x3), None);
}
