use terms::shortcuts::{
    accelerator_is_valid, accelerator_to_add, can_apply, captured_accelerator, key_press_outcome, trigger_modifiers,
    KeyPressOutcome, ALT_MASK, CONTROL_MASK, KEY_BACKSPACE, KEY_ESCAPE, KEY_F1, KEY_F35, SHIFT_MASK,
};

#[test]
fn escape_and_backspace_without_modifiers() {
    assert_eq!(key_press_outcome(0, KEY_ESCAPE), KeyPressOutcome::Cancel);
    assert_eq!(key_press_outcome(0, KEY_BACKSPACE), KeyPressOutcome::ClearAndApply);
    assert_eq!(key_press_outcome(CONTROL_MASK, KEY_ESCAPE), KeyPressOutcome::Capture);
    assert_eq!(key_press_outcome(0, 'a' as u32), KeyPressOutcome::Capture);
}

#[test]
fn only_control_shift_alt_count() {
    assert_eq!(trigger_modifiers(CONTROL_MASK | 2 | 16), CONTROL_MASK);
    assert_eq!(trigger_modifiers(SHIFT_MASK | ALT_MASK), SHIFT_MASK | ALT_MASK);
}

#[test]
fn accelerator_validity() {
    assert!(accelerator_is_valid('t' as u32, Some("t"), Some(CONTROL_MASK), 0));
    assert!(!accelerator_is_valid('t' as u32, Some("t"), None, 0));
    assert!(!accelerator_is_valid('t' as u32, Some("t"), Some(0), 0));
    assert!(!accelerator_is_valid('T' as u32, Some("T"), Some(SHIFT_MASK), SHIFT_MASK));
    assert!(accelerator_is_valid(KEY_F1, Some("F1"), Some(0), 0));
    assert!(accelerator_is_valid(KEY_F35, Some("F35"), Some(0), 0));
    assert!(!accelerator_is_valid(0xffe3, Some("Control_L"), Some(CONTROL_MASK), 0));
    assert!(!accelerator_is_valid(0xffe4, Some("Control_R"), Some(CONTROL_MASK), 0));
    assert!(accelerator_is_valid('k' as u32, None, Some(ALT_MASK), 0));
}

#[test]
fn accelerator_set_only_when_free() {
    assert_eq!(captured_accelerator("<Control>t".to_string(), true, false), Some("<Control>t".to_string()));
    assert_eq!(captured_accelerator("<Control>t".to_string(), true, true), None);
    assert_eq!(captured_accelerator("t".to_string(), false, false), None);
    assert!(can_apply(&Some("x".to_string())));
    assert!(!can_apply(&None));
    assert_eq!(accelerator_to_add(true, Some("a".to_string())), Some("a".to_string()));
    assert_eq!(accelerator_to_add(false, Some("a".to_string())), None);
    assert_eq!(accelerator_to_add(true, None), None);
}
